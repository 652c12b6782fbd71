//! Audio ingestion core: the ring buffer between the capture callback and the
//! worker, the chunker, the packet dispatcher, the capture state machine and
//! the speaker registry, each with its contract.

pub mod error;
pub mod packet;
pub mod chunker;
pub mod dispatch;
pub mod capture;
pub mod registry;
pub mod ring;

pub use capture::{AudioCommand, CaptureAction, CaptureController, CaptureState};
pub use chunker::{needs_resampling, plan_read, ChunkAccumulator, ReadPlan};
pub use dispatch::{Delivery, DeliveryMode, Dispatcher};
pub use error::SupraSonicError;
pub use packet::{chunk_packets, AudioPacket, CHUNK_SIZE, TARGET_SAMPLE_RATE};
pub use registry::{Speaker, SpeakerRegistry};
pub use ring::{next_frame, SampleRing};
