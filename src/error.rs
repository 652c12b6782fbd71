use vstd::prelude::*;

verus! {

/// Errors surfaced to callers of the host-facing operations.
#[derive(Debug)]
pub enum SupraSonicError {
    Audio(String),
    Inference(String),
    Lock(String),
    General(String),
}

/// The text shown for an error: a fixed prefix for its kind, then its detail.
pub open spec fn error_message_spec(e: SupraSonicError) -> Seq<char> {
    match e {
        SupraSonicError::Audio(d) => "Audio error: "@ + d@,
        SupraSonicError::Inference(d) => "Inference error: "@ + d@,
        SupraSonicError::Lock(d) => "Lock error: "@ + d@,
        SupraSonicError::General(d) => "General error: "@ + d@,
    }
}

impl SupraSonicError {
    /// The human-readable message of this error.
    pub fn message(&self) -> (r: String)
        ensures
            r@ == error_message_spec(*self),
    {
        let (prefix, detail) = match self {
            SupraSonicError::Audio(d) => ("Audio error: ", d),
            SupraSonicError::Inference(d) => ("Inference error: ", d),
            SupraSonicError::Lock(d) => ("Lock error: ", d),
            SupraSonicError::General(d) => ("General error: ", d),
        };
        let mut r = String::from_str(prefix);
        r.append(detail.as_str());
        r
    }
}

} // verus!
