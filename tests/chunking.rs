use suprasonic_core::{chunk_packets, needs_resampling, plan_read, AudioPacket, ChunkAccumulator, ReadPlan, CHUNK_SIZE};

#[test]
fn chunk_size_is_thirty_ms_at_sixteen_khz() {
    assert_eq!(CHUNK_SIZE, 480);
}

#[test]
fn chunks_are_cut_in_order_and_remainder_waits() {
    let mut acc: ChunkAccumulator<u32> = ChunkAccumulator::new();
    let chunks = acc.push_frames((0..1000).collect());
    assert_eq!(chunks.len(), 2);
    assert_eq!(chunks[0], (0..480).collect::<Vec<u32>>());
    assert_eq!(chunks[1], (480..960).collect::<Vec<u32>>());
    assert_eq!(acc.pending_len(), 40);
    let more = acc.push_frames((1000..1440).collect());
    assert_eq!(more.len(), 1);
    assert_eq!(more[0], (960..1440).collect::<Vec<u32>>());
    assert_eq!(acc.pending_len(), 0);
}

#[test]
fn short_input_emits_no_chunk() {
    let mut acc: ChunkAccumulator<u32> = ChunkAccumulator::new();
    assert!(acc.push_frames(vec![1; 479]).is_empty());
    assert_eq!(acc.pending_len(), 479);
    let one = acc.push_frames(vec![2]);
    assert_eq!(one.len(), 1);
    assert_eq!(one[0].len(), 480);
    assert_eq!(one[0][479], 2);
}

#[test]
fn chunk_count_is_floor_of_total_over_chunk_size() {
    let mut acc: ChunkAccumulator<u32> = ChunkAccumulator::new();
    let mut total = 0usize;
    let mut emitted = Vec::new();
    for n in [100usize, 1024, 7, 480, 333, 2000] {
        let frames: Vec<u32> = (total as u32..(total + n) as u32).collect();
        total += n;
        for c in acc.push_frames(frames) {
            assert_eq!(c.len(), CHUNK_SIZE);
            emitted.extend(c);
        }
    }
    assert_eq!(emitted.len() / CHUNK_SIZE, total / CHUNK_SIZE);
    assert_eq!(emitted.len(), (total / CHUNK_SIZE) * CHUNK_SIZE);
    assert_eq!(acc.pending_len(), total % CHUNK_SIZE);
    assert_eq!(emitted, (0..emitted.len() as u32).collect::<Vec<u32>>());
}

#[test]
fn level_precedes_each_chunk() {
    let chunks = vec![vec![1.0f32, -0.5], vec![0.25, 0.75]];
    let levels = vec![1.0f32, 0.75];
    let packets = chunk_packets(chunks, levels);
    assert_eq!(packets.len(), 4);
    assert!(matches!(packets[0], AudioPacket::Level(l) if l == 1.0));
    assert!(matches!(&packets[1], AudioPacket::Samples(s) if *s == vec![1.0, -0.5]));
    assert!(matches!(packets[2], AudioPacket::Level(l) if l == 0.75));
    assert!(matches!(&packets[3], AudioPacket::Samples(s) if *s == vec![0.25, 0.75]));
}

#[test]
fn read_plans() {
    assert!(matches!(plan_read(0, None), ReadPlan::Wait));
    assert!(matches!(plan_read(0, Some(1024)), ReadPlan::Wait));
    assert!(matches!(plan_read(500, Some(1024)), ReadPlan::Wait));
    assert!(matches!(plan_read(1500, Some(1024)), ReadPlan::Read(1024)));
    assert!(matches!(plan_read(500, None), ReadPlan::Read(500)));
    assert!(matches!(plan_read(5000, None), ReadPlan::Read(1024)));
}

#[test]
fn resampling_needed_only_off_the_canonical_rate() {
    assert!(needs_resampling(48000));
    assert!(needs_resampling(44100));
    assert!(!needs_resampling(16000));
}
