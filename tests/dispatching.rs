use suprasonic_core::{AudioPacket, Delivery, DeliveryMode, Dispatcher};

fn batch(k: usize) -> Vec<f32> {
    (0..1000).map(|i| (k * 1000 + i) as f32).collect()
}

#[test]
fn batch_mode_delivers_once_on_flush() {
    let mut d: Dispatcher<f32> = Dispatcher::new(DeliveryMode::Batch);
    assert!(d.handle(AudioPacket::Format(16000)).is_none());
    let mut expected = Vec::new();
    for k in 0..3 {
        expected.extend(batch(k));
        assert!(d.handle(AudioPacket::Samples(batch(k))).is_none());
    }
    let mut calls = Vec::new();
    if let Some(x) = d.handle(AudioPacket::Flush) {
        calls.push(x);
    }
    assert_eq!(calls.len(), 1);
    match &calls[0] {
        Delivery::Batch { rate, samples } => {
            assert_eq!(*rate, 16000);
            assert_eq!(*samples, expected);
        }
        _ => panic!("expected a batch"),
    }
    assert_eq!(d.buffered_len(), 0);
    assert!(d.handle(AudioPacket::Flush).is_none());
}

#[test]
fn batch_mode_reports_the_announced_rate() {
    let mut d: Dispatcher<f32> = Dispatcher::new(DeliveryMode::Batch);
    assert_eq!(d.sample_rate(), 48000);
    d.handle(AudioPacket::Format(48000));
    d.handle(AudioPacket::Samples(batch(0)));
    match d.handle(AudioPacket::Flush) {
        Some(Delivery::Batch { rate, samples }) => {
            assert_eq!(rate, 48000);
            assert_eq!(samples.len(), 1000);
        }
        _ => panic!("expected a batch"),
    }
}

#[test]
fn streaming_mode_forwards_each_packet() {
    let mut d: Dispatcher<f32> = Dispatcher::new(DeliveryMode::Streaming);
    d.handle(AudioPacket::Format(16000));
    let mut calls = Vec::new();
    for k in 0..4 {
        match d.handle(AudioPacket::Samples(batch(k))) {
            Some(Delivery::Audio(a)) => calls.push(a),
            _ => panic!("expected audio"),
        }
    }
    assert!(d.handle(AudioPacket::Flush).is_none());
    assert_eq!(calls.len(), 4);
    for (k, c) in calls.iter().enumerate() {
        assert_eq!(*c, batch(k));
    }
    assert_eq!(d.buffered_len(), 0);
}

#[test]
fn levels_are_forwarded_in_both_modes() {
    for mode in [DeliveryMode::Batch, DeliveryMode::Streaming] {
        let mut d: Dispatcher<f32> = Dispatcher::new(mode);
        match d.handle(AudioPacket::Level(0.5)) {
            Some(Delivery::Level(l)) => assert_eq!(l, 0.5),
            _ => panic!("expected a level"),
        }
    }
}

#[test]
fn flush_without_listener_clears_the_batch() {
    // the dispatcher clears its buffer whatever becomes of the delivery
    let mut d: Dispatcher<f32> = Dispatcher::new(DeliveryMode::Batch);
    d.handle(AudioPacket::Samples(batch(0)));
    assert_eq!(d.buffered_len(), 1000);
    let delivery = d.handle(AudioPacket::Flush);
    drop(delivery);
    assert_eq!(d.buffered_len(), 0);
    assert!(d.handle(AudioPacket::Flush).is_none());
}

#[test]
fn empty_flush_delivers_nothing() {
    let mut d: Dispatcher<f32> = Dispatcher::new(DeliveryMode::Batch);
    assert!(d.handle(AudioPacket::Flush).is_none());
    assert_eq!(d.mode_of(), DeliveryMode::Batch);
}
