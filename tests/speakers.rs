use suprasonic_core::{Speaker, SpeakerRegistry, SupraSonicError};

fn reload(reg: &SpeakerRegistry) -> SpeakerRegistry {
    let records: Vec<Speaker> = reg
        .records()
        .iter()
        .map(|s| Speaker { id: s.id.clone(), name: s.name.clone(), embedding: s.embedding.clone() })
        .collect();
    SpeakerRegistry::from_records(records)
}

#[test]
fn add_then_reload_keeps_the_name() {
    let mut reg = SpeakerRegistry::new();
    reg.add_speaker("s1".to_string(), "Alice".to_string());
    let back = reload(&reg);
    assert_eq!(back.get_speaker_name("s1"), Some("Alice".to_string()));
    assert_eq!(back.display_name("s1".to_string()), "Alice");
}

#[test]
fn unknown_speaker_shows_its_id() {
    let reg = SpeakerRegistry::new();
    assert_eq!(reg.get_speaker_name("unknown-id"), None);
    assert_eq!(reg.display_name("unknown-id".to_string()), "unknown-id");
}

#[test]
fn add_existing_speaker_renames_and_keeps_embedding() {
    let records = vec![Speaker { id: "s1".to_string(), name: "A".to_string(), embedding: Some(vec![1, 2, 3]) }];
    let mut reg = SpeakerRegistry::from_records(records);
    reg.add_speaker("s1".to_string(), "Bob".to_string());
    assert_eq!(reg.records().len(), 1);
    assert_eq!(reg.records()[0].name, "Bob");
    assert_eq!(reg.records()[0].embedding, Some(vec![1, 2, 3]));
    reg.add_speaker("s2".to_string(), "Carol".to_string());
    assert_eq!(reg.records().len(), 2);
    assert_eq!(reg.get_speaker_name("s2"), Some("Carol".to_string()));
}

#[test]
fn later_record_wins_on_reload() {
    let records = vec![
        Speaker { id: "x".to_string(), name: "first".to_string(), embedding: None },
        Speaker { id: "y".to_string(), name: "other".to_string(), embedding: None },
        Speaker { id: "x".to_string(), name: "second".to_string(), embedding: None },
    ];
    let reg = SpeakerRegistry::from_records(records);
    assert_eq!(reg.records().len(), 2);
    assert_eq!(reg.get_speaker_name("x"), Some("second".to_string()));
    assert_eq!(reg.get_speaker_name("y"), Some("other".to_string()));
}

#[test]
fn assign_speaker_labels_as_guest() {
    let reg = SpeakerRegistry::new();
    assert_eq!(reg.assign_speaker(&[0.1f32, 0.2]), "Guest");
}

#[test]
fn error_messages_carry_kind_and_detail() {
    assert_eq!(SupraSonicError::Audio("no device".to_string()).message(), "Audio error: no device");
    assert_eq!(SupraSonicError::Inference("x".to_string()).message(), "Inference error: x");
    assert_eq!(SupraSonicError::Lock("poisoned".to_string()).message(), "Lock error: poisoned");
    assert_eq!(SupraSonicError::General(String::new()).message(), "General error: ");
}
