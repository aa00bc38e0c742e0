use graveyar_db::codec::{decode_event, encode_event, from_tuple, from_wire, to_tuple, to_wire};
use graveyar_db::event::{Event, EventId, EventKind, EventPayload, Timestamp};
use graveyar_db::store::EventStoreError;


fn fresh_id() -> EventId {
    let ms = std::time::SystemTime::now()
        .duration_since(std::time::UNIX_EPOCH)
        .map(|d| d.as_millis() as u64)
        .unwrap_or(0);
    EventId::new(ms, uuid::Uuid::new_v4().as_u128())
}

#[test]
fn test_event_creation_v7() {
    let payload = EventPayload(vec![1, 2, 3]);
    let event = Event::new("stream-1", EventKind::Internal, payload, fresh_id());

    assert_eq!(event.stream_id, "stream-1");
    assert_eq!(
        uuid::Uuid::from_u128(event.id.0).get_version(),
        Some(uuid::Version::SortRand)
    );
}

#[test]
fn identifier_layout_from_time_and_random_bits() {
    let id = EventId::new(0x0123_4567_89ab, u128::MAX);
    let u = uuid::Uuid::from_u128(id.0);
    assert_eq!(u.get_version(), Some(uuid::Version::SortRand));
    assert_eq!(u.get_variant(), uuid::Variant::RFC4122);
    assert_eq!(id.0 >> 80, 0x0123_4567_89ab);
    assert_eq!(EventId::new(1, 0).0, (1u128 << 80) | (7u128 << 76) | (2u128 << 62));
}

#[test]
fn test_serialization() {
    let payload = EventPayload(vec![1, 2, 3]);
    let event = Event::new("stream-1", EventKind::Internal, payload, fresh_id());

    let serialized = encode_event(&event).expect("Failed to serialize");
    let deserialized: Event = decode_event(&serialized).expect("Failed to deserialize");

    assert_eq!(event.id.0, deserialized.id.0);
    assert_eq!(event.stream_id, deserialized.stream_id);
}

fn sample() -> Event {
    Event {
        id: EventId(0x0190_1234_5678_7abc_8def_0123_4567_89ab),
        stream_id: "orders".to_string(),
        sequence_number: 42,
        event_type: EventKind::External,
        payload: EventPayload(vec![]),
        timestamp: Timestamp(1_700_000_000_123),
        metadata: vec![
            ("trace".to_string(), "abc".to_string()),
            ("saga".to_string(), "s-1".to_string()),
        ],
    }
}

fn same(a: &Event, b: &Event) -> bool {
    a.id == b.id
        && a.stream_id == b.stream_id
        && a.sequence_number == b.sequence_number
        && a.event_type == b.event_type
        && a.payload.0 == b.payload.0
        && a.timestamp == b.timestamp
        && a.metadata == b.metadata
}

#[test]
fn disk_round_trip_keeps_every_field() {
    let e = sample();
    let bytes = encode_event(&e).unwrap();
    assert!(!bytes.is_empty());
    let d = decode_event(&bytes).unwrap();
    assert!(same(&e, &d));
}

#[test]
fn disk_round_trip_large_identifier() {
    let mut e = sample();
    e.id = EventId(u128::MAX);
    e.payload = EventPayload(vec![0, 255, 7]);
    let d = decode_event(&encode_event(&e).unwrap()).unwrap();
    assert!(same(&e, &d));
}

#[test]
fn tuple_splits_identifier() {
    let e = sample();
    let t = to_tuple(&e);
    assert_eq!(t.0, 0x0190_1234_5678_7abc);
    assert_eq!(t.1, 0x8def_0123_4567_89ab);
    assert_eq!(t.4, "External");
    assert!(same(&from_tuple(t), &e));
}

#[test]
fn garbage_does_not_decode() {
    match decode_event(&[0xff, 0x00, 0x13]) {
        Err(EventStoreError::SerializationError(_)) => {}
        other => panic!("expected a serialization error, got {:?}", other),
    }
}

#[test]
fn wire_round_trip_keeps_carried_fields() {
    let e = sample();
    let w = to_wire(&e);
    assert_eq!(w.id, "01901234-5678-7abc-8def-0123456789ab");
    assert_eq!(w.event_type, "External");
    let d = from_wire(&w, "orders").unwrap();
    assert_eq!(d.id, e.id);
    assert_eq!(d.event_type, e.event_type);
    assert_eq!(d.payload.0, e.payload.0);
    assert_eq!(d.timestamp, e.timestamp);
    assert_eq!(d.metadata, e.metadata);
    assert_eq!(d.stream_id, "orders");
    assert_eq!(d.sequence_number, 0);
}

#[test]
fn wire_rejects_bad_identifier_and_defaults_unknown_kind() {
    let mut w = to_wire(&sample());
    w.event_type = "UserCreated".to_string();
    assert_eq!(from_wire(&w, "s").unwrap().event_type, EventKind::Internal);
    w.id = "not-a-uuid".to_string();
    assert!(from_wire(&w, "s").is_err());
}

#[test]
fn kind_names() {
    for k in [EventKind::Internal, EventKind::Schematic, EventKind::Transactional, EventKind::External] {
        assert_eq!(EventKind::from_name(&k.name()), k);
    }
    assert_eq!(EventKind::Transactional.name(), "Transactional");
    assert_eq!(EventKind::from_name("nope"), EventKind::Internal);
}
