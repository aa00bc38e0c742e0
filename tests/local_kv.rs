use std::collections::BTreeMap;

use graveyar_db::event::{EventId, Event, EventKind, EventPayload};
use graveyar_db::kv::{
    collect_stream, decimal_text, ScanStep, meta_key_of, parse_tail, parse_u64, plan_append, scan_item,
    schema_key_of, stream_key_of, stream_prefix_of,
};
use graveyar_db::store::EventStoreError;

/// An ordered key-value map standing in for the on-disk engine.
struct Engine {
    map: BTreeMap<Vec<u8>, Vec<u8>>,
}

impl Engine {
    fn new() -> Self {
        Engine { map: BTreeMap::new() }
    }

    fn append_event(&mut self, stream: &str, event: Event, expected: u64) -> Result<(), EventStoreError> {
        let meta = self.map.get(&meta_key_of(stream)).cloned();
        let batch = plan_append(stream, &meta, event, expected)?;
        for (k, v) in batch {
            self.map.insert(k, v);
        }
        Ok(())
    }

    fn fetch_stream(&self, stream: &str) -> Result<Vec<Event>, EventStoreError> {
        let prefix = stream_prefix_of(stream);
        let entries: Vec<(Vec<u8>, Vec<u8>)> = self
            .map
            .range(prefix.clone()..)
            .map(|(k, v)| (k.clone(), v.clone()))
            .collect();
        collect_stream(&prefix, &entries)
    }
}


fn fresh_id() -> EventId {
    let ms = std::time::SystemTime::now()
        .duration_since(std::time::UNIX_EPOCH)
        .map(|d| d.as_millis() as u64)
        .unwrap_or(0);
    EventId::new(ms, uuid::Uuid::new_v4().as_u128())
}

#[test]
fn test_rocks_persistence() {
    let payload = EventPayload(vec![1, 2, 3]);
    let event = Event::new("stream-p", EventKind::Internal, payload.clone(), fresh_id());

    let mut engine = Engine::new();
    engine
        .append_event("stream-p", event.clone(), 0)
        .expect("failed to append");
    let persisted = engine.map.clone();

    let reopened = Engine { map: persisted };
    let loaded = reopened.fetch_stream("stream-p").expect("failed to fetch");
    assert_eq!(loaded.len(), 1);
    assert_eq!(loaded[0].id.0, event.id.0);
    assert_eq!(loaded[0].payload.0, payload.0);
}

#[test]
fn test_stream_ordering() {
    let mut engine = Engine::new();
    let event1 = Event::new("stream-o", EventKind::Internal, EventPayload(vec![1]), fresh_id());
    let event2 = Event::new("stream-o", EventKind::Internal, EventPayload(vec![2]), fresh_id());

    engine.append_event("stream-o", event1.clone(), 0).expect("failed to append 1");
    engine.append_event("stream-o", event2.clone(), 1).expect("failed to append 2");

    let loaded = engine.fetch_stream("stream-o").expect("failed to fetch");
    assert_eq!(loaded.len(), 2);
    assert_eq!(loaded[0].sequence_number, 1);
    assert_eq!(loaded[1].sequence_number, 2);
}

#[test]
fn test_concurrency_check() {
    let mut engine = Engine::new();
    let event1 = Event::new("stream-c", EventKind::Internal, EventPayload(vec![1]), fresh_id());
    let event2 = Event::new("stream-c", EventKind::Internal, EventPayload(vec![2]), fresh_id());
    let event3 = Event::new("stream-c", EventKind::Internal, EventPayload(vec![3]), fresh_id());

    engine.append_event("stream-c", event1.clone(), 0).expect("should work");
    engine.append_event("stream-c", event2.clone(), 1).expect("should work");

    let res = engine.append_event("stream-c", event3.clone(), 1);
    match res {
        Err(EventStoreError::ConcurrencyError { expected, actual }) => {
            assert_eq!(expected, 1);
            assert_eq!(actual, 2);
        }
        _ => panic!("Expected ConcurrencyError, got {:?}", res),
    }
}

#[test]
fn keys_are_laid_out_as_documented() {
    assert_eq!(stream_key_of("s", 7), b"stream:s:00000000000000000007".to_vec());
    assert_eq!(stream_key_of("s", u64::MAX), b"stream:s:18446744073709551615".to_vec());
    assert_eq!(stream_prefix_of("ab"), b"stream:ab:".to_vec());
    assert_eq!(meta_key_of("ab"), b"meta:ab".to_vec());
    assert_eq!(schema_key_of("U"), b"schema:U".to_vec());
}

#[test]
fn padded_keys_sort_by_sequence() {
    let mut keys: Vec<Vec<u8>> = [10u64, 9, 100, 1].iter().map(|n| stream_key_of("s", *n)).collect();
    keys.sort();
    assert_eq!(keys, vec![stream_key_of("s", 1), stream_key_of("s", 9), stream_key_of("s", 10), stream_key_of("s", 100)]);
}

#[test]
fn decimal_tail_text() {
    assert_eq!(decimal_text(0), b"0".to_vec());
    assert_eq!(decimal_text(1234), b"1234".to_vec());
    assert_eq!(decimal_text(u64::MAX), b"18446744073709551615".to_vec());
    assert_eq!(parse_u64(b"18446744073709551615"), Some(u64::MAX));
    assert_eq!(parse_u64(b"18446744073709551616"), None);
    assert_eq!(parse_u64(b"+12"), Some(12));
    assert_eq!(parse_u64(b""), None);
    assert_eq!(parse_u64(b"+"), None);
    assert_eq!(parse_u64(b"1a"), None);
    assert_eq!(parse_tail(&None), 0);
    assert_eq!(parse_tail(&Some(b"42".to_vec())), 42);
    assert_eq!(parse_tail(&Some(b"x".to_vec())), 0);
}

#[test]
fn plan_append_writes_event_and_tail() {
    let e = Event::new("q", EventKind::Transactional, EventPayload(vec![5]), fresh_id());
    let batch = plan_append("q", &Some(b"4".to_vec()), e, 4).unwrap();
    assert_eq!(batch.len(), 2);
    assert_eq!(batch[0].0, stream_key_of("q", 5));
    assert_eq!(batch[1], (meta_key_of("q"), b"5".to_vec()));
    match plan_append("q", &None, Event::new("q", EventKind::Internal, EventPayload(vec![]), fresh_id()), 3) {
        Err(EventStoreError::ConcurrencyError { expected: 3, actual: 0 }) => {}
        other => panic!("expected a conflict, got {:?}", other),
    }
}

#[test]
fn scan_stops_at_other_streams() {
    let mut engine = Engine::new();
    engine.append_event("a", Event::new("a", EventKind::Internal, EventPayload(vec![1]), fresh_id()), 0).unwrap();
    engine.append_event("ab", Event::new("ab", EventKind::Internal, EventPayload(vec![2]), fresh_id()), 0).unwrap();
    engine.append_event("a", Event::new("a", EventKind::Internal, EventPayload(vec![3]), fresh_id()), 1).unwrap();
    let a = engine.fetch_stream("a").unwrap();
    assert_eq!(a.iter().map(|e| e.payload.0[0]).collect::<Vec<u8>>(), vec![1, 3]);
    assert!(engine.fetch_stream("never").unwrap().is_empty());
    assert!(matches!(scan_item(b"stream:a:", b"stream:b:1", b""), Ok(ScanStep::Done)));
    assert!(matches!(scan_item(b"stream:a:", b"stream:a:1", b""), Ok(ScanStep::Skip)));
    assert!(matches!(
        scan_item(b"stream:a:", b"stream:a:00000000000000000001", b"\xff"),
        Err(EventStoreError::SerializationError(_))
    ));
}

#[test]
fn streams_whose_names_extend_another_stay_apart() {
    let mut engine = Engine::new();
    engine.append_event("a:!", Event::new("a:!", EventKind::Internal, EventPayload(vec![7]), fresh_id()), 0).unwrap();
    engine.append_event("a", Event::new("a", EventKind::Internal, EventPayload(vec![1]), fresh_id()), 0).unwrap();
    engine.append_event("a:b", Event::new("a:b", EventKind::Internal, EventPayload(vec![8]), fresh_id()), 0).unwrap();
    engine.append_event("a", Event::new("a", EventKind::Internal, EventPayload(vec![2]), fresh_id()), 1).unwrap();
    let a = engine.fetch_stream("a").unwrap();
    assert_eq!(a.iter().map(|e| e.payload.0[0]).collect::<Vec<u8>>(), vec![1, 2]);
    assert_eq!(a.iter().map(|e| e.sequence_number).collect::<Vec<u64>>(), vec![1, 2]);
    assert_eq!(engine.fetch_stream("a:b").unwrap().len(), 1);
    assert_eq!(engine.fetch_stream("a:!").unwrap().len(), 1);
}
