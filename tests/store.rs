use graveyar_db::codec::{to_wire, WireEvent};
use graveyar_db::event::{EventId, Event, EventKind, EventPayload};
use graveyar_db::hybrid::{should_fail_over, HybridEventStore};
use graveyar_db::pipeline::{decode_append_request, decode_expected_version, handle_append, route_append, Route};
use graveyar_db::cluster::ClusterTopology;
use graveyar_db::store::{schema_stream_name, EventStoreError, InMemoryEventStore};

fn ev(stream: &str, payload: Vec<u8>) -> Event {
    Event::new(stream, EventKind::Internal, EventPayload(payload), fresh_id())
}


fn fresh_id() -> EventId {
    let ms = std::time::SystemTime::now()
        .duration_since(std::time::UNIX_EPOCH)
        .map(|d| d.as_millis() as u64)
        .unwrap_or(0);
    EventId::new(ms, uuid::Uuid::new_v4().as_u128())
}

#[test]
fn test_append_and_load() {
    let mut store = InMemoryEventStore::new();
    let payload = EventPayload(vec![1, 2, 3]);
    let event = Event::new("stream-1", EventKind::Internal, payload, fresh_id());

    store
        .append_event("stream-1", event.clone(), 0)
        .expect("Append failed");

    let loaded = store.fetch_stream("stream-1").expect("Load failed");
    assert_eq!(loaded.len(), 1);
    assert_eq!(loaded[0].id.0, event.id.0);
}

#[test]
fn test_load_empty() {
    let store = InMemoryEventStore::new();
    let loaded = store.fetch_stream("non-existent").expect("Load failed");
    assert!(loaded.is_empty());
}

#[test]
fn basic_append_fetch() {
    let mut store = InMemoryEventStore::new();
    store.append_event("stream-A", ev("stream-A", vec![1, 2, 3]), 0).unwrap();
    let got = store.fetch_stream("stream-A").unwrap();
    assert_eq!(got.len(), 1);
    assert_eq!(got[0].sequence_number, 1);
    assert_eq!(got[0].payload.0, vec![1, 2, 3]);
    assert_eq!(got[0].stream_id, "stream-A");
}

#[test]
fn occ_conflict() {
    let mut store = InMemoryEventStore::new();
    let e1 = ev("s", vec![1]);
    let e2 = ev("s", vec![2]);
    store.append_event("s", e1.clone(), 0).unwrap();
    match store.append_event("s", e2.clone(), 0) {
        Err(EventStoreError::ConcurrencyError { expected, actual }) => {
            assert_eq!(expected, 0);
            assert_eq!(actual, 1);
        }
        other => panic!("expected a conflict, got {:?}", other),
    }
    assert_eq!(store.fetch_stream("s").unwrap().len(), 1);
    store.append_event("s", e2.clone(), 1).unwrap();
    let got = store.fetch_stream("s").unwrap();
    assert_eq!(got.len(), 2);
    assert_eq!((got[0].id, got[0].sequence_number), (e1.id, 1));
    assert_eq!((got[1].id, got[1].sequence_number), (e2.id, 2));
}

#[test]
fn conflict_leaves_state_unchanged() {
    let mut store = InMemoryEventStore::new();
    store.append_event("s", ev("s", vec![1]), 0).unwrap();
    store.append_event("s", ev("s", vec![2]), 1).unwrap();
    assert!(store.append_event("s", ev("s", vec![3]), 7).is_err());
    assert_eq!(store.current_version("s"), 2);
    assert_eq!(store.fetch_stream("s").unwrap().len(), 2);
}

#[test]
fn ordered_multi_event_batch() {
    let mut store = InMemoryEventStore::new();
    let batch = vec![ev("m", vec![1]), ev("m", vec![2]), ev("m", vec![3])];
    assert_eq!(handle_append(&mut store, "m", batch, 0), Ok(true));
    let got = store.fetch_stream("m").unwrap();
    let seqs: Vec<u64> = got.iter().map(|e| e.sequence_number).collect();
    assert_eq!(seqs, vec![1, 2, 3]);
    let payloads: Vec<Vec<u8>> = got.iter().map(|e| e.payload.0.clone()).collect();
    assert_eq!(payloads, vec![vec![1], vec![2], vec![3]]);
}

#[test]
fn append_any_succeeds_regardless_of_tail() {
    let mut store = InMemoryEventStore::new();
    let any = decode_expected_version(u64::MAX);
    assert_eq!(any, -1);
    assert_eq!(handle_append(&mut store, "a", vec![ev("a", vec![1])], any), Ok(true));
    assert_eq!(handle_append(&mut store, "a", vec![ev("a", vec![2]), ev("a", vec![3])], any), Ok(true));
    assert_eq!(store.current_version("a"), 3);
}

#[test]
fn batch_with_stale_version_stops() {
    let mut store = InMemoryEventStore::new();
    store.append_event("b", ev("b", vec![1]), 0).unwrap();
    assert_eq!(handle_append(&mut store, "b", vec![ev("b", vec![2])], 0), Ok(false));
    assert_eq!(store.current_version("b"), 1);
    assert_eq!(handle_append(&mut store, "b", vec![ev("b", vec![2])], -5), Ok(false));
}

#[test]
fn expected_version_decoding() {
    assert_eq!(decode_expected_version(0), 0);
    assert_eq!(decode_expected_version(41), 41);
    assert_eq!(decode_expected_version(i64::MAX as u64), i64::MAX);
    assert_eq!(decode_expected_version(1u64 << 63), i64::MIN);
}

#[test]
fn schema_upserts_log_and_project() {
    let mut store = InMemoryEventStore::new();
    let def = vec![0xa1, 0x61, 0x55];
    store.upsert_schema("U", def.clone(), fresh_id()).unwrap();
    store.upsert_schema("U", def.clone(), fresh_id()).unwrap();
    assert_eq!(store.get_schema("U").unwrap(), Some(def.clone()));
    let log_name = schema_stream_name("U");
    assert_eq!(log_name, "$schema:U");
    let log = store.fetch_stream(&log_name).unwrap();
    assert_eq!(log.len(), 2);
    for (i, e) in log.iter().enumerate() {
        assert_eq!(e.event_type, EventKind::Schematic);
        assert_eq!(e.payload.0, def);
        assert_eq!(e.sequence_number, i as u64 + 1);
    }
    assert_eq!(store.get_schema("V").unwrap(), None);
}

#[test]
fn schema_soft_fail_append_still_persists() {
    let mut store = InMemoryEventStore::new();
    store.upsert_schema("U", b"{\"name\":\"U\"}".to_vec(), fresh_id()).unwrap();
    let payload = b"{\"age\":10}".to_vec();
    let e = Event::new("users", EventKind::from_name("U"), EventPayload(payload.clone()), fresh_id());
    assert_eq!(handle_append(&mut store, "users", vec![e], 0), Ok(true));
    let got = store.fetch_stream("users").unwrap();
    assert_eq!(got.len(), 1);
    assert_eq!(got[0].payload.0, payload);
}

#[test]
fn forwarding_two_nodes() {
    let topology = ClusterTopology::new(vec!["A:50051".to_string(), "B:50051".to_string()], 0);
    let owner = topology.get_owner("x").node_addr;
    let other = if owner == "A:50051" { "B:50051".to_string() } else { "A:50051".to_string() };
    let mut owner_store = InMemoryEventStore::new();
    let other_store = InMemoryEventStore::new();
    let e = ev("x", vec![9]);
    match route_append(&topology, &other, "x", false) {
        Route::Forward { owner: o } => {
            assert_eq!(o, owner);
            assert_eq!(route_append(&topology, &o, "x", true), Route::Local);
            assert_eq!(handle_append(&mut owner_store, "x", vec![e.clone()], 0), Ok(true));
        }
        r => panic!("expected a forward, got {:?}", r),
    }
    let on_owner = owner_store.fetch_stream("x").unwrap();
    assert_eq!(on_owner.len(), 1);
    assert_eq!(on_owner[0].id, e.id);
    assert!(other_store.fetch_stream("x").unwrap().is_empty());
}

#[test]
fn hybrid_uses_primary_and_surfaces_conflicts() {
    let mut h = HybridEventStore::new(InMemoryEventStore::new(), InMemoryEventStore::new());
    h.append_event("h", ev("h", vec![1]), 0).unwrap();
    assert_eq!(h.primary.fetch_stream("h").unwrap().len(), 1);
    assert!(h.fallback.fetch_stream("h").unwrap().is_empty());
    match h.append_event("h", ev("h", vec![2]), 0) {
        Err(EventStoreError::ConcurrencyError { expected: 0, actual: 1 }) => {}
        other => panic!("expected a conflict, got {:?}", other),
    }
    assert!(h.fallback.fetch_stream("h").unwrap().is_empty());
    assert_eq!(h.fetch_stream("h").unwrap().len(), 1);
    h.upsert_schema("S", vec![1], fresh_id()).unwrap();
    assert_eq!(h.get_schema("S").unwrap(), Some(vec![1]));
}

#[test]
fn failover_policy() {
    assert!(!should_fail_over(&EventStoreError::ConcurrencyError { expected: 1, actual: 2 }));
    assert!(should_fail_over(&EventStoreError::StorageError("disk".to_string())));
    assert!(should_fail_over(&EventStoreError::SerializationError("bad".to_string())));
    assert!(should_fail_over(&EventStoreError::NotFound));
}

#[test]
fn append_request_decoding() {
    let e = ev("ignored", vec![4, 2]);
    let w = to_wire(&e);
    let (events, expected) = decode_append_request("req-stream", &vec![w.clone(), w], u64::MAX).unwrap();
    assert_eq!(expected, -1);
    assert_eq!(events.len(), 2);
    assert_eq!(events[0].stream_id, "req-stream");
    assert_eq!(events[1].id, e.id);
    assert_eq!(events[1].payload.0, vec![4, 2]);
    let bad = WireEvent {
        id: "nope".to_string(),
        event_type: "Internal".to_string(),
        payload: vec![],
        timestamp: 0,
        metadata: vec![],
    };
    assert!(decode_append_request("s", &vec![bad], 0).is_err());
}
