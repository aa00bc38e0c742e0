use graveyar_db::snapshot::{
    decode_snapshot, encode_snapshot, snapshot_key_of, MemorySnapshotStore, Snapshot,
};

#[test]
fn snapshot_scenario_latest_wins() {
    let mut store = MemorySnapshotStore::new();
    let s1 = Snapshot { stream_id: "s".to_string(), version: 42, payload: vec![0xAA, 0xBB], timestamp: 1000 };
    store.save_snapshot(s1).unwrap();
    let got = store.get_snapshot("s").unwrap().unwrap();
    assert_eq!(got.stream_id, "s");
    assert_eq!(got.version, 42);
    assert_eq!(got.payload, vec![0xAA, 0xBB]);
    assert_eq!(got.timestamp, 1000);

    let s2 = Snapshot { stream_id: "s".to_string(), version: 43, payload: vec![0xAA, 0xBB], timestamp: 1000 };
    store.save_snapshot(s2).unwrap();
    assert_eq!(store.get_snapshot("s").unwrap().unwrap().version, 43);
    assert!(store.get_snapshot("other").unwrap().is_none());
}

#[test]
fn snapshot_encoding_is_big_endian_framed() {
    let s = Snapshot { stream_id: "s".to_string(), version: 0x0102, payload: vec![9], timestamp: 3 };
    assert_eq!(
        encode_snapshot(&s),
        vec![0, 0, 0, 0, 0, 0, 1, 2, 0, 0, 0, 0, 0, 0, 0, 3, 9]
    );
    assert_eq!(snapshot_key_of("s"), "snapshot:s");
}

#[test]
fn empty_payload_round_trips() {
    let s = Snapshot { stream_id: "e".to_string(), version: u64::MAX, payload: vec![], timestamp: 7 };
    let bytes = encode_snapshot(&s);
    assert_eq!(bytes.len(), 16);
    let d = decode_snapshot("e", &bytes).unwrap();
    assert_eq!((d.version, d.timestamp, d.payload.len()), (u64::MAX, 7, 0));
}

#[test]
fn short_record_is_absent() {
    assert!(decode_snapshot("s", &[0u8; 15]).is_none());
    assert!(decode_snapshot("s", &[]).is_none());
}
