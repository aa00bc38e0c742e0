use graveyar_db::auth::{bearer_value, AuthInterceptor};
use graveyar_db::config::Config;
use graveyar_db::scylla::{event_from_row, lwt_outcome, next_row_version, to_unsigned};
use graveyar_db::event::EventKind;
use graveyar_db::store::EventStoreError;

#[test]
fn config_requires_uri_and_keyspace() {
    let e = Config::from_values(None, Some("ks".to_string()), None).unwrap_err();
    assert_eq!(e, "SCYLLA_URI is undefined");
    let e = Config::from_values(Some("h:9042".to_string()), None, None).unwrap_err();
    assert_eq!(e, "SCYLLA_KEYSPACE is undefined");
}

#[test]
fn config_timeout_defaults() {
    let c = Config::from_values(Some("h:9042".to_string()), Some("ks".to_string()), None).unwrap();
    assert_eq!((c.scylla_uri.as_str(), c.scylla_keyspace.as_str(), c.request_timeout_ms), ("h:9042", "ks", 3000));
    let c = Config::from_values(Some("h".to_string()), Some("k".to_string()), Some("250".to_string())).unwrap();
    assert_eq!(c.request_timeout_ms, 250);
    let c = Config::from_values(Some("h".to_string()), Some("k".to_string()), Some("soon".to_string())).unwrap();
    assert_eq!(c.request_timeout_ms, 3000);
}

#[test]
fn bearer_token_check() {
    let a = AuthInterceptor::new("SECRET-REDACTED".to_string());
    assert_eq!(bearer_value("t0k"), "Bearer t0k");
    assert!(a.authorize(Some("Bearer SECRET-REDACTED")));
    assert!(!a.authorize(Some("Bearer other")));
    assert!(!a.authorize(Some("SECRET-REDACTED")));
    assert!(!a.authorize(None));
}

#[test]
fn remote_lwt_outcomes() {
    assert!(lwt_outcome(4, Some(true)).is_ok());
    assert!(matches!(lwt_outcome(4, None), Err(EventStoreError::StorageError(_))));
    match lwt_outcome(4, Some(false)) {
        Err(EventStoreError::ConcurrencyError { expected: 4, actual: 0 }) => {}
        other => panic!("expected a conflict, got {:?}", other),
    }
    assert!(matches!(next_row_version(4), Ok(5)));
    assert!(matches!(next_row_version(i64::MAX as u64), Err(EventStoreError::StorageError(_))));
}

#[test]
fn remote_rows_become_events() {
    let e = event_from_row("s", 3, 77, "Schematic", vec![1], 1000, None);
    assert_eq!((e.stream_id.as_str(), e.sequence_number, e.id.0, e.event_type), ("s", 3, 77, EventKind::Schematic));
    assert!(e.metadata.is_empty());
    let e = event_from_row("s", 1, 1, "Other", vec![], 5, Some(vec![("k".to_string(), "v".to_string())]));
    assert_eq!(e.event_type, EventKind::Internal);
    assert_eq!(e.metadata.len(), 1);
    assert_eq!(to_unsigned(-1), u64::MAX);
    assert_eq!(to_unsigned(i64::MIN), 1u64 << 63);
}
