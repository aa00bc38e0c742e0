//! The remote wide-column back-end's decisions. Its table is keyed by
//! `(stream_id, version)`, and an append is a conditional insert of version
//! `expected + 1` that applies only where that row does not exist yet.
use vstd::prelude::*;

use crate::event::{kind_of_name, Event, EventId, EventKind, EventPayload, Timestamp};
use crate::store::EventStoreError;

verus! {

/// What the remote back-end can fail with while it connects or sets up.
#[derive(Debug)]
pub enum ScyllaError {
    ConnectionError(String),
    QueryError(String),
}

/// The 64 bits of a signed column value read as unsigned.
pub open spec fn unsigned_of(v: i64) -> u64 {
    if v < 0 {
        (v as int + 0x1_0000_0000_0000_0000int) as u64
    } else {
        v as u64
    }
}

/// A signed column value read as unsigned, bit for bit.
pub fn to_unsigned(v: i64) -> (r: u64)
    ensures
        r == unsigned_of(v),
{
    if v < 0 {
        let m: i64 = -(v + 1);
        u64::MAX - (m as u64)
    } else {
        v as u64
    }
}

/// The version column of the row that an append after `expected_version`
/// inserts; a version that a signed 64-bit column cannot hold is an error.
pub fn next_row_version(expected_version: u64) -> (r: Result<i64, EventStoreError>)
    ensures
        expected_version < i64::MAX ==> r == Ok::<i64, EventStoreError>((expected_version + 1) as i64),
        expected_version >= i64::MAX ==> r matches Err(EventStoreError::StorageError(_)),
{
    if expected_version < (i64::MAX as u64) {
        Ok((expected_version + 1) as i64)
    } else {
        Err(EventStoreError::StorageError(String::from_str("version out of range")))
    }
}

/// The outcome of a conditional insert, from the `[applied]` column of its
/// result. A row that was not applied is a conflict; the engine does not report
/// the current tail, so the conflict carries 0 as the actual version. A result
/// that could not be read is an engine failure.
pub fn lwt_outcome(expected_version: u64, applied: Option<bool>) -> (r: Result<(), EventStoreError>)
    ensures
        applied == Some(true) ==> r is Ok,
        applied == Some(false) ==> r == Err::<(), EventStoreError>(
            EventStoreError::ConcurrencyError { expected: expected_version, actual: 0 },
        ),
        applied is None ==> r matches Err(EventStoreError::StorageError(_)),
{
    match applied {
        Some(true) => Ok(()),
        Some(false) => Err(EventStoreError::ConcurrencyError { expected: expected_version, actual: 0 }),
        None => Err(EventStoreError::StorageError(String::from_str("conditional insert result unreadable"))),
    }
}

/// The event a row of the events table holds, in the stream it was queried by.
pub fn event_from_row(
    stream_id: &str,
    version: i64,
    id: u128,
    event_type: &str,
    payload: Vec<u8>,
    timestamp: i64,
    metadata: Option<Vec<(String, String)>>,
) -> (r: Event)
    ensures
        r.stream_id@ == stream_id@,
        r.sequence_number == unsigned_of(version),
        r.id.0 == id,
        r.event_type == kind_of_name(event_type@),
        r.payload.0@ == payload@,
        r.timestamp.0 == unsigned_of(timestamp),
        match metadata {
            Some(m) => r.metadata@ == m@,
            None => r.metadata@.len() == 0,
        },
{
    Event {
        id: EventId(id),
        stream_id: stream_id.to_string(),
        sequence_number: to_unsigned(version),
        event_type: EventKind::from_name(event_type),
        payload: EventPayload(payload),
        timestamp: Timestamp(to_unsigned(timestamp)),
        metadata: match metadata {
            Some(m) => m,
            None => Vec::new(),
        },
    }
}

} // verus!
