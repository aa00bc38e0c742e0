//! Operational events: what the store reports about itself.
use vstd::prelude::*;

verus! {

/// Something that happened to the store, for metrics and alerting.
#[derive(Debug, Clone)]
pub enum OperationalEvent {
    EventAppendFailed { stream_id: String, error: String },
    RetryExhausted { operation: String, attempts: u32 },
}

} // verus!
