//! A primary back-end with a fallback: each operation tries the primary and,
//! when it fails for any reason but a concurrency conflict, the fallback.
use vstd::prelude::*;

use crate::event::{Event, EventId};
use crate::store::{
    appended, events_view, schema_registered, unchanged, AppendOutcome, EventStore,
    EventStoreError,
};

verus! {

/// Whether a failure of the primary sends the operation to the fallback. A
/// concurrency conflict is an answer, not a fault: it surfaces unchanged.
pub open spec fn fails_over(e: EventStoreError) -> bool {
    !(e is ConcurrencyError)
}

/// Whether an error sends the operation to the fallback.
pub fn should_fail_over(e: &EventStoreError) -> (r: bool)
    ensures
        r == fails_over(*e),
{
    match e {
        EventStoreError::ConcurrencyError { .. } => false,
        _ => true,
    }
}

/// What an append does to one back-end, given its outcome there.
pub open spec fn append_effect<S: EventStore>(
    pre: S,
    post: S,
    stream: Seq<char>,
    event: crate::event::EventView,
    expected: u64,
    r: Result<(), EventStoreError>,
) -> bool {
    match pre.append_outcome(stream, expected) {
        AppendOutcome::Appended => r is Ok && appended(pre, post, stream, event, expected),
        AppendOutcome::Conflict(a) => r == Err::<(), EventStoreError>(
            EventStoreError::ConcurrencyError { expected, actual: a },
        ) && unchanged(pre, post),
        AppendOutcome::Fault => (r matches Err(e) && !(e is ConcurrencyError)) && unchanged(pre, post),
    }
}

/// A primary and a fallback back-end. The two are not kept in sync.
pub struct HybridEventStore<P: EventStore, F: EventStore> {
    pub primary: P,
    pub fallback: F,
}

impl<P: EventStore, F: EventStore> HybridEventStore<P, F> {
    /// Both back-ends' invariants.
    pub open spec fn wf(&self) -> bool {
        self.primary.store_inv() && self.fallback.store_inv()
    }

    /// The composition of `primary` and `fallback`.
    pub fn new(primary: P, fallback: F) -> (r: Self)
        ensures
            r.primary == primary,
            r.fallback == fallback,
    {
        HybridEventStore { primary, fallback }
    }

    /// Appends through the primary. Its success or conflict is the answer and
    /// the fallback is left alone; on any other failure the same append goes to
    /// the fallback, whose answer is returned.
    pub fn append_event(&mut self, stream: &str, event: Event, expected_version: u64) -> (r: Result<
        (),
        EventStoreError,
    >)
        requires
            old(self).wf(),
        ensures
            final(self).wf(),
            match old(self).primary.append_outcome(stream@, expected_version) {
                AppendOutcome::Fault => {
                    &&& unchanged(old(self).primary, final(self).primary)
                    &&& append_effect(
                        old(self).fallback,
                        final(self).fallback,
                        stream@,
                        event@,
                        expected_version,
                        r,
                    )
                },
                _ => {
                    &&& append_effect(
                        old(self).primary,
                        final(self).primary,
                        stream@,
                        event@,
                        expected_version,
                        r,
                    )
                    &&& final(self).fallback == old(self).fallback
                },
            },
    {
        let copy = event.duplicate();
        match self.primary.append_event(stream, event, expected_version) {
            Ok(()) => Ok(()),
            Err(e) => {
                if should_fail_over(&e) {
                    self.fallback.append_event(stream, copy, expected_version)
                } else {
                    Err(e)
                }
            },
        }
    }

    /// The primary's events of `stream` when it can read them; else the
    /// fallback's answer.
    pub fn fetch_stream(&self, stream: &str) -> (r: Result<Vec<Event>, EventStoreError>)
        requires
            self.wf(),
        ensures
            self.primary.fetch_ok(stream@) ==> (r matches Ok(v) && events_view(v@)
                == self.primary.stream_events(stream@)),
            !self.primary.fetch_ok(stream@) ==> (r is Ok == self.fallback.fetch_ok(stream@)) && (
            r matches Ok(v) ==> events_view(v@) == self.fallback.stream_events(stream@)),
    {
        match self.primary.fetch_stream(stream) {
            Ok(v) => Ok(v),
            Err(_) => self.fallback.fetch_stream(stream),
        }
    }

    /// Registers a schema through the primary; through the fallback, with the
    /// same definition and identifier, when the primary fails.
    pub fn upsert_schema(&mut self, name: &str, definition: Vec<u8>, id: EventId) -> (r: Result<
        (),
        EventStoreError,
    >)
        requires
            old(self).wf(),
        ensures
            final(self).wf(),
            old(self).primary.upsert_ok(name@) ==> {
                &&& r is Ok
                &&& schema_registered(old(self).primary, final(self).primary, name@, definition@)
                &&& final(self).fallback == old(self).fallback
            },
            !old(self).primary.upsert_ok(name@) ==> {
                &&& unchanged(old(self).primary, final(self).primary)
                &&& r is Ok == old(self).fallback.upsert_ok(name@)
                &&& r is Ok ==> schema_registered(
                    old(self).fallback,
                    final(self).fallback,
                    name@,
                    definition@,
                )
                &&& r is Err ==> unchanged(old(self).fallback, final(self).fallback)
            },
    {
        let copy = crate::bytes::copy_bytes(definition.as_slice());
        match self.primary.upsert_schema(name, definition, id) {
            Ok(()) => Ok(()),
            Err(_) => self.fallback.upsert_schema(name, copy, id),
        }
    }

    /// The primary's definition of a schema when it can read it; else the
    /// fallback's answer.
    pub fn get_schema(&self, name: &str) -> (r: Result<Option<Vec<u8>>, EventStoreError>)
        requires
            self.wf(),
        ensures
            self.primary.schema_read_ok(name@) ==> (r matches Ok(o) && match o {
                Some(d) => self.primary.schema_def(name@) == Some(d@),
                None => self.primary.schema_def(name@) is None,
            }),
            !self.primary.schema_read_ok(name@) ==> (r is Ok == self.fallback.schema_read_ok(name@))
                && (r matches Ok(o) ==> match o {
                Some(d) => self.fallback.schema_def(name@) == Some(d@),
                None => self.fallback.schema_def(name@) is None,
            }),
    {
        match self.primary.get_schema(name) {
            Ok(o) => Ok(o),
            Err(_) => self.fallback.get_schema(name),
        }
    }
}

} // verus!
