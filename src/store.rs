//! The storage contract and the in-memory back-end.
use vstd::prelude::*;

use crate::bytes::{copy_bytes, str_eq};
use crate::event::{Event, EventId, EventKind, EventPayload, EventView};

verus! {

/// What a storage operation can fail with.
#[derive(Debug)]
pub enum EventStoreError {
    /// The stream has no events (fetches return an empty list instead).
    NotFound,
    /// The underlying engine failed; eligible for failover.
    StorageError(String),
    /// An encoding or decoding failed.
    SerializationError(String),
    /// The caller's expected tail was not the stream's tail.
    ConcurrencyError { expected: u64, actual: u64 },
    /// Anything else.
    Unknown(String),
}

/// The event as it is stored: stamped with its stream and sequence number.
pub open spec fn stamped(e: EventView, stream: Seq<char>, seq: u64) -> EventView {
    EventView { stream_id: stream, sequence_number: seq, ..e }
}

/// Whether the events of a stream are numbered 1, 2, ... in order, each stamped
/// with the stream.
pub open spec fn dense(stream: Seq<char>, evs: Seq<EventView>) -> bool {
    forall|j: int|
        0 <= j < evs.len() ==> (#[trigger] evs[j]).sequence_number == j + 1 && evs[j].stream_id
            == stream
}

/// The name of the stream that logs the migrations of schema `name`.
pub open spec fn schema_stream(name: Seq<char>) -> Seq<char> {
    seq!['$', 's', 'c', 'h', 'e', 'm', 'a', ':'] + name
}

/// The text `$schema:<name>`.
pub fn schema_stream_name(name: &str) -> (r: String)
    ensures
        r@ == schema_stream(name@),
{
    let mut s = String::from_str("$schema:");
    proof {
        reveal_strlit("$schema:");
        assert(s@ =~= seq!['$', 's', 'c', 'h', 'e', 'm', 'a', ':']);
    }
    s.append(name);
    s
}

/// An event store held in memory: one list of events per stream, and the
/// current definition of each schema.
pub struct InMemoryEventStore {
    streams: Vec<(String, Vec<Event>)>,
    schemas: Vec<(String, Vec<u8>)>,
}

pub open spec fn events_view(v: Seq<Event>) -> Seq<EventView> {
    v.map_values(|e: Event| e@)
}


/// Whether `post` is `pre` after registering `definition` as schema `name`: one
/// `Schematic` event carrying the definition appended to the migration stream,
/// and the projection set to the definition.
pub open spec fn schema_upserted(
    pre: &InMemoryEventStore,
    post: &InMemoryEventStore,
    name: Seq<char>,
    definition: Seq<u8>,
) -> bool {
    let ss = schema_stream(name);
    let t = pre.tail(ss);
    &&& post.events(ss).len() == t + 1
    &&& post.events(ss).subrange(0, t as int) == pre.events(ss)
    &&& post.events(ss)[t as int].event_type == EventKind::Schematic
    &&& post.events(ss)[t as int].payload == definition
    &&& post.events(ss)[t as int].sequence_number == t + 1
    &&& forall|s: Seq<char>| s != ss ==> #[trigger] post.events(s) == pre.events(s)
    &&& post.schema(name) == Some(definition)
    &&& forall|n: Seq<char>| n != name ==> #[trigger] post.schema(n) == pre.schema(n)
}

/// Two identical schema registrations leave the projection equal to the
/// definition of the second, and the migration stream two events longer, both
/// carrying the definition.
pub proof fn lemma_upsert_twice(
    s0: &InMemoryEventStore,
    s1: &InMemoryEventStore,
    s2: &InMemoryEventStore,
    name: Seq<char>,
    definition: Seq<u8>,
)
    requires
        schema_upserted(s0, s1, name, definition),
        schema_upserted(s1, s2, name, definition),
    ensures
        s2.schema(name) == Some(definition),
        s2.tail(schema_stream(name)) == s0.tail(schema_stream(name)) + 2,
        s2.events(schema_stream(name)).subrange(0, s0.tail(schema_stream(name)) as int)
            == s0.events(schema_stream(name)),
        s2.events(schema_stream(name))[s0.tail(schema_stream(name)) as int].payload == definition,
        s2.events(schema_stream(name))[s0.tail(schema_stream(name)) as int + 1].payload == definition,
{
    let ss = schema_stream(name);
    let t = s0.tail(ss) as int;
    assert(s2.events(ss).subrange(0, t + 1) == s1.events(ss));
    assert(s2.events(ss).subrange(0, t) =~= s1.events(ss).subrange(0, t));
    assert(s2.events(ss)[t] == s1.events(ss)[t]);
}

impl InMemoryEventStore {
    /// The events of stream `s`, in order; empty for a stream never written.
    pub closed spec fn events(&self, s: Seq<char>) -> Seq<EventView> {
        if exists|i: int| 0 <= i < self.streams@.len() && (#[trigger] self.streams@[i]).0@ == s {
            let i = choose|i: int|
                0 <= i < self.streams@.len() && (#[trigger] self.streams@[i]).0@ == s;
            events_view(self.streams@[i].1@)
        } else {
            Seq::empty()
        }
    }

    /// The current definition of schema `name`, if one was registered.
    pub closed spec fn schema(&self, name: Seq<char>) -> Option<Seq<u8>> {
        if exists|i: int| 0 <= i < self.schemas@.len() && (#[trigger] self.schemas@[i]).0@ == name {
            let i = choose|i: int|
                0 <= i < self.schemas@.len() && (#[trigger] self.schemas@[i]).0@ == name;
            Some(self.schemas@[i].1@)
        } else {
            None
        }
    }

    /// The sequence number of the last event of stream `s`; 0 if it has none.
    pub open spec fn tail(&self, s: Seq<char>) -> nat {
        self.events(s).len()
    }

    /// Whether two stores hold the same streams and schemas.
    pub open spec fn same_as(&self, other: &InMemoryEventStore) -> bool {
        &&& forall|s: Seq<char>| #[trigger] self.events(s) == other.events(s)
        &&& forall|n: Seq<char>| #[trigger] self.schema(n) == other.schema(n)
    }

    /// The store's invariant: each stream and each schema held once, every
    /// stream dense.
    pub closed spec fn wf(&self) -> bool {
        &&& forall|i: int, j: int|
            0 <= i < j < self.streams@.len() ==> (#[trigger] self.streams@[i]).0@
                != (#[trigger] self.streams@[j]).0@
        &&& forall|i: int, j: int|
            0 <= i < j < self.schemas@.len() ==> (#[trigger] self.schemas@[i]).0@
                != (#[trigger] self.schemas@[j]).0@
        &&& forall|i: int|
            0 <= i < self.streams@.len() ==> dense(
                (#[trigger] self.streams@[i]).0@,
                events_view(self.streams@[i].1@),
            )
    }

    proof fn lemma_events_at(&self, i: int)
        requires
            self.wf(),
            0 <= i < self.streams@.len(),
        ensures
            self.events(self.streams@[i].0@) == events_view(self.streams@[i].1@),
    {
        let s = self.streams@[i].0@;
        assert(0 <= i < self.streams@.len() && self.streams@[i].0@ == s);
        let k = choose|k: int| 0 <= k < self.streams@.len() && (#[trigger] self.streams@[k]).0@ == s;
        if k < i {
            assert(self.streams@[k].0@ != self.streams@[i].0@);
        } else if i < k {
            assert(self.streams@[i].0@ != self.streams@[k].0@);
        }
    }

    proof fn lemma_schema_at(&self, i: int)
        requires
            self.wf(),
            0 <= i < self.schemas@.len(),
        ensures
            self.schema(self.schemas@[i].0@) == Some(self.schemas@[i].1@),
    {
        let s = self.schemas@[i].0@;
        assert(0 <= i < self.schemas@.len() && self.schemas@[i].0@ == s);
        let k = choose|k: int| 0 <= k < self.schemas@.len() && (#[trigger] self.schemas@[k]).0@ == s;
        if k < i {
            assert(self.schemas@[k].0@ != self.schemas@[i].0@);
        } else if i < k {
            assert(self.schemas@[i].0@ != self.schemas@[k].0@);
        }
    }

    /// Every stream of a well-formed store is numbered 1, 2, ..., tail, in order.
    pub proof fn lemma_streams_dense(&self, s: Seq<char>)
        requires
            self.wf(),
        ensures
            dense(s, self.events(s)),
    {
        if exists|i: int| 0 <= i < self.streams@.len() && (#[trigger] self.streams@[i]).0@ == s {
            let i = choose|i: int|
                0 <= i < self.streams@.len() && (#[trigger] self.streams@[i]).0@ == s;
            self.lemma_events_at(i);
        }
    }

    /// An empty store.
    pub fn new() -> (r: InMemoryEventStore)
        ensures
            r.wf(),
            forall|s: Seq<char>| #[trigger] r.events(s) == Seq::<EventView>::empty(),
            forall|n: Seq<char>| #[trigger] r.schema(n) == None::<Seq<u8>>,
    {
        InMemoryEventStore { streams: Vec::new(), schemas: Vec::new() }
    }

    fn find_stream(&self, s: &str) -> (r: Option<usize>)
        ensures
            match r {
                Some(i) => i < self.streams@.len() && self.streams@[i as int].0@ == s@,
                None => forall|i: int|
                    0 <= i < self.streams@.len() ==> (#[trigger] self.streams@[i]).0@ != s@,
            },
    {
        let mut i: usize = 0;
        while i < self.streams.len()
            invariant
                i <= self.streams@.len(),
                forall|j: int| 0 <= j < i ==> (#[trigger] self.streams@[j]).0@ != s@,
            decreases self.streams@.len() - i,
        {
            if str_eq(self.streams[i].0.as_str(), s) {
                return Some(i);
            }
            i = i + 1;
        }
        None
    }

    fn find_schema(&self, s: &str) -> (r: Option<usize>)
        ensures
            match r {
                Some(i) => i < self.schemas@.len() && self.schemas@[i as int].0@ == s@,
                None => forall|i: int|
                    0 <= i < self.schemas@.len() ==> (#[trigger] self.schemas@[i]).0@ != s@,
            },
    {
        let mut i: usize = 0;
        while i < self.schemas.len()
            invariant
                i <= self.schemas@.len(),
                forall|j: int| 0 <= j < i ==> (#[trigger] self.schemas@[j]).0@ != s@,
            decreases self.schemas@.len() - i,
        {
            if str_eq(self.schemas[i].0.as_str(), s) {
                return Some(i);
            }
            i = i + 1;
        }
        None
    }

    /// The tail of a stream: the number of its events.
    pub fn current_version(&self, stream: &str) -> (r: u64)
        requires
            self.wf(),
        ensures
            r == self.tail(stream@),
    {
        match self.find_stream(stream) {
            Some(i) => {
                proof {
                    self.lemma_events_at(i as int);
                }
                self.streams[i].1.len() as u64
            },
            None => 0,
        }
    }

    /// Appends one event to `stream` if `expected_version` is its tail. The event
    /// is stamped with the stream and with the next sequence number.
    pub fn append_event(&mut self, stream: &str, event: Event, expected_version: u64) -> (r:
        Result<(), EventStoreError>)
        requires
            old(self).wf(),
        ensures
            final(self).wf(),
            ({
                let tail = old(self).tail(stream@);
                if expected_version != tail {
                    &&& r == Err::<(), EventStoreError>(
                        EventStoreError::ConcurrencyError {
                            expected: expected_version,
                            actual: tail as u64,
                        },
                    )
                    &&& final(self).same_as(old(self))
                } else if tail == u64::MAX {
                    &&& r matches Err(EventStoreError::StorageError(_))
                    &&& final(self).same_as(old(self))
                } else {
                    &&& r is Ok
                    &&& final(self).events(stream@) == old(self).events(stream@).push(
                        stamped(event@, stream@, (tail + 1) as u64),
                    )
                    &&& forall|s: Seq<char>|
                        s != stream@ ==> #[trigger] final(self).events(s) == old(self).events(s)
                    &&& forall|n: Seq<char>| #[trigger] final(self).schema(n) == old(self).schema(n)
                }
            }),
    {
        let current = self.current_version(stream);
        if current != expected_version {
            return Err(EventStoreError::ConcurrencyError { expected: expected_version, actual: current });
        }
        if current == u64::MAX {
            return Err(EventStoreError::StorageError(String::from_str("sequence numbers exhausted")));
        }
        let ghost e0 = event@;
        let mut event = event;
        event.sequence_number = current + 1;
        event.stream_id = stream.to_string();
        let ghost e = event@;
        let ghost old_self = *self;
        assert(e == stamped(e0, stream@, (current + 1) as u64));
        match self.find_stream(stream) {
            Some(i) => {
                proof {
                    self.lemma_events_at(i as int);
                }
                let (name, mut evs) = self.streams.remove(i);
                evs.push(event);
                self.streams.insert(i, (name, evs));
                proof {
                    assert(self.streams@ =~= old_self.streams@.update(i as int, self.streams@[i as int]));
                    assert(events_view(evs@) =~= events_view(old_self.streams@[i as int].1@).push(e));
                    assert forall|a: int, b: int|
                        0 <= a < b < self.streams@.len() implies (#[trigger] self.streams@[a]).0@
                        != (#[trigger] self.streams@[b]).0@ by {
                        assert(old_self.streams@[a].0@ != old_self.streams@[b].0@);
                    }
                    assert forall|a: int|
                        0 <= a < self.streams@.len() implies dense(
                        (#[trigger] self.streams@[a]).0@,
                        events_view(self.streams@[a].1@),
                    ) by {
                        if a != i {
                            assert(dense(old_self.streams@[a].0@, events_view(old_self.streams@[a].1@)));
                        } else {
                            assert(dense(old_self.streams@[a].0@, events_view(old_self.streams@[a].1@)));
                            let v = events_view(self.streams@[a].1@);
                            assert forall|j: int| 0 <= j < v.len() implies (#[trigger] v[j]).sequence_number == j + 1
                                && v[j].stream_id == self.streams@[a].0@ by {
                                if j < v.len() - 1 {
                                    assert(v[j] == events_view(old_self.streams@[a].1@)[j]);
                                }
                            }
                        }
                    }
                    self.lemma_events_at(i as int);
                    assert forall|s: Seq<char>| s != stream@ implies #[trigger] self.events(s) == old_self.events(s) by {
                        if exists|k: int| 0 <= k < self.streams@.len() && (#[trigger] self.streams@[k]).0@ == s {
                            let k = choose|k: int| 0 <= k < self.streams@.len() && (#[trigger] self.streams@[k]).0@ == s;
                            self.lemma_events_at(k);
                            old_self.lemma_events_at(k);
                        } else {
                            assert forall|k: int| 0 <= k < old_self.streams@.len() implies (#[trigger] old_self.streams@[k]).0@ != s by {
                                assert(self.streams@[k].0@ != s);
                            }
                        }
                    }
                    assert forall|n: Seq<char>| #[trigger] self.schema(n) == old_self.schema(n) by {
                        assert(self.schemas@ == old_self.schemas@);
                    }
                }
            },
            None => {
                let mut evs: Vec<Event> = Vec::new();
                evs.push(event);
                self.streams.push((stream.to_string(), evs));
                proof {
                    let n = old_self.streams@.len() as int;
                    assert(self.streams@ =~= old_self.streams@.push(self.streams@[n]));
                    assert(events_view(evs@) =~= seq![e]);
                    assert(old_self.events(stream@) =~= Seq::<EventView>::empty());
                    assert forall|a: int, b: int|
                        0 <= a < b < self.streams@.len() implies (#[trigger] self.streams@[a]).0@
                        != (#[trigger] self.streams@[b]).0@ by {
                        if b < n {
                            assert(old_self.streams@[a].0@ != old_self.streams@[b].0@);
                        } else {
                            assert(old_self.streams@[a].0@ != stream@);
                        }
                    }
                    assert forall|a: int|
                        0 <= a < self.streams@.len() implies dense(
                        (#[trigger] self.streams@[a]).0@,
                        events_view(self.streams@[a].1@),
                    ) by {
                        if a < n {
                            assert(dense(old_self.streams@[a].0@, events_view(old_self.streams@[a].1@)));
                        }
                    }
                    self.lemma_events_at(n);
                    assert forall|s: Seq<char>| s != stream@ implies #[trigger] self.events(s) == old_self.events(s) by {
                        if exists|k: int| 0 <= k < self.streams@.len() && (#[trigger] self.streams@[k]).0@ == s {
                            let k = choose|k: int| 0 <= k < self.streams@.len() && (#[trigger] self.streams@[k]).0@ == s;
                            self.lemma_events_at(k);
                            old_self.lemma_events_at(k);
                        } else {
                            assert forall|k: int| 0 <= k < old_self.streams@.len() implies (#[trigger] old_self.streams@[k]).0@ != s by {
                                assert(self.streams@[k].0@ != s);
                            }
                        }
                    }
                    assert forall|n: Seq<char>| #[trigger] self.schema(n) == old_self.schema(n) by {
                        assert(self.schemas@ == old_self.schemas@);
                    }
                }
            },
        }
        Ok(())
    }

    /// The events of `stream` in ascending sequence order; empty, not an error,
    /// for a stream never written.
    pub fn fetch_stream(&self, stream: &str) -> (r: Result<Vec<Event>, EventStoreError>)
        requires
            self.wf(),
        ensures
            r matches Ok(v) && events_view(v@) == self.events(stream@),
    {
        let mut out: Vec<Event> = Vec::new();
        match self.find_stream(stream) {
            Some(i) => {
                proof {
                    self.lemma_events_at(i as int);
                }
                let evs = &self.streams[i].1;
                let mut j: usize = 0;
                while j < evs.len()
                    invariant
                        j <= evs@.len(),
                        events_view(out@) == events_view(evs@.subrange(0, j as int)),
                    decreases evs@.len() - j,
                {
                    let e = evs[j].duplicate();
                    let ghost before = out@;
                    out.push(e);
                    proof {
                        assert(evs@.subrange(0, j + 1) =~= evs@.subrange(0, j as int).push(evs@[j as int]));
                        assert(out@ =~= before.push(e));
                        assert(events_view(out@) =~= events_view(before).push(e@));
                        assert(events_view(evs@.subrange(0, j + 1)) =~= events_view(evs@.subrange(0, j as int)).push(e@));
                    }
                    j = j + 1;
                }
                assert(evs@.subrange(0, evs@.len() as int) =~= evs@);
            },
            None => {
                assert(events_view(out@) =~= self.events(stream@));
            },
        }
        Ok(out)
    }

    fn set_schema(&mut self, name: &str, definition: Vec<u8>)
        requires
            old(self).wf(),
        ensures
            final(self).wf(),
            final(self).schema(name@) == Some(definition@),
            forall|n: Seq<char>| n != name@ ==> #[trigger] final(self).schema(n) == old(self).schema(n),
            forall|s: Seq<char>| #[trigger] final(self).events(s) == old(self).events(s),
    {
        let ghost old_self = *self;
        let ghost d = definition@;
        match self.find_schema(name) {
            Some(i) => {
                let (n, _) = self.schemas.remove(i);
                self.schemas.insert(i, (n, definition));
                proof {
                    assert(self.schemas@ =~= old_self.schemas@.update(i as int, self.schemas@[i as int]));
                    assert forall|a: int, b: int|
                        0 <= a < b < self.schemas@.len() implies (#[trigger] self.schemas@[a]).0@
                        != (#[trigger] self.schemas@[b]).0@ by {
                        assert(old_self.schemas@[a].0@ != old_self.schemas@[b].0@);
                    }
                    self.lemma_schema_at(i as int);
                    assert forall|m: Seq<char>| m != name@ implies #[trigger] self.schema(m) == old_self.schema(m) by {
                        if exists|k: int| 0 <= k < self.schemas@.len() && (#[trigger] self.schemas@[k]).0@ == m {
                            let k = choose|k: int| 0 <= k < self.schemas@.len() && (#[trigger] self.schemas@[k]).0@ == m;
                            self.lemma_schema_at(k);
                            old_self.lemma_schema_at(k);
                        } else {
                            assert forall|k: int| 0 <= k < old_self.schemas@.len() implies (#[trigger] old_self.schemas@[k]).0@ != m by {
                                assert(self.schemas@[k].0@ != m);
                            }
                        }
                    }
                }
            },
            None => {
                self.schemas.push((name.to_string(), definition));
                proof {
                    let n = old_self.schemas@.len() as int;
                    assert(self.schemas@ =~= old_self.schemas@.push(self.schemas@[n]));
                    assert forall|a: int, b: int|
                        0 <= a < b < self.schemas@.len() implies (#[trigger] self.schemas@[a]).0@
                        != (#[trigger] self.schemas@[b]).0@ by {
                        if b < n {
                            assert(old_self.schemas@[a].0@ != old_self.schemas@[b].0@);
                        } else {
                            assert(old_self.schemas@[a].0@ != name@);
                        }
                    }
                    self.lemma_schema_at(n);
                    assert forall|m: Seq<char>| m != name@ implies #[trigger] self.schema(m) == old_self.schema(m) by {
                        if exists|k: int| 0 <= k < self.schemas@.len() && (#[trigger] self.schemas@[k]).0@ == m {
                            let k = choose|k: int| 0 <= k < self.schemas@.len() && (#[trigger] self.schemas@[k]).0@ == m;
                            self.lemma_schema_at(k);
                            old_self.lemma_schema_at(k);
                        } else {
                            assert forall|k: int| 0 <= k < old_self.schemas@.len() implies (#[trigger] old_self.schemas@[k]).0@ != m by {
                                assert(self.schemas@[k].0@ != m);
                            }
                        }
                    }
                }
            },
        }
        proof {
            assert forall|s: Seq<char>| #[trigger] self.events(s) == old_self.events(s) by {
                assert(self.streams@ == old_self.streams@);
            }
        }
    }

    /// Registers or replaces the definition of schema `name`: first one
    /// `Schematic` event carrying the definition is appended to the migration
    /// stream `$schema:<name>`, then the projection is set to the definition.
    pub fn upsert_schema(&mut self, name: &str, definition: Vec<u8>, id: EventId) -> (r: Result<(), EventStoreError>)
        requires
            old(self).wf(),
        ensures
            final(self).wf(),
            ({
                let ss = schema_stream(name@);
                let t = old(self).tail(ss);
                if t == u64::MAX {
                    &&& r matches Err(EventStoreError::StorageError(_))
                    &&& final(self).same_as(old(self))
                } else {
                    &&& r is Ok
                    &&& schema_upserted(old(self), final(self), name@, definition@)
                }
            }),
    {
        let stream = schema_stream_name(name);
        let ver = self.current_version(stream.as_str());
        let payload = EventPayload(copy_bytes(definition.as_slice()));
        let event = Event::new(stream.as_str(), EventKind::Schematic, payload, id);
        let ghost mid_old = *self;
        match self.append_event(stream.as_str(), event, ver) {
            Ok(()) => {},
            Err(e) => {
                return Err(e);
            },
        }
        let ghost mid = *self;
        self.set_schema(name, definition);
        proof {
            let ss = schema_stream(name@);
            assert(mid.events(ss) == mid_old.events(ss).push(stamped(event@, ss, (ver + 1) as u64)));
            assert(mid.events(ss).subrange(0, ver as int) =~= mid_old.events(ss));
        }
        Ok(())
    }

    /// The current definition of schema `name`, or `None` if it was never registered.
    pub fn get_schema(&self, name: &str) -> (r: Result<Option<Vec<u8>>, EventStoreError>)
        requires
            self.wf(),
        ensures
            r matches Ok(o) && match o {
                Some(d) => self.schema(name@) == Some(d@),
                None => self.schema(name@) is None,
            },
    {
        match self.find_schema(name) {
            Some(i) => {
                proof {
                    self.lemma_schema_at(i as int);
                }
                Ok(Some(copy_bytes(self.schemas[i].1.as_slice())))
            },
            None => Ok(None),
        }
    }
}


/// What an append does to a back-end in its current state.
pub enum AppendOutcome {
    /// The event becomes visible with the next sequence number.
    Appended,
    /// The expected version is not the tail; `actual` is the tail as the
    /// back-end reports it.
    Conflict(u64),
    /// The engine fails; nothing changes.
    Fault,
}

/// Whether `post` is `pre` with one event appended to `stream` after tail
/// `expected`, and nothing else changed.
pub open spec fn appended<S: EventStore>(
    pre: S,
    post: S,
    stream: Seq<char>,
    event: EventView,
    expected: u64,
) -> bool {
    &&& expected == pre.stream_events(stream).len()
    &&& expected < u64::MAX
    &&& post.stream_events(stream) == pre.stream_events(stream).push(
        stamped(event, stream, (expected + 1) as u64),
    )
    &&& forall|s: Seq<char>| s != stream ==> #[trigger] post.stream_events(s) == pre.stream_events(s)
    &&& forall|n: Seq<char>| #[trigger] post.schema_def(n) == pre.schema_def(n)
}

/// Whether two states of a back-end hold the same streams and schemas.
pub open spec fn unchanged<S: EventStore>(pre: S, post: S) -> bool {
    &&& forall|s: Seq<char>| #[trigger] post.stream_events(s) == pre.stream_events(s)
    &&& forall|n: Seq<char>| #[trigger] post.schema_def(n) == pre.schema_def(n)
}

/// Whether `post` is `pre` after registering `definition` as schema `name`: one
/// `Schematic` event carrying the definition appended to the migration stream
/// `$schema:<name>`, then the projection set to the definition.
pub open spec fn schema_registered<S: EventStore>(
    pre: S,
    post: S,
    name: Seq<char>,
    definition: Seq<u8>,
) -> bool {
    let ss = schema_stream(name);
    let t = pre.stream_events(ss).len();
    &&& post.stream_events(ss).len() == t + 1
    &&& post.stream_events(ss).subrange(0, t as int) == pre.stream_events(ss)
    &&& post.stream_events(ss)[t as int].event_type == EventKind::Schematic
    &&& post.stream_events(ss)[t as int].payload == definition
    &&& post.stream_events(ss)[t as int].sequence_number == t + 1
    &&& forall|s: Seq<char>| s != ss ==> #[trigger] post.stream_events(s) == pre.stream_events(s)
    &&& post.schema_def(name) == Some(definition)
    &&& forall|n: Seq<char>| n != name ==> #[trigger] post.schema_def(n) == pre.schema_def(n)
}

/// The storage contract. `stream_events` is what a back-end holds for a stream;
/// an append is atomic, and what it does is fixed by `append_outcome`.
pub trait EventStore: Sized {
    /// What the back-end holds for stream `s`, in order.
    spec fn stream_events(&self, s: Seq<char>) -> Seq<EventView>;

    /// The current definition of schema `name`.
    spec fn schema_def(&self, name: Seq<char>) -> Option<Seq<u8>>;

    /// The back-end's invariant.
    spec fn store_inv(&self) -> bool;

    /// Whether the back-end has no engine that can fail.
    spec fn infallible(&self) -> bool;

    /// What an append to `stream` after `expected` does in this state.
    spec fn append_outcome(&self, stream: Seq<char>, expected: u64) -> AppendOutcome;

    /// Whether reading `stream` succeeds in this state.
    spec fn fetch_ok(&self, stream: Seq<char>) -> bool;

    /// Whether reading schema `name` succeeds in this state.
    spec fn schema_read_ok(&self, name: Seq<char>) -> bool;

    /// Whether registering schema `name` succeeds in this state.
    spec fn upsert_ok(&self, name: Seq<char>) -> bool;

    /// Appends one event if `expected_version` is the stream's tail.
    fn append_event(&mut self, stream: &str, event: Event, expected_version: u64) -> (r: Result<
        (),
        EventStoreError,
    >)
        requires
            old(self).store_inv(),
        ensures
            final(self).store_inv(),
            final(self).infallible() == old(self).infallible(),
            match old(self).append_outcome(stream@, expected_version) {
                AppendOutcome::Appended => {
                    &&& r is Ok
                    &&& expected_version == old(self).stream_events(stream@).len()
                    &&& expected_version < u64::MAX
                    &&& final(self).stream_events(stream@) == old(self).stream_events(stream@).push(
                        stamped(event@, stream@, (expected_version + 1) as u64),
                    )
                    &&& forall|s: Seq<char>|
                        s != stream@ ==> #[trigger] final(self).stream_events(s) == old(
                            self,
                        ).stream_events(s)
                    &&& forall|n: Seq<char>| #[trigger] final(self).schema_def(n) == old(self).schema_def(n)
                },
                AppendOutcome::Conflict(a) => {
                    &&& r == Err::<(), EventStoreError>(
                        EventStoreError::ConcurrencyError { expected: expected_version, actual: a },
                    )
                    &&& expected_version != old(self).stream_events(stream@).len()
                    &&& (forall|s: Seq<char>| #[trigger] final(self).stream_events(s) == old(self).stream_events(s))
                    &&& (forall|n: Seq<char>| #[trigger] final(self).schema_def(n) == old(self).schema_def(n))
                },
                AppendOutcome::Fault => {
                    &&& r matches Err(e) && !(e is ConcurrencyError)
                    &&& (forall|s: Seq<char>| #[trigger] final(self).stream_events(s) == old(self).stream_events(s))
                    &&& (forall|n: Seq<char>| #[trigger] final(self).schema_def(n) == old(self).schema_def(n))
                },
            },
            old(self).infallible() && expected_version == old(self).stream_events(stream@).len()
                && expected_version < u64::MAX ==> old(self).append_outcome(stream@, expected_version) is Appended,
            expected_version == old(self).stream_events(stream@).len() ==> !(old(self).append_outcome(
                stream@,
                expected_version,
            ) is Conflict),
    ;

    /// The events of a stream, in ascending sequence order.
    fn fetch_stream(&self, stream: &str) -> (r: Result<Vec<Event>, EventStoreError>)
        requires
            self.store_inv(),
        ensures
            r is Ok == self.fetch_ok(stream@),
            r matches Ok(v) ==> events_view(v@) == self.stream_events(stream@),
            self.infallible() ==> self.fetch_ok(stream@),
            dense(stream@, self.stream_events(stream@)),
    ;

    /// Registers or replaces a schema's definition, logging it to the schema's
    /// migration stream first; `id` identifies the logged event.
    fn upsert_schema(&mut self, name: &str, definition: Vec<u8>, id: EventId) -> (r: Result<
        (),
        EventStoreError,
    >)
        requires
            old(self).store_inv(),
        ensures
            final(self).store_inv(),
            final(self).infallible() == old(self).infallible(),
            r is Ok == old(self).upsert_ok(name@),
            r is Ok ==> ({
                let ss = schema_stream(name@);
                let t = old(self).stream_events(ss).len();
                &&& final(self).stream_events(ss).len() == t + 1
                &&& final(self).stream_events(ss).subrange(0, t as int) == old(self).stream_events(ss)
                &&& final(self).stream_events(ss)[t as int].event_type == EventKind::Schematic
                &&& final(self).stream_events(ss)[t as int].payload == definition@
                &&& final(self).stream_events(ss)[t as int].sequence_number == t + 1
                &&& forall|s: Seq<char>| s != ss ==> #[trigger] final(self).stream_events(s) == old(self).stream_events(s)
                &&& final(self).schema_def(name@) == Some(definition@)
                &&& forall|n: Seq<char>| n != name@ ==> #[trigger] final(self).schema_def(n) == old(self).schema_def(n)
            }),
            r is Err ==> (forall|s: Seq<char>| #[trigger] final(self).stream_events(s) == old(self).stream_events(s))
                && (forall|n: Seq<char>| #[trigger] final(self).schema_def(n) == old(self).schema_def(n)),
            old(self).infallible() && old(self).stream_events(schema_stream(name@)).len() < u64::MAX
                ==> old(self).upsert_ok(name@),
    ;

    /// The current definition of a schema.
    fn get_schema(&self, name: &str) -> (r: Result<Option<Vec<u8>>, EventStoreError>)
        requires
            self.store_inv(),
        ensures
            r is Ok == self.schema_read_ok(name@),
            r matches Ok(o) ==> match o {
                Some(d) => self.schema_def(name@) == Some(d@),
                None => self.schema_def(name@) is None,
            },
            self.infallible() ==> self.schema_read_ok(name@),
    ;
}

impl EventStore for InMemoryEventStore {
    open spec fn stream_events(&self, s: Seq<char>) -> Seq<EventView> {
        self.events(s)
    }

    open spec fn schema_def(&self, name: Seq<char>) -> Option<Seq<u8>> {
        self.schema(name)
    }

    open spec fn store_inv(&self) -> bool {
        self.wf()
    }

    open spec fn infallible(&self) -> bool {
        true
    }

    open spec fn append_outcome(&self, stream: Seq<char>, expected: u64) -> AppendOutcome {
        if expected != self.tail(stream) {
            AppendOutcome::Conflict(self.tail(stream) as u64)
        } else if self.tail(stream) == u64::MAX {
            AppendOutcome::Fault
        } else {
            AppendOutcome::Appended
        }
    }

    open spec fn fetch_ok(&self, stream: Seq<char>) -> bool {
        true
    }

    open spec fn schema_read_ok(&self, name: Seq<char>) -> bool {
        true
    }

    open spec fn upsert_ok(&self, name: Seq<char>) -> bool {
        self.tail(schema_stream(name)) < u64::MAX
    }

    fn append_event(&mut self, stream: &str, event: Event, expected_version: u64) -> (r: Result<
        (),
        EventStoreError,
    >) {
        InMemoryEventStore::append_event(self, stream, event, expected_version)
    }

    fn fetch_stream(&self, stream: &str) -> (r: Result<Vec<Event>, EventStoreError>) {
        proof {
            self.lemma_streams_dense(stream@);
        }
        InMemoryEventStore::fetch_stream(self, stream)
    }

    fn upsert_schema(&mut self, name: &str, definition: Vec<u8>, id: EventId) -> (r: Result<
        (),
        EventStoreError,
    >) {
        InMemoryEventStore::upsert_schema(self, name, definition, id)
    }

    fn get_schema(&self, name: &str) -> (r: Result<Option<Vec<u8>>, EventStoreError>) {
        InMemoryEventStore::get_schema(self, name)
    }
}

/// The tail that a stream's events end at: the last sequence number, or 0 for
/// no events.
pub fn tail_of(events: &Vec<Event>) -> (r: u64)
    ensures
        events@.len() == 0 ==> r == 0,
        events@.len() > 0 ==> r == events@.last().sequence_number,
{
    if events.len() == 0 {
        0
    } else {
        events[events.len() - 1].sequence_number
    }
}

} // verus!
