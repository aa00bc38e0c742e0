//! The ingest pipeline's decisions: routing a write to its owner, choosing the
//! worker of a stream, and the worker's read-modify-write of a batch.
use vstd::prelude::*;

use crate::cluster::{owner_index, stable_hash, stream_hash, ClusterTopology};
use crate::codec::{from_wire, uuid_text, WireEvent};
use crate::event::{kind_of_name, pairs_view, Event, EventView};
use crate::store::{events_view, stamped, EventStore};

verus! {

/// The number of workers of a pipeline.
pub const NUM_WORKERS: usize = 32;

/// The capacity of each worker's queue.
pub const WORKER_QUEUE_CAPACITY: usize = 1024;

/// The expected version that stands for "any tail".
pub const ANY_VERSION: i64 = -1;

/// Where an append goes.
#[derive(Debug, Clone, PartialEq)]
pub enum Route {
    /// This node owns the stream: validate and hand it to a worker.
    Local,
    /// Another node owns the stream: forward the request there, marked as
    /// forwarded.
    Forward { owner: String },
    /// A forwarded request reached a node that does not own the stream.
    NotOwner { node: String, owner: String, epoch: u64 },
}

/// Routes an append to `stream_id` that reached `self_addr`. A request that was
/// already forwarded is never forwarded again.
pub fn route_append(
    topology: &ClusterTopology,
    self_addr: &str,
    stream_id: &str,
    is_forwarded: bool,
) -> (r: Route)
    requires
        topology.nodes_view().len() > 0,
    ensures
        ({
            let owner = topology.nodes_view()[owner_index(
                stream_id@,
                topology.nodes_view().len(),
            )];
            &&& owner == self_addr@ ==> r is Local
            &&& owner != self_addr@ && !is_forwarded ==> (r matches Route::Forward { owner: o }
                && o@ == owner)
            &&& owner != self_addr@ && is_forwarded ==> (r matches Route::NotOwner {
                node,
                owner: o,
                epoch,
            } && node@ == self_addr@ && o@ == owner && epoch == topology.epoch_view())
        }),
        is_forwarded ==> !(r is Forward),
{
    let owner = topology.get_owner(stream_id);
    if crate::bytes::str_eq(owner.node_addr.as_str(), self_addr) {
        Route::Local
    } else if !is_forwarded {
        Route::Forward { owner: owner.node_addr }
    } else {
        Route::NotOwner { node: self_addr.to_string(), owner: owner.node_addr, epoch: owner.epoch }
    }
}

/// The worker that serialises the writes of `stream_id` among `n` workers.
pub fn worker_index(stream_id: &str, n: usize) -> (r: usize)
    requires
        n > 0,
    ensures
        r < n,
        r as int == stream_hash(stream_id@) as int % n as int,
{
    let h = stable_hash(stream_id);
    (h % (n as u64)) as usize
}

/// The address of this node: the `node_id`-th of the sorted nodes, else the
/// first node, else the local default.
pub fn select_self_addr(nodes: &[String], node_id: u64) -> (r: String)
    ensures
        node_id < nodes@.len() ==> r@ == nodes@[node_id as int]@,
        node_id >= nodes@.len() && nodes@.len() > 0 ==> r@ == nodes@[0]@,
        nodes@.len() == 0 ==> r@ == "127.0.0.1:50051"@,
{
    if (node_id as u128) < (nodes.len() as u128) {
        nodes[node_id as usize].clone()
    } else if nodes.len() > 0 {
        nodes[0].clone()
    } else {
        String::from_str("127.0.0.1:50051")
    }
}

/// The signed expected version that a wire value denotes: the 64 bits read as
/// two's complement, so that `u64::MAX` is -1, "any".
pub open spec fn signed_of(v: u64) -> i64 {
    if v as int > i64::MAX as int {
        (v as int - 0x1_0000_0000_0000_0000int) as i64
    } else {
        v as i64
    }
}

/// The expected version carried on the wire, read as the worker reads it.
pub fn decode_expected_version(v: u64) -> (r: i64)
    ensures
        r == signed_of(v),
        v == u64::MAX ==> r == ANY_VERSION,
{
    if v > (i64::MAX as u64) {
        let d: u64 = u64::MAX - v;
        let r: i64 = -1i64 - (d as i64);
        r
    } else {
        v as i64
    }
}

/// The tail that a batch is appended after: the current tail for "any", 0 for
/// any other negative value, else the caller's value.
pub open spec fn resolved_expected(expected: i64, tail: nat) -> int {
    if expected == ANY_VERSION {
        tail as int
    } else if expected < 0 {
        0
    } else {
        expected as int
    }
}

/// A batch as stored after tail `base`: each event stamped with the stream and
/// with the sequence numbers `base + 1`, `base + 2`, ...
pub open spec fn stamp_all(evs: Seq<EventView>, stream: Seq<char>, base: int) -> Seq<EventView> {
    Seq::new(evs.len(), |i: int| stamped(evs[i], stream, (base + i + 1) as u64))
}

/// Whether two states of a back-end agree on every stream but `stream` and on
/// every schema.
pub open spec fn same_elsewhere<S: EventStore>(a: &S, b: &S, stream: Seq<char>) -> bool {
    &&& forall|s: Seq<char>| s != stream ==> #[trigger] a.stream_events(s) == b.stream_events(s)
    &&& forall|n: Seq<char>| #[trigger] a.schema_def(n) == b.schema_def(n)
}

/// A worker's read-modify-write of a batch: the events are appended one by one
/// after the resolved tail. The batch is not atomic: on the first failed append
/// the rest is dropped and the result is `Ok(false)`; `Ok(true)` when all were
/// appended.
pub fn handle_append<S: EventStore>(
    store: &mut S,
    stream_id: &str,
    events: Vec<Event>,
    expected_version: i64,
) -> (r: Result<bool, String>)
    requires
        old(store).store_inv(),
    ensures
        final(store).store_inv(),
        final(store).infallible() == old(store).infallible(),
        same_elsewhere(final(store), old(store), stream_id@),
        ({
            let before = old(store).stream_events(stream_id@);
            let base = resolved_expected(expected_version, before.len());
            let evs = events_view(events@);
            &&& r matches Ok(true) ==> {
                &&& evs.len() > 0 ==> base == before.len()
                &&& final(store).stream_events(stream_id@) == before + stamp_all(
                    evs,
                    stream_id@,
                    base,
                )
                &&& final(store).stream_events(stream_id@).len() == before.len() + evs.len()
            }
            &&& r matches Ok(false) ==> exists|k: int|
                0 <= k < evs.len() && final(store).stream_events(stream_id@) == before + stamp_all(
                    evs.subrange(0, k),
                    stream_id@,
                    base,
                )
            &&& r is Err <==> expected_version == ANY_VERSION && !old(store).fetch_ok(stream_id@)
            &&& r is Err ==> final(store).stream_events(stream_id@) == before
            &&& old(store).infallible() && base == before.len() && base + evs.len() <= u64::MAX
                ==> r == Ok::<bool, String>(true)
            &&& evs.len() > 0 && base != before.len() ==> r == Ok::<bool, String>(false)
                && final(store).stream_events(stream_id@) == before
        }),
{
    let ghost before = store.stream_events(stream_id@);
    let ghost evs = events_view(events@);
    let base: u64 = if expected_version == ANY_VERSION {
        match store.fetch_stream(stream_id) {
            Ok(current) => {
                if current.len() > 0 {
                    let last = current.len() - 1;
                    proof {
                        assert(events_view(current@)[last as int] == current@[last as int]@);
                    }
                    current[last].sequence_number
                } else {
                    0
                }
            },
            Err(_) => {
                return Err(String::from_str("fetching the stream's tail failed"));
            },
        }
    } else if expected_version < 0 {
        0
    } else {
        expected_version as u64
    };
    assert(base as int == resolved_expected(expected_version, before.len()));
    let ghost start = *store;
    let mut current: u64 = base;
    let mut i: usize = 0;
    let n = events.len();
    while i < n
        invariant
            n == events@.len(),
            evs == events_view(events@),
            i <= n,
            current as int == base as int + i,
            store.store_inv(),
            store.infallible() == start.infallible(),
            start == *old(store),
            same_elsewhere(store, old(store), stream_id@),
            store.stream_events(stream_id@) == before + stamp_all(
                evs.subrange(0, i as int),
                stream_id@,
                base as int,
            ),
            before == old(store).stream_events(stream_id@),
            base as int == resolved_expected(expected_version, before.len()),
            i > 0 ==> base == before.len(),
            expected_version == ANY_VERSION ==> old(store).fetch_ok(stream_id@),
        decreases n - i,
    {
        let ev = events[i].duplicate();
        let ghost pre = *store;
        assert(stamp_all(evs.subrange(0, i as int), stream_id@, base as int).len() == i);
        match store.append_event(stream_id, ev, current) {
            Ok(()) => {
                proof {
                    assert(current as int == pre.stream_events(stream_id@).len());
                    assert(stamp_all(evs.subrange(0, i + 1), stream_id@, base as int) =~= stamp_all(
                        evs.subrange(0, i as int),
                        stream_id@,
                        base as int,
                    ).push(stamped(ev@, stream_id@, (current + 1) as u64)));
                    assert(store.stream_events(stream_id@) =~= before + stamp_all(
                        evs.subrange(0, i + 1),
                        stream_id@,
                        base as int,
                    ));
                }
                current = current + 1;
            },
            Err(_) => {
                proof {
                    if i == 0 {
                        assert(evs.subrange(0, 0) =~= Seq::<EventView>::empty());
                        assert(stamp_all(evs.subrange(0, 0), stream_id@, base as int) =~= Seq::<EventView>::empty());
                        assert(before + Seq::<EventView>::empty() =~= before);
                    }
                }
                return Ok(false);
            },
        }
        i = i + 1;
    }
    proof {
        assert(evs.subrange(0, n as int) =~= evs);
        if n == 0 {
            assert(stamp_all(evs, stream_id@, base as int) =~= Seq::<EventView>::empty());
            assert(before + Seq::<EventView>::empty() =~= before);
        }
    }
    Ok(true)
}


/// Whether a decoded event is the event a wire shape denotes in `stream`.
pub open spec fn decoded_from(e: Event, w: WireEvent, stream: Seq<char>) -> bool {
    &&& e.stream_id@ == stream
    &&& e.sequence_number == 0
    &&& e.event_type == kind_of_name(w.event_type@)
    &&& e.payload.0@ == w.payload@
    &&& e.timestamp.0 == w.timestamp
    &&& pairs_view(e.metadata@) == pairs_view(w.metadata@)
    &&& forall|id: u128| w.id@ == #[trigger] uuid_text(id) ==> e.id.0 == id
}

/// Reads an append request: each wire event becomes an event of the request's
/// stream, and the expected version is read as signed. The first event whose
/// identifier is not a UUID makes the request malformed.
pub fn decode_append_request(
    stream_id: &str,
    events: &Vec<WireEvent>,
    expected_version: u64,
) -> (r: Result<(Vec<Event>, i64), String>)
    ensures
        r matches Ok((v, ev)) ==> {
            &&& ev == signed_of(expected_version)
            &&& v@.len() == events@.len()
            &&& forall|i: int| 0 <= i < v@.len() ==> decoded_from(#[trigger] v@[i], events@[i], stream_id@)
        },
        (forall|i: int| 0 <= i < events@.len() ==> exists|id: u128| (#[trigger] events@[i]).id@ == uuid_text(id))
            ==> r is Ok,
{
    let mut out: Vec<Event> = Vec::new();
    let mut i: usize = 0;
    while i < events.len()
        invariant
            i <= events@.len(),
            out@.len() == i,
            forall|j: int| 0 <= j < i ==> decoded_from(#[trigger] out@[j], events@[j], stream_id@),
        decreases events@.len() - i,
    {
        match from_wire(&events[i], stream_id) {
            Ok(e) => {
                out.push(e);
            },
            Err(m) => {
                proof {
                    if exists|id: u128| events@[i as int].id@ == uuid_text(id) {
                        let id = choose|id: u128| events@[i as int].id@ == uuid_text(id);
                        assert(events@[i as int].id@ == uuid_text(id));
                    }
                }
                return Err(m);
            },
        }
        i = i + 1;
    }
    Ok((out, decode_expected_version(expected_version)))
}

} // verus!
