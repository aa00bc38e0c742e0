//! Snapshots: the latest checkpoint of a stream, in a compact framed encoding.
use vstd::prelude::*;
use vstd::bytes::{
    lemma_auto_spec_u64_to_from_le_bytes, spec_u64_from_le_bytes, spec_u64_to_le_bytes,
    u64_from_le_bytes, u64_to_le_bytes,
};

use crate::bytes::push_all;

verus! {

/// A stream's checkpoint: consumers load it, then replay from `version + 1`.
#[derive(Debug, Clone)]
pub struct Snapshot {
    pub stream_id: String,
    pub version: u64,
    pub payload: Vec<u8>,
    pub timestamp: u64,
}

/// What a snapshot can fail with.
#[derive(Debug)]
pub enum SnapshotError {
    StorageError(String),
    SerializationError(String),
    Unknown(String),
}

/// The eight big-endian bytes of `x`.
pub open spec fn be64(x: u64) -> Seq<u8> {
    spec_u64_to_le_bytes(x).reverse()
}

/// The number that eight big-endian bytes denote.
pub open spec fn be64_value(s: Seq<u8>) -> u64 {
    spec_u64_from_le_bytes(s.reverse())
}

/// The stored form of a snapshot: version, timestamp, then the payload.
pub open spec fn snapshot_bytes(version: u64, timestamp: u64, payload: Seq<u8>) -> Seq<u8> {
    be64(version) + be64(timestamp) + payload
}

/// What a stored record denotes: `(version, timestamp, payload)`, or nothing for a
/// record shorter than 16 bytes.
pub open spec fn decoded_snapshot(b: Seq<u8>) -> Option<(u64, u64, Seq<u8>)> {
    if b.len() < 16 {
        None
    } else {
        Some(
            (
                be64_value(b.subrange(0, 8)),
                be64_value(b.subrange(8, 16)),
                b.subrange(16, b.len() as int),
            ),
        )
    }
}

/// The key under which a stream's snapshot is stored.
pub open spec fn snapshot_key(stream: Seq<char>) -> Seq<char> {
    seq!['s', 'n', 'a', 'p', 's', 'h', 'o', 't', ':'] + stream
}

/// The text `snapshot:<stream_id>`.
pub fn snapshot_key_of(stream_id: &str) -> (r: String)
    ensures
        r@ == snapshot_key(stream_id@),
{
    let mut s = String::from_str("snapshot:");
    proof {
        reveal_strlit("snapshot:");
        assert(s@ =~= seq!['s', 'n', 'a', 'p', 's', 'h', 'o', 't', ':']);
    }
    s.append(stream_id);
    s
}

fn push_be64(out: &mut Vec<u8>, x: u64)
    ensures
        final(out)@ == old(out)@ + be64(x),
{
    let le = u64_to_le_bytes(x);
    let mut i: usize = 8;
    let ghost start = out@;
    while i > 0
        invariant
            i <= 8,
            le@ == spec_u64_to_le_bytes(x),
            le@.len() == 8,
            out@ == start + le@.reverse().subrange(0, 8 - i),
        decreases i,
    {
        i = i - 1;
        out.push(le[i]);
        assert(le@.reverse().subrange(0, 8 - i) =~= le@.reverse().subrange(0, 7 - i).push(le@[i as int]));
    }
    assert(le@.reverse().subrange(0, 8) =~= le@.reverse());
}

fn read_be64(b: &[u8], at: usize) -> (r: u64)
    requires
        at + 8 <= b@.len(),
    ensures
        r == be64_value(b@.subrange(at as int, at + 8)),
{
    let mut le: Vec<u8> = Vec::new();
    let mut i: usize = 8;
    let n = b.len();
    while i > 0
        invariant
            i <= 8,
            n == b@.len(),
            at + 8 <= b@.len(),
            le@ == b@.subrange(at as int, at + 8).reverse().subrange(0, 8 - i),
        decreases i,
    {
        i = i - 1;
        le.push(b[at + i]);
        assert(b@.subrange(at as int, at + 8).reverse().subrange(0, 8 - i) =~= b@.subrange(
            at as int,
            at + 8,
        ).reverse().subrange(0, 7 - i).push(b@[at + i]));
    }
    assert(le@ =~= b@.subrange(at as int, at + 8).reverse());
    u64_from_le_bytes(le.as_slice())
}

/// The stored form of a snapshot: `[version: 8 bytes BE][timestamp: 8 bytes BE][payload]`.
pub fn encode_snapshot(s: &Snapshot) -> (r: Vec<u8>)
    ensures
        r@ == snapshot_bytes(s.version, s.timestamp, s.payload@),
{
    let mut buf: Vec<u8> = Vec::new();
    push_be64(&mut buf, s.version);
    push_be64(&mut buf, s.timestamp);
    push_all(&mut buf, s.payload.as_slice());
    assert(buf@ =~= snapshot_bytes(s.version, s.timestamp, s.payload@));
    buf
}

/// The snapshot of `stream_id` that a stored record holds; `None` for a record
/// shorter than 16 bytes, which is treated as absent.
pub fn decode_snapshot(stream_id: &str, b: &[u8]) -> (r: Option<Snapshot>)
    ensures
        match decoded_snapshot(b@) {
            None => r is None,
            Some((v, t, p)) => r matches Some(s) && s.stream_id@ == stream_id@ && s.version == v
                && s.timestamp == t && s.payload@ == p,
        },
{
    if b.len() < 16 {
        return None;
    }
    let version = read_be64(b, 0);
    let timestamp = read_be64(b, 8);
    let mut payload: Vec<u8> = Vec::new();
    let mut i: usize = 16;
    while i < b.len()
        invariant
            16 <= i <= b@.len(),
            payload@ == b@.subrange(16, i as int),
        decreases b@.len() - i,
    {
        payload.push(b[i]);
        i = i + 1;
        assert(b@.subrange(16, i as int) =~= b@.subrange(16, i - 1).push(b@[i - 1]));
    }
    Some(Snapshot { stream_id: stream_id.to_string(), version, payload, timestamp })
}

/// Decoding the stored form of a snapshot gives back its version, timestamp and
/// payload, an empty payload included.
pub proof fn lemma_snapshot_round_trip(version: u64, timestamp: u64, payload: Seq<u8>)
    ensures
        decoded_snapshot(snapshot_bytes(version, timestamp, payload)) == Some(
            (version, timestamp, payload),
        ),
{
    lemma_auto_spec_u64_to_from_le_bytes();
    let b = snapshot_bytes(version, timestamp, payload);
    assert(spec_u64_to_le_bytes(version).len() == 8);
    assert(spec_u64_to_le_bytes(timestamp).len() == 8);
    assert(b.subrange(0, 8) =~= be64(version));
    assert(b.subrange(8, 16) =~= be64(timestamp));
    assert(b.subrange(16, b.len() as int) =~= payload);
    assert(be64(version).reverse() =~= spec_u64_to_le_bytes(version));
    assert(be64(timestamp).reverse() =~= spec_u64_to_le_bytes(timestamp));
}

/// Snapshots held in memory, one per stream in its stored form; saving
/// overwrites.
pub struct MemorySnapshotStore {
    records: Vec<(String, Vec<u8>)>,
}

impl MemorySnapshotStore {
    /// The stored record of a stream, if any.
    pub closed spec fn record(&self, stream: Seq<char>) -> Option<Seq<u8>> {
        if exists|i: int| 0 <= i < self.records@.len() && (#[trigger] self.records@[i]).0@ == stream {
            let i = choose|i: int|
                0 <= i < self.records@.len() && (#[trigger] self.records@[i]).0@ == stream;
            Some(self.records@[i].1@)
        } else {
            None
        }
    }

    /// The invariant: one record per stream.
    pub closed spec fn wf(&self) -> bool {
        forall|i: int, j: int|
            0 <= i < j < self.records@.len() ==> (#[trigger] self.records@[i]).0@
                != (#[trigger] self.records@[j]).0@
    }

    proof fn lemma_record_at(&self, i: int)
        requires
            self.wf(),
            0 <= i < self.records@.len(),
        ensures
            self.record(self.records@[i].0@) == Some(self.records@[i].1@),
    {
        let s = self.records@[i].0@;
        assert(0 <= i < self.records@.len() && self.records@[i].0@ == s);
        let k = choose|k: int| 0 <= k < self.records@.len() && (#[trigger] self.records@[k]).0@ == s;
        if k < i {
            assert(self.records@[k].0@ != self.records@[i].0@);
        } else if i < k {
            assert(self.records@[i].0@ != self.records@[k].0@);
        }
    }

    /// An empty store.
    pub fn new() -> (r: MemorySnapshotStore)
        ensures
            r.wf(),
            forall|s: Seq<char>| #[trigger] r.record(s) == None::<Seq<u8>>,
    {
        MemorySnapshotStore { records: Vec::new() }
    }

    fn find(&self, s: &str) -> (r: Option<usize>)
        ensures
            match r {
                Some(i) => i < self.records@.len() && self.records@[i as int].0@ == s@,
                None => forall|i: int|
                    0 <= i < self.records@.len() ==> (#[trigger] self.records@[i]).0@ != s@,
            },
    {
        let mut i: usize = 0;
        while i < self.records.len()
            invariant
                i <= self.records@.len(),
                forall|j: int| 0 <= j < i ==> (#[trigger] self.records@[j]).0@ != s@,
            decreases self.records@.len() - i,
        {
            if crate::bytes::str_eq(self.records[i].0.as_str(), s) {
                return Some(i);
            }
            i = i + 1;
        }
        None
    }

    /// Stores the snapshot, replacing any earlier one of its stream.
    pub fn save_snapshot(&mut self, snapshot: Snapshot) -> (r: Result<(), SnapshotError>)
        requires
            old(self).wf(),
        ensures
            final(self).wf(),
            r is Ok,
            final(self).record(snapshot.stream_id@) == Some(
                snapshot_bytes(snapshot.version, snapshot.timestamp, snapshot.payload@),
            ),
            forall|s: Seq<char>|
                s != snapshot.stream_id@ ==> #[trigger] final(self).record(s) == old(self).record(s),
    {
        let bytes = encode_snapshot(&snapshot);
        let ghost old_self = *self;
        let name = snapshot.stream_id;
        match self.find(name.as_str()) {
            Some(i) => {
                let (n, _) = self.records.remove(i);
                self.records.insert(i, (n, bytes));
                proof {
                    assert(self.records@ =~= old_self.records@.update(i as int, self.records@[i as int]));
                    assert forall|a: int, b: int|
                        0 <= a < b < self.records@.len() implies (#[trigger] self.records@[a]).0@
                        != (#[trigger] self.records@[b]).0@ by {
                        assert(old_self.records@[a].0@ != old_self.records@[b].0@);
                    }
                    self.lemma_record_at(i as int);
                }
            },
            None => {
                self.records.push((name, bytes));
                proof {
                    let n = old_self.records@.len() as int;
                    assert(self.records@ =~= old_self.records@.push(self.records@[n]));
                    assert forall|a: int, b: int|
                        0 <= a < b < self.records@.len() implies (#[trigger] self.records@[a]).0@
                        != (#[trigger] self.records@[b]).0@ by {
                        if b < n {
                            assert(old_self.records@[a].0@ != old_self.records@[b].0@);
                        }
                    }
                    self.lemma_record_at(n);
                }
            },
        }
        proof {
            assert forall|m: Seq<char>| m != snapshot.stream_id@ implies #[trigger] self.record(m) == old_self.record(m) by {
                if exists|k: int| 0 <= k < self.records@.len() && (#[trigger] self.records@[k]).0@ == m {
                    let k = choose|k: int| 0 <= k < self.records@.len() && (#[trigger] self.records@[k]).0@ == m;
                    self.lemma_record_at(k);
                    old_self.lemma_record_at(k);
                } else {
                    assert forall|k: int| 0 <= k < old_self.records@.len() implies (#[trigger] old_self.records@[k]).0@ != m by {
                        assert(self.records@[k].0@ != m);
                    }
                }
            }
        }
        Ok(())
    }

    /// The latest snapshot of a stream; `None` if none was saved or the stored
    /// record is shorter than 16 bytes.
    pub fn get_snapshot(&self, stream_id: &str) -> (r: Result<Option<Snapshot>, SnapshotError>)
        requires
            self.wf(),
        ensures
            r matches Ok(o) && match self.record(stream_id@) {
                None => o is None,
                Some(b) => match decoded_snapshot(b) {
                    None => o is None,
                    Some((v, t, p)) => o matches Some(s) && s.stream_id@ == stream_id@ && s.version
                        == v && s.timestamp == t && s.payload@ == p,
                },
            },
    {
        match self.find(stream_id) {
            Some(i) => {
                proof {
                    self.lemma_record_at(i as int);
                }
                Ok(decode_snapshot(stream_id, self.records[i].1.as_slice()))
            },
            None => Ok(None),
        }
    }
}


/// The snapshot contract: saving overwrites a stream's snapshot, reading gives
/// the latest one.
pub trait SnapshotStore {
    /// The latest snapshot of a stream as `(version, timestamp, payload)`.
    spec fn latest(&self, stream: Seq<char>) -> Option<(u64, u64, Seq<u8>)>;

    /// The store's invariant.
    spec fn snapshot_inv(&self) -> bool;

    /// Saves a snapshot, replacing the stream's earlier one.
    fn save_snapshot(&mut self, snapshot: Snapshot) -> (r: Result<(), SnapshotError>)
        requires
            old(self).snapshot_inv(),
        ensures
            final(self).snapshot_inv(),
            r is Ok ==> final(self).latest(snapshot.stream_id@) == Some(
                (snapshot.version, snapshot.timestamp, snapshot.payload@),
            ),
            r is Ok ==> forall|s: Seq<char>|
                s != snapshot.stream_id@ ==> #[trigger] final(self).latest(s) == old(self).latest(s),
    ;

    /// The latest snapshot of a stream, if any.
    fn get_snapshot(&self, stream_id: &str) -> (r: Result<Option<Snapshot>, SnapshotError>)
        requires
            self.snapshot_inv(),
        ensures
            r matches Ok(o) ==> match self.latest(stream_id@) {
                None => o is None,
                Some((v, t, p)) => o matches Some(s) && s.stream_id@ == stream_id@ && s.version == v
                    && s.timestamp == t && s.payload@ == p,
            },
    ;
}

impl SnapshotStore for MemorySnapshotStore {
    closed spec fn latest(&self, stream: Seq<char>) -> Option<(u64, u64, Seq<u8>)> {
        match self.record(stream) {
            Some(b) => decoded_snapshot(b),
            None => None,
        }
    }

    closed spec fn snapshot_inv(&self) -> bool {
        self.wf()
    }

    fn save_snapshot(&mut self, snapshot: Snapshot) -> (r: Result<(), SnapshotError>) {
        proof {
            lemma_snapshot_round_trip(snapshot.version, snapshot.timestamp, snapshot.payload@);
        }
        MemorySnapshotStore::save_snapshot(self, snapshot)
    }

    fn get_snapshot(&self, stream_id: &str) -> (r: Result<Option<Snapshot>, SnapshotError>) {
        MemorySnapshotStore::get_snapshot(self, stream_id)
    }
}

} // verus!
