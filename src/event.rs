//! Events, the immutable records that streams are made of.
use vstd::prelude::*;

use crate::bytes::{copy_bytes, str_eq};

verus! {

/// The version nibble of a 128-bit identifier laid out as an RFC 9562 UUID.
pub open spec fn uuid_version(id: u128) -> u128 {
    (id >> 76u128) & 0xfu128
}

/// The two variant bits of a 128-bit identifier laid out as an RFC 9562 UUID.
pub open spec fn uuid_variant(id: u128) -> u128 {
    (id >> 62u128) & 0x3u128
}

/// Relies on std::time::SystemTime::now and duration_since(UNIX_EPOCH): the
/// milliseconds since the Unix epoch, or `None` where the clock reads earlier.
#[verifier::external_body]
fn unix_millis_now() -> (r: Option<u64>)
{
    std::time::SystemTime::now()
        .duration_since(std::time::UNIX_EPOCH)
        .ok()
        .map(|d| d.as_millis() as u64)
}

/// A globally unique, time-ordered identifier: the 128 bits of a UUID.
#[derive(Debug, Clone, Copy, PartialEq, Eq)]
pub struct EventId(pub u128);

/// The version 7 UUID laid out from a Unix time in milliseconds (its low 48
/// bits) and random bits (the low 74 are used): time, version 7, 12 random
/// bits, the RFC variant, 62 random bits.
pub open spec fn v7_layout(unix_ms: u64, random: u128) -> u128 {
    (((unix_ms as u128) & 0xffff_ffff_ffffu128) << 80u128) | (0x7u128 << 76u128) | (((random
        >> 62u128) & 0xfffu128) << 64u128) | (0x2u128 << 62u128) | (random
        & 0x3fff_ffff_ffff_ffffu128)
}

impl EventId {
    /// The version 7 UUID of a creation time and random bits, which the caller
    /// reads from the clock and draws.
    pub fn new(unix_ms: u64, random: u128) -> (r: EventId)
        ensures
            r.0 == v7_layout(unix_ms, random),
            uuid_version(r.0) == 7,
            uuid_variant(r.0) == 2,
            r.0 >> 80u128 == (unix_ms as u128) & 0xffff_ffff_ffffu128,
    {
        let ms = unix_ms as u128;
        let id: u128 = ((ms & 0xffff_ffff_ffffu128) << 80u128) | (0x7u128 << 76u128) | (((random
            >> 62u128) & 0xfffu128) << 64u128) | (0x2u128 << 62u128) | (random
            & 0x3fff_ffff_ffff_ffffu128);
        assert(((id >> 76u128) & 0xfu128) == 7 && ((id >> 62u128) & 0x3u128) == 2 && id >> 80u128
            == ms & 0xffff_ffff_ffffu128) by (bit_vector)
            requires
                id == ((ms & 0xffff_ffff_ffffu128) << 80u128) | (0x7u128 << 76u128) | (((random
                    >> 62u128) & 0xfffu128) << 64u128) | (0x2u128 << 62u128) | (random
                    & 0x3fff_ffff_ffff_ffffu128),
        ;
        EventId(id)
    }
}

/// Milliseconds since the Unix epoch.
#[derive(Debug, Clone, Copy, PartialEq, Eq)]
pub struct Timestamp(pub u64);

impl Timestamp {
    /// The current wall-clock time; 0 where the clock reads before the epoch.
    pub fn now() -> (r: Timestamp) {
        match unix_millis_now() {
            Some(ms) => Timestamp(ms),
            None => Timestamp(0),
        }
    }
}

/// The opaque bytes an event carries.
#[derive(Debug, Clone)]
pub struct EventPayload(pub Vec<u8>);

/// The closed set of event kinds.
#[derive(Debug, Clone, Copy, PartialEq, Eq, Structural)]
pub enum EventKind {
    Internal,
    Schematic,
    Transactional,
    External,
}

/// The name under which a kind travels and under which its schema is registered.
pub open spec fn kind_name(k: EventKind) -> Seq<char> {
    match k {
        EventKind::Internal => seq!['I', 'n', 't', 'e', 'r', 'n', 'a', 'l'],
        EventKind::Schematic => seq!['S', 'c', 'h', 'e', 'm', 'a', 't', 'i', 'c'],
        EventKind::Transactional => seq![
            'T', 'r', 'a', 'n', 's', 'a', 'c', 't', 'i', 'o', 'n', 'a', 'l',
        ],
        EventKind::External => seq!['E', 'x', 't', 'e', 'r', 'n', 'a', 'l'],
    }
}

/// The kind a name denotes; an unrecognised name denotes `Internal`.
pub open spec fn kind_of_name(s: Seq<char>) -> EventKind {
    if s == kind_name(EventKind::Schematic) {
        EventKind::Schematic
    } else if s == kind_name(EventKind::Transactional) {
        EventKind::Transactional
    } else if s == kind_name(EventKind::External) {
        EventKind::External
    } else {
        EventKind::Internal
    }
}

impl EventKind {
    /// The kind's name.
    pub fn name(&self) -> (r: String)
        ensures
            r@ == kind_name(*self),
    {
        let r = match self {
            EventKind::Internal => String::from_str("Internal"),
            EventKind::Schematic => String::from_str("Schematic"),
            EventKind::Transactional => String::from_str("Transactional"),
            EventKind::External => String::from_str("External"),
        };
        proof {
            reveal_strlit("Internal");
            reveal_strlit("Schematic");
            reveal_strlit("Transactional");
            reveal_strlit("External");
            assert(r@ =~= kind_name(*self));
        }
        r
    }

    /// The kind that a name denotes, `Internal` for a name outside the set.
    pub fn from_name(s: &str) -> (r: EventKind)
        ensures
            r == kind_of_name(s@),
    {
        proof {
            reveal_strlit("Schematic");
            reveal_strlit("Transactional");
            reveal_strlit("External");
            assert("Schematic"@ =~= kind_name(EventKind::Schematic));
            assert("Transactional"@ =~= kind_name(EventKind::Transactional));
            assert("External"@ =~= kind_name(EventKind::External));
        }
        if str_eq(s, "Schematic") {
            EventKind::Schematic
        } else if str_eq(s, "Transactional") {
            EventKind::Transactional
        } else if str_eq(s, "External") {
            EventKind::External
        } else {
            EventKind::Internal
        }
    }
}

/// Reading a kind's name gives back the kind.
pub proof fn lemma_kind_name_round_trip(k: EventKind)
    ensures
        kind_of_name(kind_name(k)) == k,
{
    assert(kind_name(EventKind::Internal) != kind_name(EventKind::Schematic));
    assert(kind_name(EventKind::Internal)[0] != kind_name(EventKind::Transactional)[0]);
    assert(kind_name(EventKind::Internal)[0] != kind_name(EventKind::External)[0]);
    assert(kind_name(EventKind::Schematic)[0] != kind_name(EventKind::Transactional)[0]);
    assert(kind_name(EventKind::Schematic)[0] != kind_name(EventKind::External)[0]);
    assert(kind_name(EventKind::Transactional)[0] != kind_name(EventKind::External)[0]);
}

/// The name of a registered schema type.
#[derive(Debug, Clone)]
pub struct SchemaType(pub String);

/// What an event holds, as mathematical values.
pub struct EventView {
    pub id: u128,
    pub stream_id: Seq<char>,
    pub sequence_number: u64,
    pub event_type: EventKind,
    pub payload: Seq<u8>,
    pub timestamp: u64,
    pub metadata: Seq<(Seq<char>, Seq<char>)>,
}

/// An immutable record in a stream.
#[derive(Debug, Clone)]
pub struct Event {
    /// Unique, time-ordered identifier.
    pub id: EventId,
    /// The stream the event belongs to; stamped by the server.
    pub stream_id: String,
    /// Position within the stream, from 1; assigned by storage on append.
    pub sequence_number: u64,
    /// The event's kind.
    pub event_type: EventKind,
    /// The opaque payload.
    pub payload: EventPayload,
    /// Milliseconds since the Unix epoch, set at ingest.
    pub timestamp: Timestamp,
    /// Context pairs (tracing, saga state), one per key.
    pub metadata: Vec<(String, String)>,
}

/// The mathematical value of a list of text pairs.
pub open spec fn pairs_view(v: Seq<(String, String)>) -> Seq<(Seq<char>, Seq<char>)> {
    v.map_values(|p: (String, String)| (p.0@, p.1@))
}

impl View for Event {
    type V = EventView;

    open spec fn view(&self) -> EventView {
        EventView {
            id: self.id.0,
            stream_id: self.stream_id@,
            sequence_number: self.sequence_number,
            event_type: self.event_type,
            payload: self.payload.0@,
            timestamp: self.timestamp.0,
            metadata: pairs_view(self.metadata@),
        }
    }
}

/// A fresh list with the same text pairs.
pub fn copy_pairs(v: &Vec<(String, String)>) -> (r: Vec<(String, String)>)
    ensures
        pairs_view(r@) == pairs_view(v@),
{
    let mut r: Vec<(String, String)> = Vec::new();
    let mut i: usize = 0;
    while i < v.len()
        invariant
            i <= v@.len(),
            pairs_view(r@) == pairs_view(v@.subrange(0, i as int)),
        decreases v@.len() - i,
    {
        let k = v[i].0.clone();
        let x = v[i].1.clone();
        let ghost before = r@;
        r.push((k, x));
        proof {
            assert(v@.subrange(0, i + 1) =~= v@.subrange(0, i as int).push(v@[i as int]));
            assert(r@ =~= before.push((k, x)));
            assert(pairs_view(r@) =~= pairs_view(before).push((k@, x@)));
            assert(pairs_view(v@.subrange(0, i + 1)) =~= pairs_view(v@.subrange(0, i as int)).push((k@, x@)));
        }
        i = i + 1;
    }
    assert(v@.subrange(0, v@.len() as int) =~= v@);
    r
}

impl Event {
    /// A new event of the given stream, kind and payload, with the given
    /// identifier, the current time, no metadata and sequence number 0 until
    /// storage assigns one.
    pub fn new(stream_id: &str, event_type: EventKind, payload: EventPayload, id: EventId) -> (r:
        Event)
        ensures
            r.stream_id@ == stream_id@,
            r.sequence_number == 0,
            r.event_type == event_type,
            r.payload.0@ == payload.0@,
            r.metadata@.len() == 0,
            r.id == id,
    {
        Event {
            id,
            stream_id: stream_id.to_string(),
            sequence_number: 0,
            event_type,
            payload,
            timestamp: Timestamp::now(),
            metadata: Vec::new(),
        }
    }

    /// A copy of this event that verified code can reason about.
    pub fn duplicate(&self) -> (r: Event)
        ensures
            r@ == self@,
    {
        Event {
            id: self.id,
            stream_id: self.stream_id.clone(),
            sequence_number: self.sequence_number,
            event_type: self.event_type,
            payload: EventPayload(copy_bytes(self.payload.0.as_slice())),
            timestamp: self.timestamp,
            metadata: copy_pairs(&self.metadata),
        }
    }
}

} // verus!
