//! Encodings of events: the self-describing binary form kept on disk, and the
//! shape in which events travel between clients and nodes.
use vstd::prelude::*;

use crate::bytes::copy_bytes;
use crate::event::{
    copy_pairs, kind_name, kind_of_name, lemma_kind_name_round_trip, pairs_view, Event, EventId,
    EventKind, EventPayload, EventView, Timestamp,
};

verus! {

#[verifier::external_type_specification]
#[verifier::external_body]
pub struct ExCborError(serde_cbor::Error);

#[verifier::external_type_specification]
#[verifier::external_body]
pub struct ExUuidError(uuid::Error);

/// An event laid out as plain values for encoding: identifier high and low
/// halves, stream, sequence number, kind name, payload, timestamp, metadata.
pub type EventTuple = (u64, u64, String, u64, String, Vec<u8>, u64, Vec<(String, String)>);

/// The mathematical value of an [`EventTuple`].
pub type EventTupleView = (
    u64,
    u64,
    Seq<char>,
    u64,
    Seq<char>,
    Seq<u8>,
    u64,
    Seq<(Seq<char>, Seq<char>)>,
);

pub open spec fn tuple_view(t: EventTuple) -> EventTupleView {
    (t.0, t.1, t.2@, t.3, t.4@, t.5@, t.6, pairs_view(t.7@))
}

pub open spec fn two_pow_64() -> int {
    0x1_0000_0000_0000_0000
}

/// The plain values an event is encoded from.
pub open spec fn event_tuple(e: EventView) -> EventTupleView {
    (
        (e.id as int / two_pow_64()) as u64,
        (e.id as int % two_pow_64()) as u64,
        e.stream_id,
        e.sequence_number,
        kind_name(e.event_type),
        e.payload,
        e.timestamp,
        e.metadata,
    )
}

/// The event that decoded plain values denote.
pub open spec fn event_of_tuple(t: EventTupleView) -> EventView {
    EventView {
        id: (t.0 as int * two_pow_64() + t.1 as int) as u128,
        stream_id: t.2,
        sequence_number: t.3,
        event_type: kind_of_name(t.4),
        payload: t.5,
        timestamp: t.6,
        metadata: t.7,
    }
}

/// The CBOR bytes that serde_cbor writes for an event's plain values.
pub uninterp spec fn cbor_event(t: EventTupleView) -> Seq<u8>;

/// Relies on serde_cbor::to_vec: the CBOR encoding of the tuple, which depends
/// on its values alone. It writes into a `Vec`, which cannot fail, and none of
/// the tuple's types (unsigned 64-bit integers, strings, byte and pair lists)
/// has an error path in the serializer.
#[verifier::external_body]
fn cbor_to_vec(t: &EventTuple) -> (r: Result<Vec<u8>, serde_cbor::Error>)
    ensures
        r is Ok,
        r matches Ok(b) ==> b@ == cbor_event(tuple_view(*t)),
{
    serde_cbor::to_vec(t)
}

/// Relies on serde_cbor::from_slice: it reads back, for a tuple of the same
/// type, exactly the values that to_vec wrote.
#[verifier::external_body]
fn cbor_from_slice(b: &[u8]) -> (r: Result<EventTuple, serde_cbor::Error>)
    ensures
        forall|t: EventTupleView|
            b@ == #[trigger] cbor_event(t) ==> r is Ok && tuple_view(r->Ok_0) == t,
{
    serde_cbor::from_slice(b)
}

/// Relies on serde_cbor::Error's Display: its message.
#[verifier::external_body]
fn cbor_error_message(e: &serde_cbor::Error) -> (r: String)
{
    e.to_string()
}

/// Reading the plain values of an event gives back the event.
pub proof fn lemma_event_tuple_round_trip(e: EventView)
    ensures
        event_of_tuple(event_tuple(e)) == e,
{
    let id = e.id as int;
    let p = two_pow_64();
    assert(0 <= id / p < p && 0 <= id % p < p && (id / p) * p + id % p == id) by (nonlinear_arith)
        requires
            0 <= id < p * p,
            p == 0x1_0000_0000_0000_0000int,
    ;
    lemma_kind_name_round_trip(e.event_type);
}

/// The plain values of an event.
pub fn to_tuple(e: &Event) -> (r: EventTuple)
    ensures
        tuple_view(r) == event_tuple(e@),
{
    let id = e.id.0;
    let hi = id / 0x1_0000_0000_0000_0000u128;
    let lo = id % 0x1_0000_0000_0000_0000u128;
    proof {
        let p = two_pow_64();
        let i = id as int;
        assert(0 <= i / p < p && 0 <= i % p < p) by (nonlinear_arith)
            requires
                0 <= i < p * p,
                p == 0x1_0000_0000_0000_0000int,
        ;
        assert(hi as int == i / p && lo as int == i % p);
    }
    (
        hi as u64,
        lo as u64,
        e.stream_id.clone(),
        e.sequence_number,
        e.event_type.name(),
        copy_bytes(e.payload.0.as_slice()),
        e.timestamp.0,
        copy_pairs(&e.metadata),
    )
}

/// The event that plain values denote; an unrecognised kind name reads as
/// `Internal`.
pub fn from_tuple(t: EventTuple) -> (r: Event)
    ensures
        r@ == event_of_tuple(tuple_view(t)),
{
    let (hi, lo, stream_id, sequence_number, kind, payload, timestamp, metadata) = t;
    proof {
        let p = two_pow_64();
        assert(0 <= (hi as int) * p + (lo as int) < p * p) by (nonlinear_arith)
            requires
                0 <= hi < p,
                0 <= lo < p,
                p == 0x1_0000_0000_0000_0000int,
        ;
    }
    let id = (hi as u128) * 0x1_0000_0000_0000_0000u128 + (lo as u128);
    Event {
        id: EventId(id),
        stream_id,
        sequence_number,
        event_type: EventKind::from_name(kind.as_str()),
        payload: EventPayload(payload),
        timestamp: Timestamp(timestamp),
        metadata,
    }
}

/// Encodes an event in its on-disk form.
pub fn encode_event(e: &Event) -> (r: Result<Vec<u8>, crate::store::EventStoreError>)
    ensures
        r matches Ok(b) && b@ == cbor_event(event_tuple(e@)),
{
    let t = to_tuple(e);
    match cbor_to_vec(&t) {
        Ok(b) => Ok(b),
        Err(err) => Err(crate::store::EventStoreError::SerializationError(cbor_error_message(&err))),
    }
}

/// Decodes an event from its on-disk form; bytes that some event encodes to
/// decode to that event.
pub fn decode_event(b: &[u8]) -> (r: Result<Event, crate::store::EventStoreError>)
    ensures
        forall|e: EventView|
            b@ == #[trigger] cbor_event(event_tuple(e)) ==> (r matches Ok(d) && d@ == e),
        r matches Err(err) ==> err is SerializationError,
{
    match cbor_from_slice(b) {
        Ok(t) => {
            let d = from_tuple(t);
            proof {
                assert forall|e: EventView| b@ == #[trigger] cbor_event(event_tuple(e)) implies d@ == e by {
                    lemma_event_tuple_round_trip(e);
                }
            }
            Ok(d)
        },
        Err(err) => Err(crate::store::EventStoreError::SerializationError(cbor_error_message(&err))),
    }
}

/// The lower-case hexadecimal digits.
pub open spec fn hex_digits() -> Seq<char> {
    seq!['0', '1', '2', '3', '4', '5', '6', '7', '8', '9', 'a', 'b', 'c', 'd', 'e', 'f']
}

/// Nibble `j` of a 128-bit identifier, counting from the most significant.
pub open spec fn nibble(id: u128, j: int) -> u128 {
    (id >> ((124 - 4 * j) as u128)) & 0xfu128
}

/// The nibble that character `i` of the hyphenated form shows.
pub open spec fn nibble_at(i: int) -> int {
    if i < 8 {
        i
    } else if i < 13 {
        i - 1
    } else if i < 18 {
        i - 2
    } else if i < 23 {
        i - 3
    } else {
        i - 4
    }
}

/// The hyphenated lower-case form of a UUID: 32 hexadecimal digits, most
/// significant first, in groups of 8, 4, 4, 4 and 12 joined by `-`.
pub open spec fn uuid_text(id: u128) -> Seq<char> {
    Seq::new(
        36,
        |i: int|
            if i == 8 || i == 13 || i == 18 || i == 23 {
                '-'
            } else {
                hex_digits()[nibble(id, nibble_at(i)) as int]
            },
    )
}

/// Relies on uuid::Uuid's Display: the hyphenated, lower-case form.
#[verifier::external_body]
fn format_uuid(id: u128) -> (r: String)
    ensures
        r@ == uuid_text(id),
{
    uuid::Uuid::from_u128(id).to_string()
}

/// Relies on uuid::Uuid::parse_str: it reads the hyphenated form back.
#[verifier::external_body]
fn parse_uuid(s: &str) -> (r: Result<u128, uuid::Error>)
    ensures
        forall|id: u128| s@ == #[trigger] uuid_text(id) ==> r is Ok && r->Ok_0 == id,
{
    uuid::Uuid::parse_str(s).map(|u| u.as_u128())
}

/// Relies on uuid::Error's Display: its message.
#[verifier::external_body]
fn uuid_error_message(e: &uuid::Error) -> (r: String)
{
    e.to_string()
}

/// An event as it travels: the stream is a field of the request around it, and
/// the sequence number is assigned by storage.
#[derive(Debug, Clone)]
pub struct WireEvent {
    pub id: String,
    pub event_type: String,
    pub payload: Vec<u8>,
    pub timestamp: u64,
    pub metadata: Vec<(String, String)>,
}

/// The wire shape of an event.
pub fn to_wire(e: &Event) -> (r: WireEvent)
    ensures
        r.id@ == uuid_text(e.id.0),
        r.event_type@ == kind_name(e.event_type),
        r.payload@ == e.payload.0@,
        r.timestamp == e.timestamp.0,
        pairs_view(r.metadata@) == pairs_view(e.metadata@),
{
    WireEvent {
        id: format_uuid(e.id.0),
        event_type: e.event_type.name(),
        payload: copy_bytes(e.payload.0.as_slice()),
        timestamp: e.timestamp.0,
        metadata: copy_pairs(&e.metadata),
    }
}

/// The event a wire shape denotes, stamped with the stream of the request and
/// sequence number 0. A kind name outside the set reads as `Internal`; an
/// identifier that is not a UUID is an error.
pub fn from_wire(w: &WireEvent, stream_id: &str) -> (r: Result<Event, String>)
    ensures
        forall|id: u128| w.id@ == #[trigger] uuid_text(id) ==> (r matches Ok(e) && e.id.0 == id),
        r matches Ok(e) ==> {
            &&& e.stream_id@ == stream_id@
            &&& e.sequence_number == 0
            &&& e.event_type == kind_of_name(w.event_type@)
            &&& e.payload.0@ == w.payload@
            &&& e.timestamp.0 == w.timestamp
            &&& pairs_view(e.metadata@) == pairs_view(w.metadata@)
        },
{
    let id = match parse_uuid(w.id.as_str()) {
        Ok(id) => id,
        Err(err) => {
            return Err(uuid_error_message(&err));
        },
    };
    Ok(
        Event {
            id: EventId(id),
            stream_id: stream_id.to_string(),
            sequence_number: 0,
            event_type: EventKind::from_name(w.event_type.as_str()),
            payload: EventPayload(copy_bytes(w.payload.as_slice())),
            timestamp: Timestamp(w.timestamp),
            metadata: copy_pairs(&w.metadata),
        },
    )
}

} // verus!
