//! The local key-value back-end's layout and decisions. Keys are
//! `stream:<id>:<seq as 20 zero-padded digits>` (so that key order is sequence
//! order), `meta:<id>` holding the tail as ASCII decimal, and `schema:<name>`
//! holding the current definition. The engine itself reads and writes; the
//! functions here decide what to read back and what to write.
use vstd::prelude::*;
use vstd::utf8::encode_utf8;

use crate::bytes::{is_prefix, push_all, starts_with};
use crate::codec::{cbor_event, decode_event, encode_event, event_tuple};
use crate::event::{Event, EventView};
use crate::store::{stamped, EventStoreError};

verus! {

/// The ASCII digit of `d`.
pub open spec fn digit(d: nat) -> u8 {
    (48 + d) as u8
}

/// The shortest decimal text of `n`.
pub open spec fn decimal(n: nat) -> Seq<u8>
    decreases n,
{
    if n < 10 {
        seq![digit(n)]
    } else {
        decimal(n / 10).push(digit(n % 10))
    }
}

/// The last `w` decimal digits of `n`, zero-padded.
pub open spec fn padded(n: nat, w: nat) -> Seq<u8>
    decreases w,
{
    if w == 0 {
        Seq::empty()
    } else {
        padded(n / 10, (w - 1) as nat).push(digit(n % 10))
    }
}

pub open spec fn is_digit(b: u8) -> bool {
    48 <= b <= 57
}

/// The number a string of digits denotes.
pub open spec fn digits_value(s: Seq<u8>) -> nat
    decreases s.len(),
{
    if s.len() == 0 {
        0
    } else {
        digits_value(s.drop_last()) * 10 + (s.last() - 48) as nat
    }
}

/// A text without its leading `+`, if it has one.
pub open spec fn unsigned_part(s: Seq<u8>) -> Seq<u8> {
    if s.len() > 0 && s[0] == 43 {
        s.drop_first()
    } else {
        s
    }
}

/// The unsigned number a text denotes, as `str::parse::<u64>` reads it: an
/// optional `+`, then one or more digits, with a value that fits.
pub open spec fn parse_decimal(s: Seq<u8>) -> Option<u64> {
    let d = unsigned_part(s);
    if d.len() > 0 && (forall|i: int| 0 <= i < d.len() ==> is_digit(#[trigger] d[i]))
        && digits_value(d) <= u64::MAX {
        Some(digits_value(d) as u64)
    } else {
        None
    }
}

proof fn lemma_decimal(n: nat)
    ensures
        decimal(n).len() > 0,
        forall|i: int| 0 <= i < decimal(n).len() ==> is_digit(#[trigger] decimal(n)[i]),
        digits_value(decimal(n)) == n,
    decreases n,
{
    if n >= 10 {
        lemma_decimal(n / 10);
        let s = decimal(n);
        assert(s.drop_last() =~= decimal(n / 10));
        assert(s.last() == digit(n % 10));
        assert((n / 10) * 10 + n % 10 == n) by (nonlinear_arith);
        assert(digits_value(s) == digits_value(decimal(n / 10)) * 10 + (n % 10));
    } else {
        let s = seq![digit(n)];
        assert(s.drop_last() =~= Seq::<u8>::empty());
        assert(digits_value(Seq::<u8>::empty()) == 0);
        assert(digits_value(s) == digits_value(s.drop_last()) * 10 + (s.last() - 48) as nat);
    }
}

/// Reading back the decimal text of a number gives the number.
pub proof fn lemma_decimal_round_trip(n: u64)
    ensures
        parse_decimal(decimal(n as nat)) == Some(n),
{
    lemma_decimal(n as nat);
    assert(is_digit(decimal(n as nat)[0]));
}

proof fn lemma_digits_value_prefix(s: Seq<u8>, k: int)
    requires
        0 <= k <= s.len(),
        forall|i: int| 0 <= i < s.len() ==> is_digit(#[trigger] s[i]),
    ensures
        digits_value(s) >= digits_value(s.subrange(0, k)),
    decreases s.len(),
{
    if k < s.len() {
        assert(s.drop_last().subrange(0, k) =~= s.subrange(0, k));
        lemma_digits_value_prefix(s.drop_last(), k);
    } else {
        assert(s.subrange(0, k) =~= s);
    }
}

/// Appends the shortest decimal text of `n`.
pub fn push_decimal(out: &mut Vec<u8>, n: u64)
    ensures
        final(out)@ == old(out)@ + decimal(n as nat),
    decreases n,
{
    if n >= 10 {
        push_decimal(out, n / 10);
    }
    out.push(48u8 + (n % 10) as u8);
    assert(out@ =~= old(out)@ + decimal(n as nat));
}

/// Appends the last `w` decimal digits of `n`, zero-padded.
pub fn push_padded(out: &mut Vec<u8>, n: u64, w: u64)
    ensures
        final(out)@ == old(out)@ + padded(n as nat, w as nat),
    decreases w,
{
    if w > 0 {
        push_padded(out, n / 10, w - 1);
        out.push(48u8 + (n % 10) as u8);
    }
    assert(out@ =~= old(out)@ + padded(n as nat, w as nat));
}

/// The decimal text of `n`, as `u64::to_string` writes it.
pub fn decimal_text(n: u64) -> (r: Vec<u8>)
    ensures
        r@ == decimal(n as nat),
{
    let mut r: Vec<u8> = Vec::new();
    push_decimal(&mut r, n);
    assert(r@ =~= decimal(n as nat));
    r
}

/// Reads an unsigned decimal number as `str::parse::<u64>` does.
pub fn parse_u64(s: &[u8]) -> (r: Option<u64>)
    ensures
        r == parse_decimal(s@),
{
    let n = s.len();
    let start: usize = if n > 0 && s[0] == 43u8 {
        1
    } else {
        0
    };
    let ghost d = unsigned_part(s@);
    assert(d =~= s@.subrange(start as int, n as int));
    if start >= n {
        return None;
    }
    let mut acc: u64 = 0;
    let mut i: usize = start;
    while i < n
        invariant
            n == s@.len(),
            start <= i <= n,
            d == s@.subrange(start as int, n as int),
            d == unsigned_part(s@),
            forall|j: int| 0 <= j < i - start ==> is_digit(#[trigger] d[j]),
            acc as nat == digits_value(d.subrange(0, i - start)),
        decreases n - i,
    {
        let b = s[i];
        if b < 48u8 || b > 57u8 {
            assert(d[i - start] == s@[i as int]);
            assert(!is_digit(d[i - start]));
            assert(parse_decimal(s@) is None);
            return None;
        }
        let dv = (b - 48u8) as u64;
        let ghost pre = d.subrange(0, i - start);
        let ghost next = d.subrange(0, i - start + 1);
        assert(next.drop_last() =~= pre);
        assert(next.last() == b);
        assert(digits_value(next) == digits_value(pre) * 10 + (b - 48) as nat);
        if acc > (u64::MAX - dv) / 10 {
            proof {
                assert(acc * 10 + dv > u64::MAX) by (nonlinear_arith)
                    requires
                        acc > (u64::MAX - dv) / 10,
                        dv <= 9,
                ;
                assert(digits_value(next) == acc * 10 + dv);
                if forall|j: int| 0 <= j < d.len() ==> is_digit(#[trigger] d[j]) {
                    lemma_digits_value_prefix(d, i - start + 1);
                }
                assert(parse_decimal(s@) is None);
            }
            return None;
        }
        proof {
            assert(acc * 10 + dv <= u64::MAX) by (nonlinear_arith)
                requires
                    acc <= (u64::MAX - dv) / 10,
                    dv <= 9,
            ;
        }
        acc = acc * 10 + dv;
        i = i + 1;
    }
    assert(d.subrange(0, n - start) =~= d);
    Some(acc)
}

/// The tail that a stored `meta:` value denotes; 0 when it is absent or not a
/// number.
pub open spec fn tail_of_meta(meta: Option<Seq<u8>>) -> u64 {
    match meta {
        None => 0,
        Some(b) => match parse_decimal(b) {
            Some(v) => v,
            None => 0,
        },
    }
}

/// The tail recorded under a stream's `meta:` key.
pub fn parse_tail(meta: &Option<Vec<u8>>) -> (r: u64)
    ensures
        r == tail_of_meta(
            match meta {
                Some(b) => Some(b@),
                None => None,
            },
        ),
{
    match meta {
        Some(b) => match parse_u64(b.as_slice()) {
            Some(v) => v,
            None => 0,
        },
        None => 0,
    }
}

pub open spec fn stream_tag() -> Seq<u8> {
    seq![115u8, 116u8, 114u8, 101u8, 97u8, 109u8, 58u8]
}

pub open spec fn meta_tag() -> Seq<u8> {
    seq![109u8, 101u8, 116u8, 97u8, 58u8]
}

pub open spec fn schema_tag() -> Seq<u8> {
    seq![115u8, 99u8, 104u8, 101u8, 109u8, 97u8, 58u8]
}

/// `stream:<id>:`, the prefix of every event key of a stream.
pub open spec fn stream_prefix(stream: Seq<char>) -> Seq<u8> {
    stream_tag() + encode_utf8(stream) + seq![58u8]
}

/// `stream:<id>:<seq>`, the key of one event.
pub open spec fn stream_key(stream: Seq<char>, seq: u64) -> Seq<u8> {
    stream_prefix(stream) + padded(seq as nat, 20)
}

/// `meta:<id>`, the key of a stream's tail.
pub open spec fn meta_key(stream: Seq<char>) -> Seq<u8> {
    meta_tag() + encode_utf8(stream)
}

/// `schema:<name>`, the key of a schema's current definition.
pub open spec fn schema_key(name: Seq<char>) -> Seq<u8> {
    schema_tag() + encode_utf8(name)
}


/// `10` to the power `w`.
pub open spec fn pow10(w: nat) -> nat
    decreases w,
{
    if w == 0 {
        1
    } else {
        10 * pow10((w - 1) as nat)
    }
}

/// Whether `s` comes strictly before `t` in byte order: they agree up to some
/// position, where `s` holds the smaller byte.
pub open spec fn bytes_lt(s: Seq<u8>, t: Seq<u8>) -> bool {
    exists|k: int|
        0 <= k < s.len() && k < t.len() && s.subrange(0, k) == t.subrange(0, k) && #[trigger] s[k]
            < t[k]
}

proof fn lemma_padded_len(n: nat, w: nat)
    ensures
        padded(n, w).len() == w,
    decreases w,
{
    if w > 0 {
        lemma_padded_len(n / 10, (w - 1) as nat);
    }
}

proof fn lemma_padded_order(a: nat, b: nat, w: nat)
    requires
        a < b < pow10(w),
    ensures
        bytes_lt(padded(a, w), padded(b, w)),
    decreases w,
{
    if w == 0 {
        assert(false);
    } else {
        let w1 = (w - 1) as nat;
        let p = pow10(w1);
        assert(a / 10 <= b / 10 && b / 10 < p && (a / 10 == b / 10 ==> a % 10 < b % 10))
            by (nonlinear_arith)
            requires
                a < b,
                b < 10 * p,
        ;
        lemma_padded_len(a / 10, w1);
        lemma_padded_len(b / 10, w1);
        let sa = padded(a, w);
        let sb = padded(b, w);
        if a / 10 == b / 10 {
            let k = w1 as int;
            assert(sa.subrange(0, k) =~= padded(a / 10, w1));
            assert(sb.subrange(0, k) =~= padded(b / 10, w1));
            assert(sa[k] == digit(a % 10) && sb[k] == digit(b % 10));
            assert(sa[k] < sb[k]);
        } else {
            lemma_padded_order(a / 10, b / 10, w1);
            let pa = padded(a / 10, w1);
            let pb = padded(b / 10, w1);
            let k = choose|k: int|
                0 <= k < pa.len() && k < pb.len() && pa.subrange(0, k) == pb.subrange(0, k) && #[trigger] pa[k]
                    < pb[k];
            assert(sa.subrange(0, k) =~= pa.subrange(0, k));
            assert(sb.subrange(0, k) =~= pb.subrange(0, k));
            assert(sa[k] == pa[k] && sb[k] == pb[k]);
        }
    }
}

/// Event keys of a stream sort in sequence order: the key of a smaller
/// sequence number comes first in byte order, so a forward scan from the
/// stream's prefix yields its events in order.
pub proof fn lemma_stream_keys_ordered(stream: Seq<char>, a: u64, b: u64)
    requires
        a < b,
    ensures
        bytes_lt(stream_key(stream, a), stream_key(stream, b)),
{
    reveal_with_fuel(pow10, 21);
    assert(pow10(20) == 100_000_000_000_000_000_000nat);
    lemma_padded_order(a as nat, b as nat, 20);
    let pa = padded(a as nat, 20);
    let pb = padded(b as nat, 20);
    let pre = stream_prefix(stream);
    let k = choose|k: int|
        0 <= k < pa.len() && k < pb.len() && pa.subrange(0, k) == pb.subrange(0, k) && #[trigger] pa[k]
            < pb[k];
    let ka = stream_key(stream, a);
    let kb = stream_key(stream, b);
    let j = pre.len() + k;
    assert(ka.subrange(0, j) =~= pre + pa.subrange(0, k));
    assert(kb.subrange(0, j) =~= pre + pb.subrange(0, k));
    assert(ka[j] == pa[k] && kb[j] == pb[k]);
}

/// The prefix of every event key of `stream`.
pub fn stream_prefix_of(stream: &str) -> (r: Vec<u8>)
    ensures
        r@ == stream_prefix(stream@),
{
    let mut r: Vec<u8> = Vec::new();
    r.push(115u8);
    r.push(116u8);
    r.push(114u8);
    r.push(101u8);
    r.push(97u8);
    r.push(109u8);
    r.push(58u8);
    push_all(&mut r, stream.as_bytes());
    r.push(58u8);
    assert(r@ =~= stream_prefix(stream@));
    r
}

/// The key of event `seq` of `stream`.
pub fn stream_key_of(stream: &str, seq: u64) -> (r: Vec<u8>)
    ensures
        r@ == stream_key(stream@, seq),
{
    let mut r = stream_prefix_of(stream);
    push_padded(&mut r, seq, 20);
    r
}

/// The key of the tail of `stream`.
pub fn meta_key_of(stream: &str) -> (r: Vec<u8>)
    ensures
        r@ == meta_key(stream@),
{
    let mut r: Vec<u8> = Vec::new();
    r.push(109u8);
    r.push(101u8);
    r.push(116u8);
    r.push(97u8);
    r.push(58u8);
    push_all(&mut r, stream.as_bytes());
    assert(r@ =~= meta_key(stream@));
    r
}

/// The key of the current definition of schema `name`.
pub fn schema_key_of(name: &str) -> (r: Vec<u8>)
    ensures
        r@ == schema_key(name@),
{
    let mut r: Vec<u8> = Vec::new();
    r.push(115u8);
    r.push(99u8);
    r.push(104u8);
    r.push(101u8);
    r.push(109u8);
    r.push(97u8);
    r.push(58u8);
    push_all(&mut r, name.as_bytes());
    assert(r@ =~= schema_key(name@));
    r
}

/// Decides an append given what the engine holds under `meta:<stream>`. When
/// the recorded tail is `expected_version`, the result is the batch to commit
/// atomically: the event, stamped with the stream and the next sequence number,
/// under its key, and the new tail under the meta key.
pub fn plan_append(stream: &str, meta: &Option<Vec<u8>>, event: Event, expected_version: u64) -> (r:
    Result<Vec<(Vec<u8>, Vec<u8>)>, EventStoreError>)
    ensures
        ({
            let cur = tail_of_meta(
                match meta {
                    Some(b) => Some(b@),
                    None => None,
                },
            );
            if cur != expected_version {
                r == Err::<Vec<(Vec<u8>, Vec<u8>)>, EventStoreError>(
                    EventStoreError::ConcurrencyError { expected: expected_version, actual: cur },
                )
            } else if cur == u64::MAX {
                r matches Err(EventStoreError::StorageError(_))
            } else {
                match r {
                    Ok(batch) => {
                        &&& batch@.len() == 2
                        &&& batch@[0].0@ == stream_key(stream@, (cur + 1) as u64)
                        &&& batch@[0].1@ == cbor_event(
                            event_tuple(stamped(event@, stream@, (cur + 1) as u64)),
                        )
                        &&& batch@[1].0@ == meta_key(stream@)
                        &&& batch@[1].1@ == decimal((cur + 1) as nat)
                    },
                    Err(_) => false,
                }
            }
        }),
{
    let current = parse_tail(meta);
    if current != expected_version {
        return Err(EventStoreError::ConcurrencyError { expected: expected_version, actual: current });
    }
    if current == u64::MAX {
        return Err(EventStoreError::StorageError(String::from_str("sequence numbers exhausted")));
    }
    let next = current + 1;
    let mut event = event;
    event.sequence_number = next;
    event.stream_id = stream.to_string();
    let value = match encode_event(&event) {
        Ok(v) => v,
        Err(e) => {
            return Err(e);
        },
    };
    let mut batch: Vec<(Vec<u8>, Vec<u8>)> = Vec::new();
    batch.push((stream_key_of(stream, next), value));
    batch.push((meta_key_of(stream), decimal_text(next)));
    Ok(batch)
}

/// Whether some event is stored as these bytes.
pub open spec fn is_event_record(b: Seq<u8>) -> bool {
    exists|e: EventView| b == #[trigger] cbor_event(event_tuple(e))
}

/// Whether `key` is an event key of the stream whose prefix is `prefix`: the
/// prefix followed by exactly 20 digits. Keys of a stream named `<id>:<more>`
/// also begin with `stream:<id>:`, but what follows is longer.
pub open spec fn is_own_key(prefix: Seq<u8>, key: Seq<u8>) -> bool {
    &&& is_prefix(prefix, key)
    &&& key.len() == prefix.len() + 20
    &&& forall|i: int| prefix.len() <= i < key.len() ==> is_digit(#[trigger] key[i])
}

/// What one entry of a forward scan means for a stream.
pub enum ScanStep {
    /// The key no longer carries the prefix: the stream's keys are behind.
    Done,
    /// The key belongs to another stream whose name extends this one's.
    Skip,
    /// An event of the stream.
    Found(Event),
}

/// The values of a scan's entries whose keys are the stream's own, in order.
pub open spec fn own_values(prefix: Seq<u8>, entries: Seq<(Vec<u8>, Vec<u8>)>) -> Seq<Seq<u8>>
    decreases entries.len(),
{
    if entries.len() == 0 {
        Seq::empty()
    } else {
        let rest = own_values(prefix, entries.drop_last());
        if is_own_key(prefix, entries.last().0@) {
            rest.push(entries.last().1@)
        } else {
            rest
        }
    }
}

fn own_key(prefix: &[u8], key: &[u8]) -> (r: bool)
    ensures
        r == is_own_key(prefix@, key@),
{
    if !starts_with(key, prefix) {
        return false;
    }
    if key.len() - prefix.len() != 20 {
        return false;
    }
    let mut i: usize = prefix.len();
    while i < key.len()
        invariant
            prefix@.len() <= i <= key@.len(),
            forall|j: int| prefix@.len() <= j < i ==> is_digit(#[trigger] key@[j]),
        decreases key@.len() - i,
    {
        if key[i] < 48u8 || key[i] > 57u8 {
            assert(!is_digit(key@[i as int]));
            return false;
        }
        i = i + 1;
    }
    true
}

/// One step of a forward scan from a stream's prefix: done once a key no longer
/// carries the prefix, a skip for another stream's key, else the event the
/// value holds.
pub fn scan_item(prefix: &[u8], key: &[u8], value: &[u8]) -> (r: Result<ScanStep, EventStoreError>)
    ensures
        !is_prefix(prefix@, key@) ==> r matches Ok(ScanStep::Done),
        is_prefix(prefix@, key@) && !is_own_key(prefix@, key@) ==> r matches Ok(ScanStep::Skip),
        is_own_key(prefix@, key@) ==> {
            &&& forall|e: EventView|
                value@ == #[trigger] cbor_event(event_tuple(e)) ==> (r matches Ok(
                    ScanStep::Found(d),
                ) && d@ == e)
            &&& r matches Ok(step) ==> step is Found
            &&& r matches Err(x) ==> x is SerializationError
        },
{
    if !starts_with(key, prefix) {
        return Ok(ScanStep::Done);
    }
    if !own_key(prefix, key) {
        return Ok(ScanStep::Skip);
    }
    match decode_event(value) {
        Ok(e) => Ok(ScanStep::Found(e)),
        Err(x) => Err(x),
    }
}

/// The events of a stream from the entries of a forward scan that starts at its
/// prefix: among the leading entries whose keys carry the prefix, those whose
/// keys are the stream's own, each decoded.
pub fn collect_stream(prefix: &[u8], entries: &Vec<(Vec<u8>, Vec<u8>)>) -> (r: Result<
    Vec<Event>,
    EventStoreError,
>)
    ensures
        r matches Ok(v) ==> exists|run: int|
            {
                &&& 0 <= run <= entries@.len()
                &&& forall|i: int| 0 <= i < run ==> is_prefix(prefix@, (#[trigger] entries@[i]).0@)
                &&& run < entries@.len() ==> !is_prefix(prefix@, entries@[run].0@)
                &&& v@.len() == own_values(prefix@, entries@.subrange(0, run)).len()
                &&& forall|i: int, e: EventView|
                    0 <= i < v@.len() && own_values(prefix@, entries@.subrange(0, run))[i]
                        == #[trigger] cbor_event(event_tuple(e)) ==> (#[trigger] v@[i])@ == e
            },
        (forall|i: int|
            0 <= i < entries@.len() && is_own_key(prefix@, (#[trigger] entries@[i]).0@)
                ==> is_event_record(entries@[i].1@)) ==> r is Ok,
        r matches Err(x) ==> x is SerializationError,
{
    let mut out: Vec<Event> = Vec::new();
    let mut i: usize = 0;
    while i < entries.len()
        invariant
            i <= entries@.len(),
            forall|j: int| 0 <= j < i ==> is_prefix(prefix@, (#[trigger] entries@[j]).0@),
            out@.len() == own_values(prefix@, entries@.subrange(0, i as int)).len(),
            forall|j: int, e: EventView|
                0 <= j < out@.len() && own_values(prefix@, entries@.subrange(0, i as int))[j]
                    == #[trigger] cbor_event(event_tuple(e)) ==> (#[trigger] out@[j])@ == e,
        decreases entries@.len() - i,
    {
        let ghost before = own_values(prefix@, entries@.subrange(0, i as int));
        let ghost sub = entries@.subrange(0, i + 1);
        proof {
            assert(sub.drop_last() =~= entries@.subrange(0, i as int));
            assert(sub.last() == entries@[i as int]);
        }
        match scan_item(prefix, entries[i].0.as_slice(), entries[i].1.as_slice()) {
            Ok(ScanStep::Found(e)) => {
                let ghost old_out = out@;
                out.push(e);
                proof {
                    assert(own_values(prefix@, sub) == before.push(entries@[i as int].1@));
                    assert forall|j: int, e2: EventView|
                        0 <= j < out@.len() && own_values(prefix@, sub)[j] == #[trigger] cbor_event(
                            event_tuple(e2),
                        ) implies (#[trigger] out@[j])@ == e2 by {
                        if j < old_out.len() {
                            assert(own_values(prefix@, sub)[j] == before[j]);
                        }
                    }
                }
            },
            Ok(ScanStep::Skip) => {
                assert(own_values(prefix@, sub) == before);
            },
            Ok(ScanStep::Done) => {
                return Ok(out);
            },
            Err(x) => {
                proof {
                    if is_event_record(entries@[i as int].1@) {
                        let e = choose|e: EventView| entries@[i as int].1@ == #[trigger] cbor_event(event_tuple(e));
                        assert(entries@[i as int].1@ == cbor_event(event_tuple(e)));
                    }
                }
                return Err(x);
            },
        }
        i = i + 1;
    }
    assert(entries@.subrange(0, entries@.len() as int) =~= entries@);
    Ok(out)
}

} // verus!
