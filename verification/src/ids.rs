//! Identifiers: 128-bit ULIDs, and the names of requests.

use crate::error::{StoreError, StoreResult};
use crate::text::{decimal, format_decimal};
use vstd::prelude::*;
use vstd::string::StringExecFns;

verus! {

/// A conversation.
#[derive(Clone, Copy, Debug, PartialEq, Eq, PartialOrd, Ord, Hash, Structural)]
pub struct SessionId(pub u128);

/// A named or anonymous agent.
#[derive(Clone, Copy, Debug, PartialEq, Eq, PartialOrd, Ord, Hash, Structural)]
pub struct AgentId(pub u128);

/// A message; the latest user message names the turn.
#[derive(Clone, Copy, Debug, PartialEq, Eq, PartialOrd, Ord, Hash, Structural)]
pub struct MessageId(pub u128);

/// One incarnation of a lease holder.
#[derive(Clone, Copy, Debug, PartialEq, Eq, PartialOrd, Ord, Hash, Structural)]
pub struct LeaseOwnerId(pub u128);

/// A machine that hosts computers.
#[derive(Clone, Copy, Debug, PartialEq, Eq, PartialOrd, Ord, Hash, Structural)]
pub struct NodeId(pub u128);

/// A disk.
#[derive(Clone, Copy, Debug, PartialEq, Eq, PartialOrd, Ord, Hash, Structural)]
pub struct VolumeId(pub u128);

/// An immutable disk description.
#[derive(Clone, Copy, Debug, PartialEq, Eq, PartialOrd, Ord, Hash, Structural)]
pub struct ManifestId(pub u128);

/// A timer of an agent.
#[derive(Clone, Copy, Debug, PartialEq, Eq, PartialOrd, Ord, Hash, Structural)]
pub struct TimerId(pub u128);

/// A request for outside work, named by the session and the step that issued it.
#[derive(Clone, Copy, Debug, PartialEq, Eq, PartialOrd, Ord, Hash, Structural)]
pub struct RequestId {
    pub session: SessionId,
    pub step: u64,
}

/// The text that names a request: its session, a hyphen and the step.
pub open spec fn request_text(id: RequestId) -> Seq<char> {
    base32_text(id.session.0 as nat, 26) + "-"@ + decimal(id.step as nat)
}

/// The bytes of a request: those of its session and of the step.
pub open spec fn request_bytes(id: RequestId) -> Seq<u8> {
    be_bytes(id.session.0 as nat, 16) + be_bytes(id.step as nat, 8)
}

/// Two requests have the same bytes only if they are the same.
pub proof fn requests_tell_apart(a: RequestId, b: RequestId)
    ensures
        request_bytes(a).len() == 24,
        request_bytes(a) == request_bytes(b) <==> a == b,
{
    id_round_trip(a.session.0);
    id_round_trip(b.session.0);
    reveal_with_fuel(bytes_range, 9);
    be_round_trip(a.step as nat, 8);
    be_round_trip(b.step as nat, 8);
    if request_bytes(a) == request_bytes(b) {
        assert(request_bytes(a).take(16) =~= be_bytes(a.session.0 as nat, 16));
        assert(request_bytes(b).take(16) =~= be_bytes(b.session.0 as nat, 16));
        assert(request_bytes(a).skip(16) =~= be_bytes(a.step as nat, 8));
        assert(request_bytes(b).skip(16) =~= be_bytes(b.step as nat, 8));
    }
}

impl RequestId {
    /// The text that names this request.
    pub fn name(&self) -> (name: String)
        ensures
            name@ == request_text(*self),
    {
        let mut name = ulid_text(self.session.0);
        name.append("-");
        name.append(format_decimal(self.step).as_str());
        name
    }

    /// The bytes that stand for this request in keys.
    pub fn as_bytes(&self) -> (bytes: Vec<u8>)
        ensures
            bytes@ == request_bytes(*self),
            bytes@.len() == 24,
    {
        let mut bytes = id_bytes(self.session.0);
        let mut step = be_vec(self.step as u128, 8);
        proof {
            requests_tell_apart(*self, *self);
        }
        bytes.append(&mut step);
        bytes
    }

    /// The request that a session issues at `step`.
    pub fn for_step(session: SessionId, step: u64) -> (id: RequestId)
        ensures
            id == (RequestId { session, step }),
    {
        RequestId { session, step }
    }
}

/// Big-endian bytes of a value, `width` of them.
pub open spec fn be_bytes(value: nat, width: nat) -> Seq<u8>
    decreases width,
{
    if width == 0 {
        Seq::empty()
    } else {
        be_bytes(value / 256, (width - 1) as nat).push((value % 256) as u8)
    }
}

/// Value of big-endian bytes.
pub open spec fn be_value(bytes: Seq<u8>) -> nat
    decreases bytes.len(),
{
    if bytes.len() == 0 {
        0
    } else {
        be_value(bytes.drop_last()) * 256 + bytes.last() as nat
    }
}

/// Two to the power of eight times `width`.
pub open spec fn bytes_range(width: nat) -> nat
    decreases width,
{
    if width == 0 {
        1
    } else {
        256 * bytes_range((width - 1) as nat)
    }
}

/// Bytes written big-endian read back as the value they were written from.
pub proof fn be_round_trip(value: nat, width: nat)
    requires
        value < bytes_range(width),
    ensures
        be_bytes(value, width).len() == width,
        be_value(be_bytes(value, width)) == value,
    decreases width,
{
    if width > 0 {
        be_round_trip(value / 256, (width - 1) as nat);
        let bytes = be_bytes(value, width);
        assert(bytes.drop_last() =~= be_bytes(value / 256, (width - 1) as nat));
    }
}

proof fn be_value_bound(bytes: Seq<u8>)
    ensures
        be_value(bytes) < bytes_range(bytes.len()),
    decreases bytes.len(),
{
    if bytes.len() > 0 {
        be_value_bound(bytes.drop_last());
    }
}

pub(crate) proof fn bytes_range_16()
    ensures
        bytes_range(16) == 0x1_0000_0000_0000_0000_0000_0000_0000_0000,
{
    reveal_with_fuel(bytes_range, 17);
}

/// The lowest bytes of a value, most significant first.
fn be_vec(value: u128, width: usize) -> (bytes: Vec<u8>)
    ensures
        bytes@ == be_bytes(value as nat, width as nat),
{
    let mut rest: u128 = value;
    let mut reversed: Vec<u8> = Vec::new();
    let mut i: usize = 0;
    while i < width
        invariant
            i <= width,
            reversed@.len() == i,
            be_bytes(value as nat, width as nat) =~= be_bytes(rest as nat, (width - i) as nat)
                + reversed@.reverse(),
        decreases width - i,
    {
        let ghost before = reversed@;
        reversed.push((rest % 256) as u8);
        proof {
            let left = (width - i) as nat;
            assert(be_bytes(rest as nat, left) == be_bytes(rest as nat / 256, (left - 1) as nat).push((rest % 256) as u8));
            assert(reversed@.reverse() =~= seq![(rest % 256) as u8] + before.reverse());
        }
        rest = rest / 256;
        i += 1;
    }
    let mut bytes: Vec<u8> = Vec::new();
    let mut j: usize = 0;
    while j < width
        invariant
            j <= width,
            reversed@.len() == width,
            bytes@ =~= reversed@.reverse().take(j as int),
        decreases width - j,
    {
        bytes.push(reversed[width - 1 - j]);
        j += 1;
    }
    assert(bytes@ =~= be_bytes(value as nat, width as nat));
    bytes
}

/// The 16 bytes of an identifier, most significant first.
pub fn id_bytes(id: u128) -> (bytes: Vec<u8>)
    ensures
        bytes@ == be_bytes(id as nat, 16),
        bytes@.len() == 16,
        be_value(bytes@) == id,
{
    proof {
        bytes_range_16();
        be_round_trip(id as nat, 16);
    }
    be_vec(id, 16)
}

/// Reads an identifier from a key element; anything but 16 bytes is corrupt.
pub fn read_id(bytes: &[u8]) -> (id: StoreResult<u128>)
    ensures
        bytes@.len() == 16 <==> id is Ok,
        id matches Ok(value) ==> value == be_value(bytes@),
        id is Err ==> id == Err::<u128, StoreError>(StoreError::Corrupt),
{
    if bytes.len() != 16 {
        return Err(StoreError::Corrupt);
    }
    let mut value: u128 = 0;
    let mut i: usize = 0;
    while i < 16
        invariant
            i <= 16,
            bytes@.len() == 16,
            value == be_value(bytes@.take(i as int)),
        decreases 16 - i,
    {
        proof {
            let longer = bytes@.take(i + 1);
            assert(longer.drop_last() =~= bytes@.take(i as int));
            be_value_bound(longer);
            range_grows((i + 1) as nat, 16);
            bytes_range_16();
        }
        value = value * 256 + bytes[i] as u128;
        i += 1;
    }
    assert(bytes@.take(16) =~= bytes@);
    Ok(value)
}

proof fn range_grows(small: nat, large: nat)
    requires
        small <= large,
    ensures
        bytes_range(small) <= bytes_range(large),
        bytes_range(small) > 0,
    decreases large,
{
    if large > 0 {
        if small < large {
            range_grows(small, (large - 1) as nat);
        } else if small > 0 {
            range_grows((small - 1) as nat, (large - 1) as nat);
        }
    }
}

/// Reads a session identifier from a key element.
pub fn session_id(bytes: Vec<u8>) -> (id: StoreResult<SessionId>)
    ensures
        bytes@.len() == 16 <==> id is Ok,
        id matches Ok(session) ==> session.0 == be_value(bytes@),
        id is Err ==> id == Err::<SessionId, StoreError>(StoreError::Corrupt),
{
    match read_id(bytes.as_slice()) {
        Ok(value) => Ok(SessionId(value)),
        Err(error) => Err(error),
    }
}

/// An identifier written as a key element is the identifier read from it.
pub proof fn id_round_trip(id: u128)
    ensures
        be_bytes(id as nat, 16).len() == 16,
        be_value(be_bytes(id as nat, 16)) == id,
{
    bytes_range_16();
    be_round_trip(id as nat, 16);
}

/// Crockford's base 32 digits.
pub open spec fn base32_digit(value: nat) -> char {
    "0123456789ABCDEFGHJKMNPQRSTVWXYZ"@[value as int]
}

/// `width` base 32 digits of a value, most significant first.
pub open spec fn base32_text(value: nat, width: nat) -> Seq<char>
    decreases width,
{
    if width == 0 {
        Seq::empty()
    } else {
        base32_text(value / 32, (width - 1) as nat).push(base32_digit(value % 32))
    }
}

/// Value of a base 32 digit, lower case allowed.
pub open spec fn base32_value(c: char) -> Option<nat> {
    if exists|v: nat| v < 32 && (base32_digit(v) == c || lower(base32_digit(v)) == c) {
        Some(choose|v: nat| v < 32 && (base32_digit(v) == c || lower(base32_digit(v)) == c))
    } else {
        None
    }
}

/// The lower case of an upper case ASCII letter; any other character itself.
pub open spec fn lower(c: char) -> char {
    if 'A' <= c && c <= 'Z' {
        (c as u32 + 32) as char
    } else {
        c
    }
}

/// Value of a run of base 32 digits, most significant first.
pub open spec fn base32_number(text: Seq<char>) -> nat
    decreases text.len(),
{
    if text.len() == 0 {
        0
    } else {
        base32_number(text.drop_last()) * 32 + base32_value(text.last())->0
    }
}

/// The identifier that a text names: 26 base 32 digits, of which the lowest 128 bits count.
pub open spec fn ulid_value(text: Seq<char>) -> Option<u128> {
    if text.len() == 26 && (forall|i: int| 0 <= i < 26 ==> base32_value(#[trigger] text[i]) is Some) {
        Some((base32_number(text) % bytes_range(16)) as u128)
    } else {
        None
    }
}

/// Calls `ulid::Ulid::to_string` and claims its 26 Crockford base 32 digits.
#[verifier::external_body]
pub(crate) fn ulid_text(id: u128) -> (text: String)
    ensures
        text@ == base32_text(id as nat, 26),
{
    ulid::Ulid(id).to_string()
}

/// Calls `ulid::Ulid::from_string` and claims that it reads exactly the texts of 26 Crockford
/// base 32 digits of either case, dropping bits beyond 128.
#[verifier::external_body]
pub(crate) fn ulid_parse(text: &str) -> (id: Option<u128>)
    ensures
        id == ulid_value(text@),
{
    ulid::Ulid::from_string(text).ok().map(u128::from)
}

/// Milliseconds since 1970 in the upper 48 bits of an identifier.
pub open spec fn minted_at(id: u128) -> int {
    id as int / 0x1_0000_0000_0000_0000_0000
}

/// When an identifier was minted, in milliseconds since 1970.
pub fn timestamp_ms(id: u128) -> (millis: u64)
    ensures
        millis == minted_at(id),
        millis < 0x1_0000_0000_0000,
{
    (id / 0x1_0000_0000_0000_0000_0000) as u64
}

/// An id is read back from its bytes.
pub proof fn ids_are_read_back(id: u128, bytes: Vec<u8>, read: StoreResult<SessionId>)
    requires
        call_ensures(id_bytes, (id,), bytes),
        call_ensures(session_id, (bytes,), read),
    ensures
        read == Ok::<SessionId, StoreError>(SessionId(id)),
        bytes@.len() == 16,
{
}

/// A request's bytes are those of its session and then those of its step, so two requests with the
/// same bytes, or made of the same session and step, are the same.
pub proof fn requests_are_session_and_step(session: SessionId, step: u64, id: RequestId, bytes: Vec<u8>, first: Vec<u8>)
    requires
        call_ensures(RequestId::for_step, (session, step), id),
        call_ensures(RequestId::as_bytes, (&id,), bytes),
        call_ensures(id_bytes, (session.0,), first),
    ensures
        id.session == session && id.step == step,
        bytes@.len() == 24,
        bytes@.take(16) == first@,
        be_value(bytes@.skip(16)) == step,
{
    assert(bytes_range(8) == 0x1_0000_0000_0000_0000) by {
        reveal_with_fuel(bytes_range, 9);
    }
    be_round_trip(step as nat, 8);
    id_round_trip(session.0);
    assert(bytes@.take(16) =~= first@);
    assert(bytes@.skip(16) =~= be_bytes(step as nat, 8));
}

/// Ids that were minted later say so: the time of an id is its upper part, in milliseconds.
pub proof fn minting_times_follow_the_ids(early: u128, late: u128, a: u64, b: u64)
    requires
        call_ensures(timestamp_ms, (early,), a),
        call_ensures(timestamp_ms, (late,), b),
    ensures
        early <= late ==> a <= b,
        a * 0x1_0000_0000_0000_0000_0000 <= early < (a + 1) * 0x1_0000_0000_0000_0000_0000,
{
}

} // verus!
