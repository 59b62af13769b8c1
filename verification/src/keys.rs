//! Keys of index rows: tuples whose encoding keeps their order, so a time bound is a key range.

use crate::config::RUNNABLE_PARTITIONS;
use crate::error::{StoreError, StoreResult};
use crate::ids::{be_bytes, id_bytes, session_id, SessionId};
use crate::paging::{key_after, key_less, successor, successor_is_next};
use crate::session::RunnableEntry;
use crate::text::{text_less, text_less_irreflexive, text_less_transitive};
use crate::time::{in_range, truncated, Timestamp};
use foundationdb_tuple::{Element, Subspace};
use vstd::prelude::*;

verus! {

/// One element of a key.
#[derive(Clone, Debug, PartialEq, Eq)]
pub enum KeyPart {
    Bytes(Vec<u8>),
    Text(String),
    Pair(i64, i64),
    Int(i64),
}

/// View of an element of a key.
pub ghost enum PartView {
    Bytes(Seq<u8>),
    Text(Seq<char>),
    Pair(i64, i64),
    Int(i64),
    /// An element that no key of the store has.
    Other,
}

impl View for KeyPart {
    type V = PartView;

    open spec fn view(&self) -> PartView {
        match self {
            KeyPart::Bytes(bytes) => PartView::Bytes(bytes@),
            KeyPart::Text(text) => PartView::Text(text@),
            KeyPart::Pair(a, b) => PartView::Pair(*a, *b),
            KeyPart::Int(n) => PartView::Int(*n),
        }
    }
}

/// Views of the elements of a key.
pub open spec fn part_views(parts: Seq<KeyPart>) -> Seq<PartView> {
    parts.map_values(|part: KeyPart| part@)
}

/// Kinds of elements in the order in which they sort.
pub open spec fn part_rank(part: PartView) -> int {
    match part {
        PartView::Bytes(_) => 1,
        PartView::Text(_) => 2,
        PartView::Pair(_, _) => 3,
        PartView::Int(_) => 4,
        PartView::Other => 5,
    }
}

/// Order of two elements: by kind, then by value.
pub open spec fn part_less(a: PartView, b: PartView) -> bool {
    match (a, b) {
        (PartView::Bytes(x), PartView::Bytes(y)) => key_less(x, y),
        (PartView::Text(x), PartView::Text(y)) => text_less(x, y),
        (PartView::Pair(x1, x2), PartView::Pair(y1, y2)) => x1 < y1 || (x1 == y1 && x2 < y2),
        (PartView::Int(x), PartView::Int(y)) => x < y,
        _ => part_rank(a) < part_rank(b),
    }
}

/// Order of two keys: element by element, a shorter key before its continuations.
pub open spec fn parts_less(a: Seq<PartView>, b: Seq<PartView>) -> bool
    decreases a.len(),
{
    if b.len() == 0 {
        false
    } else if a.len() == 0 {
        true
    } else if a[0] == b[0] {
        parts_less(a.drop_first(), b.drop_first())
    } else {
        part_less(a[0], b[0])
    }
}

/// Whether a key starts with the elements of another.
pub open spec fn starts_parts(prefix: Seq<PartView>, key: Seq<PartView>) -> bool {
    prefix.len() <= key.len() && key.take(prefix.len() as int) == prefix
}

/// Whether a key has only elements that the store writes.
pub open spec fn storable(parts: Seq<PartView>) -> bool {
    forall|i: int| 0 <= i < parts.len() ==> !((#[trigger] parts[i]) is Other)
}

/// Bytes that an element takes at most once encoded.
pub open spec fn part_size(part: PartView) -> nat {
    match part {
        PartView::Bytes(bytes) => 2 * bytes.len() + 2,
        PartView::Text(text) => 4 * text.len() + 2,
        PartView::Pair(_, _) => 20,
        PartView::Int(_) => 9,
        PartView::Other => 0,
    }
}

/// Bytes that a key takes at most once encoded.
pub open spec fn parts_size(parts: Seq<PartView>) -> nat
    decreases parts.len(),
{
    if parts.len() == 0 {
        0
    } else {
        parts_size(parts.drop_last()) + part_size(parts.last())
    }
}

/// The key of some elements under a prefix.
pub uninterp spec fn packed(root: Seq<u8>, parts: Seq<PartView>) -> Seq<u8>;

/// The elements of a key under a prefix; none when the key has another prefix or no such form.
pub uninterp spec fn unpacked(root: Seq<u8>, key: Seq<u8>) -> Option<Seq<PartView>>;

/// Calls `foundationdb_tuple::Subspace::pack` on the elements of a key. The encoding keeps the
/// order of keys, also against the key followed by the byte 255, which lies behind all
/// continuations of the key; and unpacking gives the elements back, or those behind the elements
/// that a longer prefix encodes. Which bytes the encoding consists of is left to the tuple layer,
/// but for their number. The bound on the size keeps the call from panicking.
#[verifier::external_body]
pub(crate) fn pack_key(root: &Vec<u8>, parts: &Vec<KeyPart>) -> (key: Vec<u8>)
    requires
        storable(part_views(parts@)),
        root@.len() + parts_size(part_views(parts@)) <= u32::MAX,
    ensures
        key@ == packed(root@, part_views(parts@)),
        key@.len() <= root@.len() + parts_size(part_views(parts@)),
        unpacked(root@, key@) == Some(part_views(parts@)),
        forall|k: int|
            0 <= k <= parts@.len() ==> unpacked(
                packed(root@, #[trigger] part_views(parts@).take(k)),
                key@,
            ) == Some(part_views(parts@).skip(k)),
        forall|other: Seq<PartView>|
            storable(other) ==> (key_less(#[trigger] packed(root@, other), key@) <==> parts_less(
                other,
                part_views(parts@),
            )),
        forall|other: Seq<PartView>|
            storable(other) ==> (key_less(key@, #[trigger] packed(root@, other)) <==> parts_less(
                part_views(parts@),
                other,
            )),
        forall|other: Seq<PartView>|
            storable(other) ==> (key_less(#[trigger] packed(root@, other), key@.push(255))
                <==> parts_less(other, part_views(parts@)) || starts_parts(
                part_views(parts@),
                other,
            )),
{
    let elements: Vec<Element> = parts
        .iter()
        .map(|part| match part {
            KeyPart::Bytes(bytes) => Element::Bytes(bytes.as_slice().into()),
            KeyPart::Text(text) => Element::String(text.as_str().into()),
            KeyPart::Pair(a, b) => Element::Tuple(vec![Element::Int(*a), Element::Int(*b)]),
            KeyPart::Int(n) => Element::Int(*n),
        })
        .collect();
    Subspace::from_bytes(root.as_slice()).pack(&elements)
}

/// The elements of a row of an index by time, under the index.
pub open spec fn timed_parts_of(parts: Option<Seq<PartView>>) -> Option<(i64, i64, Seq<u8>)> {
    match parts {
        Some(parts) => if parts.len() == 2 {
            match (parts[0], parts[1]) {
                (PartView::Pair(second, nanos), PartView::Bytes(id)) => Some((second, nanos, id)),
                _ => None,
            }
        } else {
            None
        },
        None => None,
    }
}

/// Calls `foundationdb_tuple::Subspace::unpack` for a pair of integers and bytes: it reads a key
/// under the prefix with exactly these elements, and no other. What it reads depends on the prefix
/// and the key alone. The bound on the prefix keeps the call from panicking.
#[verifier::external_body]
fn unpack_timed(root: &Vec<u8>, key: &Vec<u8>) -> (row: Option<((i64, i64), Vec<u8>)>)
    requires
        root@.len() <= u32::MAX,
    ensures
        match row {
            Some((at, id)) => timed_parts_of(unpacked(root@, key@)) == Some((at.0, at.1, id@)),
            None => timed_parts_of(unpacked(root@, key@)) is None,
        },
{
    Subspace::from_bytes(root.as_slice()).unpack(key).ok()
}

/// The elements of a runnable key, under the partition.
pub open spec fn runnable_parts_of(parts: Option<Seq<PartView>>) -> Option<(i64, i64, i64, Seq<u8>)> {
    match parts {
        Some(parts) => if parts.len() == 3 {
            match (parts[0], parts[1], parts[2]) {
                (PartView::Int(priority), PartView::Pair(second, nanos), PartView::Bytes(id)) => Some(
                    (priority, second, nanos, id),
                ),
                _ => None,
            }
        } else {
            None
        },
        None => None,
    }
}

/// Calls `foundationdb_tuple::Subspace::unpack` for an integer, a pair of integers and bytes: it
/// reads a key under the prefix with exactly these elements, and no other. What it reads depends
/// on the prefix and the key alone. The bound on the prefix keeps the call from panicking.
#[verifier::external_body]
fn unpack_runnable(root: &Vec<u8>, key: &Vec<u8>) -> (row: Option<(i64, (i64, i64), Vec<u8>)>)
    requires
        root@.len() <= u32::MAX,
    ensures
        match row {
            Some((priority, at, id)) => runnable_parts_of(unpacked(root@, key@)) == Some(
                (priority, at.0, at.1, id@),
            ),
            None => runnable_parts_of(unpacked(root@, key@)) is None,
        },
{
    Subspace::from_bytes(root.as_slice()).unpack(key).ok()
}

/// The hour, key and field that the elements of a counter's key name.
pub open spec fn bucket_parts(parts: Option<Seq<PartView>>) -> Option<(i64, Seq<char>, Seq<char>)> {
    match parts {
        Some(parts) => if parts.len() == 3 {
            match (parts[0], parts[1], parts[2]) {
                (PartView::Int(hour), PartView::Text(key), PartView::Text(field)) => Some(
                    (hour, key, field),
                ),
                _ => None,
            }
        } else {
            None
        },
        None => None,
    }
}

/// Calls `foundationdb_tuple::Subspace::unpack` for an integer and two texts: it reads a key under
/// the prefix with exactly these elements, and no other. What it reads depends on the prefix and
/// the key alone. The bound on the prefix keeps the call from panicking.
#[verifier::external_body]
pub(crate) fn unpack_bucket(root: &Vec<u8>, key: &Vec<u8>) -> (row: Option<(i64, String, String)>)
    requires
        root@.len() <= u32::MAX,
    ensures
        match row {
            Some((hour, name, field)) => bucket_parts(unpacked(root@, key@)) == Some(
                (hour, name@, field@),
            ),
            None => bucket_parts(unpacked(root@, key@)) is None,
        },
{
    Subspace::from_bytes(root.as_slice()).unpack(key).ok()
}

/// The request that the elements of an index row name.
pub open spec fn recorded_request(parts: Option<Seq<PartView>>) -> Option<Seq<u8>> {
    match parts {
        Some(parts) => if parts.len() == 2 {
            match (parts[0], parts[1]) {
                (PartView::Int(_), PartView::Bytes(request)) => Some(request),
                _ => None,
            }
        } else {
            None
        },
        None => None,
    }
}

/// Calls `foundationdb_tuple::Subspace::unpack` for an integer and bytes: it reads a key under the
/// prefix with exactly these elements, and no other. What it reads depends on the prefix and the
/// key alone. The bound on the prefix keeps the call from panicking.
#[verifier::external_body]
pub(crate) fn unpack_recorded(root: &Vec<u8>, key: &Vec<u8>) -> (row: Option<(i64, Vec<u8>)>)
    requires
        root@.len() <= u32::MAX,
    ensures
        match row {
            Some((_, request)) => recorded_request(unpacked(root@, key@)) == Some(request@),
            None => recorded_request(unpacked(root@, key@)) is None,
        },
{
    Subspace::from_bytes(root.as_slice()).unpack(key).ok()
}

/// The names that a key holds behind its space; none when it holds anything else, or another
/// number of them.
pub open spec fn names_of(parts: Option<Seq<PartView>>, count: nat) -> Option<Seq<Seq<char>>> {
    match parts {
        Some(parts) => if parts.len() == count && (forall|i: int|
            0 <= i < count ==> #[trigger] parts[i] is Text) {
            Some(parts.map_values(|part: PartView| part->Text_0))
        } else {
            None
        },
        None => None,
    }
}

/// Calls `foundationdb_tuple::Subspace::unpack` for one text: it reads a key under the prefix with
/// exactly this element, and no other. What it reads depends on the prefix and the key alone. The
/// bound on the prefix keeps the call from panicking.
#[verifier::external_body]
pub(crate) fn unpack_name(root: &Vec<u8>, key: &Vec<u8>) -> (row: Option<(String,)>)
    requires
        root@.len() <= u32::MAX,
    ensures
        match row {
            Some((name,)) => names_of(unpacked(root@, key@), 1) == Some(seq![name@]),
            None => names_of(unpacked(root@, key@), 1) is None,
        },
{
    Subspace::from_bytes(root.as_slice()).unpack(key).ok()
}

/// Calls `foundationdb_tuple::Subspace::unpack` for two texts: it reads a key under the prefix with
/// exactly these elements, and no other. What it reads depends on the prefix and the key alone. The
/// bound on the prefix keeps the call from panicking.
#[verifier::external_body]
pub(crate) fn unpack_names(root: &Vec<u8>, key: &Vec<u8>) -> (row: Option<(String, String)>)
    requires
        root@.len() <= u32::MAX,
    ensures
        match row {
            Some((name, label)) => names_of(unpacked(root@, key@), 2) == Some(seq![name@, label@]),
            None => names_of(unpacked(root@, key@), 2) is None,
        },
{
    Subspace::from_bytes(root.as_slice()).unpack(key).ok()
}

// ---------------------------------------------------------------------------------------------
// Order
// ---------------------------------------------------------------------------------------------

/// Whether one key comes before another.
pub fn is_before(a: &Vec<u8>, b: &Vec<u8>) -> (before: bool)
    ensures
        before == key_less(a@, b@),
{
    let mut i: usize = 0;
    assert(a@.skip(0) =~= a@ && b@.skip(0) =~= b@);
    while i < a.len() && i < b.len()
        invariant
            i <= a.len(),
            i <= b.len(),
            key_less(a@, b@) == key_less(a@.skip(i as int), b@.skip(i as int)),
        decreases a.len() - i,
    {
        proof {
            assert(a@.skip(i as int).drop_first() =~= a@.skip(i + 1));
            assert(b@.skip(i as int).drop_first() =~= b@.skip(i + 1));
        }
        if a[i] != b[i] {
            return a[i] < b[i];
        }
        i += 1;
    }
    i < b.len()
}

/// An instant as a key element: whole seconds and the rest.
pub open spec fn moment(at: Timestamp) -> PartView {
    PartView::Pair(
        truncated(at.nanos as int, 1_000_000_000) as i64,
        (at.nanos - truncated(at.nanos as int, 1_000_000_000) * 1_000_000_000) as i64,
    )
}

/// An instant as a key element.
pub fn moment_part(at: Timestamp) -> (part: KeyPart)
    requires
        at.valid(),
    ensures
        part@ == moment(at),
{
    KeyPart::Pair(at.as_second(), at.subsec_nanosecond() as i64)
}

/// Instants sort as key elements as they do in time.
pub proof fn moments_keep_order(a: Timestamp, b: Timestamp)
    requires
        a.valid(),
        b.valid(),
    ensures
        part_less(moment(a), moment(b)) <==> a.nanos < b.nanos,
        moment(a) == moment(b) <==> a == b,
{
}

/// Elements of the key of a row in an index by time.
pub open spec fn timed_parts(index: Seq<char>, at: Timestamp, id: Seq<u8>) -> Seq<PartView> {
    seq![PartView::Text(index), moment(at), PartView::Bytes(id)]
}

/// Whether a key lies in a half-open range.
pub open spec fn within(range: (Seq<u8>, Seq<u8>), key: Seq<u8>) -> bool {
    !key_less(key, range.0) && key_less(key, range.1)
}

/// Where a scan of an index by time begins: at its start, or behind the last row seen.
pub open spec fn timed_begin(root: Seq<u8>, index: Seq<char>, after: Option<(Timestamp, SessionId)>) -> Seq<u8> {
    match after {
        Some((at, id)) => successor(packed(root, timed_parts(index, at, be_bytes(id.0 as nat, 16)))),
        None => successor(packed(root, seq![PartView::Text(index)])),
    }
}

/// Where a scan of an index by time ends: behind every row of `now`.
pub open spec fn timed_end(root: Seq<u8>, index: Seq<char>, now: Timestamp) -> Seq<u8> {
    packed(root, seq![PartView::Text(index), moment(now)]).push(255)
}

/// Whether a row comes after the last one seen.
pub open spec fn past(after: Option<(Timestamp, SessionId)>, at: Timestamp, id: Seq<u8>) -> bool {
    match after {
        Some((last, session)) => last.nanos < at.nanos || (last == at && key_less(
            be_bytes(session.0 as nat, 16),
            id,
        )),
        None => true,
    }
}

proof fn timed_order(index: Seq<char>, a: Timestamp, x: Seq<u8>, b: Timestamp, y: Seq<u8>)
    requires
        a.valid(),
        b.valid(),
    ensures
        parts_less(timed_parts(index, a, x), timed_parts(index, b, y)) <==> a.nanos < b.nanos || (a == b
            && key_less(x, y)),
        parts_less(seq![PartView::Text(index)], timed_parts(index, b, y)),
        parts_less(timed_parts(index, a, x), seq![PartView::Text(index), moment(b)]) || starts_parts(
            seq![PartView::Text(index), moment(b)],
            timed_parts(index, a, x),
        ) <==> a.nanos <= b.nanos,
{
    moments_keep_order(a, b);
    let left = timed_parts(index, a, x);
    let right = timed_parts(index, b, y);
    let name = seq![PartView::Text(index)];
    let bound = seq![PartView::Text(index), moment(b)];
    assert(left.drop_first() =~= seq![moment(a), PartView::Bytes(x)]);
    assert(right.drop_first() =~= seq![moment(b), PartView::Bytes(y)]);
    assert(bound.drop_first() =~= seq![moment(b)]);
    assert(name.drop_first() =~= Seq::<PartView>::empty());
    assert(left.drop_first().drop_first() =~= seq![PartView::Bytes(x)]);
    assert(right.drop_first().drop_first() =~= seq![PartView::Bytes(y)]);
    assert(bound.drop_first().drop_first() =~= Seq::<PartView>::empty());
    assert(left.drop_first().drop_first().drop_first() =~= Seq::<PartView>::empty());
    assert(right.drop_first().drop_first().drop_first() =~= Seq::<PartView>::empty());
    reveal_with_fuel(parts_less, 4);
    if x == y {
        key_is_not_less(x);
    }
    if a == b {
        assert(left.take(2) =~= bound);
    } else {
        assert(left.take(2)[1] == moment(a));
    }
}

proof fn key_is_not_less(key: Seq<u8>)
    ensures
        !key_less(key, key),
    decreases key.len(),
{
    if key.len() > 0 {
        key_is_not_less(key.drop_first());
    }
}

/// The range of an index by time that holds the rows due at `now`, behind the last row seen.
/// None means that the range is empty.
pub fn timed_range(
    root: &Vec<u8>,
    index: &str,
    now: Timestamp,
    after: Option<(Timestamp, SessionId)>,
) -> (range: Option<(Vec<u8>, Vec<u8>)>)
    requires
        root@.len() + 4 * index@.len() + 1024 <= u32::MAX,
        now.valid(),
        after matches Some((at, _)) ==> at.valid(),
    ensures
        match range {
            Some((begin, end)) => {
                &&& begin@ == timed_begin(root@, index@, after)
                &&& end@ == timed_end(root@, index@, now)
                &&& key_less(begin@, end@)
            },
            None => !key_less(timed_begin(root@, index@, after), timed_end(root@, index@, now)),
        },
        forall|at: Timestamp, id: Seq<u8>|
            at.valid() ==> (#[trigger] within(
                (timed_begin(root@, index@, after), timed_end(root@, index@, now)),
                packed(root@, timed_parts(index@, at, id)),
            ) <==> at.nanos <= now.nanos && past(after, at, id)),
{
    let mut bound: Vec<KeyPart> = Vec::new();
    bound.push(KeyPart::Text(index.to_owned()));
    bound.push(moment_part(now));
    proof {
        let views = seq![PartView::Text(index@), moment(now)];
        assert(part_views(bound@) =~= views);
        assert(views.drop_last() =~= seq![PartView::Text(index@)]);
        assert(views.drop_last().drop_last() =~= Seq::<PartView>::empty());
        reveal_with_fuel(parts_size, 3);
    }
    let mut end = pack_key(root, &bound);
    let ghost end_key = end@;
    end.push(255);
    let mut first: Vec<KeyPart> = Vec::new();
    first.push(KeyPart::Text(index.to_owned()));
    let ghost mut start_parts = seq![PartView::Text(index@)];
    if let Some((at, id)) = after {
        first.push(moment_part(at));
        first.push(KeyPart::Bytes(id_bytes(id.0)));
        proof {
            start_parts = timed_parts(index@, at, be_bytes(id.0 as nat, 16));
        }
    }
    proof {
        assert(part_views(first@) =~= start_parts);
        reveal_with_fuel(parts_size, 4);
        if let Some((at, id)) = after {
            assert(start_parts.drop_last() =~= seq![PartView::Text(index@), moment(at)]);
            assert(start_parts.drop_last().drop_last() =~= seq![PartView::Text(index@)]);
            assert(start_parts.drop_last().drop_last().drop_last() =~= Seq::<PartView>::empty());
        } else {
            assert(start_parts.drop_last() =~= Seq::<PartView>::empty());
        }
    }
    let start = pack_key(root, &first);
    let begin = key_after(&start);
    assert forall|at: Timestamp, id: Seq<u8>| at.valid() implies (#[trigger] within(
        (timed_begin(root@, index@, after), timed_end(root@, index@, now)),
        packed(root@, timed_parts(index@, at, id)),
    ) <==> at.nanos <= now.nanos && past(after, at, id)) by {
        let row = timed_parts(index@, at, id);
        let key = packed(root@, row);
        assert(storable(row));
        successor_is_next(start@, key);
        timed_order(index@, at, id, now, id);
        if let Some((last, session)) = after {
            timed_order(index@, last, be_bytes(session.0 as nat, 16), at, id);
        } else {
            timed_order(index@, at, id, at, id);
        }
    }
    if is_before(&begin, &end) {
        Some((begin, end))
    } else {
        None
    }
}

/// The key of a row in an index by time. A scan reads the row back from it.
pub fn timed_key(root: &Vec<u8>, index: &str, at: Timestamp, id: SessionId) -> (key: Vec<u8>)
    requires
        root@.len() + 4 * index@.len() + 1024 <= u32::MAX,
        at.valid(),
    ensures
        key@ == packed(root@, timed_parts(index@, at, be_bytes(id.0 as nat, 16))),
        timed_row(unpacked(packed(root@, seq![PartView::Text(index@)]), key@)) matches Some(row) && row.2
            == be_bytes(id.0 as nat, 16),
{
    let mut parts: Vec<KeyPart> = Vec::new();
    parts.push(KeyPart::Text(index.to_owned()));
    parts.push(moment_part(at));
    parts.push(KeyPart::Bytes(id_bytes(id.0)));
    proof {
        let views = timed_parts(index@, at, be_bytes(id.0 as nat, 16));
        assert(part_views(parts@) =~= views);
        assert(views.drop_last() =~= seq![PartView::Text(index@), moment(at)]);
        assert(views.drop_last().drop_last() =~= seq![PartView::Text(index@)]);
        assert(views.drop_last().drop_last().drop_last() =~= Seq::<PartView>::empty());
        reveal_with_fuel(parts_size, 4);
        assert(views.take(1) =~= seq![PartView::Text(index@)]);
        assert(views.skip(1) =~= seq![moment(at), PartView::Bytes(be_bytes(id.0 as nat, 16))]);
    }
    pack_key(root, &parts)
}

/// The time and the identifier of a row of an index by time, under the index.
pub open spec fn timed_row(parts: Option<Seq<PartView>>) -> Option<(i64, i64, Seq<u8>)> {
    match timed_parts_of(parts) {
        Some((second, nanos, id)) => if i32::MIN <= nanos <= i32::MAX {
            Some((second, nanos, id))
        } else {
            None
        },
        None => None,
    }
}

fn index_prefix(root: &Vec<u8>, index: &str) -> (prefix: Vec<u8>)
    requires
        root@.len() + 4 * index@.len() + 1024 <= u32::MAX,
    ensures
        prefix@ == packed(root@, seq![PartView::Text(index@)]),
        prefix@.len() <= u32::MAX,
{
    let mut parts: Vec<KeyPart> = Vec::new();
    parts.push(KeyPart::Text(index.to_owned()));
    proof {
        assert(part_views(parts@) =~= seq![PartView::Text(index@)]);
        assert(part_views(parts@).drop_last() =~= Seq::<PartView>::empty());
        reveal_with_fuel(parts_size, 2);
    }
    pack_key(root, &parts)
}

/// The session that a row of an index by time names. A key of another form is corrupt, and so is
/// an identifier of the wrong size.
pub fn timed_session(root: &Vec<u8>, index: &str, key: &Vec<u8>) -> (result: StoreResult<SessionId>)
    requires
        root@.len() + 4 * index@.len() + 1024 <= u32::MAX,
    ensures
        match timed_row(unpacked(packed(root@, seq![PartView::Text(index@)]), key@)) {
            Some((_, _, id)) => if id.len() == 16 {
                result matches Ok(session) && session.0 == crate::ids::be_value(id)
            } else {
                result == Err::<SessionId, _>(StoreError::Corrupt)
            },
            None => result == Err::<SessionId, _>(StoreError::Corrupt),
        },
{
    let prefix = index_prefix(root, index);
    match unpack_timed(&prefix, key) {
        Some((at, id)) => if i32::MIN as i64 <= at.1 && at.1 <= i32::MAX as i64 {
            session_id(id)
        } else {
            Err(StoreError::Corrupt)
        },
        None => Err(StoreError::Corrupt),
    }
}

// ---------------------------------------------------------------------------------------------
// Key ranges
// ---------------------------------------------------------------------------------------------

/// Bytewise order goes one way only.
pub proof fn key_less_one_way(a: Seq<u8>, b: Seq<u8>)
    ensures
        !(key_less(a, b) && key_less(b, a)),
    decreases a.len(),
{
    if a.len() > 0 && b.len() > 0 && a[0] == b[0] {
        key_less_one_way(a.drop_first(), b.drop_first());
    }
}

/// The order of keys goes one way only.
pub proof fn parts_less_one_way(a: Seq<PartView>, b: Seq<PartView>)
    ensures
        !(parts_less(a, b) && parts_less(b, a)),
    decreases a.len(),
{
    if a.len() > 0 && b.len() > 0 {
        if a[0] == b[0] {
            parts_less_one_way(a.drop_first(), b.drop_first());
        } else {
            match (a[0], b[0]) {
                (PartView::Bytes(x), PartView::Bytes(y)) => {
                    key_less_one_way(x, y);
                },
                (PartView::Text(x), PartView::Text(y)) => {
                    if text_less(x, y) && text_less(y, x) {
                        text_less_transitive(x, y, x);
                        text_less_irreflexive(x);
                    }
                },
                _ => {},
            }
        }
    }
}

/// Continuations of one key sort as what follows it.
pub proof fn continuations_keep_order(start: Seq<PartView>, a: Seq<PartView>, b: Seq<PartView>)
    ensures
        parts_less(start + a, start + b) <==> parts_less(a, b),
    decreases start.len(),
{
    if start.len() == 0 {
        assert(start + a =~= a);
        assert(start + b =~= b);
    } else {
        assert((start + a).drop_first() =~= start.drop_first() + a);
        assert((start + b).drop_first() =~= start.drop_first() + b);
        continuations_keep_order(start.drop_first(), a, b);
    }
}

/// A key comes before its continuations.
pub proof fn continuations_follow(start: Seq<PartView>, key: Seq<PartView>)
    requires
        starts_parts(start, key),
        start.len() < key.len(),
    ensures
        parts_less(start, key),
    decreases start.len(),
{
    if start.len() > 0 {
        assert(key.take(start.len() as int)[0] == key[0]);
        assert(key.drop_first().take(start.len() - 1) =~= start.drop_first());
        continuations_follow(start.drop_first(), key.drop_first());
    }
}

/// The range of all continuations of a key.
pub open spec fn continuations(root: Seq<u8>, start: Seq<PartView>) -> (Seq<u8>, Seq<u8>) {
    (successor(packed(root, start)), packed(root, start).push(255))
}

/// The range of all continuations of a key: from the key followed by the byte 0 to the key
/// followed by the byte 255.
pub fn continuation_range(root: &Vec<u8>, parts: &Vec<KeyPart>) -> (range: (Vec<u8>, Vec<u8>))
    requires
        storable(part_views(parts@)),
        root@.len() + parts_size(part_views(parts@)) <= u32::MAX,
    ensures
        (range.0@, range.1@) == continuations(root@, part_views(parts@)),
        forall|key: Seq<PartView>|
            storable(key) ==> (#[trigger] within(
                (range.0@, range.1@),
                packed(root@, key),
            ) <==> starts_parts(part_views(parts@), key) && part_views(parts@).len() < key.len()),
        forall|key: Seq<PartView>|
            storable(key) ==> (key_less(#[trigger] packed(root@, key), range.1@) <==> parts_less(
                key,
                part_views(parts@),
            ) || starts_parts(part_views(parts@), key)),
{
    let start = pack_key(root, parts);
    let begin = key_after(&start);
    let ghost start_key = start@;
    let mut end = start;
    end.push(255);
    let ghost views = part_views(parts@);
    assert forall|key: Seq<PartView>| storable(key) implies (#[trigger] within(
        (begin@, end@),
        packed(root@, key),
    ) <==> starts_parts(views, key) && views.len() < key.len()) by {
        successor_is_next(start_key, packed(root@, key));
        parts_less_one_way(views, key);
        if starts_parts(views, key) {
            if views.len() < key.len() {
                continuations_follow(views, key);
            } else {
                assert(key.take(views.len() as int) =~= key);
                parts_less_one_way(views, views);
            }
        }
    }
    (begin, end)
}

/// The range of keys from one key up to, but without, another.
pub fn key_range(root: &Vec<u8>, from: &Vec<KeyPart>, to: &Vec<KeyPart>) -> (range: (Vec<u8>, Vec<u8>))
    requires
        storable(part_views(from@)),
        storable(part_views(to@)),
        root@.len() + parts_size(part_views(from@)) <= u32::MAX,
        root@.len() + parts_size(part_views(to@)) <= u32::MAX,
    ensures
        range.0@ == packed(root@, part_views(from@)),
        range.1@ == packed(root@, part_views(to@)),
        forall|key: Seq<PartView>|
            storable(key) ==> (#[trigger] within(
                (range.0@, range.1@),
                packed(root@, key),
            ) <==> !parts_less(key, part_views(from@)) && parts_less(key, part_views(to@))),
{
    let begin = pack_key(root, from);
    let end = pack_key(root, to);
    (begin, end)
}

// ---------------------------------------------------------------------------------------------
// Runnable sessions
// ---------------------------------------------------------------------------------------------

/// Elements of the key of a runnable session.
pub open spec fn runnable_parts(partition: u16, entry: RunnableEntry) -> Seq<PartView> {
    seq![
        PartView::Text("runnable"@),
        PartView::Int(partition as i64),
        PartView::Int(entry.priority),
        moment(entry.wake_at),
        PartView::Bytes(be_bytes(entry.session_id.0 as nat, 16)),
    ]
}

/// Order of runnable sessions of one partition: by priority, wake time and identifier.
pub open spec fn runs_before(a: RunnableEntry, b: RunnableEntry) -> bool {
    ||| a.priority < b.priority
    ||| a.priority == b.priority && a.wake_at.nanos < b.wake_at.nanos
    ||| a.priority == b.priority && a.wake_at == b.wake_at && key_less(
        be_bytes(a.session_id.0 as nat, 16),
        be_bytes(b.session_id.0 as nat, 16),
    )
}

proof fn runnable_order(partition: u16, a: RunnableEntry, b: RunnableEntry)
    requires
        a.wake_at.valid(),
        b.wake_at.valid(),
    ensures
        parts_less(runnable_parts(partition, a), runnable_parts(partition, b)) <==> runs_before(a, b),
{
    moments_keep_order(a.wake_at, b.wake_at);
    let x = be_bytes(a.session_id.0 as nat, 16);
    let y = be_bytes(b.session_id.0 as nat, 16);
    let start = seq![PartView::Text("runnable"@), PartView::Int(partition as i64)];
    let left = seq![PartView::Int(a.priority), moment(a.wake_at), PartView::Bytes(x)];
    let right = seq![PartView::Int(b.priority), moment(b.wake_at), PartView::Bytes(y)];
    assert(runnable_parts(partition, a) =~= start + left);
    assert(runnable_parts(partition, b) =~= start + right);
    continuations_keep_order(start, left, right);
    assert(left.drop_first() =~= seq![moment(a.wake_at), PartView::Bytes(x)]);
    assert(right.drop_first() =~= seq![moment(b.wake_at), PartView::Bytes(y)]);
    assert(left.drop_first().drop_first() =~= seq![PartView::Bytes(x)]);
    assert(right.drop_first().drop_first() =~= seq![PartView::Bytes(y)]);
    assert(left.drop_first().drop_first().drop_first() =~= Seq::<PartView>::empty());
    assert(right.drop_first().drop_first().drop_first() =~= Seq::<PartView>::empty());
    reveal_with_fuel(parts_less, 4);
    if x == y {
        key_is_not_less(x);
    }
}

/// The elements of a runnable session's key.
pub fn runnable_key_parts(partition: u16, entry: &RunnableEntry) -> (parts: Vec<KeyPart>)
    requires
        entry.wake_at.valid(),
    ensures
        part_views(parts@) == runnable_parts(partition, *entry),
{
    let mut parts: Vec<KeyPart> = Vec::new();
    parts.push(KeyPart::Text("runnable".to_owned()));
    parts.push(KeyPart::Int(partition as i64));
    parts.push(KeyPart::Int(entry.priority));
    parts.push(moment_part(entry.wake_at));
    parts.push(KeyPart::Bytes(id_bytes(entry.session_id.0)));
    assert(part_views(parts@) =~= runnable_parts(partition, *entry));
    parts
}

proof fn runnable_size(partition: u16, entry: RunnableEntry)
    ensures
        parts_size(runnable_parts(partition, entry)) <= 200,
        parts_size(seq![PartView::Text("runnable"@), PartView::Int(partition as i64)]) <= 200,
        storable(runnable_parts(partition, entry)),
{
    reveal_strlit("runnable");
    crate::ids::id_round_trip(entry.session_id.0);
    let parts = runnable_parts(partition, entry);
    reveal_with_fuel(parts_size, 6);
    assert(parts.drop_last().last() == moment(entry.wake_at));
    assert(parts.drop_last().drop_last().last() == PartView::Int(entry.priority));
    assert(parts.drop_last().drop_last().drop_last() =~= seq![
        PartView::Text("runnable"@),
        PartView::Int(partition as i64),
    ]);
    let start = seq![PartView::Text("runnable"@), PartView::Int(partition as i64)];
    assert(start.drop_last() =~= seq![PartView::Text("runnable"@)]);
    assert(start.drop_last().drop_last() =~= Seq::<PartView>::empty());
}

/// Whether a range holds what is queued in a partition behind an entry, and nothing that is queued in
/// another partition.
pub open spec fn holds_queued(root: Seq<u8>, partition: u16, after: Option<(RunnableEntry, u16)>, range: (Seq<u8>, Seq<u8>)) -> bool {
    &&& forall|entry: RunnableEntry|
        entry.wake_at.valid() ==> (#[trigger] within(
            range,
            packed(root, runnable_parts(partition, entry)),
        ) <==> (after matches Some((last, _)) ==> runs_before(last, entry)))
    &&& forall|other: u16, entry: RunnableEntry|
        other != partition && entry.wake_at.valid() ==> !(#[trigger] within(
            range,
            packed(root, runnable_parts(other, entry)),
        ))
}

/// The range that a scan of a partition reads: all of it, or what follows the last entry seen.
/// `after` carries the partition that its session lies in.
pub fn scan_runnable(root: &Vec<u8>, partition: u16, after: Option<(RunnableEntry, u16)>) -> (result: StoreResult<(Vec<u8>, Vec<u8>)>)
    requires
        root@.len() + 1024 <= u32::MAX,
        after matches Some((entry, _)) ==> entry.wake_at.valid(),
    ensures
        if partition >= RUNNABLE_PARTITIONS || (after matches Some((_, other)) && other != partition) {
            result matches Err(error) && error == StoreError::InvalidState
        } else {
            &&& result matches Ok((begin, end))
            &&& holds_queued(root@, partition, after, (begin@, end@))
        },
{
    if partition >= RUNNABLE_PARTITIONS {
        return Err(StoreError::InvalidState);
    }
    if let Some((_, other)) = after {
        if other != partition {
            return Err(StoreError::InvalidState);
        }
    }
    let ghost some_entry = RunnableEntry {
        session_id: SessionId(0),
        priority: 0,
        wake_at: Timestamp { nanos: 0 },
    };
    let mut space: Vec<KeyPart> = Vec::new();
    space.push(KeyPart::Text("runnable".to_owned()));
    space.push(KeyPart::Int(partition as i64));
    let ghost start = seq![PartView::Text("runnable"@), PartView::Int(partition as i64)];
    proof {
        assert(part_views(space@) =~= start);
        runnable_size(partition, some_entry);
    }
    let (whole_begin, end) = continuation_range(root, &space);
    assert forall|other: u16, entry: RunnableEntry| entry.wake_at.valid() implies (#[trigger] within(
        (whole_begin@, end@),
        packed(root@, runnable_parts(other, entry)),
    ) <==> other == partition) by {
        let row = runnable_parts(other, entry);
        runnable_size(other, entry);
        if other == partition {
            assert(row.take(2) =~= start);
        } else {
            assert(row.take(2)[1] == PartView::Int(other as i64));
        }
    }
    match after {
        None => Ok((whole_begin, end)),
        Some((last, _)) => {
            let parts = runnable_key_parts(partition, &last);
            proof {
                runnable_size(partition, last);
            }
            let key = pack_key(root, &parts);
            let begin = key_after(&key);
            assert forall|entry: RunnableEntry| entry.wake_at.valid() implies (#[trigger] within(
                (begin@, end@),
                packed(root@, runnable_parts(partition, entry)),
            ) <==> runs_before(last, entry)) by {
                let row = runnable_parts(partition, entry);
                runnable_size(partition, entry);
                successor_is_next(key@, packed(root@, row));
                runnable_order(partition, last, entry);
                assert(within((whole_begin@, end@), packed(root@, row)));
            }
            assert forall|other: u16, entry: RunnableEntry|
                other != partition && entry.wake_at.valid() implies !(#[trigger] within(
                (begin@, end@),
                packed(root@, runnable_parts(other, entry)),
            )) by {
                let row = runnable_parts(other, entry);
                let last_row = runnable_parts(partition, last);
                runnable_size(other, entry);
                successor_is_next(key@, packed(root@, row));
                assert(row.drop_first()[0] == PartView::Int(other as i64));
                assert(last_row.drop_first()[0] == PartView::Int(partition as i64));
                assert(start.drop_first() =~= seq![PartView::Int(partition as i64)]);
                assert(row.take(2)[1] == PartView::Int(other as i64));
                reveal_with_fuel(parts_less, 3);
                parts_less_one_way(row, last_row);
            }
            Ok((begin, end))
        },
    }
}

/// The key of a runnable session. A scan of the partition reads the entry back from it.
pub fn runnable_key(root: &Vec<u8>, partition: u16, entry: &RunnableEntry) -> (key: Vec<u8>)
    requires
        root@.len() + 1024 <= u32::MAX,
        entry.wake_at.valid(),
    ensures
        key@ == packed(root@, runnable_parts(partition, *entry)),
        runnable_row(
            unpacked(
                packed(root@, seq![PartView::Text("runnable"@), PartView::Int(partition as i64)]),
                key@,
            ),
        ) == Some(*entry),
{
    let parts = runnable_key_parts(partition, entry);
    proof {
        let views = runnable_parts(partition, *entry);
        runnable_size(partition, *entry);
        crate::ids::id_round_trip(entry.session_id.0);
        assert(views.take(2) =~= seq![
            PartView::Text("runnable"@),
            PartView::Int(partition as i64),
        ]);
        assert(views.skip(2) =~= seq![
            PartView::Int(entry.priority),
            moment(entry.wake_at),
            PartView::Bytes(be_bytes(entry.session_id.0 as nat, 16)),
        ]);
    }
    pack_key(root, &parts)
}

/// A time that a key may name, from its whole seconds and the rest.
pub open spec fn key_time(second: int, nanos: int) -> Option<Timestamp> {
    if -377_705_023_201 <= second <= 253_402_207_200 && -999_999_999 <= nanos <= 999_999_999 && in_range(
        second * 1_000_000_000 + nanos,
    ) {
        Some(Timestamp { nanos: (second * 1_000_000_000 + nanos) as i128 })
    } else {
        None
    }
}

/// The entry that the elements of a runnable key name, under the partition.
pub open spec fn runnable_row(parts: Option<Seq<PartView>>) -> Option<RunnableEntry> {
    match runnable_parts_of(parts) {
        Some((priority, second, nanos, id)) => match key_time(second as int, nanos as int) {
            Some(wake_at) => if id.len() == 16 {
                Some(
                    RunnableEntry {
                        session_id: SessionId(crate::ids::be_value(id) as u128),
                        priority,
                        wake_at,
                    },
                )
            } else {
                None
            },
            None => None,
        },
        None => None,
    }
}

/// Reads a runnable session out of its key under the partition; a key of another form is corrupt.
pub fn runnable_entry(root: &Vec<u8>, partition: u16, key: &Vec<u8>) -> (result: StoreResult<RunnableEntry>)
    requires
        root@.len() + 1024 <= u32::MAX,
    ensures
        result == match runnable_row(
            unpacked(
                packed(root@, seq![PartView::Text("runnable"@), PartView::Int(partition as i64)]),
                key@,
            ),
        ) {
            Some(entry) => Ok(entry),
            None => Err(StoreError::Corrupt),
        },
{
    let ghost some_entry = RunnableEntry {
        session_id: SessionId(0),
        priority: 0,
        wake_at: Timestamp { nanos: 0 },
    };
    let mut space: Vec<KeyPart> = Vec::new();
    space.push(KeyPart::Text("runnable".to_owned()));
    space.push(KeyPart::Int(partition as i64));
    proof {
        assert(part_views(space@) =~= seq![
            PartView::Text("runnable"@),
            PartView::Int(partition as i64),
        ]);
        runnable_size(partition, some_entry);
    }
    let prefix = pack_key(root, &space);
    let (priority, (second, nanos), id) = match unpack_runnable(&prefix, key) {
        Some(row) => row,
        None => {
            return Err(StoreError::Corrupt);
        },
    };
    if !(-377_705_023_201 <= second && second <= 253_402_207_200 && -999_999_999 <= nanos && nanos
        <= 999_999_999) {
        return Err(StoreError::Corrupt);
    }
    let total: i128 = second as i128 * 1_000_000_000 + nanos as i128;
    let wake_at = match Timestamp::from_nanosecond(total) {
        Some(at) => at,
        None => {
            return Err(StoreError::Corrupt);
        },
    };
    let session = session_id(id)?;
    Ok(RunnableEntry { session_id: session, priority, wake_at })
}

/// A session is read back from its place in an index by time.
pub proof fn timed_sessions_are_read_back(root: Vec<u8>, index: &str, at: Timestamp, id: SessionId, key: Vec<u8>, result: StoreResult<SessionId>)
    requires
        root@.len() + 4 * index@.len() + 1024 <= u32::MAX,
        at.valid(),
        call_ensures(timed_key, (&root, index, at, id), key),
        call_ensures(timed_session, (&root, index, &key), result),
    ensures
        result == Ok::<SessionId, StoreError>(id),
{
    crate::ids::id_round_trip(id.0);
}

/// A scan by time finds a session exactly once its moment has come, and behind where the scan stopped
/// before.
pub proof fn timed_sessions_are_found(
    root: Vec<u8>,
    index: &str,
    now: Timestamp,
    range: Option<(Vec<u8>, Vec<u8>)>,
    at: Timestamp,
    id: SessionId,
    key: Vec<u8>,
)
    requires
        root@.len() + 4 * index@.len() + 1024 <= u32::MAX,
        now.valid(),
        at.valid(),
        call_ensures(timed_range, (&root, index, now, None::<(Timestamp, SessionId)>), range),
        call_ensures(timed_key, (&root, index, at, id), key),
    ensures
        range matches Some((begin, end)) ==> (within((begin@, end@), key@) <==> at.nanos <= now.nanos),
        at.nanos <= now.nanos ==> range is Some,
{
    let begin = timed_begin(root@, index@, None);
    let end = timed_end(root@, index@, now);
    assert(within((begin, end), packed(root@, timed_parts(index@, at, be_bytes(id.0 as nat, 16)))) <==> at.nanos
        <= now.nanos && past(None, at, be_bytes(id.0 as nat, 16)));
    if at.nanos <= now.nanos && range is None {
        above_the_begin(begin, key@, end);
    }
}

proof fn above_the_begin(begin: Seq<u8>, key: Seq<u8>, end: Seq<u8>)
    requires
        !key_less(key, begin),
        key_less(key, end),
    ensures
        key_less(begin, end),
    decreases begin.len(),
{
    if begin.len() > 0 && key.len() > 0 && end.len() > 0 && begin[0] == key[0] && key[0] == end[0] {
        above_the_begin(begin.drop_first(), key.drop_first(), end.drop_first());
    }
}

/// A queued session is read back from its place in the queue: its id, its priority and its moment.
pub proof fn queued_sessions_are_read_back(root: Vec<u8>, partition: u16, entry: RunnableEntry, key: Vec<u8>, result: StoreResult<RunnableEntry>)
    requires
        root@.len() + 1024 <= u32::MAX,
        entry.wake_at.valid(),
        call_ensures(runnable_key, (&root, partition, &entry), key),
        call_ensures(runnable_entry, (&root, partition, &key), result),
    ensures
        result == Ok::<RunnableEntry, StoreError>(entry),
{
}

/// A scan of a partition finds what is queued there and nothing of another partition; after a page it
/// goes on with what comes later: a higher priority number, or a later moment, or a greater id.
pub proof fn queued_sessions_are_found(
    root: Vec<u8>,
    partition: u16,
    after: Option<(RunnableEntry, u16)>,
    result: StoreResult<(Vec<u8>, Vec<u8>)>,
    other: u16,
    entry: RunnableEntry,
    key: Vec<u8>,
)
    requires
        root@.len() + 1024 <= u32::MAX,
        entry.wake_at.valid(),
        after matches Some((last, _)) ==> last.wake_at.valid(),
        call_ensures(scan_runnable, (&root, partition, after), result),
        call_ensures(runnable_key, (&root, other, &entry), key),
    ensures
        result matches Ok((begin, end)) ==> {
            &&& within((begin@, end@), key@) ==> other == partition
            &&& other == partition && after is None ==> within((begin@, end@), key@)
            &&& other == partition ==> (after matches Some((last, _)) ==> {
                &&& last.priority < entry.priority ==> within((begin@, end@), key@)
                &&& last.priority == entry.priority && last.wake_at.nanos < entry.wake_at.nanos ==> within(
                    (begin@, end@),
                    key@,
                )
                &&& last == entry ==> !within((begin@, end@), key@)
                &&& last.priority > entry.priority ==> !within((begin@, end@), key@)
            })
        },
        partition < RUNNABLE_PARTITIONS && after is None ==> result is Ok,
{
    if let Some((last, _)) = after {
        if last == entry {
            let id = be_bytes(last.session_id.0 as nat, 16);
            key_less_one_way(id, id);
        }
    }
    if let Ok((begin, end)) = result {
        let found = within((begin@, end@), packed(root@, runnable_parts(other, entry)));
        if other == partition {
            assert(found <==> (after matches Some((last, _)) ==> runs_before(last, entry)));
        } else {
            assert(!found);
        }
    }
}

/// Byte keys are compared by their first difference.
pub proof fn keys_are_compared_bytewise(a: Vec<u8>, b: Vec<u8>, before: bool)
    requires
        call_ensures(is_before, (&a, &b), before),
    ensures
        b@.len() == 0 ==> !before,
        a@.len() == 0 && b@.len() > 0 ==> before,
        a@.len() > 0 && b@.len() > 0 && a@[0] < b@[0] ==> before,
        a@.len() > 0 && b@.len() > 0 && b@[0] < a@[0] ==> !before,
        a@ == b@ ==> !before,
{
    key_less_one_way(a@, b@);
}

} // verus!
