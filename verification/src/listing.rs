//! Pages of rows in the order of their keys: where a page begins and ends.

use crate::check_limit;
use crate::error::{StoreError, StoreResult};
use crate::ids::{
    be_bytes, bytes_range, bytes_range_16, id_bytes, AgentId, MessageId, NodeId, SessionId, VolumeId,
};
use crate::keys::{
    continuations_follow, continuations_keep_order, key_less_one_way, pack_key, packed, part_less,
    part_views, parts_less, parts_less_one_way, parts_size, starts_parts, storable, within, KeyPart,
    PartView,
};
use crate::paging::{key_after, key_less, successor_is_next};
use crate::text::{text_less_irreflexive, text_less_total, text_less_transitive};
use crate::MAX_SCAN_LIMIT;
use vstd::prelude::*;

verus! {

// ---------------------------------------------------------------------------------------------
// Order
// ---------------------------------------------------------------------------------------------

/// Bytewise order is transitive.
pub proof fn key_less_transitive(a: Seq<u8>, b: Seq<u8>, c: Seq<u8>)
    requires
        key_less(a, b),
        key_less(b, c),
    ensures
        key_less(a, c),
    decreases a.len(),
{
    if a.len() > 0 && b.len() > 0 && c.len() > 0 && a[0] == b[0] && b[0] == c[0] {
        key_less_transitive(a.drop_first(), b.drop_first(), c.drop_first());
    }
}

proof fn part_less_transitive(a: PartView, b: PartView, c: PartView)
    requires
        part_less(a, b),
        part_less(b, c),
    ensures
        part_less(a, c),
        a != c,
{
    match (a, b, c) {
        (PartView::Bytes(x), PartView::Bytes(y), PartView::Bytes(z)) => {
            key_less_transitive(x, y, z);
            key_less_one_way(x, y);
        },
        (PartView::Text(x), PartView::Text(y), PartView::Text(z)) => {
            text_less_transitive(x, y, z);
            text_less_irreflexive(x);
        },
        _ => {},
    }
}

/// The order of keys is transitive.
pub proof fn parts_less_transitive(a: Seq<PartView>, b: Seq<PartView>, c: Seq<PartView>)
    requires
        parts_less(a, b),
        parts_less(b, c),
    ensures
        parts_less(a, c),
    decreases a.len(),
{
    if a.len() > 0 && b.len() > 0 && c.len() > 0 {
        if a[0] == b[0] && b[0] == c[0] {
            parts_less_transitive(a.drop_first(), b.drop_first(), c.drop_first());
        } else if a[0] != b[0] && b[0] != c[0] {
            part_less_transitive(a[0], b[0], c[0]);
        }
    }
}

proof fn key_less_total(a: Seq<u8>, b: Seq<u8>)
    ensures
        key_less(a, b) || key_less(b, a) || a == b,
    decreases a.len(),
{
    if a.len() == 0 && b.len() == 0 {
        assert(a =~= b);
    } else if a.len() > 0 && b.len() > 0 && a[0] == b[0] {
        key_less_total(a.drop_first(), b.drop_first());
        if a.drop_first() == b.drop_first() {
            assert(a =~= seq![a[0]] + a.drop_first());
            assert(b =~= seq![b[0]] + b.drop_first());
        }
    }
}

/// Of two different keys one comes before the other.
pub proof fn parts_less_total(a: Seq<PartView>, b: Seq<PartView>)
    requires
        storable(a),
        storable(b),
    ensures
        parts_less(a, b) || parts_less(b, a) || a == b,
    decreases a.len(),
{
    if a.len() == 0 && b.len() == 0 {
        assert(a =~= b);
    } else if a.len() > 0 && b.len() > 0 {
        if a[0] == b[0] {
            parts_less_total(a.drop_first(), b.drop_first());
            if a.drop_first() == b.drop_first() {
                assert(a =~= seq![a[0]] + a.drop_first());
                assert(b =~= seq![b[0]] + b.drop_first());
            }
        } else {
            match (a[0], b[0]) {
                (PartView::Bytes(x), PartView::Bytes(y)) => {
                    key_less_total(x, y);
                },
                (PartView::Text(x), PartView::Text(y)) => {
                    text_less_total(x, y);
                },
                _ => {},
            }
        }
    }
}

proof fn last_byte_decides(a: Seq<u8>, x: u8, b: Seq<u8>, y: u8)
    requires
        a.len() == b.len(),
    ensures
        key_less(a.push(x), b.push(y)) <==> key_less(a, b) || (a == b && x < y),
    decreases a.len(),
{
    if a.len() == 0 {
        assert(a =~= b);
        assert(a.push(x).drop_first() =~= Seq::<u8>::empty());
        assert(b.push(y).drop_first() =~= Seq::<u8>::empty());
        reveal_with_fuel(key_less, 2);
    } else {
        assert(a.push(x).drop_first() =~= a.drop_first().push(x));
        assert(b.push(y).drop_first() =~= b.drop_first().push(y));
        last_byte_decides(a.drop_first(), x, b.drop_first(), y);
        if a[0] == b[0] && a.drop_first() == b.drop_first() {
            assert(a =~= seq![a[0]] + a.drop_first());
            assert(b =~= seq![b[0]] + b.drop_first());
        }
    }
}

/// Identifiers sort as key elements as they do as numbers.
pub proof fn identifiers_keep_order(a: nat, b: nat, width: nat)
    requires
        a < bytes_range(width),
        b < bytes_range(width),
    ensures
        be_bytes(a, width).len() == width,
        key_less(be_bytes(a, width), be_bytes(b, width)) <==> a < b,
        be_bytes(a, width) == be_bytes(b, width) <==> a == b,
    decreases width,
{
    if width > 0 {
        let rest = (width - 1) as nat;
        let front_a = be_bytes(a / 256, rest);
        let front_b = be_bytes(b / 256, rest);
        let last_a = (a % 256) as u8;
        let last_b = (b % 256) as u8;
        identifiers_keep_order(a / 256, b / 256, rest);
        identifiers_keep_order(b / 256, a / 256, rest);
        last_byte_decides(front_a, last_a, front_b, last_b);
        assert(be_bytes(a, width) == front_a.push(last_a));
        assert(be_bytes(b, width) == front_b.push(last_b));
        if be_bytes(a, width) == be_bytes(b, width) {
            assert(front_a =~= be_bytes(a, width).drop_last());
            assert(front_b =~= be_bytes(b, width).drop_last());
            assert(be_bytes(a, width).last() == last_a);
            assert(be_bytes(b, width).last() == last_b);
        }
    }
}

// ---------------------------------------------------------------------------------------------
// Pages
// ---------------------------------------------------------------------------------------------

/// Whether a row belongs to a listing: it lies under the listing's key, behind the last row seen.
pub open spec fn listed(space: Seq<PartView>, last: Option<Seq<PartView>>, key: Seq<PartView>) -> bool {
    &&& starts_parts(space, key)
    &&& space.len() < key.len()
    &&& last matches Some(seen) ==> parts_less(seen, key)
}

/// View of the last row seen.
pub open spec fn last_view(last: Option<Vec<KeyPart>>) -> Option<Seq<PartView>> {
    match last {
        Some(seen) => Some(part_views(seen@)),
        None => None,
    }
}

/// The range of the rows under a key, behind the last row seen. The last row is given by its whole
/// key.
pub fn listing_range(root: &Vec<u8>, space: &Vec<KeyPart>, last: &Option<Vec<KeyPart>>) -> (range: (Vec<u8>, Vec<u8>))
    requires
        storable(part_views(space@)),
        root@.len() + parts_size(part_views(space@)) <= u32::MAX,
        last_view(*last) matches Some(seen) ==> {
            &&& storable(seen)
            &&& starts_parts(part_views(space@), seen)
            &&& root@.len() + parts_size(seen) <= u32::MAX
        },
    ensures
        forall|key: Seq<PartView>|
            storable(key) ==> (#[trigger] within((range.0@, range.1@), packed(root@, key))
                <==> listed(part_views(space@), last_view(*last), key)),
{
    let ghost views = part_views(space@);
    let start = pack_key(root, space);
    let first = match last {
        Some(seen) => pack_key(root, seen),
        None => pack_key(root, space),
    };
    let begin = key_after(&first);
    let mut end = start;
    end.push(255);
    assert forall|key: Seq<PartView>| storable(key) implies (#[trigger] within(
        (begin@, end@),
        packed(root@, key),
    ) <==> listed(views, last_view(*last), key)) by {
        let seen = match last_view(*last) {
            Some(seen) => seen,
            None => views,
        };
        successor_is_next(first@, packed(root@, key));
        parts_less_one_way(views, key);
        assert(starts_parts(views, seen)) by {
            assert(views.take(views.len() as int) =~= views);
        }
        if views.len() < seen.len() {
            continuations_follow(views, seen);
        } else {
            assert(seen.take(views.len() as int) =~= seen);
        }
        if parts_less(seen, key) && seen != views {
            parts_less_transitive(views, seen, key);
        }
        if starts_parts(views, key) {
            if views.len() < key.len() {
                continuations_follow(views, key);
            } else {
                assert(key.take(views.len() as int) =~= key);
                parts_less_one_way(views, views);
                parts_less_one_way(views, seen);
            }
        }
    }
    (begin, end)
}

/// A listing leaves nothing out and repeats nothing: of a row under its key exactly one holds. It
/// is the last row seen, it came before that row, or it is in the range behind it.
pub proof fn listings_are_complete(space: Seq<PartView>, seen: Seq<PartView>, key: Seq<PartView>)
    requires
        storable(seen),
        storable(key),
        starts_parts(space, key),
        space.len() < key.len(),
    ensures
        listed(space, None, key),
        listed(space, Some(seen), key) <==> !(key == seen || parts_less(key, seen)),
        !(key == seen && parts_less(key, seen)),
{
    parts_less_total(seen, key);
    parts_less_one_way(seen, key);
}

/// The key that a listing of identifiers runs under.
pub open spec fn id_space(kind: Seq<char>, owner: Option<u128>) -> Seq<PartView> {
    match owner {
        Some(owner) => seq![PartView::Text(kind), PartView::Bytes(be_bytes(owner as nat, 16))],
        None => seq![PartView::Text(kind)],
    }
}

/// The key of a row by its identifier.
pub open spec fn id_row(kind: Seq<char>, owner: Option<u128>, id: u128) -> Seq<PartView> {
    id_space(kind, owner).push(PartView::Bytes(be_bytes(id as nat, 16)))
}

/// Whether a range holds exactly the rows whose identifiers follow the last one seen.
pub open spec fn holds_ids(root: Seq<u8>, kind: Seq<char>, owner: Option<u128>, after: Option<u128>, range: (Seq<u8>, Seq<u8>)) -> bool {
    forall|id: u128|
        #[trigger] within(range, packed(root, id_row(kind, owner, id))) <==> (after matches Some(
            seen,
        ) ==> seen < id)
}

proof fn id_row_size(kind: Seq<char>, owner: Option<u128>, id: u128)
    ensures
        storable(id_space(kind, owner)),
        storable(id_row(kind, owner, id)),
        parts_size(id_space(kind, owner)) <= 4 * kind.len() + 36,
        parts_size(id_row(kind, owner, id)) <= 4 * kind.len() + 70,
{
    bytes_range_16();
    identifiers_keep_order(id as nat, id as nat, 16);
    let space = id_space(kind, owner);
    if let Some(owner) = owner {
        identifiers_keep_order(owner as nat, owner as nat, 16);
        assert(space.drop_last() =~= seq![PartView::Text(kind)]);
    }
    assert(seq![PartView::Text(kind)].drop_last() =~= Seq::<PartView>::empty());
    assert(id_row(kind, owner, id).drop_last() =~= space);
    reveal_with_fuel(parts_size, 4);
}

fn id_parts(kind: &str, owner: Option<u128>) -> (parts: Vec<KeyPart>)
    ensures
        part_views(parts@) == id_space(kind@, owner),
{
    let mut parts: Vec<KeyPart> = Vec::new();
    parts.push(KeyPart::Text(kind.to_owned()));
    if let Some(owner) = owner {
        parts.push(KeyPart::Bytes(id_bytes(owner)));
    }
    assert(part_views(parts@) =~= id_space(kind@, owner));
    parts
}

/// The range of the rows of one kind, by identifier, behind the last one seen.
pub fn id_range(root: &Vec<u8>, kind: &str, owner: Option<u128>, after: Option<u128>) -> (range: (Vec<u8>, Vec<u8>))
    requires
        root@.len() + 4 * kind@.len() + 1024 <= u32::MAX,
    ensures
        holds_ids(root@, kind@, owner, after, (range.0@, range.1@)),
{
    let space = id_parts(kind, owner);
    let last = match after {
        Some(id) => {
            let mut parts = id_parts(kind, owner);
            let ghost held = parts@;
            parts.push(KeyPart::Bytes(id_bytes(id)));
            assert(part_views(parts@) =~= id_row(kind@, owner, id)) by {
                assert(part_views(held) == id_space(kind@, owner));
            }
            Some(parts)
        },
        None => None,
    };
    proof {
        let id = match after {
            Some(id) => id,
            None => 0u128,
        };
        id_row_size(kind@, owner, id);
        assert(id_row(kind@, owner, id).take(id_space(kind@, owner).len() as int) =~= id_space(
            kind@,
            owner,
        ));
    }
    let range = listing_range(root, &space, &last);
    assert forall|id: u128|
        #[trigger] within((range.0@, range.1@), packed(root@, id_row(kind@, owner, id))) <==> (
        after matches Some(seen) ==> seen < id) by {
        let under = id_space(kind@, owner);
        let key = id_row(kind@, owner, id);
        id_row_size(kind@, owner, id);
        assert(key.take(under.len() as int) =~= under);
        if let Some(seen) = after {
            bytes_range_16();
            identifiers_keep_order(seen as nat, id as nat, 16);
            let a = seq![PartView::Bytes(be_bytes(seen as nat, 16))];
            let b = seq![PartView::Bytes(be_bytes(id as nat, 16))];
            assert(id_row(kind@, owner, seen) =~= under + a);
            assert(key =~= under + b);
            continuations_keep_order(under, a, b);
            assert(a.drop_first() =~= Seq::<PartView>::empty());
            assert(b.drop_first() =~= Seq::<PartView>::empty());
            reveal_with_fuel(parts_less, 2);
        }
    }
    range
}

/// The range of a page of sessions, in the order of their identifiers.
pub fn list_sessions(root: &Vec<u8>, after: Option<SessionId>, limit: usize) -> (result: StoreResult<(Vec<u8>, Vec<u8>)>)
    requires
        root@.len() + 2048 <= u32::MAX,
    ensures
        match result {
            Ok(range) => 1 <= limit <= MAX_SCAN_LIMIT && holds_ids(
                root@,
                "session"@,
                None,
                match after {
                    Some(id) => Some(id.0),
                    None => None,
                },
                (range.0@, range.1@),
            ),
            Err(error) => !(1 <= limit <= MAX_SCAN_LIMIT) && error == StoreError::InvalidLimit,
        },
{
    check_limit(limit)?;
    proof {
        reveal_strlit("session");
    }
    let seen = match after {
        Some(id) => Some(id.0),
        None => None,
    };
    Ok(id_range(root, "session", None, seen))
}

/// The range of a page of agents, in the order of their identifiers.
pub fn list_agents(root: &Vec<u8>, after: Option<AgentId>, limit: usize) -> (result: StoreResult<(Vec<u8>, Vec<u8>)>)
    requires
        root@.len() + 2048 <= u32::MAX,
    ensures
        match result {
            Ok(range) => 1 <= limit <= MAX_SCAN_LIMIT && holds_ids(
                root@,
                "agent"@,
                None,
                match after {
                    Some(id) => Some(id.0),
                    None => None,
                },
                (range.0@, range.1@),
            ),
            Err(error) => !(1 <= limit <= MAX_SCAN_LIMIT) && error == StoreError::InvalidLimit,
        },
{
    check_limit(limit)?;
    proof {
        reveal_strlit("agent");
    }
    let seen = match after {
        Some(id) => Some(id.0),
        None => None,
    };
    Ok(id_range(root, "agent", None, seen))
}

/// The range of a page of an agent's sessions, in the order of their identifiers.
pub fn list_sessions_by_agent(root: &Vec<u8>, agent: AgentId, after: Option<SessionId>, limit: usize) -> (result: StoreResult<(Vec<u8>, Vec<u8>)>)
    requires
        root@.len() + 2048 <= u32::MAX,
    ensures
        match result {
            Ok(range) => 1 <= limit <= MAX_SCAN_LIMIT && holds_ids(
                root@,
                "session_by_agent"@,
                Some(agent.0),
                match after {
                    Some(id) => Some(id.0),
                    None => None,
                },
                (range.0@, range.1@),
            ),
            Err(error) => !(1 <= limit <= MAX_SCAN_LIMIT) && error == StoreError::InvalidLimit,
        },
{
    check_limit(limit)?;
    proof {
        reveal_strlit("session_by_agent");
    }
    let seen = match after {
        Some(id) => Some(id.0),
        None => None,
    };
    Ok(id_range(root, "session_by_agent", Some(agent.0), seen))
}

/// The range of a page of a node's placements, in the order of their agents.
pub fn list_by_node(root: &Vec<u8>, node: NodeId, after: Option<AgentId>, limit: usize) -> (result: StoreResult<(Vec<u8>, Vec<u8>)>)
    requires
        root@.len() + 2048 <= u32::MAX,
    ensures
        match result {
            Ok(range) => 1 <= limit <= MAX_SCAN_LIMIT && holds_ids(
                root@,
                "placement_by_node"@,
                Some(node.0),
                match after {
                    Some(id) => Some(id.0),
                    None => None,
                },
                (range.0@, range.1@),
            ),
            Err(error) => !(1 <= limit <= MAX_SCAN_LIMIT) && error == StoreError::InvalidLimit,
        },
{
    check_limit(limit)?;
    proof {
        reveal_strlit("placement_by_node");
    }
    let seen = match after {
        Some(id) => Some(id.0),
        None => None,
    };
    Ok(id_range(root, "placement_by_node", Some(node.0), seen))
}

/// The range of a page of disks, in the order of their identifiers.
pub fn list_volumes(root: &Vec<u8>, after: Option<VolumeId>, limit: usize) -> (result: StoreResult<(Vec<u8>, Vec<u8>)>)
    requires
        root@.len() + 2048 <= u32::MAX,
    ensures
        match result {
            Ok(range) => 1 <= limit <= MAX_SCAN_LIMIT && holds_ids(
                root@,
                "volume"@,
                None,
                match after {
                    Some(id) => Some(id.0),
                    None => None,
                },
                (range.0@, range.1@),
            ),
            Err(error) => !(1 <= limit <= MAX_SCAN_LIMIT) && error == StoreError::InvalidLimit,
        },
{
    check_limit(limit)?;
    proof {
        reveal_strlit("volume");
    }
    let seen = match after {
        Some(id) => Some(id.0),
        None => None,
    };
    Ok(id_range(root, "volume", None, seen))
}

/// The range of a page of a session's turns, in the order of their identifiers.
pub fn list_turns(root: &Vec<u8>, session: SessionId, after: Option<MessageId>, limit: usize) -> (result: StoreResult<(Vec<u8>, Vec<u8>)>)
    requires
        root@.len() + 2048 <= u32::MAX,
    ensures
        match result {
            Ok(range) => 1 <= limit <= MAX_SCAN_LIMIT && holds_ids(
                root@,
                "turn_metrics"@,
                Some(session.0),
                match after {
                    Some(id) => Some(id.0),
                    None => None,
                },
                (range.0@, range.1@),
            ),
            Err(error) => !(1 <= limit <= MAX_SCAN_LIMIT) && error == StoreError::InvalidLimit,
        },
{
    check_limit(limit)?;
    proof {
        reveal_strlit("turn_metrics");
    }
    let seen = match after {
        Some(id) => Some(id.0),
        None => None,
    };
    Ok(id_range(root, "turn_metrics", Some(session.0), seen))
}

/// The key that a session's events lie under.
pub open spec fn event_space(id: SessionId) -> Seq<PartView> {
    id_space("event"@, Some(id.0))
}

/// The key of an event.
pub open spec fn event_row(id: SessionId, seq: i64) -> Seq<PartView> {
    event_space(id).push(PartView::Int(seq))
}

/// Whether a range holds the rows of a session's events behind a number, and no other rows of them.
pub open spec fn holds_events(root: Seq<u8>, id: SessionId, after: u64, range: (Seq<u8>, Seq<u8>)) -> bool {
    forall|seq: i64| #[trigger] within(range, packed(root, event_row(id, seq))) <==> after < seq
}

/// The range of a page of a session's events behind a sequence number: all later ones, in order.
/// Sequence numbers are written as signed elements.
pub fn read_events(root: &Vec<u8>, id: SessionId, after: u64, limit: usize) -> (result: StoreResult<(Vec<u8>, Vec<u8>)>)
    requires
        root@.len() + 2048 <= u32::MAX,
        after <= i64::MAX,
    ensures
        match result {
            Ok(range) => {
                &&& 1 <= limit <= MAX_SCAN_LIMIT
                &&& holds_events(root@, id, after, (range.0@, range.1@))
            },
            Err(error) => !(1 <= limit <= MAX_SCAN_LIMIT) && error == StoreError::InvalidLimit,
        },
{
    check_limit(limit)?;
    let space = id_parts("event", Some(id.0));
    let mut seen = id_parts("event", Some(id.0));
    let ghost held = seen@;
    seen.push(KeyPart::Int(after as i64));
    let ghost under = event_space(id);
    let ghost last = event_row(id, after as i64);
    proof {
        reveal_strlit("event");
        assert(part_views(seen@) =~= last) by {
            assert(part_views(held) == under);
        }
        id_row_size("event"@, Some(id.0), 0);
        assert(last.take(under.len() as int) =~= under);
        assert(last.drop_last() =~= under);
    }
    let range = listing_range(root, &space, &Some(seen));
    assert forall|seq: i64|
        #[trigger] within((range.0@, range.1@), packed(root@, event_row(id, seq))) <==> after < seq by {
        let key = event_row(id, seq);
        assert(key.take(under.len() as int) =~= under);
        let a = seq![PartView::Int(after as i64)];
        let b = seq![PartView::Int(seq)];
        assert(last =~= under + a);
        assert(key =~= under + b);
        continuations_keep_order(under, a, b);
        assert(a.drop_first() =~= Seq::<PartView>::empty());
        assert(b.drop_first() =~= Seq::<PartView>::empty());
        reveal_with_fuel(parts_less, 2);
    }
    Ok(range)
}

} // verus!
