//! Placements of computers on nodes, fenced by an epoch that only ever grows.

use crate::error::{StoreError, StoreResult};
use crate::ids::{AgentId, NodeId};
use crate::text::{decimal, format_decimal, join2};
use crate::time::Timestamp;
use vstd::prelude::*;

verus! {

/// Why a placement came about.
#[derive(Clone, Copy, Debug, PartialEq, Eq, Structural)]
pub enum PlacementChangeReason {
    /// The first placement of a computer.
    Initial,
    /// Placed again before any node had started it.
    Unstarted,
    /// Placed again after a release.
    Eviction,
    /// Taken over after its lease expired.
    Failure,
}

/// Where a computer runs. Node and epoch are the token that fences its work.
#[derive(Clone, Copy, Debug, PartialEq, Eq, Structural)]
pub struct PlacementRecord {
    pub agent_id: AgentId,
    pub node_id: NodeId,
    pub epoch: u64,
    pub expires_at: Timestamp,
    pub last_change_reason: PlacementChangeReason,
    pub last_changed_at: Timestamp,
}

/// The rows about one computer. The placement stands for its row by agent and its row by node; the
/// epoch counter outlives it.
#[derive(Clone, Copy, Debug, PartialEq, Eq, Structural)]
pub struct PlacementRows {
    pub placement: Option<PlacementRecord>,
    pub epoch: Option<u64>,
    pub deleted: bool,
}

/// What a node advertises for placement.
#[derive(Clone, Copy, Debug, PartialEq, Eq, Structural)]
pub struct NodeCapacity {
    /// Whether the node hosts computers at all.
    pub sandbox: bool,
    /// How many computers it takes.
    pub sandboxes: u32,
}

/// The rows about one node that a placement reads: its advertisement and how many computers count
/// against it.
#[derive(Clone, Copy, Debug, PartialEq, Eq, Structural)]
pub struct NodeRows {
    pub node_id: NodeId,
    pub registered: Option<NodeCapacity>,
    pub count: Option<u32>,
}

/// Computers that count against a node.
pub open spec fn used(count: Option<u32>) -> u32 {
    match count {
        Some(count) => count,
        None => 0,
    }
}

/// Whether a node takes one more computer.
pub open spec fn has_capacity(node: NodeRows) -> bool {
    node.registered matches Some(capacity) && capacity.sandbox && used(node.count)
        < capacity.sandboxes
}

/// The words about a full node.
pub open spec fn full_text(count: u32, sandboxes: u32) -> Seq<char> {
    decimal(count as nat) + " of "@ + decimal(sandboxes as nat) + " computers"@
}

/// Why a node takes no further computer.
pub open spec fn refused_by(node: NodeRows, error: StoreError) -> bool {
    match node.registered {
        None => error == StoreError::NodeMissing,
        Some(capacity) => if !capacity.sandbox {
            error == StoreError::InvalidState
        } else {
            error matches StoreError::NodeAtCapacity { detail } && detail@ == full_text(
                used(node.count),
                capacity.sandboxes,
            )
        },
    }
}

/// Counts one more computer against a node.
pub fn reserve_computer(node: &NodeRows) -> (result: StoreResult<u32>)
    ensures
        match result {
            Ok(count) => has_capacity(*node) && count == used(node.count) + 1,
            Err(error) => !has_capacity(*node) && refused_by(*node, error),
        },
{
    let capacity = match node.registered {
        Some(capacity) => capacity,
        None => {
            return Err(StoreError::NodeMissing);
        },
    };
    if !capacity.sandbox {
        return Err(StoreError::InvalidState);
    }
    let count: u32 = match node.count {
        Some(count) => count,
        None => 0,
    };
    if count >= capacity.sandboxes {
        let start = join2(format_decimal(count as u64).as_str(), " of ");
        let middle = join2(start.as_str(), format_decimal(capacity.sandboxes as u64).as_str());
        return Err(StoreError::NodeAtCapacity { detail: join2(middle.as_str(), " computers") });
    }
    Ok(count + 1)
}

/// Counts one computer less against a node.
pub fn free_computer(count: &Option<u32>) -> (result: StoreResult<u32>)
    ensures
        match result {
            Ok(left) => used(*count) > 0 && left == used(*count) - 1,
            Err(error) => used(*count) == 0 && error == StoreError::Corrupt,
        },
{
    match count {
        Some(count) if *count > 0 => Ok(*count - 1),
        _ => Err(StoreError::Corrupt),
    }
}

/// Whether a token names the current placement.
pub open spec fn is_current(rows: PlacementRows, token: PlacementRecord) -> bool {
    rows.placement matches Some(current) && current.node_id == token.node_id && current.epoch
        == token.epoch
}

/// Whether a token names the current placement and its lease runs.
pub open spec fn is_live(rows: PlacementRows, token: PlacementRecord, now: Timestamp) -> bool {
    is_current(rows, token) && rows.placement->0.expires_at.nanos > now.nanos
}

/// The current placement, if the token names it.
pub fn checked_placement(rows: &PlacementRows, expected: &PlacementRecord) -> (result: StoreResult<PlacementRecord>)
    ensures
        match result {
            Ok(current) => is_current(*rows, *expected) && rows.placement == Some(current),
            Err(error) => !is_current(*rows, *expected) && error == StoreError::LeaseMismatch,
        },
{
    match rows.placement {
        Some(current) if current.node_id == expected.node_id && current.epoch == expected.epoch =>
            Ok(current),
        _ => Err(StoreError::LeaseMismatch),
    }
}

/// Checks that a token names a live placement.
pub fn check_live_placement(rows: &PlacementRows, expected: &PlacementRecord, now: Timestamp) -> (result: StoreResult<()>)
    ensures
        match result {
            Ok(_) => is_live(*rows, *expected, now),
            Err(error) => !is_live(*rows, *expected, now) && error == StoreError::LeaseMismatch,
        },
{
    let current = checked_placement(rows, expected)?;
    if current.expires_at.nanos <= now.nanos {
        return Err(StoreError::LeaseMismatch);
    }
    Ok(())
}

/// Checks that a computer was not deleted.
pub fn check_computer(deleted: bool) -> (result: StoreResult<()>)
    ensures
        match result {
            Ok(_) => !deleted,
            Err(error) => deleted && error == StoreError::ComputerDeleted,
        },
{
    if deleted {
        Err(StoreError::ComputerDeleted)
    } else {
        Ok(())
    }
}

/// The epoch of the last placement; 0 before the first.
pub open spec fn last_epoch(rows: PlacementRows) -> u64 {
    match rows.epoch {
        Some(epoch) => epoch,
        None => 0,
    }
}

/// The placement that follows on an absent one.
pub open spec fn first_placement(rows: PlacementRows, agent: AgentId, node: NodeId, expires_at: Timestamp, now: Timestamp) -> PlacementRecord {
    PlacementRecord {
        agent_id: agent,
        node_id: node,
        epoch: (last_epoch(rows) + 1) as u64,
        expires_at,
        last_change_reason: if last_epoch(rows) == 0 {
            PlacementChangeReason::Initial
        } else {
            PlacementChangeReason::Eviction
        },
        last_changed_at: now,
    }
}

/// Rows after a placement was written.
pub open spec fn placed(rows: PlacementRows, record: PlacementRecord) -> PlacementRows {
    PlacementRows { placement: Some(record), epoch: Some(record.epoch), deleted: rows.deleted }
}

/// Rows after a placement was cleared; the epoch counter stays.
pub open spec fn cleared(rows: PlacementRows) -> PlacementRows {
    PlacementRows { placement: None, ..rows }
}

/// Places an absent computer on a node and counts it there. Deleted computers are never placed
/// again.
pub fn place(
    rows: &PlacementRows,
    node: &NodeRows,
    agent: AgentId,
    expires_at: Timestamp,
    now: Timestamp,
) -> (result: StoreResult<(PlacementRows, u32)>)
    ensures
        if expires_at.nanos <= now.nanos {
            result matches Err(error) && error == StoreError::LeaseMismatch
        } else if rows.deleted {
            result matches Err(error) && error == StoreError::ComputerDeleted
        } else if rows.placement is Some {
            result matches Err(error) && error == StoreError::PlacementExists
        } else if !has_capacity(*node) {
            result matches Err(error) && refused_by(*node, error)
        } else if last_epoch(*rows) == u64::MAX {
            result matches Err(error) && error == StoreError::SequenceOverflow
        } else {
            result == Ok::<(PlacementRows, u32), StoreError>(
                (
                    placed(*rows, first_placement(*rows, agent, node.node_id, expires_at, now)),
                    (used(node.count) + 1) as u32,
                ),
            )
        },
{
    if expires_at.nanos <= now.nanos {
        return Err(StoreError::LeaseMismatch);
    }
    check_computer(rows.deleted)?;
    if rows.placement.is_some() {
        return Err(StoreError::PlacementExists);
    }
    let last: u64 = match rows.epoch {
        Some(epoch) => epoch,
        None => 0,
    };
    let count: u32 = reserve_computer(node)?;
    let epoch: u64 = match last.checked_add(1) {
        Some(epoch) => epoch,
        None => {
            return Err(StoreError::SequenceOverflow);
        },
    };
    let record = PlacementRecord {
        agent_id: agent,
        node_id: node.node_id,
        epoch,
        expires_at,
        last_change_reason: if last == 0 {
            PlacementChangeReason::Initial
        } else {
            PlacementChangeReason::Eviction
        },
        last_changed_at: now,
    };
    Ok((PlacementRows { placement: Some(record), epoch: Some(epoch), deleted: rows.deleted }, count))
}

/// Extends a live placement. An earlier answer to a renewal stays a valid token, because only node
/// and epoch are compared.
pub fn renew(rows: &PlacementRows, expected: &PlacementRecord, expires_at: Timestamp, now: Timestamp) -> (result: StoreResult<PlacementRows>)
    ensures
        match result {
            Ok(next) => {
                &&& is_live(*rows, *expected, now)
                &&& expires_at.nanos > rows.placement->0.expires_at.nanos
                &&& next == placed(*rows, PlacementRecord { expires_at, ..rows.placement->0 })
            },
            Err(error) => {
                &&& error == StoreError::LeaseMismatch
                &&& !is_live(*rows, *expected, now) || expires_at.nanos
                    <= rows.placement->0.expires_at.nanos
            },
        },
{
    let current = checked_placement(rows, expected)?;
    if current.expires_at.nanos <= now.nanos || expires_at.nanos <= current.expires_at.nanos {
        return Err(StoreError::LeaseMismatch);
    }
    let record = PlacementRecord { expires_at, ..current };
    Ok(
        PlacementRows {
            placement: Some(record),
            epoch: Some(record.epoch),
            deleted: rows.deleted,
        },
    )
}

/// Clears a live placement and returns its capacity to the node.
pub fn release(rows: &PlacementRows, count: &Option<u32>, expected: &PlacementRecord, now: Timestamp) -> (result: StoreResult<(PlacementRows, u32)>)
    ensures
        if !is_live(*rows, *expected, now) {
            result matches Err(error) && error == StoreError::LeaseMismatch
        } else if used(*count) == 0 {
            result matches Err(error) && error == StoreError::Corrupt
        } else {
            result == Ok::<(PlacementRows, u32), StoreError>(
                (cleared(*rows), (used(*count) - 1) as u32),
            )
        },
{
    check_live_placement(rows, expected, now)?;
    let left: u32 = free_computer(count)?;
    Ok((PlacementRows { placement: None, ..*rows }, left))
}

/// Clears the placement of a computer that is being deleted, live or not. Returns what is left of
/// the node's count, if there was a placement.
pub fn release_deleted_computer(rows: &PlacementRows, count: &Option<u32>) -> (result: StoreResult<(PlacementRows, Option<u32>)>)
    ensures
        match rows.placement {
            None => result == Ok::<(PlacementRows, Option<u32>), StoreError>(
                ((PlacementRows { deleted: true, ..*rows }), None),
            ),
            Some(_) => if used(*count) == 0 {
                result matches Err(error) && error == StoreError::Corrupt
            } else {
                result == Ok::<(PlacementRows, Option<u32>), StoreError>(
                    (
                        (PlacementRows { deleted: true, ..cleared(*rows) }),
                        Some((used(*count) - 1) as u32),
                    ),
                )
            },
        },
{
    match rows.placement {
        None => Ok((PlacementRows { deleted: true, ..*rows }, None)),
        Some(_) => {
            let left: u32 = free_computer(count)?;
            Ok((PlacementRows { placement: None, deleted: true, ..*rows }, Some(left)))
        },
    }
}

/// What a takeover writes.
#[derive(Clone, Copy, Debug, PartialEq, Eq, Structural)]
pub struct TakenOver {
    pub rows: PlacementRows,
    /// Count of the node that lost the computer; superseded by `reserved` on the same node.
    pub freed: u32,
    /// Count of the node that takes the computer.
    pub reserved: u32,
}

/// The node as the takeover sees it, after the former placement returned its capacity.
pub open spec fn after_freeing(current: PlacementRecord, count: Option<u32>, node: NodeRows) -> NodeRows {
    if node.node_id == current.node_id {
        NodeRows { count: Some((used(count) - 1) as u32), ..node }
    } else {
        node
    }
}

/// The placement that replaces an expired one.
pub open spec fn next_placement(current: PlacementRecord, node: NodeId, expires_at: Timestamp, now: Timestamp) -> PlacementRecord {
    PlacementRecord {
        node_id: node,
        epoch: (current.epoch + 1) as u64,
        expires_at,
        last_change_reason: PlacementChangeReason::Failure,
        last_changed_at: now,
        ..current
    }
}

/// Replaces an expired placement under a new epoch. `count` is that of the node that held it.
pub fn take_over(
    rows: &PlacementRows,
    count: &Option<u32>,
    node: &NodeRows,
    expected: &PlacementRecord,
    expires_at: Timestamp,
    now: Timestamp,
) -> (result: StoreResult<TakenOver>)
    ensures
        if !is_current(*rows, *expected) || is_live(*rows, *expected, now) || expires_at.nanos
            <= now.nanos {
            result matches Err(error) && error == StoreError::LeaseMismatch
        } else if used(*count) == 0 {
            result matches Err(error) && error == StoreError::Corrupt
        } else {
            let current = rows.placement->0;
            let seen = after_freeing(current, *count, *node);
            if !has_capacity(seen) {
                result matches Err(error) && refused_by(seen, error)
            } else if current.epoch == u64::MAX {
                result matches Err(error) && error == StoreError::SequenceOverflow
            } else {
                result == Ok::<TakenOver, StoreError>(
                    (TakenOver {
                        rows: placed(
                            *rows,
                            next_placement(current, node.node_id, expires_at, now),
                        ),
                        freed: (used(*count) - 1) as u32,
                        reserved: (used(seen.count) + 1) as u32,
                    }),
                )
            }
        },
{
    let current = checked_placement(rows, expected)?;
    if current.expires_at.nanos > now.nanos || expires_at.nanos <= now.nanos {
        return Err(StoreError::LeaseMismatch);
    }
    let freed: u32 = free_computer(count)?;
    let seen = if node.node_id == current.node_id {
        NodeRows { count: Some(freed), ..*node }
    } else {
        *node
    };
    let reserved: u32 = reserve_computer(&seen)?;
    let epoch: u64 = match current.epoch.checked_add(1) {
        Some(epoch) => epoch,
        None => {
            return Err(StoreError::SequenceOverflow);
        },
    };
    let record = PlacementRecord {
        node_id: node.node_id,
        epoch,
        expires_at,
        last_change_reason: PlacementChangeReason::Failure,
        last_changed_at: now,
        ..current
    };
    Ok(
        TakenOver {
            rows: PlacementRows {
                placement: Some(record),
                epoch: Some(epoch),
                deleted: rows.deleted,
            },
            freed,
            reserved,
        },
    )
}

// ---------------------------------------------------------------------------------------------
// Laws
// ---------------------------------------------------------------------------------------------

/// Whether the epoch counter agrees with the placement.
pub open spec fn counted(rows: PlacementRows) -> bool {
    rows.placement matches Some(current) ==> rows.epoch == Some(current.epoch)
}

/// Whether a token was granted before and names no current placement any more.
pub open spec fn stale(rows: PlacementRows, token: PlacementRecord) -> bool {
    token.epoch <= last_epoch(rows) && !is_current(rows, token)
}

/// A token that went stale never becomes valid again, whatever happens to the placement: a new
/// placement, a renewal, a release, a deletion or a takeover.
pub proof fn stale_tokens_stay_stale(
    rows: PlacementRows,
    token: PlacementRecord,
    agent: AgentId,
    node: NodeId,
    expires_at: Timestamp,
    now: Timestamp,
)
    requires
        counted(rows),
        stale(rows, token),
        last_epoch(rows) < u64::MAX,
    ensures
        rows.placement is None ==> stale(
            placed(rows, first_placement(rows, agent, node, expires_at, now)),
            token,
        ),
        rows.placement matches Some(current) ==> stale(
            placed(rows, PlacementRecord { expires_at, ..current }),
            token,
        ),
        stale(cleared(rows), token),
        stale(PlacementRows { deleted: true, ..cleared(rows) }, token),
        rows.placement matches Some(current) ==> stale(
            placed(rows, next_placement(current, node, expires_at, now)),
            token,
        ),
{
}

/// The token of a placement that was released or taken over is stale from then on.
pub proof fn ended_placements_leave_stale_tokens(rows: PlacementRows, node: NodeId, expires_at: Timestamp, now: Timestamp)
    requires
        counted(rows),
        rows.placement is Some,
        last_epoch(rows) < u64::MAX,
    ensures
        stale(cleared(rows), rows.placement->0),
        stale(
            placed(rows, next_placement(rows.placement->0, node, expires_at, now)),
            rows.placement->0,
        ),
{
}

/// Every operation keeps the epoch counter in step with the placement, and no operation turns the
/// counter back.
pub proof fn epochs_never_fall(
    rows: PlacementRows,
    agent: AgentId,
    node: NodeId,
    expires_at: Timestamp,
    now: Timestamp,
)
    requires
        counted(rows),
        last_epoch(rows) < u64::MAX,
    ensures
        rows.placement is None ==> {
            let next = placed(rows, first_placement(rows, agent, node, expires_at, now));
            counted(next) && last_epoch(next) == last_epoch(rows) + 1
        },
        rows.placement matches Some(current) ==> {
            let next = placed(rows, PlacementRecord { expires_at, ..current });
            counted(next) && last_epoch(next) == last_epoch(rows)
        },
        counted(cleared(rows)) && last_epoch(cleared(rows)) == last_epoch(rows),
        rows.placement matches Some(current) ==> {
            let next = placed(rows, next_placement(current, node, expires_at, now));
            counted(next) && last_epoch(next) == last_epoch(rows) + 1
        },
{
}

/// A node never takes more computers than it advertises: a count that is reserved stays within
/// its capacity.
pub proof fn reservations_fit(node: NodeRows)
    requires
        has_capacity(node),
    ensures
        used(node.count) + 1 <= node.registered->0.sandboxes,
{
}

/// A new placement puts the agent on the node that was chosen, until the moment that was asked for,
/// one epoch after the last. The node counts one computer more, and never more than it has room for.
pub proof fn placements_are_as_asked(
    rows: PlacementRows,
    node: NodeRows,
    agent: AgentId,
    expires_at: Timestamp,
    now: Timestamp,
    result: StoreResult<(PlacementRows, u32)>,
)
    requires
        call_ensures(place, (&rows, &node, agent, expires_at, now), result),
    ensures
        result matches Ok((next, count)) ==> {
            let made = next.placement->0;
            &&& rows.placement is None && !rows.deleted && !next.deleted && next.placement is Some
            &&& made.agent_id == agent && made.node_id == node.node_id && made.expires_at == expires_at
            &&& expires_at.nanos > now.nanos && made.last_changed_at == now
            &&& rows.epoch matches Some(last) ==> made.epoch == last + 1
            &&& rows.epoch is None ==> made.epoch == 1
            &&& next.epoch == Some(made.epoch)
            &&& made.last_change_reason == PlacementChangeReason::Initial <==> made.epoch == 1
            &&& made.epoch > 1 ==> made.last_change_reason == PlacementChangeReason::Eviction
            &&& node.count matches Some(before) ==> count == before + 1
            &&& node.count is None ==> count == 1
            &&& node.registered matches Some(capacity) && capacity.sandbox && count <= capacity.sandboxes
        },
{
}

/// A renewal ends later and changes nothing else of a live placement.
pub proof fn placement_renewals_only_extend(
    rows: PlacementRows,
    expected: PlacementRecord,
    expires_at: Timestamp,
    now: Timestamp,
    result: StoreResult<PlacementRows>,
)
    requires
        counted(rows),
        call_ensures(renew, (&rows, &expected, expires_at, now), result),
    ensures
        result matches Ok(next) ==> {
            let before = rows.placement->0;
            let after = next.placement->0;
            &&& rows.placement is Some && next.placement is Some
            &&& before.epoch == expected.epoch && before.node_id == expected.node_id && before.expires_at.nanos
                > now.nanos
            &&& after.expires_at == expires_at && expires_at.nanos > before.expires_at.nanos
            &&& after.agent_id == before.agent_id && after.node_id == before.node_id
            &&& after.epoch == before.epoch && after.last_change_reason == before.last_change_reason
            &&& after.last_changed_at == before.last_changed_at
            &&& next.epoch == rows.epoch && next.deleted == rows.deleted
        },
{
}

/// A release ends a live placement and frees one place on its node; the epoch counter stays, so the
/// next placement gets a later epoch.
pub proof fn releases_free_one_place(
    rows: PlacementRows,
    count: Option<u32>,
    expected: PlacementRecord,
    now: Timestamp,
    result: StoreResult<(PlacementRows, u32)>,
)
    requires
        call_ensures(release, (&rows, &count, &expected, now), result),
    ensures
        result matches Ok((next, left)) ==> {
            &&& next.placement is None && next.epoch == rows.epoch && next.deleted == rows.deleted
            &&& count matches Some(before) && left + 1 == before
            &&& rows.placement matches Some(live) && live.epoch == expected.epoch && live.node_id
                == expected.node_id && live.expires_at.nanos > now.nanos
        },
{
}

/// Placing a computer and releasing it leaves the node's count as it was.
pub proof fn places_are_given_back(
    rows: PlacementRows,
    node: NodeRows,
    agent: AgentId,
    expires_at: Timestamp,
    now: Timestamp,
    later: Timestamp,
    made: StoreResult<(PlacementRows, u32)>,
    count: Option<u32>,
    freed: StoreResult<(PlacementRows, u32)>,
)
    requires
        call_ensures(place, (&rows, &node, agent, expires_at, now), made),
        made is Ok,
        later.nanos < expires_at.nanos,
        count == Some(made->Ok_0.1),
        call_ensures(release, (&made->Ok_0.0, &count, &made->Ok_0.0.placement->0, later), freed),
    ensures
        freed matches Ok((next, left)) && next.placement is None && left == (match node.count {
            Some(before) => before,
            None => 0,
        }),
{
}

/// A deleted computer has no placement, is deleted for good, and frees its place where it had one.
pub proof fn deleted_computers_free_their_place(
    rows: PlacementRows,
    count: Option<u32>,
    result: StoreResult<(PlacementRows, Option<u32>)>,
)
    requires
        call_ensures(release_deleted_computer, (&rows, &count), result),
    ensures
        result matches Ok((next, left)) ==> {
            &&& next.deleted && next.placement is None && next.epoch == rows.epoch
            &&& left is Some <==> rows.placement is Some
            &&& left matches Some(remaining) ==> (count matches Some(before) && remaining + 1 == before)
        },
        rows.placement is None ==> result is Ok,
{
}

/// A takeover needs a placement that ran out. It moves the agent to the new node one epoch later,
/// for a failure, frees one place on the old node and takes one on the new.
pub proof fn takeovers_move_the_agent(
    rows: PlacementRows,
    count: Option<u32>,
    node: NodeRows,
    expected: PlacementRecord,
    expires_at: Timestamp,
    now: Timestamp,
    result: StoreResult<TakenOver>,
)
    requires
        call_ensures(take_over, (&rows, &count, &node, &expected, expires_at, now), result),
    ensures
        result matches Ok(done) ==> {
            let before = rows.placement->0;
            let after = done.rows.placement->0;
            &&& rows.placement is Some && before.expires_at.nanos <= now.nanos
            &&& before.epoch == expected.epoch && before.node_id == expected.node_id
            &&& done.rows.placement is Some && after.agent_id == before.agent_id
            &&& after.node_id == node.node_id && after.epoch == before.epoch + 1
            &&& after.expires_at == expires_at && expires_at.nanos > now.nanos
            &&& after.last_change_reason == PlacementChangeReason::Failure && after.last_changed_at == now
            &&& done.rows.epoch == Some(after.epoch) && done.rows.deleted == rows.deleted
            &&& count matches Some(held) && done.freed + 1 == held
            &&& node.node_id != before.node_id ==> (node.count matches Some(others) ==> done.reserved == others
                + 1) && (node.count is None ==> done.reserved == 1)
            &&& node.node_id == before.node_id ==> count == Some(done.reserved)
            &&& node.registered matches Some(capacity) && capacity.sandbox && done.reserved
                <= capacity.sandboxes
        },
{
}

/// A place is reserved only where a sandbox node has one left, and exactly one; a place that is
/// freed was taken.
pub proof fn places_are_counted(node: NodeRows, reserved: StoreResult<u32>, count: Option<u32>, freed: StoreResult<u32>)
    requires
        call_ensures(reserve_computer, (&node,), reserved),
        call_ensures(free_computer, (&count,), freed),
    ensures
        reserved matches Ok(taken) ==> (node.registered matches Some(capacity) && capacity.sandbox && 0 < taken
            <= capacity.sandboxes) && taken == 1 + (match node.count {
            Some(before) => before,
            None => 0,
        }),
        node.registered is None ==> (reserved matches Err(error) && error == StoreError::NodeMissing),
        freed matches Ok(left) ==> (count matches Some(before) && left + 1 == before),
        freed is Err <==> count is None || count == Some(0u32),
{
}

/// The current placement is the one of the same node and epoch, and it is live until it runs out.
pub proof fn live_placements_are_current(
    rows: PlacementRows,
    expected: PlacementRecord,
    now: Timestamp,
    current: StoreResult<PlacementRecord>,
    live: StoreResult<()>,
)
    requires
        call_ensures(checked_placement, (&rows, &expected), current),
        call_ensures(check_live_placement, (&rows, &expected, now), live),
    ensures
        current matches Ok(found) ==> rows.placement == Some(found) && found.node_id == expected.node_id
            && found.epoch == expected.epoch,
        rows.placement matches Some(found) ==> (found.node_id == expected.node_id && found.epoch
            == expected.epoch ==> current is Ok),
        live is Ok <==> current is Ok && current->Ok_0.expires_at.nanos > now.nanos,
{
}

/// A computer may be used until it is deleted.
pub proof fn deleted_computers_are_refused(deleted: bool, result: StoreResult<()>)
    requires
        call_ensures(check_computer, (deleted,), result),
    ensures
        result is Err <==> deleted,
        result matches Err(error) ==> error == StoreError::ComputerDeleted,
{
}

} // verus!
