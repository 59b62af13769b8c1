//! Chunk collection: one collector at a time holds a numbered lease, and reserves each chunk it
//! deletes against uploaders that reuse it.

use crate::error::{StoreError, StoreResult};
use crate::ids::LeaseOwnerId;
use crate::session::Lease;
use crate::time::Timestamp;
use vstd::prelude::*;

verus! {

/// The rows of the collector: its lease and the counter of granted leases.
#[derive(Clone, Copy, Debug, PartialEq, Eq, Structural)]
pub struct CollectorRows {
    pub lease: Option<Lease>,
    pub sequence: Option<u64>,
}

/// Leases granted to collectors so far.
pub open spec fn granted(rows: CollectorRows) -> u64 {
    match rows.sequence {
        Some(sequence) => sequence,
        None => 0,
    }
}

/// Whether a collector is at work.
pub open spec fn is_collecting(rows: CollectorRows, now: Timestamp) -> bool {
    rows.lease matches Some(lease) && lease.expires_at.nanos > now.nanos
}

/// Whether a token is the live lease of the collector.
pub open spec fn collects(rows: CollectorRows, token: Lease, now: Timestamp) -> bool {
    rows.lease == Some(token) && token.expires_at.nanos > now.nanos
}

/// The lease that a run gets.
pub open spec fn next_lease(rows: CollectorRows, owner: LeaseOwnerId, expires_at: Timestamp) -> Lease {
    Lease { owner, expires_at, seq: (granted(rows) + 1) as u64 }
}

/// Starts a run when no collector is at work. The run's record is written under its owner.
pub fn acquire_gc_lease(rows: &CollectorRows, owner: LeaseOwnerId, expires_at: Timestamp, now: Timestamp) -> (result: StoreResult<(Lease, CollectorRows)>)
    ensures
        if expires_at.nanos <= now.nanos || is_collecting(*rows, now) {
            result matches Err(error) && error == StoreError::LeaseMismatch
        } else if granted(*rows) == u64::MAX {
            result matches Err(error) && error == StoreError::SequenceOverflow
        } else {
            let lease = next_lease(*rows, owner, expires_at);
            result == Ok::<(Lease, CollectorRows), StoreError>(
                (lease, (CollectorRows { lease: Some(lease), sequence: Some(lease.seq) })),
            )
        },
{
    if expires_at.nanos <= now.nanos {
        return Err(StoreError::LeaseMismatch);
    }
    if let Some(lease) = rows.lease {
        if lease.expires_at.nanos > now.nanos {
            return Err(StoreError::LeaseMismatch);
        }
    }
    let last: u64 = match rows.sequence {
        Some(sequence) => sequence,
        None => 0,
    };
    let seq: u64 = match last.checked_add(1) {
        Some(seq) => seq,
        None => {
            return Err(StoreError::SequenceOverflow);
        },
    };
    let lease = Lease { owner, expires_at, seq };
    Ok((lease, CollectorRows { lease: Some(lease), sequence: Some(seq) }))
}

fn holds_lease(rows: &CollectorRows, token: &Lease, now: Timestamp) -> (held: bool)
    ensures
        held == collects(*rows, *token, now),
{
    match rows.lease {
        Some(lease) => lease == *token && token.expires_at.nanos > now.nanos,
        None => false,
    }
}

/// Extends the live lease of a collector.
pub fn renew_gc_lease(rows: &CollectorRows, expected: &Lease, expires_at: Timestamp, now: Timestamp) -> (result: StoreResult<(Lease, CollectorRows)>)
    ensures
        if collects(*rows, *expected, now) && expires_at.nanos > expected.expires_at.nanos {
            let lease = Lease { expires_at, ..*expected };
            result == Ok::<(Lease, CollectorRows), StoreError>(
                (lease, (CollectorRows { lease: Some(lease), ..*rows })),
            )
        } else {
            result matches Err(error) && error == StoreError::LeaseMismatch
        },
{
    if !holds_lease(rows, expected, now) || expires_at.nanos <= expected.expires_at.nanos {
        return Err(StoreError::LeaseMismatch);
    }
    let lease = Lease { expires_at, ..*expected };
    Ok((lease, CollectorRows { lease: Some(lease), ..*rows }))
}

/// Ends a run with its live lease; the counter stays. The run has to be the lease owner's.
pub fn finish_gc_run(rows: &CollectorRows, expected: &Lease, owner: LeaseOwnerId, now: Timestamp) -> (result: StoreResult<CollectorRows>)
    ensures
        if collects(*rows, *expected, now) && expected.owner == owner {
            result == Ok::<CollectorRows, StoreError>((CollectorRows { lease: None, ..*rows }))
        } else {
            result matches Err(error) && error == StoreError::LeaseMismatch
        },
{
    if !holds_lease(rows, expected, now) || expected.owner != owner {
        return Err(StoreError::LeaseMismatch);
    }
    Ok(CollectorRows { lease: None, ..*rows })
}

/// The rows about one chunk: who reserved its deletion, and when an uploader last reused it.
#[derive(Clone, Copy, Debug, PartialEq, Eq, Structural)]
pub struct ChunkRows {
    pub deleting: Option<LeaseOwnerId>,
    pub reused: Option<Timestamp>,
}

/// Whether an owner is the collector at work.
pub open spec fn works(rows: CollectorRows, owner: LeaseOwnerId, now: Timestamp) -> bool {
    rows.lease matches Some(lease) && lease.owner == owner && lease.expires_at.nanos > now.nanos
}

fn is_at_work(rows: &CollectorRows, owner: LeaseOwnerId, now: Timestamp) -> (found: bool)
    ensures
        found == works(*rows, owner, now),
{
    match rows.lease {
        Some(lease) => lease.owner == owner && lease.expires_at.nanos > now.nanos,
        None => false,
    }
}

/// Whether an uploader may reuse a chunk: the collector at work is not deleting it.
pub open spec fn reusable(rows: CollectorRows, chunk: ChunkRows, now: Timestamp) -> bool {
    match chunk.deleting {
        Some(owner) => !works(rows, owner, now),
        None => true,
    }
}

/// A chunk that was just reused.
pub open spec fn protected(now: Timestamp) -> ChunkRows {
    ChunkRows { deleting: None, reused: Some(now) }
}

/// A chunk that a collector is about to delete.
pub open spec fn reserved(chunk: ChunkRows, owner: LeaseOwnerId) -> ChunkRows {
    ChunkRows { deleting: Some(owner), ..chunk }
}

/// Notes that an uploader reuses a chunk. Refused while the collector at work deletes it.
pub fn protect_reused_chunk(rows: &CollectorRows, chunk: &ChunkRows, now: Timestamp) -> (result: StoreResult<ChunkRows>)
    ensures
        if reusable(*rows, *chunk, now) {
            result == Ok::<ChunkRows, StoreError>(protected(now))
        } else {
            result matches Err(error) && error == StoreError::LeaseMismatch
        },
{
    if let Some(owner) = chunk.deleting {
        if is_at_work(rows, owner, now) {
            return Err(StoreError::LeaseMismatch);
        }
    }
    Ok(ChunkRows { deleting: None, reused: Some(now) })
}

/// Whether a chunk was reused at the cutoff or after.
pub open spec fn recently_reused(chunk: ChunkRows, cutoff: Timestamp) -> bool {
    chunk.reused matches Some(touched) && touched.nanos >= cutoff.nanos
}

/// Reserves the deletion of a chunk that nobody reused since the cutoff. A dry run only tells
/// whether it would.
pub fn claim_gc_chunk(
    rows: &CollectorRows,
    chunk: &ChunkRows,
    owner: LeaseOwnerId,
    cutoff: Timestamp,
    dry_run: bool,
    now: Timestamp,
) -> (result: StoreResult<(bool, ChunkRows)>)
    ensures
        if !works(*rows, owner, now) {
            result matches Err(error) && error == StoreError::LeaseMismatch
        } else if recently_reused(*chunk, cutoff) {
            result == Ok::<(bool, ChunkRows), StoreError>((false, *chunk))
        } else if dry_run {
            result == Ok::<(bool, ChunkRows), StoreError>((true, *chunk))
        } else {
            result == Ok::<(bool, ChunkRows), StoreError>((true, reserved(*chunk, owner)))
        },
{
    if !is_at_work(rows, owner, now) {
        return Err(StoreError::LeaseMismatch);
    }
    if let Some(touched) = chunk.reused {
        if touched.nanos >= cutoff.nanos {
            return Ok((false, *chunk));
        }
    }
    if dry_run {
        Ok((true, *chunk))
    } else {
        Ok((true, ChunkRows { deleting: Some(owner), ..*chunk }))
    }
}

/// Ends a deletion, so that uploaders can make the chunk anew.
pub fn finish_gc_chunk(chunk: &ChunkRows, owner: LeaseOwnerId) -> (result: StoreResult<ChunkRows>)
    ensures
        if chunk.deleting == Some(owner) {
            result == Ok::<ChunkRows, StoreError>((ChunkRows { deleting: None, reused: None }))
        } else {
            result matches Err(error) && error == StoreError::LeaseMismatch
        },
{
    match chunk.deleting {
        Some(found) if found == owner => Ok(ChunkRows { deleting: None, reused: None }),
        _ => Err(StoreError::LeaseMismatch),
    }
}

/// Whether no lease is numbered beyond the counter.
pub open spec fn numbered(rows: CollectorRows) -> bool {
    rows.lease matches Some(lease) ==> lease.seq <= granted(rows)
}

/// Every run gets a lease numbered beyond those before it, so no earlier token collects again.
pub proof fn runs_replace_collectors(rows: CollectorRows, owner: LeaseOwnerId, expires_at: Timestamp, token: Lease, now: Timestamp)
    requires
        numbered(rows),
        granted(rows) < u64::MAX,
        token.seq <= granted(rows),
    ensures
        ({
            let lease = next_lease(rows, owner, expires_at);
            let next = CollectorRows { lease: Some(lease), sequence: Some(lease.seq) };
            &&& numbered(next)
            &&& granted(next) == granted(rows) + 1
            &&& !collects(next, token, now)
        }),
{
}

/// A chunk that an uploader protected at or after the cutoff is not deleted, and one that the
/// collector at work reserved is not reused: a chunk is never both deleted and reused.
pub proof fn reuse_and_deletion_exclude_each_other(
    rows: CollectorRows,
    chunk: ChunkRows,
    owner: LeaseOwnerId,
    cutoff: Timestamp,
    now: Timestamp,
)
    requires
        works(rows, owner, now),
    ensures
        cutoff.nanos <= now.nanos ==> recently_reused(protected(now), cutoff),
        !reusable(rows, reserved(chunk, owner), now),
{
}

/// A collector's lease goes to the owner who asked, until the moment that was asked for, one number
/// after the last, and never beside a live one.
pub proof fn collectors_are_granted_one_by_one(
    rows: CollectorRows,
    owner: LeaseOwnerId,
    expires_at: Timestamp,
    now: Timestamp,
    result: StoreResult<(Lease, CollectorRows)>,
)
    requires
        call_ensures(acquire_gc_lease, (&rows, owner, expires_at, now), result),
    ensures
        result matches Ok((lease, next)) ==> {
            &&& lease.owner == owner && lease.expires_at == expires_at && expires_at.nanos > now.nanos
            &&& rows.sequence matches Some(last) ==> lease.seq == last + 1
            &&& rows.sequence is None ==> lease.seq == 1
            &&& next.lease == Some(lease) && next.sequence == Some(lease.seq)
            &&& rows.lease matches Some(held) ==> held.expires_at.nanos <= now.nanos
        },
        expires_at.nanos > now.nanos && rows.lease is None && rows.sequence is None ==> result is Ok,
{
}

/// A renewed collector holds the same lease for longer.
pub proof fn collectors_renew_their_lease(
    rows: CollectorRows,
    expected: Lease,
    expires_at: Timestamp,
    now: Timestamp,
    result: StoreResult<(Lease, CollectorRows)>,
)
    requires
        call_ensures(renew_gc_lease, (&rows, &expected, expires_at, now), result),
    ensures
        result is Ok <==> rows.lease == Some(expected) && now.nanos < expected.expires_at.nanos
            < expires_at.nanos,
        result matches Ok((lease, next)) ==> lease.owner == expected.owner && lease.seq == expected.seq
            && lease.expires_at == expires_at && next.lease == Some(lease) && next.sequence == rows.sequence,
{
}

/// A finished run gives its lease up and keeps the count of runs.
pub proof fn finished_runs_free_the_lease(
    rows: CollectorRows,
    expected: Lease,
    owner: LeaseOwnerId,
    now: Timestamp,
    result: StoreResult<CollectorRows>,
)
    requires
        call_ensures(finish_gc_run, (&rows, &expected, owner, now), result),
    ensures
        result is Ok <==> rows.lease == Some(expected) && expected.owner == owner && expected.expires_at.nanos
            > now.nanos,
        result matches Ok(next) ==> next.lease is None && next.sequence == rows.sequence,
{
}

/// A chunk that is used again is marked with that moment and is no longer being deleted; that fails
/// exactly while the collector that reserved it works.
pub proof fn reused_chunks_are_marked(rows: CollectorRows, chunk: ChunkRows, now: Timestamp, result: StoreResult<ChunkRows>)
    requires
        call_ensures(protect_reused_chunk, (&rows, &chunk, now), result),
    ensures
        result matches Ok(next) ==> next.deleting is None && next.reused == Some(now),
        result is Err <==> (chunk.deleting matches Some(owner) && rows.lease matches Some(lease)
            && lease.owner == owner && lease.expires_at.nanos > now.nanos),
{
}

/// A working collector reserves a chunk for itself unless it was used again since the cutoff; a dry
/// run says the same and reserves nothing. The mark of reuse stays.
pub proof fn old_chunks_are_reserved(
    rows: CollectorRows,
    chunk: ChunkRows,
    owner: LeaseOwnerId,
    cutoff: Timestamp,
    dry_run: bool,
    now: Timestamp,
    result: StoreResult<(bool, ChunkRows)>,
)
    requires
        call_ensures(claim_gc_chunk, (&rows, &chunk, owner, cutoff, dry_run, now), result),
    ensures
        result is Ok <==> (rows.lease matches Some(lease) && lease.owner == owner && lease.expires_at.nanos
            > now.nanos),
        result matches Ok((old, next)) ==> {
            &&& old <==> (chunk.reused matches Some(touched) ==> touched.nanos < cutoff.nanos)
            &&& next.reused == chunk.reused
            &&& old && !dry_run ==> next.deleting == Some(owner)
            &&& !old || dry_run ==> next.deleting == chunk.deleting
        },
{
}

/// A chunk is forgotten only by the collector that reserved it.
pub proof fn deleted_chunks_are_forgotten(chunk: ChunkRows, owner: LeaseOwnerId, result: StoreResult<ChunkRows>)
    requires
        call_ensures(finish_gc_chunk, (&chunk, owner), result),
    ensures
        result is Ok <==> chunk.deleting == Some(owner),
        result matches Ok(next) ==> next.deleting is None && next.reused is None,
{
}

} // verus!
