//! Disks: immutable manifests, volume heads that move under a writer lease, and retained snapshots.

use crate::error::{StoreError, StoreResult};
use crate::ids::{LeaseOwnerId, ManifestId, VolumeId};
use crate::placements::{check_live_placement, is_live, PlacementRecord, PlacementRows};
use crate::refresh::same_bytes;
use crate::session::Lease;
use crate::time::Timestamp;
use std::collections::BTreeSet;
use vstd::prelude::*;

verus! {

broadcast use vstd::std_specs::btree::group_btree_axioms;

/// Longest key that an image registration may have.
pub const MAX_IMAGE_KEY: usize = 10_000;

/// The description of a disk's contents.
#[derive(Clone, Debug, PartialEq, Eq)]
pub struct ManifestHeader {
    pub size: u64,
    pub chunk_size: u32,
    /// What else the header says, as stored.
    pub rest: Vec<u8>,
}

/// View of a manifest header.
pub ghost struct HeaderView {
    pub size: u64,
    pub chunk_size: u32,
    pub rest: Seq<u8>,
}

impl View for ManifestHeader {
    type V = HeaderView;

    open spec fn view(&self) -> HeaderView {
        HeaderView { size: self.size, chunk_size: self.chunk_size, rest: self.rest@ }
    }
}

/// View of a header that may be absent.
pub open spec fn header_view(header: Option<ManifestHeader>) -> Option<HeaderView> {
    match header {
        Some(header) => Some(header@),
        None => None,
    }
}

/// Compares headers.
pub fn same_header(left: &ManifestHeader, right: &ManifestHeader) -> (equal: bool)
    ensures
        equal == (left@ == right@),
{
    left.size == right.size && left.chunk_size == right.chunk_size && same_bytes(
        &left.rest,
        &right.rest,
    )
}

/// Whether a header describes a whole number of chunks of the store's size.
pub open spec fn sized(header: HeaderView, chunk_size: u32) -> bool {
    header.chunk_size == chunk_size && header.size > 0 && header.size as int % chunk_size as int == 0
}

/// Registers an immutable header. Repeating a registration is safe. The result says whether the
/// header has to be written.
pub fn put_manifest(existing: &Option<ManifestHeader>, header: &ManifestHeader, chunk_size: u32) -> (result: StoreResult<bool>)
    requires
        chunk_size > 0,
    ensures
        if !sized(header@, chunk_size) {
            result matches Err(error) && error == StoreError::InvalidManifest
        } else {
            match header_view(*existing) {
                None => result matches Ok(written) && written,
                Some(found) => if found == header@ {
                    result matches Ok(written) && !written
                } else {
                    result matches Err(error) && error == StoreError::ManifestExists
                },
            }
        },
{
    if header.chunk_size != chunk_size || header.size == 0 || header.size % chunk_size as u64 != 0 {
        return Err(StoreError::InvalidManifest);
    }
    match existing {
        None => Ok(true),
        Some(found) => if same_header(found, header) {
            Ok(false)
        } else {
            Err(StoreError::ManifestExists)
        },
    }
}

/// A disk: the manifest it shows, who may write it and what it was cloned from.
#[derive(Clone, Copy, Debug, PartialEq, Eq, Structural)]
pub struct VolumeRecord {
    pub head_manifest: ManifestId,
    pub writer_lease: Option<Lease>,
    pub parent: Option<VolumeId>,
}

/// A disk that nobody writes.
pub open spec fn fresh_volume(manifest: ManifestId, parent: Option<VolumeId>) -> VolumeRecord {
    VolumeRecord { head_manifest: manifest, writer_lease: None, parent }
}

/// A new disk with its snapshot history.
pub struct NewVolume {
    pub volume: VolumeRecord,
    pub snapshots: Vec<ManifestId>,
}

fn insert_volume(existing: &Option<VolumeRecord>, deleted: bool, record: VolumeRecord) -> (result: StoreResult<NewVolume>)
    ensures
        if deleted {
            result matches Err(error) && error == StoreError::ComputerDeleted
        } else if existing is Some {
            result matches Err(error) && error == StoreError::VolumeExists
        } else {
            &&& result matches Ok(created)
            &&& created.volume == record
            &&& created.snapshots@ == seq![record.head_manifest]
        },
{
    if deleted {
        return Err(StoreError::ComputerDeleted);
    }
    if existing.is_some() {
        return Err(StoreError::VolumeExists);
    }
    let mut snapshots: Vec<ManifestId> = Vec::new();
    snapshots.push(record.head_manifest);
    assert(snapshots@ =~= seq![record.head_manifest]);
    Ok(NewVolume { volume: record, snapshots })
}

/// Creates a disk that shows a registered manifest. `deleted` tells whether the computer of that
/// id was deleted; its disk is never made again.
pub fn create_volume(registered: bool, existing: &Option<VolumeRecord>, deleted: bool, manifest: ManifestId) -> (result: StoreResult<NewVolume>)
    ensures
        if !registered {
            result matches Err(error) && error == StoreError::ManifestMissing
        } else if deleted {
            result matches Err(error) && error == StoreError::ComputerDeleted
        } else if existing is Some {
            result matches Err(error) && error == StoreError::VolumeExists
        } else {
            &&& result matches Ok(created)
            &&& created.volume == fresh_volume(manifest, None)
            &&& created.snapshots@ == seq![manifest]
        },
{
    if !registered {
        return Err(StoreError::ManifestMissing);
    }
    insert_volume(
        existing,
        deleted,
        VolumeRecord { head_manifest: manifest, writer_lease: None, parent: None },
    )
}

/// Clones a disk: the clone shows what the source shows and starts without a writer.
pub fn clone_volume(source: VolumeId, found: &Option<VolumeRecord>, existing: &Option<VolumeRecord>, deleted: bool) -> (result: StoreResult<NewVolume>)
    ensures
        match *found {
            None => result matches Err(error) && error == StoreError::VolumeMissing,
            Some(record) => if deleted {
                result matches Err(error) && error == StoreError::ComputerDeleted
            } else if existing is Some {
                result matches Err(error) && error == StoreError::VolumeExists
            } else {
                &&& result matches Ok(created)
                &&& created.volume == fresh_volume(record.head_manifest, Some(source))
                &&& created.snapshots@ == seq![record.head_manifest]
            },
        },
{
    match found {
        None => Err(StoreError::VolumeMissing),
        Some(record) => insert_volume(
            existing,
            deleted,
            VolumeRecord {
                head_manifest: record.head_manifest,
                writer_lease: None,
                parent: Some(source),
            },
        ),
    }
}

/// Checks an image registration: its key has to fit and its manifest to exist.
pub fn put_image(key_len: usize, registered: bool) -> (result: StoreResult<()>)
    ensures
        match result {
            Ok(_) => key_len <= MAX_IMAGE_KEY && registered,
            Err(error) => if key_len > MAX_IMAGE_KEY {
                error == StoreError::TooLarge
            } else {
                !registered && error == StoreError::ManifestMissing
            },
        },
{
    if key_len > MAX_IMAGE_KEY {
        return Err(StoreError::TooLarge);
    }
    if !registered {
        return Err(StoreError::ManifestMissing);
    }
    Ok(())
}

// ---------------------------------------------------------------------------------------------
// Writer leases
// ---------------------------------------------------------------------------------------------

/// The rows that a writer's authority rests on: the disk, the counter of granted leases, and the
/// placement that the disk is bound to, with the rows of its computer.
#[derive(Clone, Copy, Debug, PartialEq, Eq, Structural)]
pub struct VolumeRows {
    pub volume: Option<VolumeRecord>,
    pub lease_seq: Option<u64>,
    pub binding: Option<PlacementRecord>,
    pub placement: PlacementRows,
}

/// Whether a writer may act on a disk: a bound disk belongs to the node of a live placement.
pub open spec fn may_write(rows: VolumeRows, owner: LeaseOwnerId, now: Timestamp) -> bool {
    rows.binding matches Some(bound) ==> owner.0 == bound.node_id.0 && is_live(
        rows.placement,
        bound,
        now,
    )
}

/// Checks that a writer may act on a disk.
pub fn check_volume_placement(rows: &VolumeRows, owner: LeaseOwnerId, now: Timestamp) -> (result: StoreResult<()>)
    ensures
        match result {
            Ok(_) => may_write(*rows, owner, now),
            Err(error) => !may_write(*rows, owner, now) && error == StoreError::LeaseMismatch,
        },
{
    match rows.binding {
        None => Ok(()),
        Some(bound) => {
            if owner.0 != bound.node_id.0 {
                return Err(StoreError::LeaseMismatch);
            }
            check_live_placement(&rows.placement, &bound, now)
        },
    }
}

/// Leases granted on a disk so far.
pub open spec fn granted(rows: VolumeRows) -> u64 {
    match rows.lease_seq {
        Some(seq) => seq,
        None => 0,
    }
}

/// Whether a disk has a live writer.
pub open spec fn is_written(volume: VolumeRecord, now: Timestamp) -> bool {
    volume.writer_lease matches Some(lease) && lease.expires_at.nanos > now.nanos
}

/// Rows after a lease was granted.
pub open spec fn with_writer(rows: VolumeRows, lease: Lease) -> VolumeRows {
    VolumeRows {
        volume: Some(VolumeRecord { writer_lease: Some(lease), ..rows.volume->0 }),
        lease_seq: Some(lease.seq),
        ..rows
    }
}

/// Grants the writer lease of a disk that nobody writes. Every grant counts, so that an old token
/// never comes back.
pub fn acquire_writer_lease(rows: &VolumeRows, owner: LeaseOwnerId, now: Timestamp, expires_at: Timestamp, clock: Timestamp) -> (result: StoreResult<(Lease, VolumeRows)>)
    ensures
        if expires_at.nanos <= now.nanos {
            result matches Err(error) && error == StoreError::LeaseMismatch
        } else {
            match rows.volume {
                None => result matches Err(error) && error == StoreError::VolumeMissing,
                Some(volume) => if !may_write(*rows, owner, clock) || is_written(volume, now) {
                    result matches Err(error) && error == StoreError::LeaseMismatch
                } else if granted(*rows) == u64::MAX {
                    result matches Err(error) && error == StoreError::SequenceOverflow
                } else {
                    let lease = Lease { owner, expires_at, seq: (granted(*rows) + 1) as u64 };
                    result == Ok::<(Lease, VolumeRows), StoreError>(
                        (lease, with_writer(*rows, lease)),
                    )
                },
            }
        },
{
    if expires_at.nanos <= now.nanos {
        return Err(StoreError::LeaseMismatch);
    }
    let volume = match rows.volume {
        Some(volume) => volume,
        None => {
            return Err(StoreError::VolumeMissing);
        },
    };
    check_volume_placement(rows, owner, clock)?;
    if let Some(lease) = volume.writer_lease {
        if lease.expires_at.nanos > now.nanos {
            return Err(StoreError::LeaseMismatch);
        }
    }
    let last: u64 = match rows.lease_seq {
        Some(seq) => seq,
        None => 0,
    };
    let seq: u64 = match last.checked_add(1) {
        Some(seq) => seq,
        None => {
            return Err(StoreError::SequenceOverflow);
        },
    };
    let lease = Lease { owner, expires_at, seq };
    let next = VolumeRows {
        volume: Some(VolumeRecord { writer_lease: Some(lease), ..volume }),
        lease_seq: Some(seq),
        ..*rows
    };
    Ok((lease, next))
}

/// Whether a token is the live writer lease of a disk.
pub open spec fn writes(volume: VolumeRecord, token: Lease, now: Timestamp) -> bool {
    volume.writer_lease == Some(token) && token.expires_at.nanos > now.nanos
}

fn holds_writer(volume: &VolumeRecord, token: &Lease, now: Timestamp) -> (held: bool)
    ensures
        held == writes(*volume, *token, now),
{
    match volume.writer_lease {
        Some(lease) => lease == *token && token.expires_at.nanos > now.nanos,
        None => false,
    }
}

/// Gives up a writer lease with the complete, live token.
pub fn release_writer_lease(volume: &Option<VolumeRecord>, expected: &Lease, now: Timestamp) -> (result: StoreResult<VolumeRecord>)
    ensures
        match *volume {
            None => result matches Err(error) && error == StoreError::VolumeMissing,
            Some(found) => if writes(found, *expected, now) {
                result == Ok::<VolumeRecord, StoreError>(
                    (VolumeRecord { writer_lease: None, ..found }),
                )
            } else {
                result matches Err(error) && error == StoreError::LeaseMismatch
            },
        },
{
    match volume {
        None => Err(StoreError::VolumeMissing),
        Some(found) => if holds_writer(found, expected, now) {
            Ok(VolumeRecord { writer_lease: None, ..*found })
        } else {
            Err(StoreError::LeaseMismatch)
        },
    }
}

/// Extends a live writer lease; its number stays.
pub fn renew_writer_lease(rows: &VolumeRows, expected: &Lease, expires_at: Timestamp, now: Timestamp) -> (result: StoreResult<(Lease, VolumeRows)>)
    ensures
        if !may_write(*rows, expected.owner, now) {
            result matches Err(error) && error == StoreError::LeaseMismatch
        } else {
            match rows.volume {
                None => result matches Err(error) && error == StoreError::VolumeMissing,
                Some(volume) => if writes(volume, *expected, now) && expires_at.nanos
                    > expected.expires_at.nanos {
                    let lease = Lease { expires_at, ..*expected };
                    result == Ok::<(Lease, VolumeRows), StoreError>(
                        (
                            lease,
                            (VolumeRows {
                                volume: Some(
                                    VolumeRecord { writer_lease: Some(lease), ..volume },
                                ),
                                ..*rows
                            }),
                        ),
                    )
                } else {
                    result matches Err(error) && error == StoreError::LeaseMismatch
                },
            }
        },
{
    check_volume_placement(rows, expected.owner, now)?;
    match rows.volume {
        None => Err(StoreError::VolumeMissing),
        Some(volume) => {
            if !holds_writer(&volume, expected, now) || expires_at.nanos
                <= expected.expires_at.nanos {
                return Err(StoreError::LeaseMismatch);
            }
            let lease = Lease { expires_at, ..*expected };
            let next = VolumeRows {
                volume: Some(VolumeRecord { writer_lease: Some(lease), ..volume }),
                ..*rows
            };
            Ok((lease, next))
        },
    }
}

/// Whether no lease on a disk is numbered beyond the counter.
pub open spec fn numbered(rows: VolumeRows) -> bool {
    rows.volume matches Some(volume) ==> (volume.writer_lease matches Some(lease) ==> lease.seq
        <= granted(rows))
}

/// A granted lease is numbered beyond every lease before it, so no token from before the grant
/// writes the disk again, and the counter stays in step.
pub proof fn grants_replace_writers(rows: VolumeRows, owner: LeaseOwnerId, expires_at: Timestamp, token: Lease, now: Timestamp)
    requires
        rows.volume is Some,
        numbered(rows),
        granted(rows) < u64::MAX,
        token.seq <= granted(rows),
    ensures
        ({
            let lease = Lease { owner, expires_at, seq: (granted(rows) + 1) as u64 };
            let next = with_writer(rows, lease);
            &&& numbered(next)
            &&& granted(next) == granted(rows) + 1
            &&& !writes(next.volume->0, token, now)
        }),
{
}

// ---------------------------------------------------------------------------------------------
// Publication
// ---------------------------------------------------------------------------------------------

/// Whether a disk's snapshot history needs another parent, when the history is read from the
/// provenance of manifests.
pub fn wants_parent(snapshots: &Vec<ManifestId>, limit: usize) -> (wanted: bool)
    ensures
        wanted == (snapshots@.len() < limit),
{
    snapshots.len() < limit
}

fn lists(snapshots: &Vec<ManifestId>, manifest: ManifestId) -> (found: bool)
    ensures
        found == snapshots@.contains(manifest),
{
    let mut i: usize = 0;
    while i < snapshots.len()
        invariant
            i <= snapshots.len(),
            forall|j: int| 0 <= j < i ==> snapshots@[j] != manifest,
        decreases snapshots.len() - i,
    {
        if snapshots[i] == manifest {
            assert(snapshots@[i as int] == manifest);
            return true;
        }
        i += 1;
    }
    false
}

/// Adds a parent to a history that is read from provenance. A manifest that is its own ancestor
/// shows corruption.
pub fn import_parent(snapshots: &mut Vec<ManifestId>, parent: ManifestId) -> (result: StoreResult<()>)
    ensures
        match result {
            Ok(_) => !old(snapshots)@.contains(parent) && final(snapshots)@ == old(snapshots)@.push(
                parent,
            ),
            Err(error) => {
                &&& old(snapshots)@.contains(parent)
                &&& error == StoreError::Corrupt
                &&& final(snapshots)@ == old(snapshots)@
            },
        },
{
    if lists(snapshots, parent) {
        return Err(StoreError::Corrupt);
    }
    snapshots.push(parent);
    Ok(())
}

/// A history after a publication: the new manifest first, at most `retention` of them.
pub open spec fn retained(history: Seq<ManifestId>, next: ManifestId, retention: nat) -> Seq<ManifestId> {
    let all = seq![next] + history;
    if all.len() > retention {
        all.take(retention as int)
    } else {
        all
    }
}

fn retain(history: &Vec<ManifestId>, next: ManifestId, retention: usize) -> (kept: Vec<ManifestId>)
    requires
        retention > 0,
    ensures
        kept@ == retained(history@, next, retention as nat),
{
    let mut kept: Vec<ManifestId> = Vec::new();
    kept.push(next);
    let mut i: usize = 0;
    while i < history.len() && kept.len() < retention
        invariant
            i <= history.len(),
            retention > 0,
            kept@.len() == i + 1,
            kept@.len() <= retention,
            kept@ =~= (seq![next] + history@).take(i + 1),
        decreases history.len() - i,
    {
        kept.push(history[i]);
        i += 1;
    }
    assert(kept@ =~= retained(history@, next, retention as nat));
    kept
}

/// A publication to make.
pub struct Publication {
    pub previous: ManifestId,
    pub next: ManifestId,
    pub header: ManifestHeader,
}

/// What is stored of the two manifests of a publication.
pub struct ManifestRows {
    pub previous_header: Option<ManifestHeader>,
    pub next_header: Option<ManifestHeader>,
    pub next_parent: Option<ManifestId>,
}

/// What a publication writes.
pub struct Advanced {
    pub volume: VolumeRecord,
    pub snapshots: Vec<ManifestId>,
}

/// Whether a publication was made before.
pub open spec fn already_advanced(volume: VolumeRecord, manifests: ManifestRows, publication: Publication) -> bool {
    volume.head_manifest == publication.next && manifests.next_parent == Some(publication.previous)
        && header_view(manifests.next_header) == Some(publication.header@)
}

/// Publishes an uploaded manifest as the head of a disk and trims the disk's history. Repeating a
/// publication changes nothing.
pub fn advance_volume_retained(
    rows: &VolumeRows,
    manifests: &ManifestRows,
    history: &Vec<ManifestId>,
    expected: &Lease,
    publication: &Publication,
    retention: usize,
    now: Timestamp,
) -> (result: StoreResult<Option<Advanced>>)
    requires
        retention > 0,
    ensures
        if !may_write(*rows, expected.owner, now) {
            result matches Err(error) && error == StoreError::LeaseMismatch
        } else {
            match rows.volume {
                None => result matches Err(error) && error == StoreError::VolumeMissing,
                Some(volume) => if !writes(volume, *expected, now) {
                    result matches Err(error) && error == StoreError::LeaseMismatch
                } else if already_advanced(volume, *manifests, *publication) {
                    result matches Ok(None)
                } else if volume.head_manifest != publication.previous {
                    result matches Err(error) && error == StoreError::VolumeHeadMismatch
                } else {
                    match header_view(manifests.previous_header) {
                        None => result matches Err(error) && error == StoreError::ManifestMissing,
                        Some(before) => if publication.header.size != before.size
                            || publication.header.chunk_size != before.chunk_size {
                            result matches Err(error) && error == StoreError::InvalidManifest
                        } else if manifests.next_header is Some {
                            result matches Err(error) && error == StoreError::ManifestExists
                        } else {
                            &&& result matches Ok(Some(advanced))
                            &&& advanced.volume == (VolumeRecord {
                                head_manifest: publication.next,
                                ..volume
                            })
                            &&& advanced.snapshots@ == retained(
                                history@,
                                publication.next,
                                retention as nat,
                            )
                        },
                    }
                },
            }
        },
{
    check_volume_placement(rows, expected.owner, now)?;
    let volume = match rows.volume {
        Some(volume) => volume,
        None => {
            return Err(StoreError::VolumeMissing);
        },
    };
    if !holds_writer(&volume, expected, now) {
        return Err(StoreError::LeaseMismatch);
    }
    let same_parent = match manifests.next_parent {
        Some(parent) => parent == publication.previous,
        None => false,
    };
    let same_next = match &manifests.next_header {
        Some(header) => same_header(header, &publication.header),
        None => false,
    };
    if volume.head_manifest == publication.next && same_parent && same_next {
        return Ok(None);
    }
    if volume.head_manifest != publication.previous {
        return Err(StoreError::VolumeHeadMismatch);
    }
    let before = match &manifests.previous_header {
        Some(header) => header,
        None => {
            return Err(StoreError::ManifestMissing);
        },
    };
    if publication.header.size != before.size || publication.header.chunk_size
        != before.chunk_size {
        return Err(StoreError::InvalidManifest);
    }
    if manifests.next_header.is_some() {
        return Err(StoreError::ManifestExists);
    }
    let snapshots = retain(history, publication.next, retention);
    Ok(
        Some(
            Advanced {
                volume: VolumeRecord { head_manifest: publication.next, ..volume },
                snapshots,
            },
        ),
    )
}

/// A publication keeps at most `retention` snapshots, with the new head first, and no others than
/// it and those retained before.
pub proof fn histories_are_bounded(history: Seq<ManifestId>, next: ManifestId, retention: nat)
    requires
        retention > 0,
    ensures
        0 < retained(history, next, retention).len() <= retention,
        retained(history, next, retention)[0] == next,
        forall|m: ManifestId|
            retained(history, next, retention).contains(m) ==> m == next || history.contains(m),
{
    let kept = retained(history, next, retention);
    assert forall|m: ManifestId| kept.contains(m) implies m == next || history.contains(m) by {
        let i = choose|i: int| 0 <= i < kept.len() && kept[i] == m;
        if i > 0 {
            assert(history[i - 1] == m);
        }
    }
}

/// A publication that was committed is recognised when it is repeated, as long as nothing else
/// moved the head.
pub proof fn publications_repeat_safely(volume: VolumeRecord, publication: Publication)
    requires
        volume.head_manifest == publication.next,
    ensures
        already_advanced(
            volume,
            ManifestRows {
                previous_header: None,
                next_header: Some(publication.header),
                next_parent: Some(publication.previous),
            },
            publication,
        ),
{
}

// ---------------------------------------------------------------------------------------------
// Liveness
// ---------------------------------------------------------------------------------------------

/// What keeps manifests of one disk alive.
pub struct VolumeRoots {
    pub volume: VolumeRecord,
    pub snapshots: Vec<ManifestId>,
}

/// Whether a disk keeps a manifest alive: as a retained snapshot, or as the head under a writer
/// lease, expired or not.
pub open spec fn keeps(roots: VolumeRoots, manifest: u128) -> bool {
    names(roots.snapshots@, manifest) || (roots.volume.writer_lease is Some
        && roots.volume.head_manifest.0 == manifest)
}

/// Whether some disk keeps a manifest alive.
pub open spec fn kept_by_some(volumes: Seq<VolumeRoots>, manifest: u128) -> bool {
    exists|i: int| 0 <= i < volumes.len() && keeps(#[trigger] volumes[i], manifest)
}

/// Whether a list names a manifest.
pub open spec fn names(list: Seq<ManifestId>, manifest: u128) -> bool {
    exists|i: int| 0 <= i < list.len() && (#[trigger] list[i]).0 == manifest
}

fn add_all(live: &mut BTreeSet<u128>, list: &Vec<ManifestId>)
    ensures
        forall|m: u128|
            #![trigger final(live)@.contains(m)]
            final(live)@.contains(m) <==> old(live)@.contains(m) || names(list@, m),
{
    let ghost before = live@;
    let mut i: usize = 0;
    while i < list.len()
        invariant
            i <= list.len(),
            forall|m: u128|
                #![trigger live@.contains(m)]
                live@.contains(m) <==> before.contains(m) || names(list@.take(i as int), m),
        decreases list.len() - i,
    {
        let ghost held = live@;
        let added: u128 = list[i].0;
        live.insert(added);
        assert(live@ == held.insert(added));
        proof {
            let shorter = list@.take(i as int);
            let longer = list@.take(i + 1);
            assert forall|m: u128| #![trigger live@.contains(m)]
                live@.contains(m) <==> before.contains(m) || names(longer, m) by {
                assert(held.contains(m) <==> before.contains(m) || names(shorter, m));
                if names(longer, m) {
                    let k = choose|k: int| 0 <= k < longer.len() && (#[trigger] longer[k]).0 == m;
                    if k < i {
                        assert(shorter[k].0 == m);
                    }
                }
                if names(shorter, m) {
                    let k = choose|k: int| 0 <= k < shorter.len() && (#[trigger] shorter[k]).0 == m;
                    assert(longer[k].0 == m);
                }
                assert(longer[i as int].0 == added);
            }
        }
        i += 1;
    }
    assert(list@.take(i as int) =~= list@);
}

/// The manifests that disks and images keep alive.
pub fn live_manifests(volumes: &Vec<VolumeRoots>, images: &Vec<ManifestId>) -> (live: BTreeSet<u128>)
    ensures
        forall|m: u128|
            #![trigger live@.contains(m)]
            live@.contains(m) <==> kept_by_some(volumes@, m) || names(images@, m),
{
    let mut live: BTreeSet<u128> = BTreeSet::new();
    let mut i: usize = 0;
    while i < volumes.len()
        invariant
            i <= volumes.len(),
            forall|m: u128|
                #![trigger live@.contains(m)]
                live@.contains(m) <==> kept_by_some(volumes@.take(i as int), m),
        decreases volumes.len() - i,
    {
        let ghost before = live@;
        let ghost roots = volumes@[i as int];
        add_all(&mut live, &volumes[i].snapshots);
        let ghost held = live@;
        if volumes[i].volume.writer_lease.is_some() {
            let head: u128 = volumes[i].volume.head_manifest.0;
            live.insert(head);
            assert(live@ == held.insert(head));
        }
        proof {
            let shorter = volumes@.take(i as int);
            let longer = volumes@.take(i + 1);
            assert forall|m: u128| #![trigger live@.contains(m)]
                live@.contains(m) <==> kept_by_some(longer, m) by {
                assert(before.contains(m) <==> kept_by_some(shorter, m));
                assert(held.contains(m) <==> before.contains(m) || names(roots.snapshots@, m));
                assert(live@.contains(m) <==> before.contains(m) || keeps(roots, m));
                if kept_by_some(longer, m) {
                    let k = choose|k: int| 0 <= k < longer.len() && keeps(#[trigger] longer[k], m);
                    if k < i {
                        assert(keeps(shorter[k], m));
                    }
                }
                if kept_by_some(shorter, m) {
                    let k = choose|k: int|
                        0 <= k < shorter.len() && keeps(#[trigger] shorter[k], m);
                    assert(keeps(longer[k], m));
                }
                if keeps(roots, m) {
                    assert(keeps(longer[i as int], m));
                }
            }
        }
        i += 1;
    }
    assert(volumes@.take(i as int) =~= volumes@);
    add_all(&mut live, images);
    live
}

/// Headers are the same exactly where every part of them is.
pub proof fn headers_agree_in_every_part(left: ManifestHeader, right: ManifestHeader, equal: bool)
    requires
        call_ensures(same_header, (&left, &right), equal),
    ensures
        equal <==> left.size == right.size && left.chunk_size == right.chunk_size && left.rest@ == right.rest@,
{
}

/// A manifest describes whole chunks of the right size, at least one; it is written once, and only
/// the same manifest may be put again.
pub proof fn manifests_are_written_once(existing: Option<ManifestHeader>, header: ManifestHeader, chunk_size: u32, result: StoreResult<bool>)
    requires
        chunk_size > 0,
        call_ensures(put_manifest, (&existing, &header, chunk_size), result),
    ensures
        result matches Ok(written) ==> {
            &&& header.chunk_size == chunk_size && header.size > 0 && header.size as int % chunk_size as int == 0
            &&& written <==> existing is None
            &&& existing matches Some(found) ==> found.size == header.size && found.chunk_size
                == header.chunk_size && found.rest@ == header.rest@
        },
        header.chunk_size == chunk_size && header.size > 0 && header.size as int % chunk_size as int == 0
            && existing is None ==> result is Ok,
{
}

/// A new disk starts at the manifest that was given, with no writer and no parent, and its history is
/// that manifest.
pub proof fn new_disks_start_at_their_manifest(
    registered: bool,
    existing: Option<VolumeRecord>,
    deleted: bool,
    manifest: ManifestId,
    result: StoreResult<NewVolume>,
)
    requires
        call_ensures(create_volume, (registered, &existing, deleted, manifest), result),
    ensures
        result is Ok <==> registered && !deleted && existing is None,
        result matches Ok(created) ==> {
            &&& created.volume.head_manifest == manifest && created.volume.parent is None
            &&& created.volume.writer_lease is None
            &&& created.snapshots@.len() == 1 && created.snapshots@[0] == manifest
        },
{
}

/// A clone starts where its source stands, names it as its parent and has no writer.
pub proof fn clones_start_at_their_source(
    source: VolumeId,
    found: Option<VolumeRecord>,
    existing: Option<VolumeRecord>,
    deleted: bool,
    result: StoreResult<NewVolume>,
)
    requires
        call_ensures(clone_volume, (source, &found, &existing, deleted), result),
    ensures
        result is Ok <==> found is Some && !deleted && existing is None,
        result matches Ok(created) ==> {
            &&& created.volume.head_manifest == found->0.head_manifest
            &&& created.volume.parent == Some(source) && created.volume.writer_lease is None
            &&& created.snapshots@.len() == 1 && created.snapshots@[0] == found->0.head_manifest
        },
{
}

/// An image names a registered manifest under a key that fits.
pub proof fn images_are_registered(key_len: usize, registered: bool, result: StoreResult<()>)
    requires
        call_ensures(put_image, (key_len, registered), result),
    ensures
        result is Ok <==> registered && key_len <= 10_000,
        result matches Err(error) ==> error == StoreError::TooLarge || error == StoreError::ManifestMissing,
{
}

/// A bound disk is written only from the node of its live placement.
pub proof fn bound_disks_are_written_in_place(rows: VolumeRows, owner: LeaseOwnerId, now: Timestamp, result: StoreResult<()>)
    requires
        call_ensures(check_volume_placement, (&rows, owner, now), result),
    ensures
        rows.binding is None ==> result is Ok,
        rows.binding matches Some(bound) ==> (result is Ok ==> owner.0 == bound.node_id.0 && (
        rows.placement.placement matches Some(live) && live.epoch == bound.epoch && live.expires_at.nanos
            > now.nanos)),
{
}

/// A writer's lease goes to the owner who asked, until the moment that was asked for, one number after
/// the last, and never beside a live one. The disk keeps its manifest and its parent.
pub proof fn writers_are_granted_one_by_one(
    rows: VolumeRows,
    owner: LeaseOwnerId,
    now: Timestamp,
    expires_at: Timestamp,
    clock: Timestamp,
    result: StoreResult<(Lease, VolumeRows)>,
)
    requires
        call_ensures(acquire_writer_lease, (&rows, owner, now, expires_at, clock), result),
    ensures
        result matches Ok((lease, next)) ==> {
            &&& lease.owner == owner && lease.expires_at == expires_at && expires_at.nanos > now.nanos
            &&& rows.lease_seq matches Some(last) ==> lease.seq == last + 1
            &&& rows.lease_seq is None ==> lease.seq == 1
            &&& next.lease_seq == Some(lease.seq)
            &&& rows.volume matches Some(before) && (before.writer_lease matches Some(held)
                ==> held.expires_at.nanos <= now.nanos)
            &&& next.volume matches Some(after) && after.writer_lease == Some(lease) && after.head_manifest
                == rows.volume->0.head_manifest && after.parent == rows.volume->0.parent
            &&& next.binding == rows.binding && next.placement == rows.placement
        },
{
}

/// A released disk has no writer and is otherwise unchanged; only its live writer releases it.
pub proof fn writers_release_their_disk(volume: Option<VolumeRecord>, expected: Lease, now: Timestamp, result: StoreResult<VolumeRecord>)
    requires
        call_ensures(release_writer_lease, (&volume, &expected, now), result),
    ensures
        result matches Ok(after) ==> (volume matches Some(before) && after.writer_lease is None
            && after.head_manifest == before.head_manifest && after.parent == before.parent),
        volume matches Some(before) ==> (result is Ok <==> before.writer_lease == Some(expected)
            && expected.expires_at.nanos > now.nanos),
{
}

/// A renewed writer holds the same lease for longer; the disk is otherwise unchanged.
pub proof fn writers_renew_their_lease(
    rows: VolumeRows,
    expected: Lease,
    expires_at: Timestamp,
    now: Timestamp,
    result: StoreResult<(Lease, VolumeRows)>,
)
    requires
        call_ensures(renew_writer_lease, (&rows, &expected, expires_at, now), result),
    ensures
        result matches Ok((lease, next)) ==> {
            &&& lease.owner == expected.owner && lease.seq == expected.seq && lease.expires_at == expires_at
            &&& now.nanos < expected.expires_at.nanos < expires_at.nanos
            &&& rows.volume matches Some(before) && before.writer_lease == Some(expected)
            &&& next.volume matches Some(after) && after.writer_lease == Some(lease) && after.head_manifest
                == rows.volume->0.head_manifest && after.parent == rows.volume->0.parent
            &&& next.lease_seq == rows.lease_seq && next.binding == rows.binding && next.placement
                == rows.placement
        },
{
}

/// A publication moves the disk from the manifest that the writer saw to the next one and keeps its
/// writer and its parent. The history has the new manifest first and then the old history, cut to
/// the retention. A disk never changes its size.
pub proof fn publications_move_the_head(
    rows: VolumeRows,
    manifests: ManifestRows,
    history: Vec<ManifestId>,
    expected: Lease,
    publication: Publication,
    retention: usize,
    now: Timestamp,
    result: StoreResult<Option<Advanced>>,
)
    requires
        retention > 0,
        call_ensures(
            advance_volume_retained,
            (&rows, &manifests, &history, &expected, &publication, retention, now),
            result,
        ),
    ensures
        result matches Ok(Some(advanced)) ==> {
            let before = rows.volume->0;
            &&& rows.volume is Some && before.writer_lease == Some(expected) && expected.expires_at.nanos
                > now.nanos
            &&& before.head_manifest == publication.previous
            &&& advanced.volume.head_manifest == publication.next
            &&& advanced.volume.writer_lease == before.writer_lease && advanced.volume.parent == before.parent
            &&& manifests.previous_header matches Some(header) && header.size == publication.header.size
                && header.chunk_size == publication.header.chunk_size
            &&& manifests.next_header is None
            &&& advanced.snapshots@.len() > 0 && advanced.snapshots@[0] == publication.next
            &&& advanced.snapshots@.len() == if history@.len() + 1 <= retention {
                history@.len() + 1
            } else {
                retention as nat
            }
            &&& forall|i: int|
                1 <= i < advanced.snapshots@.len() ==> #[trigger] advanced.snapshots@[i] == history@[i - 1]
        },
        result matches Ok(None) ==> rows.volume is Some && rows.volume->0.head_manifest == publication.next
            && manifests.next_parent == Some(publication.previous),
{
}

/// A parent is wanted while the history is short, is added at its end, and never twice.
pub proof fn parents_are_added_once(snapshots: &mut Vec<ManifestId>, parent: ManifestId, result: StoreResult<()>)
    requires
        call_ensures(import_parent, (snapshots, parent), result),
    ensures
        result is Err <==> old(snapshots)@.contains(parent),
        result is Err ==> final(snapshots)@ == old(snapshots)@,
        result is Ok ==> final(snapshots)@.len() == old(snapshots)@.len() + 1 && final(snapshots)@.last()
            == parent && forall|i: int|
            0 <= i < old(snapshots)@.len() ==> #[trigger] final(snapshots)@[i] == old(snapshots)@[i],
{
}

/// A history takes parents until it is as long as the limit.
pub proof fn histories_take_parents_up_to_the_limit(snapshots: Vec<ManifestId>, limit: usize, wanted: bool)
    requires
        call_ensures(wants_parent, (&snapshots, limit), wanted),
    ensures
        wanted <==> snapshots@.len() < limit,
{
}

/// What a disk's history or an image names is live, and so is the head of a disk that has a writer;
/// nothing else is.
pub proof fn live_manifests_are_the_roots(volumes: Vec<VolumeRoots>, images: Vec<ManifestId>, live: std::collections::BTreeSet<u128>)
    requires
        call_ensures(live_manifests, (&volumes, &images), live),
    ensures
        forall|i: int| 0 <= i < images@.len() ==> live@.contains((#[trigger] images@[i]).0),
        forall|i: int, j: int|
            0 <= i < volumes@.len() && 0 <= j < volumes@[i].snapshots@.len() ==> live@.contains(
                (#[trigger] volumes@[i].snapshots@[j]).0,
            ),
        forall|i: int|
            0 <= i < volumes@.len() && (#[trigger] volumes@[i]).volume.writer_lease is Some ==> live@.contains(
                volumes@[i].volume.head_manifest.0,
            ),
        volumes@.len() == 0 && images@.len() == 0 ==> forall|m: u128| !live@.contains(m),
{
    assert forall|i: int| 0 <= i < images@.len() implies live@.contains((#[trigger] images@[i]).0) by {
        assert(names(images@, images@[i].0));
    }
    assert forall|i: int, j: int| 0 <= i < volumes@.len() && 0 <= j < volumes@[i].snapshots@.len() implies live@.contains(
        (#[trigger] volumes@[i].snapshots@[j]).0,
    ) by {
        let m = volumes@[i].snapshots@[j].0;
        assert(names(volumes@[i].snapshots@, m));
        assert(keeps(volumes@[i], m));
    }
    assert forall|i: int| 0 <= i < volumes@.len() && (#[trigger] volumes@[i]).volume.writer_lease is Some implies live@.contains(
        volumes@[i].volume.head_manifest.0,
    ) by {
        assert(keeps(volumes@[i], volumes@[i].volume.head_manifest.0));
    }
}

} // verus!
