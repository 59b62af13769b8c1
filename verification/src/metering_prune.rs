//! Pruning of raw completion records: the hourly sums stay.
//!
//! A record lies under its request, and an index row by the hour of its recording points at it.
//! Records without a time are older than the index and go once the retention has passed since the
//! index was introduced.

use crate::error::{StoreError, StoreResult};
use crate::keys::{
    continuation_range, continuations_keep_order, key_range, pack_key, packed, part_views,
    parts_less, parts_size, recorded_request, storable, unpack_recorded, unpacked, within,
    KeyPart, PartView,
};
use crate::metering::{end_hour, hour_of};
use crate::paging::{key_after, successor};
use crate::time::{truncated, Timestamp};
use crate::MAX_SCAN_LIMIT;
use vstd::prelude::*;

verus! {

/// Elements of the key of an index row.
pub open spec fn recorded_parts(hour: i64, request: Seq<u8>) -> Seq<PartView> {
    seq![PartView::Text("usage_record_by_time"@), PartView::Int(hour), PartView::Bytes(request)]
}

fn index_parts(hour: Option<i64>) -> (parts: Vec<KeyPart>)
    ensures
        part_views(parts@) == match hour {
            Some(hour) => seq![PartView::Text("usage_record_by_time"@), PartView::Int(hour)],
            None => seq![PartView::Text("usage_record_by_time"@)],
        },
        storable(part_views(parts@)),
        parts_size(part_views(parts@)) <= 200,
{
    let mut parts: Vec<KeyPart> = Vec::new();
    parts.push(KeyPart::Text("usage_record_by_time".to_owned()));
    if let Some(hour) = hour {
        parts.push(KeyPart::Int(hour));
    }
    proof {
        reveal_strlit("usage_record_by_time");
        let name = seq![PartView::Text("usage_record_by_time"@)];
        let views = part_views(parts@);
        if let Some(hour) = hour {
            assert(views =~= seq![PartView::Text("usage_record_by_time"@), PartView::Int(hour)]);
            assert(views.drop_last() =~= name);
        } else {
            assert(views =~= name);
        }
        assert(name.drop_last() =~= Seq::<PartView>::empty());
        reveal_with_fuel(parts_size, 3);
    }
    parts
}

proof fn recorded_order(hour: i64, request: Seq<u8>, bound: i64)
    ensures
        parts_less(
            recorded_parts(hour, request),
            seq![PartView::Text("usage_record_by_time"@), PartView::Int(bound)],
        ) <==> hour < bound,
{
    let name = seq![PartView::Text("usage_record_by_time"@)];
    let row = seq![PartView::Int(hour), PartView::Bytes(request)];
    let limit = seq![PartView::Int(bound)];
    assert(recorded_parts(hour, request) =~= name + row);
    assert(seq![PartView::Text("usage_record_by_time"@), PartView::Int(bound)] =~= name + limit);
    continuations_keep_order(name, row, limit);
    assert(limit.drop_first() =~= Seq::<PartView>::empty());
    reveal_with_fuel(parts_less, 2);
}

/// The range of index rows of the hours before `cutoff_hour`.
pub fn hours_before_range(root: &Vec<u8>, cutoff_hour: i64) -> (range: (Vec<u8>, Vec<u8>))
    requires
        root@.len() + 1024 <= u32::MAX,
    ensures
        forall|hour: i64, request: Seq<u8>|
            #[trigger] within(
                (range.0@, range.1@),
                packed(root@, recorded_parts(hour, request)),
            ) <==> hour < cutoff_hour,
{
    let space = index_parts(None);
    let (begin, whole_end) = continuation_range(root, &space);
    let bound = index_parts(Some(cutoff_hour));
    let end = pack_key(root, &bound);
    assert forall|hour: i64, request: Seq<u8>| #[trigger] within(
        (begin@, end@),
        packed(root@, recorded_parts(hour, request)),
    ) <==> hour < cutoff_hour by {
        let row = recorded_parts(hour, request);
        assert(storable(row));
        assert(row.take(1) =~= part_views(space@));
        assert(within((begin@, whole_end@), packed(root@, row)));
        recorded_order(hour, request, cutoff_hour);
    }
    (begin, end)
}

/// The range of index rows of the hour that the cutoff lies in.
pub fn cutoff_hour_range(root: &Vec<u8>, cutoff_hour: i64) -> (range: (Vec<u8>, Vec<u8>))
    requires
        root@.len() + 1024 <= u32::MAX,
    ensures
        forall|hour: i64, request: Seq<u8>|
            #[trigger] within(
                (range.0@, range.1@),
                packed(root@, recorded_parts(hour, request)),
            ) <==> cutoff_hour <= hour < end_hour(cutoff_hour),
{
    let next: i64 = match cutoff_hour.checked_add(3_600) {
        Some(next) => next,
        None => cutoff_hour,
    };
    let from = index_parts(Some(cutoff_hour));
    let to = index_parts(Some(next));
    let range = key_range(root, &from, &to);
    assert forall|hour: i64, request: Seq<u8>| #[trigger] within(
        (range.0@, range.1@),
        packed(root@, recorded_parts(hour, request)),
    ) <==> cutoff_hour <= hour < end_hour(cutoff_hour) by {
        let row = recorded_parts(hour, request);
        assert(storable(row));
        recorded_order(hour, request, cutoff_hour);
        recorded_order(hour, request, next);
    }
    range
}

/// The request that an index row names; a key of another form is corrupt.
pub fn indexed_request(root: &Vec<u8>, key: &Vec<u8>) -> (result: StoreResult<Vec<u8>>)
    requires
        root@.len() + 1024 <= u32::MAX,
    ensures
        match recorded_request(
            unpacked(packed(root@, seq![PartView::Text("usage_record_by_time"@)]), key@),
        ) {
            Some(request) => result matches Ok(found) && found@ == request,
            None => result matches Err(error) && error == StoreError::Corrupt,
        },
{
    let space = index_parts(None);
    let prefix = pack_key(root, &space);
    match unpack_recorded(&prefix, key) {
        Some((_, request)) => Ok(request),
        None => Err(StoreError::Corrupt),
    }
}

/// When the index was introduced: as recorded, or now. The second value tells whether it is still
/// to be recorded.
pub fn prune_start(limit: usize, upgrade_at: Option<Timestamp>, now: Timestamp) -> (result: StoreResult<(Timestamp, bool)>)
    ensures
        if 1 <= limit <= MAX_SCAN_LIMIT {
            result == Ok::<_, StoreError>(
                match upgrade_at {
                    Some(at) => (at, false),
                    None => (now, true),
                },
            )
        } else {
            result == Err::<(Timestamp, bool), _>(StoreError::InvalidLimit)
        },
{
    crate::check_limit(limit)?;
    match upgrade_at {
        Some(at) => Ok((at, false)),
        None => Ok((now, true)),
    }
}

/// The steps of one prune, in their order.
#[derive(Clone, Copy, Debug, PartialEq, Eq, Structural)]
pub enum PruneStage {
    Start,
    /// Records of the hours before the hour of the cutoff.
    HoursBefore,
    /// Records of the hour of the cutoff.
    CutoffHour,
    /// Records that are older than the index.
    Legacy,
}

/// The step that follows another.
pub open spec fn following(stage: PruneStage) -> Option<PruneStage> {
    match stage {
        PruneStage::Start => Some(PruneStage::HoursBefore),
        PruneStage::HoursBefore => Some(PruneStage::CutoffHour),
        PruneStage::CutoffHour => Some(PruneStage::Legacy),
        PruneStage::Legacy => None,
    }
}

/// The next step of a prune and how many records it may delete, after `pruned` records went; none
/// at the end, or once the limit is reached.
pub fn prune_next(stage: PruneStage, pruned: usize, limit: usize) -> (next: Option<(PruneStage, usize)>)
    ensures
        next == match following(stage) {
            Some(step) => if pruned < limit {
                Some((step, (limit - pruned) as usize))
            } else {
                None
            },
            None => None,
        },
{
    if pruned >= limit {
        return None;
    }
    let left: usize = limit - pruned;
    match stage {
        PruneStage::Start => Some((PruneStage::HoursBefore, left)),
        PruneStage::HoursBefore => Some((PruneStage::CutoffHour, left)),
        PruneStage::CutoffHour => Some((PruneStage::Legacy, left)),
        PruneStage::Legacy => None,
    }
}

/// Whether a record was recorded at or before a moment.
pub open spec fn recorded_by(recorded_at: Option<Option<Timestamp>>, before: Timestamp) -> bool {
    recorded_at matches Some(at) && at matches Some(at) && at.nanos <= before.nanos
}

/// Places of the first `count` records that are old enough to go.
pub open spec fn old_within(records: Seq<Option<Option<Timestamp>>>, before: Timestamp, count: nat) -> Seq<usize>
    decreases count,
{
    if count == 0 {
        Seq::empty()
    } else if recorded_by(records[count - 1], before) {
        old_within(records, before, (count - 1) as nat).push((count - 1) as usize)
    } else {
        old_within(records, before, (count - 1) as nat)
    }
}

/// Places of the records in the hour of the cutoff that go with their index rows: those recorded
/// at or before it. A record is given by its time, none for a missing record.
pub fn prune_index_hour_exact(records: &Vec<Option<Option<Timestamp>>>, before: Timestamp) -> (stale: Vec<usize>)
    ensures
        stale@ == old_within(records@, before, records@.len()),
{
    let mut stale: Vec<usize> = Vec::new();
    let mut i: usize = 0;
    while i < records.len()
        invariant
            i <= records.len(),
            stale@ == old_within(records@, before, i as nat),
        decreases records.len() - i,
    {
        let old = match records[i] {
            Some(Some(at)) => at.nanos <= before.nanos,
            _ => false,
        };
        if old {
            stale.push(i);
        }
        i += 1;
    }
    stale
}

/// Whether records that are older than the index are to be looked through.
pub fn legacy_wanted(limit: usize, upgrade_at: Timestamp, before: Timestamp, done: Option<bool>) -> (wanted: bool)
    ensures
        wanted == (limit > 0 && upgrade_at.nanos <= before.nanos && done != Some(true)),
{
    if limit == 0 || upgrade_at.nanos > before.nanos {
        return false;
    }
    match done {
        Some(done) => !done,
        None => true,
    }
}

/// Where a look through old records goes on: behind the last one seen.
pub fn legacy_begin(range_start: Vec<u8>, cursor: &Option<Vec<u8>>) -> (begin: Vec<u8>)
    ensures
        begin@ == match cursor {
            Some(last) => successor(last@),
            None => range_start@,
        },
{
    match cursor {
        Some(last) => key_after(last),
        None => range_start,
    }
}

/// What one look through old records does.
pub struct LegacyPrune {
    /// Keys of the records to delete.
    pub stale: Vec<Vec<u8>>,
    /// The last key seen, which the next look begins behind; without one the mark goes.
    pub cursor: Option<Vec<u8>>,
    /// Whether every old record has been seen.
    pub done: bool,
}

/// Keys of the first `count` records that carry no time.
pub open spec fn timeless_within(rows: Seq<(Vec<u8>, Option<Timestamp>)>, count: nat) -> Seq<Seq<u8>>
    decreases count,
{
    if count == 0 {
        Seq::empty()
    } else if rows[count - 1].1 is None {
        timeless_within(rows, (count - 1) as nat).push(rows[count - 1].0@)
    } else {
        timeless_within(rows, (count - 1) as nat)
    }
}

fn copy_key(key: &Vec<u8>) -> (copy: Vec<u8>)
    ensures
        copy@ == key@,
{
    let mut copy: Vec<u8> = Vec::new();
    copy.extend_from_slice(key.as_slice());
    assert(copy@ =~= key@);
    copy
}

/// Looks through a page of old records: those without a time go, and the last key is remembered.
/// An empty page ends the work for good.
pub fn prune_legacy_raw(rows: &Vec<(Vec<u8>, Option<Timestamp>)>) -> (plan: LegacyPrune)
    ensures
        plan.stale@.map_values(|key: Vec<u8>| key@) == timeless_within(rows@, rows@.len()),
        plan.done == (rows@.len() == 0),
        match plan.cursor {
            Some(key) => rows@.len() > 0 && key@ == rows@.last().0@,
            None => rows@.len() == 0,
        },
{
    let mut stale: Vec<Vec<u8>> = Vec::new();
    let mut i: usize = 0;
    assert(stale@.map_values(|key: Vec<u8>| key@) =~= Seq::<Seq<u8>>::empty());
    while i < rows.len()
        invariant
            i <= rows.len(),
            stale@.map_values(|key: Vec<u8>| key@) == timeless_within(rows@, i as nat),
        decreases rows.len() - i,
    {
        if rows[i].1.is_none() {
            let ghost held = stale@;
            let key = copy_key(&rows[i].0);
            stale.push(key);
            assert(stale@.map_values(|key: Vec<u8>| key@) =~= held.map_values(
                |key: Vec<u8>| key@,
            ).push(key@));
        }
        i += 1;
    }
    let cursor = if rows.len() == 0 {
        None
    } else {
        Some(copy_key(&rows[rows.len() - 1].0))
    };
    LegacyPrune { stale, cursor, done: rows.len() == 0 }
}

/// Nothing goes too early: a record whose hour lies before the hour of the cutoff was recorded
/// before the cutoff.
pub proof fn pruned_hours_are_old(at: Timestamp, before: Timestamp)
    requires
        hour_of(truncated(at.nanos as int, 1_000_000_000)) < hour_of(
            truncated(before.nanos as int, 1_000_000_000),
        ),
    ensures
        at.nanos < before.nanos,
{
}

/// A prune takes a page at most; it counts from the upgrade where that is known, else the upgrade is
/// now and is to be stored.
pub proof fn prunes_count_from_the_upgrade(limit: usize, upgrade_at: Option<Timestamp>, now: Timestamp, result: StoreResult<(Timestamp, bool)>)
    requires
        call_ensures(prune_start, (limit, upgrade_at, now), result),
    ensures
        result is Ok <==> 1 <= limit <= MAX_SCAN_LIMIT,
        result matches Ok((at, fresh)) ==> {
            &&& fresh <==> upgrade_at is None
            &&& fresh ==> at == now
            &&& upgrade_at matches Some(stored) ==> at == stored
        },
{
}

/// A prune goes through its stages in order, each with what is left of the limit, and ends when the
/// limit is used up or the stages are.
pub proof fn prunes_go_on_with_what_is_left(stage: PruneStage, pruned: usize, limit: usize, next: Option<(PruneStage, usize)>)
    requires
        call_ensures(prune_next, (stage, pruned, limit), next),
    ensures
        next matches Some((step, left)) ==> {
            &&& left > 0 && pruned + left == limit
            &&& stage is Start ==> step is HoursBefore
            &&& stage is HoursBefore ==> step is CutoffHour
            &&& stage is CutoffHour ==> step is Legacy
        },
        next is None <==> stage is Legacy || pruned >= limit,
{
}

/// A record goes exactly where it says that it was recorded by then; the places come in order.
pub proof fn old_records_go(records: Vec<Option<Option<Timestamp>>>, before: Timestamp, stale: Vec<usize>)
    requires
        call_ensures(prune_index_hour_exact, (&records, before), stale),
    ensures
        stale@.len() <= records@.len(),
        forall|k: int|
            0 <= k < stale@.len() ==> #[trigger] stale@[k] < records@.len() && (
            records@[stale@[k] as int] matches Some(Some(at)) && at.nanos <= before.nanos),
        forall|i: int|
            0 <= i < records@.len() && ((#[trigger] records@[i]) matches Some(Some(at)) && at.nanos
                <= before.nanos) ==> stale@.contains(i as usize),
        forall|k: int, l: int| 0 <= k < l < stale@.len() ==> #[trigger] stale@[k] < #[trigger] stale@[l],
{
    assert(records@.len() == records.len());
    old_are_those(records@, before, records@.len());
}

proof fn old_are_those(records: Seq<Option<Option<Timestamp>>>, before: Timestamp, count: nat)
    requires
        count <= records.len() <= usize::MAX,
    ensures
        ({
            let stale = old_within(records, before, count);
            &&& stale.len() <= count
            &&& forall|k: int|
                0 <= k < stale.len() ==> #[trigger] stale[k] < count && recorded_by(
                    records[stale[k] as int],
                    before,
                )
            &&& forall|i: int|
                0 <= i < count && recorded_by(#[trigger] records[i], before) ==> stale.contains(i as usize)
            &&& forall|k: int, l: int| 0 <= k < l < stale.len() ==> #[trigger] stale[k] < #[trigger] stale[l]
        }),
    decreases count,
{
    if count > 0 {
        old_are_those(records, before, (count - 1) as nat);
        let first = old_within(records, before, (count - 1) as nat);
        let stale = old_within(records, before, count);
        assert forall|i: int| 0 <= i < count && recorded_by(#[trigger] records[i], before) implies stale.contains(
            i as usize,
        ) by {
            if i < count - 1 {
                assert(first.contains(i as usize));
                let k = choose|k: int| 0 <= k < first.len() && first[k] == i as usize;
                assert(stale[k] == i as usize);
            } else {
                assert(stale[stale.len() - 1] == i as usize);
            }
        }
        assert forall|k: int| 0 <= k < stale.len() implies #[trigger] stale[k] < count && recorded_by(
            records[stale[k] as int],
            before,
        ) by {
            if k < first.len() {
                assert(stale[k] == first[k]);
            }
        }
        assert forall|k: int, l: int| 0 <= k < l < stale.len() implies #[trigger] stale[k] < #[trigger] stale[l] by {
            assert(stale[k] == first[k]);
            if l < first.len() {
                assert(stale[l] == first[l]);
            }
        }
    }
}

/// Old rows without a time are looked for only once everything from before the upgrade is due, and
/// only until that is done.
pub proof fn legacy_rows_go_after_the_upgrade(limit: usize, upgrade_at: Timestamp, before: Timestamp, done: Option<bool>, wanted: bool)
    requires
        call_ensures(legacy_wanted, (limit, upgrade_at, before, done), wanted),
    ensures
        wanted ==> limit > 0 && upgrade_at.nanos <= before.nanos && done != Some(true),
        limit > 0 && upgrade_at.nanos <= before.nanos && done is None ==> wanted,
        done == Some(true) ==> !wanted,
{
}

/// A page of old rows loses exactly the rows without a time; the walk goes on behind the last row of
/// the page, and is done when a page is empty.
pub proof fn timeless_rows_go(rows: Vec<(Vec<u8>, Option<Timestamp>)>, plan: LegacyPrune)
    requires
        call_ensures(prune_legacy_raw, (&rows,), plan),
    ensures
        plan.done <==> rows@.len() == 0,
        plan.cursor is None <==> rows@.len() == 0,
        plan.cursor matches Some(last) ==> last@ == rows@[rows@.len() - 1].0@,
        plan.stale@.len() <= rows@.len(),
        (forall|i: int| 0 <= i < rows@.len() ==> (#[trigger] rows@[i]).1 is Some) ==> plan.stale@.len() == 0,
        (forall|i: int| 0 <= i < rows@.len() ==> (#[trigger] rows@[i]).1 is None) ==> plan.stale@.len()
            == rows@.len() && forall|i: int| 0 <= i < rows@.len() ==> plan.stale@[i]@ == (#[trigger] rows@[i]).0@,
{
    let views = plan.stale@.map_values(|key: Vec<u8>| key@);
    assert(views.len() == plan.stale@.len());
    timeless_are_those(rows@, rows@.len());
    if forall|i: int| 0 <= i < rows@.len() ==> (#[trigger] rows@[i]).1 is None {
        assert forall|i: int| 0 <= i < rows@.len() implies plan.stale@[i]@ == (#[trigger] rows@[i]).0@ by {
            assert(views[i] == plan.stale@[i]@);
        }
    }
}

proof fn timeless_are_those(rows: Seq<(Vec<u8>, Option<Timestamp>)>, count: nat)
    requires
        count <= rows.len(),
    ensures
        timeless_within(rows, count).len() <= count,
        (forall|i: int| 0 <= i < count ==> (#[trigger] rows[i]).1 is Some) ==> timeless_within(rows, count).len()
            == 0,
        (forall|i: int| 0 <= i < count ==> (#[trigger] rows[i]).1 is None) ==> timeless_within(rows, count).len()
            == count && forall|i: int|
            0 <= i < count ==> timeless_within(rows, count)[i] == (#[trigger] rows[i]).0@,
    decreases count,
{
    if count > 0 {
        timeless_are_those(rows, (count - 1) as nat);
    }
}

/// A walk begins at the start of its range, or right behind where it stopped.
pub proof fn walks_go_on_behind_the_cursor(range_start: Vec<u8>, cursor: Option<Vec<u8>>, begin: Vec<u8>)
    requires
        call_ensures(legacy_begin, (range_start, &cursor), begin),
    ensures
        cursor is None ==> begin@ == range_start@,
        cursor matches Some(last) ==> begin@.len() == last@.len() + 1 && begin@.take(last@.len() as int) == last@
            && begin@[last@.len() as int] == 0,
{
    if let Some(last) = cursor {
        assert(begin@.take(last@.len() as int) =~= last@);
    }
}

} // verus!
