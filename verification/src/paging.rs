//! Paged scans over ordered keys.

use crate::MAX_SCAN_LIMIT;
use vstd::prelude::*;

verus! {

/// Bytewise order of keys.
pub open spec fn key_less(a: Seq<u8>, b: Seq<u8>) -> bool
    decreases a.len(),
{
    if b.len() == 0 {
        false
    } else if a.len() == 0 {
        true
    } else if a[0] == b[0] {
        key_less(a.drop_first(), b.drop_first())
    } else {
        a[0] < b[0]
    }
}

/// The key that follows `key` directly.
pub open spec fn successor(key: Seq<u8>) -> Seq<u8> {
    key.push(0)
}

/// A key comes before another exactly when its successor does not come after that other, so a
/// scan that resumes at the successor of a key misses nothing and repeats nothing.
pub proof fn successor_is_next(key: Seq<u8>, other: Seq<u8>)
    ensures
        key_less(key, other) <==> !key_less(other, successor(key)),
    decreases key.len(),
{
    if other.len() == 0 {
        assert(key_less(other, successor(key)));
    } else if key.len() == 0 {
        let next = successor(key);
        assert(next =~= seq![0u8]);
        if other[0] == 0 {
            assert(!key_less(other.drop_first(), next.drop_first()));
        }
    } else {
        assert(successor(key)[0] == key[0]);
        assert(successor(key).drop_first() =~= successor(key.drop_first()));
        successor_is_next(key.drop_first(), other.drop_first());
    }
}

/// The key that follows `key` directly in bytewise order.
pub fn key_after(key: &Vec<u8>) -> (next: Vec<u8>)
    ensures
        next@ == successor(key@),
{
    let mut next: Vec<u8> = Vec::new();
    next.extend_from_slice(key.as_slice());
    next.push(0);
    assert(next@ =~= successor(key@));
    next
}

/// Values of a page that could be read, in order.
pub open spec fn readable<T>(page: Seq<(Vec<u8>, Option<T>)>, count: nat) -> Seq<T>
    decreases count,
{
    if count == 0 {
        Seq::empty()
    } else {
        match page[count - 1].1 {
            Some(value) => readable(page, (count - 1) as nat).push(value),
            None => readable(page, (count - 1) as nat),
        }
    }
}

/// A scan over all rows of a range, one bounded page at a time.
pub struct RowScan<T> {
    pub rows: Vec<T>,
    /// Where the next page begins; none at the start of the range.
    pub begin: Option<Vec<u8>>,
    pub done: bool,
}

impl<T> RowScan<T> {
    /// A scan that has read nothing.
    pub fn start() -> (scan: RowScan<T>)
        ensures
            scan.rows@.len() == 0,
            scan.begin is None,
            !scan.done,
    {
        RowScan { rows: Vec::new(), begin: None, done: false }
    }

    /// Takes a page of at most the scan limit. Rows that cannot be read are skipped; a short page
    /// is the last one.
    pub fn accept(&mut self, page: Vec<(Vec<u8>, Option<T>)>)
        ensures
            final(self).rows@ == old(self).rows@ + readable(page@, page@.len()),
            final(self).done == (page@.len() < MAX_SCAN_LIMIT),
            match final(self).begin {
                Some(key) => page@.len() > 0 && key@ == successor(page@.last().0@),
                None => page@.len() == 0,
            },
    {
        let ghost all = page@;
        let ghost held = self.rows@;
        let len: usize = page.len();
        self.done = len < MAX_SCAN_LIMIT;
        self.begin = if len == 0 {
            None
        } else {
            Some(key_after(&page[len - 1].0))
        };
        let mut rest = page;
        let mut reversed: Vec<Option<T>> = Vec::new();
        while rest.len() > 0
            invariant
                rest@ == all.take(rest@.len() as int),
                reversed@.len() + rest@.len() == all.len(),
                forall|j: int|
                    0 <= j < reversed@.len() ==> reversed@[j] == all[all.len() - 1 - j].1,
            decreases rest@.len(),
        {
            match rest.pop() {
                Some(row) => {
                    reversed.push(row.1);
                    assert(rest@ =~= all.take(rest@.len() as int));
                },
                None => {},
            }
        }
        let ghost mut seen: nat = 0;
        let mut rows: Vec<T> = Vec::new();
        while reversed.len() > 0
            invariant
                seen + reversed@.len() == all.len(),
                forall|j: int|
                    0 <= j < reversed@.len() ==> reversed@[j] == all[all.len() - 1 - j].1,
                rows@ == readable(all, seen),
            decreases reversed@.len(),
        {
            match reversed.pop() {
                Some(value) => {
                    assert(value == all[seen as int].1);
                    proof {
                        seen = seen + 1;
                    }
                    if let Some(row) = value {
                        rows.push(row);
                    }
                },
                None => {},
            }
        }
        self.rows.append(&mut rows);
    }
}

/// A page is read row by row: what two pages one after the other hold is what the first holds and
/// then what the second does. A row that does not decode is left out.
pub proof fn pages_are_read_row_by_row<T>(page: Seq<(Vec<u8>, Option<T>)>, key: Vec<u8>, row: Option<T>, count: nat)
    requires
        count <= page.len(),
    ensures
        readable(page.push((key, row)), count) == readable(page, count),
        row matches Some(value) ==> readable(page.push((key, row)), page.len() + 1) == readable(
            page,
            page.len(),
        ).push(value),
        row is None ==> readable(page.push((key, row)), page.len() + 1) == readable(page, page.len()),
    decreases count,
{
    if count > 0 {
        pages_are_read_row_by_row(page, key, row, (count - 1) as nat);
    }
    longer_pages_agree(page, key, row, page.len());
}

proof fn longer_pages_agree<T>(page: Seq<(Vec<u8>, Option<T>)>, key: Vec<u8>, row: Option<T>, count: nat)
    requires
        count <= page.len(),
    ensures
        readable(page.push((key, row)), count) == readable(page, count),
    decreases count,
{
    if count > 0 {
        longer_pages_agree(page, key, row, (count - 1) as nat);
    }
}

/// A scan keeps what it had and adds the rows of the page behind it; it goes on right behind the last
/// key of the page, and is done with a page that is not full.
pub proof fn scans_go_on_behind_the_page(scan: &mut RowScan<u64>, page: Vec<(Vec<u8>, Option<u64>)>)
    requires
        call_ensures(RowScan::<u64>::accept, (scan, page), ()),
    ensures
        final(scan).done <==> page@.len() < MAX_SCAN_LIMIT,
        final(scan).rows@.len() >= old(scan).rows@.len(),
        final(scan).rows@.take(old(scan).rows@.len() as int) == old(scan).rows@,
        page@.len() > 0 ==> (final(scan).begin matches Some(key) && key@ == page@[page@.len() - 1].0@.push(0)),
        page@.len() == 1 ==> (page@[0].1 matches Some(value) ==> final(scan).rows@ == old(scan).rows@.push(value)),
{
    assert(final(scan).rows@.take(old(scan).rows@.len() as int) =~= old(scan).rows@);
    reveal_with_fuel(readable, 2);
    if page@.len() == 1 {
        if let Some(value) = page@[0].1 {
            assert(final(scan).rows@ =~= old(scan).rows@.push(value));
        }
    }
}

/// The key after a key is above it, and no key lies between.
pub proof fn nothing_lies_between(key: Vec<u8>, next: Vec<u8>, other: Seq<u8>)
    requires
        call_ensures(key_after, (&key,), next),
    ensures
        key_less(key@, next@),
        key_less(key@, other) && other != next@ ==> key_less(next@, other),
{
    successor_is_next(key@, other);
    successor_is_next(key@, next@);
    keys_differ(next@, next@);
    keys_differ(next@, other);
}

proof fn keys_differ(a: Seq<u8>, b: Seq<u8>)
    ensures
        !key_less(a, a),
        key_less(a, b) || key_less(b, a) || a == b,
    decreases a.len(),
{
    if a.len() > 0 {
        if b.len() > 0 {
            keys_differ(a.drop_first(), b.drop_first());
            if a[0] == b[0] && a.drop_first() == b.drop_first() {
                assert(a =~= seq![a[0]] + a.drop_first());
                assert(b =~= seq![b[0]] + b.drop_first());
            }
        } else {
            keys_differ(a.drop_first(), b);
        }
    } else if b.len() == 0 {
        assert(a =~= b);
    }
}

} // verus!
