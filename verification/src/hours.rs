//! Rows in order of a number, at most one for each.

use vstd::prelude::*;

verus! {

/// Rows kept in ascending order of their numbers.
pub struct HourMap<V> {
    pub entries: Vec<(i64, V)>,
}

/// Whether rows ascend strictly.
pub open spec fn numbers_ascend<V>(entries: Seq<(i64, V)>) -> bool {
    forall|i: int, j: int| 0 <= i < j < entries.len() ==> (#[trigger] entries[i]).0 < (#[trigger] entries[j]).0
}

/// How many rows come before a number.
pub open spec fn place<V>(entries: Seq<(i64, V)>, number: i64) -> int
    decreases entries.len(),
{
    if entries.len() == 0 || entries[0].0 >= number {
        0
    } else {
        1 + place(entries.drop_first(), number)
    }
}

/// The row of a number.
pub open spec fn row_of<V>(entries: Seq<(i64, V)>, number: i64) -> Option<V> {
    let at = place(entries, number);
    if at < entries.len() && entries[at].0 == number {
        Some(entries[at].1)
    } else {
        None
    }
}

/// Rows after one was put under a number, replacing what was there.
pub open spec fn put<V>(entries: Seq<(i64, V)>, number: i64, value: V) -> Seq<(i64, V)> {
    let at = place(entries, number);
    if at < entries.len() && entries[at].0 == number {
        entries.update(at, (number, value))
    } else {
        entries.insert(at, (number, value))
    }
}

/// What marks the place of a number.
pub proof fn place_marks<V>(entries: Seq<(i64, V)>, number: i64)
    requires
        numbers_ascend(entries),
    ensures
        0 <= place(entries, number) <= entries.len(),
        forall|i: int| 0 <= i < place(entries, number) ==> (#[trigger] entries[i]).0 < number,
        forall|i: int| place(entries, number) <= i < entries.len() ==> (#[trigger] entries[i]).0 >= number,
    decreases entries.len(),
{
    if entries.len() > 0 && entries[0].0 < number {
        let rest = entries.drop_first();
        assert(numbers_ascend(rest));
        place_marks(rest, number);
        let at = place(entries, number);
        assert forall|i: int| 0 <= i < at implies (#[trigger] entries[i]).0 < number by {
            if i > 0 {
                assert(rest[i - 1] == entries[i]);
            }
        }
        assert forall|i: int| at <= i < entries.len() implies (#[trigger] entries[i]).0 >= number by {
            assert(rest[i - 1] == entries[i]);
        }
    } else if entries.len() > 0 {
        assert forall|i: int| 0 <= i < entries.len() implies (#[trigger] entries[i]).0 >= number by {
            if i > 0 {
                assert(entries[0].0 < entries[i].0);
            }
        }
    }
}

/// Putting a row keeps the order.
pub proof fn put_keeps_order<V>(entries: Seq<(i64, V)>, number: i64, value: V)
    requires
        numbers_ascend(entries),
    ensures
        numbers_ascend(put(entries, number, value)),
{
    place_marks(entries, number);
    let at = place(entries, number);
    let after = put(entries, number, value);
    assert forall|i: int, j: int| 0 <= i < j < after.len() implies (#[trigger] after[i]).0 < (
    #[trigger] after[j]).0 by {
        if !(at < entries.len() && entries[at].0 == number) {
            let p = if i < at { i } else { i - 1 };
            let q = if j < at { j } else { j - 1 };
            if i == at {
                assert(after[j] == entries[q]);
            } else if j == at {
                assert(after[i] == entries[p]);
            } else {
                assert(after[i] == entries[p] && after[j] == entries[q]);
            }
        } else {
            assert(entries[i].0 < entries[j].0);
        }
    }
}

proof fn place_unique<V>(entries: Seq<(i64, V)>, number: i64, at: int)
    requires
        numbers_ascend(entries),
        0 <= at <= entries.len(),
        forall|i: int| 0 <= i < at ==> (#[trigger] entries[i]).0 < number,
        at < entries.len() ==> entries[at].0 >= number,
    ensures
        place(entries, number) == at,
{
    place_marks(entries, number);
    let found = place(entries, number);
    if found < at {
        assert(entries[found].0 < number);
    } else if found > at {
        assert(entries[at].0 < number);
    }
}

impl<V> HourMap<V> {
    /// Whether the rows are in order.
    pub open spec fn wf(&self) -> bool {
        numbers_ascend(self.entries@)
    }

    /// No rows.
    pub fn new() -> (map: HourMap<V>)
        ensures
            map.wf(),
            map.entries@ == Seq::<(i64, V)>::empty(),
    {
        HourMap { entries: Vec::new() }
    }

    fn slot(&self, number: i64) -> (at: usize)
        requires
            self.wf(),
        ensures
            at == place(self.entries@, number),
            at <= self.entries@.len(),
    {
        let mut at: usize = 0;
        while at < self.entries.len() && self.entries[at].0 < number
            invariant
                at <= self.entries@.len(),
                forall|i: int| 0 <= i < at ==> (#[trigger] self.entries@[i]).0 < number,
            decreases self.entries@.len() - at,
        {
            at += 1;
        }
        proof {
            place_unique(self.entries@, number, at as int);
        }
        at
    }

    /// The row of a number.
    pub fn get(&self, number: i64) -> (found: Option<&V>)
        requires
            self.wf(),
        ensures
            match found {
                Some(value) => row_of(self.entries@, number) == Some(*value),
                None => row_of(self.entries@, number) is None,
            },
    {
        let at: usize = self.slot(number);
        if at < self.entries.len() && self.entries[at].0 == number {
            Some(&self.entries[at].1)
        } else {
            None
        }
    }

    /// Puts a row under a number, replacing what was there.
    pub fn insert(&mut self, number: i64, value: V)
        requires
            old(self).wf(),
        ensures
            final(self).wf(),
            final(self).entries@ == put(old(self).entries@, number, value),
    {
        proof {
            put_keeps_order(self.entries@, number, value);
        }
        let at: usize = self.slot(number);
        if at < self.entries.len() && self.entries[at].0 == number {
            self.entries.set(at, (number, value));
        } else {
            self.entries.insert(at, (number, value));
        }
    }
}

/// A row that was put is found, and the others stay as they were.
pub proof fn put_rows_are_found<V>(entries: Seq<(i64, V)>, number: i64, value: V, other: i64)
    requires
        numbers_ascend(entries),
    ensures
        row_of(put(entries, number, value), number) == Some(value),
        other != number ==> row_of(put(entries, number, value), other) == row_of(entries, other),
{
    let after = put(entries, number, value);
    let at = place(entries, number);
    place_marks(entries, number);
    put_keeps_order(entries, number, value);
    place_unique(after, number, at);
    place_marks(entries, other);
    let p = place(entries, other);
    if at < entries.len() && entries[at].0 == number {
        if other != number {
            assert forall|i: int| 0 <= i < p implies (#[trigger] after[i]).0 < other by {
                assert(entries[i].0 < other);
            }
            if p < after.len() {
                assert(after[p].0 >= other) by {
                    assert(entries[p].0 >= other);
                }
            }
            place_unique(after, other, p);
        }
    } else if other != number {
        let q = if other < number { p } else { p + 1 };
        if other < number {
            if p > at {
                assert(entries[at].0 < other);
            }
        } else if p < at {
            assert(entries[p].0 < number);
        }
        assert forall|i: int| 0 <= i < q implies (#[trigger] after[i]).0 < other by {
            if i < at {
                assert(after[i] == entries[i]);
            } else if i > at {
                assert(after[i] == entries[i - 1]);
            }
        }
        if q < after.len() {
            if q > at {
                assert(after[q] == entries[q - 1]);
            } else if q < at {
                assert(after[q] == entries[q]);
            }
        }
        place_unique(after, other, q);
        if p < entries.len() && entries[p].0 == other {
            if q > at {
                assert(after[q] == entries[q - 1]);
            } else if q < at {
                assert(after[q] == entries[q]);
            }
        }
    }
}

/// What is put under a number is found under it, and every other number keeps what it had.
pub proof fn put_numbers_are_found(map: &mut HourMap<u64>, number: i64, value: u64, other: i64)
    requires
        old(map).wf(),
        call_ensures(HourMap::<u64>::insert, (map, number, value), ()),
    ensures
        row_of(final(map).entries@, number) == Some(value),
        other != number ==> row_of(final(map).entries@, other) == row_of(old(map).entries@, other),
        forall|i: int, j: int|
            0 <= i < j < final(map).entries@.len() ==> (#[trigger] final(map).entries@[i]).0 < (
            #[trigger] final(map).entries@[j]).0,
{
    put_rows_are_found(old(map).entries@, number, value, other);
}

/// What is got under a number stands in an entry of that number.
pub proof fn got_numbers_are_held(map: HourMap<u64>, number: i64, found: Option<&u64>)
    requires
        map.wf(),
        call_ensures(HourMap::<u64>::get, (&map, number), found),
    ensures
        found matches Some(value) ==> exists|i: int|
            0 <= i < map.entries@.len() && (#[trigger] map.entries@[i]).0 == number && map.entries@[i].1 == *value,
        found is None ==> forall|i: int| 0 <= i < map.entries@.len() ==> (#[trigger] map.entries@[i]).0 != number,
{
    place_marks(map.entries@, number);
    let at = place(map.entries@, number);
    if found is Some {
        assert(map.entries@[at].0 == number);
    }
}

} // verus!
