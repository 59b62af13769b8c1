//! Stable order of keys that are a number and a text.

use crate::text::{less, text_less, text_less_irreflexive, text_less_total, text_less_transitive};
use vstd::prelude::*;

verus! {

/// A key to sort by: the number counts first, then the text.
pub struct SortKey {
    pub number: i128,
    pub text: String,
}

impl View for SortKey {
    type V = (int, Seq<char>);

    open spec fn view(&self) -> (int, Seq<char>) {
        (self.number as int, self.text@)
    }
}

/// Whether one key sorts strictly before another.
pub open spec fn key_less(a: (int, Seq<char>), b: (int, Seq<char>)) -> bool {
    a.0 < b.0 || (a.0 == b.0 && text_less(a.1, b.1))
}

/// The views of keys.
pub open spec fn key_views(keys: Seq<SortKey>) -> Seq<(int, Seq<char>)> {
    keys.map_values(|key: SortKey| key@)
}

/// First place in `order` whose key sorts after key `k`.
pub open spec fn place_of(order: Seq<int>, keys: Seq<(int, Seq<char>)>, k: int) -> int
    decreases order.len(),
{
    if order.len() == 0 || key_less(keys[k], keys[order[0]]) {
        0
    } else {
        1 + place_of(order.skip(1), keys, k)
    }
}

/// Indices of the first `count` keys in stable ascending order.
pub open spec fn stable_order(keys: Seq<(int, Seq<char>)>, count: nat) -> Seq<int>
    decreases count,
{
    if count == 0 {
        Seq::empty()
    } else {
        let order = stable_order(keys, (count - 1) as nat);
        order.insert(place_of(order, keys, count - 1), count - 1)
    }
}

proof fn place_of_bounds(order: Seq<int>, keys: Seq<(int, Seq<char>)>, k: int)
    ensures
        0 <= place_of(order, keys, k) <= order.len(),
        forall|i: int| 0 <= i < place_of(order, keys, k) ==> !key_less(keys[k], keys[order[i]]),
        place_of(order, keys, k) < order.len() ==> key_less(
            keys[k],
            keys[order[place_of(order, keys, k)]],
        ),
    decreases order.len(),
{
    if order.len() > 0 && !key_less(keys[k], keys[order[0]]) {
        let rest = order.skip(1);
        place_of_bounds(rest, keys, k);
        assert forall|i: int| 0 <= i < place_of(order, keys, k) implies !key_less(
            keys[k],
            keys[order[i]],
        ) by {
            if i > 0 {
                assert(order[i] == rest[i - 1]);
            }
        }
        if place_of(order, keys, k) < order.len() {
            assert(order[place_of(order, keys, k)] == rest[place_of(rest, keys, k)]);
        }
    }
}

proof fn place_of_unique(order: Seq<int>, keys: Seq<(int, Seq<char>)>, k: int, at: int)
    requires
        0 <= at <= order.len(),
        forall|i: int| 0 <= i < at ==> !key_less(keys[k], keys[order[i]]),
        at < order.len() ==> key_less(keys[k], keys[order[at]]),
    ensures
        place_of(order, keys, k) == at,
{
    place_of_bounds(order, keys, k);
}

proof fn key_less_transitive(a: (int, Seq<char>), b: (int, Seq<char>), c: (int, Seq<char>))
    requires
        key_less(a, b),
        key_less(b, c),
    ensures
        key_less(a, c),
{
    if a.0 == b.0 && b.0 == c.0 {
        text_less_transitive(a.1, b.1, c.1);
    }
}

/// A stable order lists every index once, keys ascend, and equal keys keep their order.
pub proof fn stable_order_laws(keys: Seq<(int, Seq<char>)>, count: nat)
    ensures
        stable_order(keys, count).len() == count,
        forall|i: int|
            0 <= i < count ==> 0 <= #[trigger] stable_order(keys, count)[i] < count,
        forall|k: int| 0 <= k < count ==> stable_order(keys, count).contains(k),
        forall|i: int, j: int|
            0 <= i < j < count ==> {
                let a = #[trigger] stable_order(keys, count)[i];
                let b = #[trigger] stable_order(keys, count)[j];
                a != b && !key_less(keys[b], keys[a]) && (key_less(keys[a], keys[b]) || a < b)
            },
    decreases count,
{
    if count > 0 {
        let n = (count - 1) as nat;
        stable_order_laws(keys, n);
        let order = stable_order(keys, n);
        let at = place_of(order, keys, n as int);
        place_of_bounds(order, keys, n as int);
        let next = stable_order(keys, count);
        assert(next == order.insert(at, n as int));
        assert forall|i: int| 0 <= i < count implies 0 <= #[trigger] next[i] < count by {
            if i < at {
                assert(next[i] == order[i]);
            } else if i > at {
                assert(next[i] == order[i - 1]);
            }
        }
        assert forall|k: int| 0 <= k < count implies next.contains(k) by {
            if k == n {
                assert(next[at] == k);
            } else {
                assert(order.contains(k));
                let i = choose|i: int| 0 <= i < order.len() && order[i] == k;
                if i < at {
                    assert(next[i] == k);
                } else {
                    assert(next[i + 1] == k);
                }
            }
        }
        assert forall|i: int, j: int| 0 <= i < j < count implies {
            let a = #[trigger] next[i];
            let b = #[trigger] next[j];
            a != b && !key_less(keys[b], keys[a]) && (key_less(keys[a], keys[b]) || a < b)
        } by {
            let p = if i < at { i } else { i - 1 };
            let q = if j < at { j } else { j - 1 };
            if i != at && j != at {
                assert(next[i] == order[p] && next[j] == order[q]);
            } else if i == at {
                assert(next[j] == order[q]);
                let b = order[q];
                let c = order[at];
                if q > at {
                    assert(!key_less(keys[b], keys[c]));
                    if key_less(keys[b], keys[n as int]) {
                        key_less_transitive(keys[b], keys[n as int], keys[c]);
                    }
                    text_less_total(keys[n as int].1, keys[b].1);
                    text_less_total(keys[c].1, keys[b].1);
                    if !key_less(keys[n as int], keys[b]) {
                        if keys[b] == keys[n as int] {
                            assert(key_less(keys[b], keys[c]));
                        } else {
                            assert(key_less(keys[b], keys[n as int]));
                        }
                    }
                }
                text_less_irreflexive(keys[n as int].1);
                if key_less(keys[b], keys[n as int]) && key_less(keys[n as int], keys[b]) {
                    key_less_transitive(keys[n as int], keys[b], keys[n as int]);
                }
            } else {
                assert(next[i] == order[p]);
                text_less_total(keys[order[p]].1, keys[n as int].1);
            }
        }
    }
}

fn before(a: &SortKey, b: &SortKey) -> (first: bool)
    ensures
        first == key_less(a@, b@),
{
    a.number < b.number || (a.number == b.number && less(a.text.as_str(), b.text.as_str()))
}

/// Indices of keys in stable ascending order.
pub fn sort_order(keys: &Vec<SortKey>) -> (order: Vec<usize>)
    ensures
        order@.len() == keys@.len(),
        forall|i: int| 0 <= i < order@.len() ==> order@[i] < keys@.len(),
        order@.map_values(|i: usize| i as int) == stable_order(key_views(keys@), keys@.len()),
{
    let ghost views = key_views(keys@);
    let mut order: Vec<usize> = Vec::new();
    assert(order@.map_values(|i: usize| i as int) =~= stable_order(views, 0));
    let mut n: usize = 0;
    while n < keys.len()
        invariant
            n <= keys.len(),
            views == key_views(keys@),
            order@.len() == n,
            forall|i: int| 0 <= i < order@.len() ==> order@[i] < n,
            order@.map_values(|i: usize| i as int) == stable_order(views, n as nat),
        decreases keys.len() - n,
    {
        let ghost indices = order@.map_values(|i: usize| i as int);
        let mut at: usize = 0;
        while at < order.len() && !before(&keys[n], &keys[order[at]])
            invariant
                n < keys.len(),
                at <= order.len(),
                order@.len() == n,
                views == key_views(keys@),
                indices == order@.map_values(|i: usize| i as int),
                forall|i: int| 0 <= i < order@.len() ==> order@[i] < n,
                forall|i: int| 0 <= i < at ==> !key_less(views[n as int], views[indices[i]]),
            decreases order.len() - at,
        {
            assert(indices[at as int] == order@[at as int]);
            at += 1;
        }
        proof {
            if at < order.len() {
                assert(indices[at as int] == order@[at as int]);
            }
            place_of_unique(indices, views, n as int, at as int);
        }
        order.insert(at, n);
        assert(order@.map_values(|i: usize| i as int) =~= indices.insert(at as int, n as int));
        n += 1;
    }
    order
}

/// A sorted order names every place once, puts no greater key before a lesser one, and keeps equal
/// keys as they came.
pub proof fn orders_are_sorted_and_stable(keys: Vec<SortKey>, order: Vec<usize>)
    requires
        call_ensures(sort_order, (&keys,), order),
    ensures
        order@.len() == keys@.len(),
        forall|i: int, j: int|
            0 <= i < j < order@.len() ==> {
                let a = keys@[#[trigger] order@[i] as int];
                let b = keys@[#[trigger] order@[j] as int];
                &&& order@[i] != order@[j]
                &&& a.number <= b.number
                &&& a.number == b.number ==> !text_less(b.text@, a.text@)
                &&& a.number == b.number && a.text@ == b.text@ ==> order@[i] < order@[j]
            },
{
    let views = key_views(keys@);
    let places = order@.map_values(|i: usize| i as int);
    stable_order_laws(views, keys@.len());
    assert forall|i: int, j: int| 0 <= i < j < order@.len() implies {
        let a = keys@[#[trigger] order@[i] as int];
        let b = keys@[#[trigger] order@[j] as int];
        &&& order@[i] != order@[j]
        &&& a.number <= b.number
        &&& a.number == b.number ==> !text_less(b.text@, a.text@)
        &&& a.number == b.number && a.text@ == b.text@ ==> order@[i] < order@[j]
    } by {
        assert(places[i] == order@[i] as int && places[j] == order@[j] as int);
        let a = stable_order(views, keys@.len())[i];
        let b = stable_order(views, keys@.len())[j];
        assert(views[a] == keys@[a]@ && views[b] == keys@[b]@);
        text_less_irreflexive(keys@[a].text@);
    }
}

} // verus!
