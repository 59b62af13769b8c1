//! A map from texts to values, kept in the order of its keys.

use crate::text::{less, same, text_less, text_less_irreflexive, text_less_total, text_less_transitive};
use vstd::prelude::*;

verus! {

/// Values under distinct texts, ordered by text.
#[derive(Clone)]
pub struct TextMap<V> {
    pub entries: Vec<(String, V)>,
}

/// Whether entries are in strict key order.
pub open spec fn key_ordered<V>(entries: Seq<(String, V)>) -> bool {
    forall|i: int, j: int|
        0 <= i < j < entries.len() ==> text_less(#[trigger] entries[i].0@, #[trigger] entries[j].0@)
}

/// Whether some entry has this key.
pub open spec fn has_key<V>(entries: Seq<(String, V)>, key: Seq<char>) -> bool {
    exists|i: int| 0 <= i < entries.len() && (#[trigger] entries[i]).0@ == key
}

/// Position of an entry with this key.
pub open spec fn key_index<V>(entries: Seq<(String, V)>, key: Seq<char>) -> int {
    choose|i: int| 0 <= i < entries.len() && (#[trigger] entries[i]).0@ == key
}

/// The map that ordered entries stand for.
pub open spec fn entries_map<V>(entries: Seq<(String, V)>) -> Map<Seq<char>, V> {
    Map::new(
        |key: Seq<char>| has_key(entries, key),
        |key: Seq<char>| entries[key_index(entries, key)].1,
    )
}

/// In ordered entries a key has one position.
pub proof fn key_index_unique<V>(entries: Seq<(String, V)>, at: int)
    requires
        key_ordered(entries),
        0 <= at < entries.len(),
    ensures
        has_key(entries, entries[at].0@),
        key_index(entries, entries[at].0@) == at,
{
    let key = entries[at].0@;
    assert(entries[at].0@ == key);
    let found = key_index(entries, key);
    assert(0 <= found < entries.len() && entries[found].0@ == key);
    if found < at {
        assert(text_less(entries[found].0@, entries[at].0@));
        text_less_irreflexive(key);
    } else if found > at {
        assert(text_less(entries[at].0@, entries[found].0@));
        text_less_irreflexive(key);
    }
}

impl<V> View for TextMap<V> {
    type V = Map<Seq<char>, V>;

    open spec fn view(&self) -> Map<Seq<char>, V> {
        entries_map(self.entries@)
    }
}

impl<V> TextMap<V> {
    /// Whether the entries are ordered, so that no key occurs twice.
    pub open spec fn wf(&self) -> bool {
        key_ordered(self.entries@)
    }

    /// A map without entries.
    pub fn new() -> (map: TextMap<V>)
        ensures
            map.wf(),
            map.entries@.len() == 0,
            map@ == Map::<Seq<char>, V>::empty(),
    {
        let map = TextMap { entries: Vec::new() };
        assert(map@ =~= Map::<Seq<char>, V>::empty());
        map
    }

    /// Number of entries.
    pub fn len(&self) -> (count: usize)
        ensures
            count == self.entries@.len(),
    {
        self.entries.len()
    }

    /// First position whose key is not before `key`.
    fn position(&self, key: &str) -> (at: usize)
        requires
            self.wf(),
        ensures
            at <= self.entries@.len(),
            forall|i: int| 0 <= i < at ==> text_less(#[trigger] self.entries@[i].0@, key@),
            forall|i: int|
                at <= i < self.entries@.len() ==> !text_less(#[trigger] self.entries@[i].0@, key@),
    {
        let mut at: usize = 0;
        while at < self.entries.len() && less(self.entries[at].0.as_str(), key)
            invariant
                at <= self.entries@.len(),
                forall|i: int| 0 <= i < at ==> text_less(#[trigger] self.entries@[i].0@, key@),
            decreases self.entries@.len() - at,
        {
            at += 1;
        }
        proof {
            assert forall|i: int| at <= i < self.entries@.len() implies !text_less(
                #[trigger] self.entries@[i].0@,
                key@,
            ) by {
                if i > at && text_less(self.entries@[i].0@, key@) {
                    text_less_transitive(
                        self.entries@[at as int].0@,
                        self.entries@[i].0@,
                        key@,
                    );
                }
            }
        }
        at
    }

    /// Position of a key, if it is present.
    pub fn find(&self, key: &str) -> (found: Option<usize>)
        requires
            self.wf(),
        ensures
            match found {
                Some(at) => at < self.entries@.len() && self.entries@[at as int].0@ == key@
                    && self@.dom().contains(key@) && self@[key@] == self.entries@[at as int].1,
                None => !self@.dom().contains(key@),
            },
    {
        let at: usize = self.position(key);
        if at < self.entries.len() && same(self.entries[at].0.as_str(), key) {
            proof {
                key_index_unique(self.entries@, at as int);
            }
            Some(at)
        } else {
            proof {
                if has_key(self.entries@, key@) {
                    let i = key_index(self.entries@, key@);
                    text_less_irreflexive(key@);
                    if i > at {
                        assert(text_less(self.entries@[at as int].0@, self.entries@[i].0@));
                        assert(!text_less(self.entries@[at as int].0@, key@));
                    }
                }
            }
            None
        }
    }

    /// Whether a key is present.
    pub fn contains_key(&self, key: &str) -> (found: bool)
        requires
            self.wf(),
        ensures
            found == self@.dom().contains(key@),
    {
        self.find(key).is_some()
    }

    /// The value under a key.
    pub fn get(&self, key: &str) -> (value: Option<&V>)
        requires
            self.wf(),
        ensures
            match value {
                Some(v) => self@.dom().contains(key@) && self@[key@] == *v,
                None => !self@.dom().contains(key@),
            },
    {
        match self.find(key) {
            Some(at) => Some(&self.entries[at].1),
            None => None,
        }
    }

    /// Puts a value under a key, replacing what was there.
    pub fn insert(&mut self, key: String, value: V)
        requires
            old(self).wf(),
        ensures
            final(self).wf(),
            final(self)@ == old(self)@.insert(key@, value),
            final(self).entries@.len() == old(self).entries@.len() + if old(self)@.dom().contains(
                key@,
            ) {
                0int
            } else {
                1
            },
    {
        let ghost before = self.entries@;
        let ghost name = key@;
        let at: usize = self.position(key.as_str());
        if at < self.entries.len() && same(self.entries[at].0.as_str(), key.as_str()) {
            self.entries.set(at, (key, value));
            proof {
                let after = self.entries@;
                assert(before[at as int].0@ == name);
                key_index_unique(before, at as int);
                assert forall|i: int, j: int| 0 <= i < j < after.len() implies text_less(
                    #[trigger] after[i].0@,
                    #[trigger] after[j].0@,
                ) by {
                    assert(text_less(before[i].0@, before[j].0@));
                }
                insert_view(before, after, at as int, name, value);
            }
        } else {
            proof {
                assert(!has_key(before, name)) by {
                    if has_key(before, name) {
                        let i = key_index(before, name);
                        text_less_irreflexive(name);
                        if i > at {
                            assert(text_less(before[at as int].0@, before[i].0@));
                            assert(!text_less(before[at as int].0@, name));
                        }
                    }
                }
            }
            self.entries.insert(at, (key, value));
            proof {
                let after = self.entries@;
                assert(after == before.insert(at as int, after[at as int]));
                assert forall|i: int, j: int| 0 <= i < j < after.len() implies text_less(
                    #[trigger] after[i].0@,
                    #[trigger] after[j].0@,
                ) by {
                    let p = if i < at { i } else { i - 1 };
                    let q = if j < at { j } else { j - 1 };
                    if i == at {
                        assert(after[j] == before[q]);
                        assert(!text_less(before[q].0@, name));
                        text_less_total(before[q].0@, name);
                        assert(before[q].0@ != name);
                    } else if j == at {
                        assert(after[i] == before[p]);
                        assert(text_less(before[p].0@, name));
                    } else {
                        assert(after[i] == before[p] && after[j] == before[q]);
                        assert(text_less(before[p].0@, before[q].0@));
                    }
                }
                grow_view(before, after, at as int, name, value);
            }
        }
    }
}

proof fn insert_view<V>(
    before: Seq<(String, V)>,
    after: Seq<(String, V)>,
    at: int,
    name: Seq<char>,
    value: V,
)
    requires
        key_ordered(before),
        key_ordered(after),
        0 <= at < before.len(),
        before[at].0@ == name,
        after == before.update(at, after[at]),
        after[at].0@ == name,
        after[at].1 == value,
    ensures
        entries_map(after) == entries_map(before).insert(name, value),
{
    assert forall|key: Seq<char>| has_key(after, key) <==> (has_key(before, key) || key == name) by {
        if has_key(after, key) {
            let i = key_index(after, key);
            if i != at {
                assert(before[i].0@ == key);
            }
        }
        if has_key(before, key) {
            let i = key_index(before, key);
            if i != at {
                assert(after[i].0@ == key);
            } else {
                assert(after[at].0@ == key);
            }
        }
        if key == name {
            assert(after[at].0@ == key);
        }
    }
    assert forall|key: Seq<char>| has_key(after, key) implies entries_map(after)[key]
        == entries_map(before).insert(name, value)[key] by {
        let i = key_index(after, key);
        key_index_unique(after, i);
        if i == at {
            assert(key == name);
        } else {
            assert(before[i].0@ == key);
            key_index_unique(before, i);
            if key == name {
                key_index_unique(before, at);
            }
        }
    }
    assert(entries_map(after) =~= entries_map(before).insert(name, value));
}

proof fn grow_view<V>(
    before: Seq<(String, V)>,
    after: Seq<(String, V)>,
    at: int,
    name: Seq<char>,
    value: V,
)
    requires
        key_ordered(before),
        key_ordered(after),
        0 <= at <= before.len(),
        !has_key(before, name),
        after == before.insert(at, after[at]),
        after[at].0@ == name,
        after[at].1 == value,
    ensures
        entries_map(after) == entries_map(before).insert(name, value),
{
    assert forall|key: Seq<char>| has_key(after, key) <==> (has_key(before, key) || key == name) by {
        if has_key(after, key) {
            let i = key_index(after, key);
            if i < at {
                assert(before[i].0@ == key);
            } else if i > at {
                assert(before[i - 1].0@ == key);
            }
        }
        if has_key(before, key) {
            let i = key_index(before, key);
            if i < at {
                assert(after[i].0@ == key);
            } else {
                assert(after[i + 1].0@ == key);
            }
        }
        if key == name {
            assert(after[at].0@ == key);
        }
    }
    assert forall|key: Seq<char>| has_key(after, key) implies entries_map(after)[key]
        == entries_map(before).insert(name, value)[key] by {
        let i = key_index(after, key);
        key_index_unique(after, i);
        if i < at {
            assert(before[i].0@ == key);
            key_index_unique(before, i);
        } else if i > at {
            assert(before[i - 1].0@ == key);
            key_index_unique(before, i - 1);
        }
    }
    assert(entries_map(after) =~= entries_map(before).insert(name, value));
}

/// What is put under a key is found under it, every other key keeps what it had, and the entries stay
/// in the order of their keys.
pub proof fn put_values_are_found(map: &mut TextMap<u64>, key: String, value: u64, other: Seq<char>)
    requires
        old(map).wf(),
        call_ensures(TextMap::<u64>::insert, (map, key, value), ()),
    ensures
        final(map)@.dom().contains(key@) && final(map)@[key@] == value,
        other != key@ ==> (final(map)@.dom().contains(other) <==> old(map)@.dom().contains(other)),
        other != key@ && old(map)@.dom().contains(other) ==> final(map)@[other] == old(map)@[other],
        forall|i: int, j: int|
            0 <= i < j < final(map).entries@.len() ==> text_less(
                #[trigger] final(map).entries@[i].0@,
                #[trigger] final(map).entries@[j].0@,
            ),
{
}

/// A found place holds the key, and what is got is what stands there.
pub proof fn found_places_hold_the_key(map: TextMap<u64>, key: &str, place: Option<usize>, value: Option<&u64>, held: bool, count: usize)
    requires
        map.wf(),
        call_ensures(TextMap::<u64>::find, (&map, key), place),
        call_ensures(TextMap::<u64>::get, (&map, key), value),
        call_ensures(TextMap::<u64>::contains_key, (&map, key), held),
        call_ensures(TextMap::<u64>::len, (&map,), count),
    ensures
        place matches Some(at) ==> at < map.entries@.len() && map.entries@[at as int].0@ == key@ && value == Some(
            &map.entries@[at as int].1,
        ),
        place is None ==> value is None && forall|i: int|
            0 <= i < map.entries@.len() ==> (#[trigger] map.entries@[i]).0@ != key@,
        held <==> place is Some,
        count == map.entries@.len(),
{
    if place is None {
        assert forall|i: int| 0 <= i < map.entries@.len() implies (#[trigger] map.entries@[i]).0@ != key@ by {
            if map.entries@[i].0@ == key@ {
                assert(has_key(map.entries@, key@));
            }
        }
    }
}

} // verus!
