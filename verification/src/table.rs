//! A small map from texts to values.

use vstd::prelude::*;

use crate::text;

verus! {

/// Entries with distinct keys, in the order in which they were added.
#[derive(Debug)]
pub struct Table<V> {
    entries: Vec<(String, V)>,
}

/// Whether entry `i` has the key `key`.
pub open spec fn key_at<V>(entries: Seq<(String, V)>, key: Seq<char>, i: int) -> bool {
    0 <= i < entries.len() && entries[i].0@ == key
}

/// Whether no key occurs twice.
pub open spec fn distinct<V>(entries: Seq<(String, V)>) -> bool {
    forall|i: int, j: int|
        0 <= i < j < entries.len() ==> #[trigger] entries[i].0@ != #[trigger] entries[j].0@
}

/// The map that the entries stand for.
pub open spec fn as_map<V>(entries: Seq<(String, V)>) -> Map<Seq<char>, V> {
    Map::new(
        |key: Seq<char>| exists|i: int| key_at(entries, key, i),
        |key: Seq<char>| entries[choose|i: int| key_at(entries, key, i)].1,
    )
}

proof fn lemma_entry<V>(entries: Seq<(String, V)>, i: int)
    requires
        distinct(entries),
        0 <= i < entries.len(),
    ensures
        as_map(entries).contains_key(entries[i].0@),
        as_map(entries)[entries[i].0@] == entries[i].1,
{
    let key = entries[i].0@;
    assert(key_at(entries, key, i));
    let found = choose|j: int| key_at(entries, key, j);
    assert(key_at(entries, key, found));
    assert(found == i);
}

/// Distinct keys are as many as the map has.
proof fn lemma_size<V>(entries: Seq<(String, V)>)
    requires
        distinct(entries),
    ensures
        as_map(entries).dom().finite(),
        as_map(entries).dom().len() == entries.len(),
{
    let keys = Seq::new(entries.len(), |i: int| entries[i].0@);
    assert(keys.no_duplicates()) by {
        assert forall|i: int, j: int| 0 <= i < j < keys.len() implies keys[i] != keys[j] by {
            assert(entries[i].0@ != entries[j].0@);
        }
    }
    keys.unique_seq_to_set();
    vstd::seq_lib::seq_to_set_is_finite(keys);
    assert forall|key: Seq<char>| #[trigger] as_map(entries).dom().contains(key)
        <==> keys.to_set().contains(key) by {
        if as_map(entries).dom().contains(key) {
            let i = choose|i: int| key_at(entries, key, i);
            assert(key_at(entries, key, i));
            assert(keys[i] == key);
        }
        if keys.to_set().contains(key) {
            let i = choose|i: int| 0 <= i < keys.len() && keys[i] == key;
            assert(key_at(entries, key, i));
        }
    }
    assert(as_map(entries).dom() =~= keys.to_set());
}

impl<V> Table<V> {
    /// What every operation keeps: the keys are distinct.
    pub closed spec fn wf(self) -> bool {
        distinct(self.entries@)
    }

    pub closed spec fn view(self) -> Map<Seq<char>, V> {
        as_map(self.entries@)
    }

    /// How many entries there are.
    pub closed spec fn count(self) -> nat {
        self.entries@.len()
    }

    /// There are as many entries as the map has keys.
    pub proof fn count_is_size(self)
        requires
            self.wf(),
        ensures
            self.view().dom().finite(),
            self.count() == self.view().dom().len(),
    {
        lemma_size(self.entries@);
    }

    /// The table without entries.
    pub fn new() -> (r: Self)
        ensures
            r.wf(),
            r.count() == 0,
            r.view() == Map::<Seq<char>, V>::empty(),
    {
        let r = Table { entries: Vec::new() };
        assert(r.view() =~= Map::<Seq<char>, V>::empty());
        r
    }

    /// Where the key stands among the entries.
    fn position(&self, key: &str) -> (r: Option<usize>)
        ensures
            match r {
                Some(i) => key_at(self.entries@, key@, i as int),
                None => !self.view().contains_key(key@),
            },
    {
        let mut i: usize = 0;
        while i < self.entries.len()
            invariant
                i <= self.entries@.len(),
                forall|j: int| 0 <= j < i ==> !key_at(self.entries@, key@, j),
            decreases self.entries@.len() - i,
        {
            if text::same(self.entries[i].0.as_str(), key) {
                return Some(i);
            }
            i += 1;
        }
        None
    }

    /// The number of entries.
    pub fn len(&self) -> (r: usize)
        ensures
            r == self.count(),
    {
        self.entries.len()
    }

    /// The value under the key, if there is one.
    pub fn get(&self, key: &str) -> (r: Option<&V>)
        requires
            self.wf(),
        ensures
            match r {
                Some(value) => self.view().contains_key(key@) && *value == self.view()[key@],
                None => !self.view().contains_key(key@),
            },
    {
        match self.position(key) {
            Some(i) => {
                proof {
                    lemma_entry(self.entries@, i as int);
                }
                Some(&self.entries[i].1)
            },
            None => None,
        }
    }

    /// Takes the entry with the key out, if there is one, and hands out its value.
    pub fn remove(&mut self, key: &str) -> (r: Option<V>)
        requires
            old(self).wf(),
        ensures
            final(self).wf(),
            final(self).view() == old(self).view().remove(key@),
            final(self).count() == old(self).count() - if r is Some {
                1int
            } else {
                0int
            },
            match r {
                Some(value) => old(self).view().contains_key(key@) && value == old(
                    self,
                ).view()[key@],
                None => !old(self).view().contains_key(key@),
            },
    {
        match self.position(key) {
            Some(i) => {
                let ghost before = self.entries@;
                let entry = self.entries.remove(i);
                proof {
                    let after = self.entries@;
                    lemma_entry(before, i as int);
                    assert(after == before.remove(i as int));
                    assert forall|a: int, b: int| 0 <= a < b < after.len() implies
                        #[trigger] after[a].0@ != #[trigger] after[b].0@ by {
                        let x = if a < i { a } else { a + 1 };
                        let y = if b < i { b } else { b + 1 };
                        assert(before[x].0@ != before[y].0@);
                    }
                    let wanted = as_map(before).remove(key@);
                    assert forall|k: Seq<char>| #[trigger]
                        as_map(after).contains_key(k) == wanted.contains_key(k) && (as_map(
                            after,
                        ).contains_key(k) ==> as_map(after)[k] == wanted[k]) by {
                        if as_map(after).contains_key(k) {
                            let a = choose|a: int| key_at(after, k, a);
                            assert(key_at(after, k, a));
                            let x = if a < i { a } else { a + 1 };
                            assert(before[x] == after[a]);
                            assert(key_at(before, k, x));
                            lemma_entry(before, x);
                            lemma_entry(after, a);
                        }
                        if wanted.contains_key(k) {
                            let x = choose|x: int| key_at(before, k, x);
                            assert(key_at(before, k, x));
                            let a = if x < i { x } else { x - 1 };
                            assert(after[a] == before[x]);
                            assert(key_at(after, k, a));
                        }
                    }
                    assert(as_map(after) =~= wanted);
                }
                Some(entry.1)
            },
            None => {
                assert(self.view() =~= self.view().remove(key@));
                None
            },
        }
    }

    /// Puts the value under the key, in place of what was there.
    pub fn insert(&mut self, key: &str, value: V)
        requires
            old(self).wf(),
        ensures
            final(self).wf(),
            final(self).view() == old(self).view().insert(key@, value),
            final(self).count() == old(self).count() + if old(self).view().contains_key(key@) {
                0int
            } else {
                1int
            },
    {
        let removed = self.remove(key);
        let ghost before = self.entries@;
        self.entries.push((key.to_owned(), value));
        proof {
            let after = self.entries@;
            let n = before.len() as int;
            assert forall|a: int, b: int| 0 <= a < b < after.len() implies
                #[trigger] after[a].0@ != #[trigger] after[b].0@ by {
                if b == n {
                    lemma_entry(before, a);
                }
            }
            let wanted = as_map(before).insert(key@, value);
            assert forall|k: Seq<char>| #[trigger]
                as_map(after).contains_key(k) == wanted.contains_key(k) && (as_map(
                    after,
                ).contains_key(k) ==> as_map(after)[k] == wanted[k]) by {
                if as_map(after).contains_key(k) {
                    let a = choose|a: int| key_at(after, k, a);
                    assert(key_at(after, k, a));
                    lemma_entry(after, a);
                    if a < n {
                        assert(before[a] == after[a]);
                        lemma_entry(before, a);
                    }
                }
                if wanted.contains_key(k) {
                    if k == key@ {
                        assert(key_at(after, k, n));
                    } else {
                        let x = choose|x: int| key_at(before, k, x);
                        assert(key_at(before, k, x));
                        assert(key_at(after, k, x));
                    }
                }
            }
            assert(as_map(after) =~= wanted);
            assert(wanted =~= old(self).view().insert(key@, value));
        }
    }
}

impl Table<u64> {
    /// Keeps the entries whose value is at least `least`.
    pub fn retain_from(&mut self, least: u64)
        requires
            old(self).wf(),
        ensures
            final(self).wf(),
            final(self).count() <= old(self).count(),
            forall|k: Seq<char>| #[trigger]
                final(self).view().contains_key(k) <==> old(self).view().contains_key(k) && old(
                    self,
                ).view()[k] >= least,
            forall|k: Seq<char>| #[trigger]
                final(self).view().contains_key(k) ==> final(self).view()[k] == old(
                    self,
                ).view()[k],
    {
        let ghost before = self.entries@;
        let mut kept: Vec<(String, u64)> = Vec::new();
        let mut i: usize = 0;
        let ghost mut origin: Seq<int> = Seq::empty();
        while i < self.entries.len()
            invariant
                self.entries@ == before,
                i <= before.len(),
                kept@.len() <= i,
                origin.len() == kept@.len(),
                forall|a: int|
                    0 <= a < kept@.len() ==> 0 <= #[trigger] origin[a] < i && kept@[a].0@
                        == before[origin[a]].0@ && kept@[a].1 == before[origin[a]].1
                        && before[origin[a]].1 >= least,
                forall|a: int, b: int|
                    0 <= a < b < kept@.len() ==> #[trigger] origin[a] < #[trigger] origin[b],
                forall|x: int|
                    0 <= x < i && #[trigger] before[x].1 >= least ==> exists|a: int|
                        0 <= a < origin.len() && #[trigger] origin[a] == x,
            decreases before.len() - i,
        {
            if self.entries[i].1 >= least {
                let ghost previous = origin;
                kept.push((self.entries[i].0.clone(), self.entries[i].1));
                proof {
                    origin = previous.push(i as int);
                    assert forall|x: int| 0 <= x < i + 1 && #[trigger] before[x].1 >= least implies
                        exists|a: int| 0 <= a < origin.len() && #[trigger] origin[a] == x by {
                        if x < i {
                            let a = choose|a: int| 0 <= a < previous.len() && #[trigger] previous[a] == x;
                            assert(origin[a] == x);
                        } else {
                            assert(origin[previous.len() as int] == x);
                        }
                    }
                }
            }
            i += 1;
        }
        self.entries = kept;
        proof {
            let after = self.entries@;
            assert forall|a: int, b: int| 0 <= a < b < after.len() implies
                #[trigger] after[a].0@ != #[trigger] after[b].0@ by {
                assert(origin[a] < origin[b]);
                assert(before[origin[a]].0@ != before[origin[b]].0@);
            }
            assert forall|k: Seq<char>| #[trigger]
                as_map(after).contains_key(k) <==> as_map(before).contains_key(k) && as_map(
                    before,
                )[k] >= least by {
                if as_map(after).contains_key(k) {
                    let a = choose|a: int| key_at(after, k, a);
                    assert(key_at(after, k, a));
                    assert(key_at(before, k, origin[a]));
                    lemma_entry(before, origin[a]);
                }
                if as_map(before).contains_key(k) && as_map(before)[k] >= least {
                    let x = choose|x: int| key_at(before, k, x);
                    assert(key_at(before, k, x));
                    lemma_entry(before, x);
                    assert(before[x].1 >= least);
                    let a = choose|a: int| 0 <= a < origin.len() && #[trigger] origin[a] == x;
                    assert(key_at(after, k, a));
                }
            }
            assert forall|k: Seq<char>| #[trigger] as_map(after).contains_key(k) implies as_map(
                after,
            )[k] == as_map(before)[k] by {
                let a = choose|a: int| key_at(after, k, a);
                assert(key_at(after, k, a));
                lemma_entry(after, a);
                assert(key_at(before, k, origin[a]));
                lemma_entry(before, origin[a]);
            }
        }
    }
}

/// What was put under a key is found there; every other key holds what it held.
pub proof fn what_was_put_is_found<V>(
    table: &mut Table<V>,
    key: &str,
    other: &str,
    value: V,
    before: Option<&V>,
    found: Option<&V>,
    elsewhere: Option<&V>,
)
    requires
        old(table).wf(),
        call_ensures(Table::<V>::get, (&*old(table), other), before),
        call_ensures(Table::<V>::insert, (table, key, value), ()),
        call_ensures(Table::<V>::get, (&*final(table), key), found),
        call_ensures(Table::<V>::get, (&*final(table), other), elsewhere),
    ensures
        found is Some && *found->0 == value,
        other@ != key@ ==> (elsewhere is Some <==> before is Some),
        other@ != key@ && before is Some ==> *elsewhere->0 == *before->0,
{
}

/// What was taken out is not found any more; every other key holds what it held.
pub proof fn what_was_taken_is_gone<V>(
    table: &mut Table<V>,
    key: &str,
    other: &str,
    held: Option<&V>,
    before: Option<&V>,
    taken: Option<V>,
    found: Option<&V>,
    elsewhere: Option<&V>,
)
    requires
        old(table).wf(),
        call_ensures(Table::<V>::get, (&*old(table), key), held),
        call_ensures(Table::<V>::get, (&*old(table), other), before),
        call_ensures(Table::<V>::remove, (table, key), taken),
        call_ensures(Table::<V>::get, (&*final(table), key), found),
        call_ensures(Table::<V>::get, (&*final(table), other), elsewhere),
    ensures
        found is None,
        taken is Some <==> held is Some,
        taken is Some ==> taken->0 == *held->0,
        other@ != key@ ==> (elsewhere is Some <==> before is Some),
        other@ != key@ && before is Some ==> *elsewhere->0 == *before->0,
{
}

/// A table has as many entries as keys: a new key adds one, a known one none.
pub proof fn entries_are_counted<V>(
    table: &mut Table<V>,
    key: &str,
    value: V,
    held: Option<&V>,
    before: usize,
    after: usize,
)
    requires
        old(table).wf(),
        call_ensures(Table::<V>::get, (&*old(table), key), held),
        call_ensures(Table::<V>::len, (&*old(table),), before),
        call_ensures(Table::<V>::insert, (table, key, value), ()),
        call_ensures(Table::<V>::len, (&*final(table),), after),
    ensures
        held is Some ==> after == before,
        held is None ==> after == before + 1,
{
}

/// Exactly the entries whose value is not too small are kept, as they are.
pub proof fn small_entries_go(
    table: &mut Table<u64>,
    least: u64,
    key: &str,
    held: Option<&u64>,
    found: Option<&u64>,
)
    requires
        old(table).wf(),
        call_ensures(Table::<u64>::get, (&*old(table), key), held),
        call_ensures(Table::<u64>::retain_from, (table, least), ()),
        call_ensures(Table::<u64>::get, (&*final(table), key), found),
    ensures
        found is Some <==> held is Some && *held->0 >= least,
        found is Some ==> *found->0 == *held->0,
{
}

} // verus!
