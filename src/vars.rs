//! Named string variables: a finite map from names to text, kept as a list of
//! entries with distinct names in order of first insertion.

use vstd::prelude::*;
use crate::text::{chars_of, matches_at};

verus! {

/// The map that a list of entries denotes; a later entry for a name wins.
pub open spec fn map_of(e: Seq<(String, String)>) -> Map<Seq<char>, Seq<char>>
    decreases e.len(),
{
    if e.len() == 0 {
        Map::empty()
    } else {
        map_of(e.drop_last()).insert(e.last().0@, e.last().1@)
    }
}

pub open spec fn keys_distinct(e: Seq<(String, String)>) -> bool {
    forall|i: int, j: int| 0 <= i < j < e.len() ==> e[i].0@ != e[j].0@
}

/// Merge rule of generation deltas: names of either side are kept, and where
/// both sides hold a name the texts are concatenated, never overwritten.
pub open spec fn merge_vars(a: Map<Seq<char>, Seq<char>>, b: Map<Seq<char>, Seq<char>>) -> Map<
    Seq<char>,
    Seq<char>,
> {
    Map::new(
        |k: Seq<char>| a.contains_key(k) || b.contains_key(k),
        |k: Seq<char>|
            if a.contains_key(k) && b.contains_key(k) {
                a[k] + b[k]
            } else if b.contains_key(k) {
                b[k]
            } else {
                a[k]
            },
    )
}

/// The text that `v` holds under `k`, empty when it holds none.
pub open spec fn value_or_empty(v: Map<Seq<char>, Seq<char>>, k: Seq<char>) -> Seq<char> {
    if v.contains_key(k) {
        v[k]
    } else {
        Seq::empty()
    }
}

/// Under any name, the merge holds the first side's text followed by the second's.
pub proof fn lemma_merge_value(a: Map<Seq<char>, Seq<char>>, b: Map<Seq<char>, Seq<char>>, k: Seq<char>)
    ensures
        value_or_empty(merge_vars(a, b), k) == value_or_empty(a, k) + value_or_empty(b, k),
{
    if !a.contains_key(k) {
        assert(Seq::<char>::empty() + value_or_empty(b, k) =~= value_or_empty(b, k));
    } else if !b.contains_key(k) {
        assert(value_or_empty(a, k) + Seq::<char>::empty() =~= value_or_empty(a, k));
    }
}

/// The result of merging each of `ds`, in order, into an empty map.
pub open spec fn merge_all(ds: Seq<Map<Seq<char>, Seq<char>>>) -> Map<Seq<char>, Seq<char>>
    decreases ds.len(),
{
    if ds.len() == 0 {
        Map::empty()
    } else {
        merge_vars(merge_all(ds.drop_last()), ds.last())
    }
}

/// The concatenation, in order, of what each of `ds` holds under `k`.
pub open spec fn concat_values(ds: Seq<Map<Seq<char>, Seq<char>>>, k: Seq<char>) -> Seq<char>
    decreases ds.len(),
{
    if ds.len() == 0 {
        Seq::empty()
    } else {
        concat_values(ds.drop_last(), k) + value_or_empty(ds.last(), k)
    }
}

/// Merging a sequence of deltas only ever appends: a name is present exactly
/// when some delta carried it, and its text is the concatenation, in order, of
/// the texts that the deltas carried for it.
pub proof fn lemma_merge_all_appends(ds: Seq<Map<Seq<char>, Seq<char>>>, k: Seq<char>)
    ensures
        merge_all(ds).contains_key(k) <==> exists|i: int| 0 <= i < ds.len() && #[trigger] ds[i].contains_key(k),
        merge_all(ds).contains_key(k) ==> merge_all(ds)[k] == concat_values(ds, k),
    decreases ds.len(),
{
    if ds.len() > 0 {
        let init = ds.drop_last();
        lemma_merge_all_appends(init, k);
        assert forall|i: int| 0 <= i < init.len() implies init[i] == ds[i] by {}
        if merge_all(init).contains_key(k) {
            let i = choose|i: int| 0 <= i < init.len() && #[trigger] init[i].contains_key(k);
            assert(ds[i].contains_key(k));
        }
        if exists|i: int| 0 <= i < ds.len() && #[trigger] ds[i].contains_key(k) {
            let i = choose|i: int| 0 <= i < ds.len() && #[trigger] ds[i].contains_key(k);
            if i < ds.len() - 1 {
                assert(init[i].contains_key(k));
            }
        }
        if !merge_all(init).contains_key(k) {
            assert(concat_values(init, k) =~= Seq::empty()) by {
                lemma_concat_absent(init, k);
            }
            assert(concat_values(ds, k) =~= value_or_empty(ds.last(), k));
        }
    }
}

proof fn lemma_concat_absent(ds: Seq<Map<Seq<char>, Seq<char>>>, k: Seq<char>)
    requires
        forall|i: int| 0 <= i < ds.len() ==> !(#[trigger] ds[i].contains_key(k)),
    ensures
        concat_values(ds, k) == Seq::<char>::empty(),
    decreases ds.len(),
{
    if ds.len() > 0 {
        let init = ds.drop_last();
        assert forall|i: int| 0 <= i < init.len() implies !(#[trigger] init[i].contains_key(k)) by {
            assert(init[i] == ds[i]);
        }
        lemma_concat_absent(init, k);
        assert(!ds[ds.len() - 1].contains_key(k));
        assert(concat_values(ds, k) =~= Seq::empty());
    }
}

proof fn lemma_map_of_contains(e: Seq<(String, String)>, k: Seq<char>)
    ensures
        map_of(e).contains_key(k) <==> exists|i: int| 0 <= i < e.len() && (#[trigger] e[i]).0@ == k,
    decreases e.len(),
{
    if e.len() > 0 {
        let init = e.drop_last();
        lemma_map_of_contains(init, k);
        if exists|i: int| 0 <= i < e.len() && (#[trigger] e[i]).0@ == k {
            let i = choose|i: int| 0 <= i < e.len() && (#[trigger] e[i]).0@ == k;
            if i < e.len() - 1 {
                assert(init[i] == e[i]);
            }
        }
        if map_of(init).contains_key(k) {
            let i = choose|i: int| 0 <= i < init.len() && (#[trigger] init[i]).0@ == k;
            assert(e[i] == init[i]);
        }
    }
}

proof fn lemma_map_of_index(e: Seq<(String, String)>, i: int)
    requires
        keys_distinct(e),
        0 <= i < e.len(),
    ensures
        map_of(e).contains_key(e[i].0@),
        map_of(e)[e[i].0@] == e[i].1@,
    decreases e.len(),
{
    let init = e.drop_last();
    if i < e.len() - 1 {
        assert(init[i] == e[i]);
        lemma_map_of_index(init, i);
        assert(e[i].0@ != e.last().0@);
    }
}

proof fn lemma_map_of_update(e: Seq<(String, String)>, i: int, v: String)
    requires
        keys_distinct(e),
        0 <= i < e.len(),
    ensures
        map_of(e.update(i, (e[i].0, v))) == map_of(e).insert(e[i].0@, v@),
        keys_distinct(e.update(i, (e[i].0, v))),
    decreases e.len(),
{
    let e2 = e.update(i, (e[i].0, v));
    let init = e.drop_last();
    if i == e.len() - 1 {
        assert(e2.drop_last() =~= init);
        assert(map_of(e2) =~= map_of(e).insert(e[i].0@, v@));
    } else {
        assert(e2.drop_last() =~= init.update(i, (init[i].0, v)));
        lemma_map_of_update(init, i, v);
        assert(e[i].0@ != e.last().0@);
        assert(map_of(e2) =~= map_of(e).insert(e[i].0@, v@));
    }
}

/// Named string variables, with distinct names.
#[derive(Debug)]
pub struct Variables {
    entries: Vec<(String, String)>,
}

impl View for Variables {
    type V = Map<Seq<char>, Seq<char>>;

    closed spec fn view(&self) -> Map<Seq<char>, Seq<char>> {
        map_of(self.entries@)
    }
}

impl Variables {
    pub closed spec fn wf(&self) -> bool {
        keys_distinct(self.entries@)
    }

    pub fn new() -> (r: Variables)
        ensures
            r.wf(),
            r@ == Map::<Seq<char>, Seq<char>>::empty(),
    {
        Variables { entries: Vec::new() }
    }

    /// Position of the entry named `key`, if any.
    fn position(&self, key: &str) -> (r: Option<usize>)
        requires
            self.wf(),
        ensures
            match r {
                Some(i) => i < self.entries.len() && self.entries@[i as int].0@ == key@,
                None => !self@.contains_key(key@),
            },
    {
        let k = chars_of(key);
        let mut i: usize = 0;
        while i < self.entries.len()
            invariant
                i <= self.entries.len(),
                k@ == key@,
                forall|j: int| 0 <= j < i ==> (#[trigger] self.entries@[j]).0@ != key@,
            decreases self.entries.len() - i,
        {
            let name = chars_of(self.entries[i].0.as_str());
            if name.len() == k.len() && matches_at(&name, &k, 0) {
                assert(name@.subrange(0, k.len() as int) =~= name@);
                return Some(i);
            }
            proof {
                if name@ == k@ {
                    assert(name@.subrange(0, k.len() as int) =~= name@);
                }
            }
            i = i + 1;
        }
        proof {
            lemma_map_of_contains(self.entries@, key@);
        }
        None
    }

    /// The text held under `key`.
    pub fn get(&self, key: &str) -> (r: Option<&String>)
        requires
            self.wf(),
        ensures
            match r {
                Some(v) => self@.contains_key(key@) && self@[key@] == v@,
                None => !self@.contains_key(key@),
            },
    {
        match self.position(key) {
            Some(i) => {
                proof {
                    lemma_map_of_index(self.entries@, i as int);
                }
                Some(&self.entries[i].1)
            },
            None => None,
        }
    }

    /// Sets `key` to `value`, replacing what it held.
    pub fn insert(&mut self, key: String, value: String)
        requires
            old(self).wf(),
        ensures
            final(self).wf(),
            final(self)@ == old(self)@.insert(key@, value@),
    {
        match self.position(key.as_str()) {
            Some(i) => {
                proof {
                    lemma_map_of_update(self.entries@, i as int, value);
                }
                let name = self.entries[i].0.clone();
                self.entries.set(i, (name, value));
                assert(self.entries@ =~= old(self).entries@.update(
                    i as int,
                    (old(self).entries@[i as int].0, value),
                ));
            },
            None => {
                proof {
                    lemma_map_of_contains(self.entries@, key@);
                }
                let ghost k = key@;
                self.entries.push((key, value));
                assert(self.entries@.drop_last() =~= old(self).entries@);
                assert(keys_distinct(self.entries@));
                assert(self@ == old(self)@.insert(k, value@));
            },
        }
    }

    /// Appends `value` to the text held under `key`; a new name starts from `value`.
    pub fn append(&mut self, key: &str, value: &str)
        requires
            old(self).wf(),
        ensures
            final(self).wf(),
            final(self)@ == old(self)@.insert(key@, value_or_empty(old(self)@, key@) + value@),
    {
        match self.position(key) {
            Some(i) => {
                proof {
                    lemma_map_of_index(self.entries@, i as int);
                }
                let name = self.entries[i].0.clone();
                let mut text = self.entries[i].1.clone();
                text.append(value);
                proof {
                    lemma_map_of_update(self.entries@, i as int, text);
                }
                self.entries.set(i, (name, text));
                assert(self.entries@ =~= old(self).entries@.update(
                    i as int,
                    (old(self).entries@[i as int].0, text),
                ));
            },
            None => {
                proof {
                    lemma_map_of_contains(self.entries@, key@);
                }
                let name = key.to_owned();
                let text = value.to_owned();
                self.entries.push((name, text));
                assert(self.entries@.drop_last() =~= old(self).entries@);
                assert(keys_distinct(self.entries@));
                assert(value_or_empty(old(self)@, key@) + value@ =~= value@);
            },
        }
    }

    /// Merges `delta` into `self` by the append-only rule.
    pub fn merge(&mut self, delta: &Variables)
        requires
            old(self).wf(),
            delta.wf(),
        ensures
            final(self).wf(),
            final(self)@ == merge_vars(old(self)@, delta@),
    {
        let mut i: usize = 0;
        assert(merge_vars(old(self)@, map_of(delta.entries@.take(0))) =~= old(self)@);
        while i < delta.entries.len()
            invariant
                i <= delta.entries.len(),
                self.wf(),
                delta.wf(),
                self@ == merge_vars(old(self)@, map_of(delta.entries@.take(i as int))),
            decreases delta.entries.len() - i,
        {
            let ghost before = map_of(delta.entries@.take(i as int));
            let ghost pre = self@;
            let ghost k = delta.entries@[i as int].0@;
            let ghost v = delta.entries@[i as int].1@;
            proof {
                lemma_map_of_contains(delta.entries@.take(i as int), k);
                assert(delta.entries@.take(i as int + 1).drop_last() =~= delta.entries@.take(i as int));
            }
            self.append(delta.entries[i].0.as_str(), delta.entries[i].1.as_str());
            assert(!before.contains_key(k));
            assert(self@ =~= merge_vars(old(self)@, before.insert(k, v)));
            i = i + 1;
        }
        assert(delta.entries@.take(i as int) =~= delta.entries@);
    }

    /// The entries, each name once.
    pub fn pairs(&self) -> (r: Vec<(String, String)>)
        requires
            self.wf(),
        ensures
            forall|i: int| 0 <= i < r.len() ==> self@.contains_key((#[trigger] r@[i]).0@) && self@[r@[i].0@] == r@[i].1@,
            forall|k: Seq<char>| self@.contains_key(k) ==> exists|i: int| 0 <= i < r.len() && (#[trigger] r@[i]).0@ == k,
            keys_distinct(r@),
    {
        let mut r: Vec<(String, String)> = Vec::new();
        let mut i: usize = 0;
        while i < self.entries.len()
            invariant
                i <= self.entries.len(),
                r@ =~= self.entries@.take(i as int),
            decreases self.entries.len() - i,
        {
            let k = self.entries[i].0.clone();
            let v = self.entries[i].1.clone();
            r.push((k, v));
            i = i + 1;
        }
        assert(r@ =~= self.entries@);
        proof {
            assert forall|i: int| 0 <= i < r.len() implies self@.contains_key((#[trigger] r@[i]).0@) && self@[r@[i].0@] == r@[i].1@ by {
                lemma_map_of_index(self.entries@, i);
            }
            assert forall|k: Seq<char>| self@.contains_key(k) implies exists|i: int| 0 <= i < r.len() && (#[trigger] r@[i]).0@ == k by {
                lemma_map_of_contains(self.entries@, k);
            }
        }
        r
    }
}

} // verus!
