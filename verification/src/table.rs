//! A small mapping from names to values, kept in insertion order with every
//! name at most once.

use vstd::prelude::*;

verus! {

/// The value of the last pair of `pairs` whose name reads `key`.
pub open spec fn lookup<V>(pairs: Seq<(String, V)>, key: Seq<char>) -> Option<V>
    decreases pairs.len(),
{
    if pairs.len() == 0 {
        None
    } else if pairs.last().0@ == key {
        Some(pairs.last().1)
    } else {
        lookup(pairs.drop_last(), key)
    }
}

/// No two pairs of `pairs` have the same name.
pub open spec fn unique_names<V>(pairs: Seq<(String, V)>) -> bool {
    forall|i: int, j: int| 0 <= i < j < pairs.len() ==> pairs[i].0@ != pairs[j].0@
}

/// If no pair is named `key`, the lookup finds nothing.
proof fn lemma_lookup_absent<V>(pairs: Seq<(String, V)>, key: Seq<char>)
    requires
        forall|i: int| 0 <= i < pairs.len() ==> pairs[i].0@ != key,
    ensures
        lookup(pairs, key) is None,
    decreases pairs.len(),
{
    if pairs.len() > 0 {
        lemma_lookup_absent(pairs.drop_last(), key);
    }
}

/// With unique names, the lookup finds the pair that carries the name.
proof fn lemma_lookup_at<V>(pairs: Seq<(String, V)>, i: int)
    requires
        unique_names(pairs),
        0 <= i < pairs.len(),
    ensures
        lookup(pairs, pairs[i].0@) == Some(pairs[i].1),
    decreases pairs.len(),
{
    if i < pairs.len() - 1 {
        assert(pairs.last().0@ != pairs[i].0@);
        assert(pairs.drop_last()[i] == pairs[i]);
        lemma_lookup_at(pairs.drop_last(), i);
    }
}

/// Replacing the value at a name leaves every other name as it was.
proof fn lemma_lookup_update<V>(pairs: Seq<(String, V)>, i: int, pair: (String, V), key: Seq<char>)
    requires
        0 <= i < pairs.len(),
        pair.0@ == pairs[i].0@,
        key != pair.0@,
    ensures
        lookup(pairs.update(i, pair), key) == lookup(pairs, key),
    decreases pairs.len(),
{
    let changed = pairs.update(i, pair);
    if i < pairs.len() - 1 {
        assert(changed.drop_last() =~= pairs.drop_last().update(i, pair));
        assert(pairs.drop_last()[i] == pairs[i]);
        lemma_lookup_update(pairs.drop_last(), i, pair, key);
    } else {
        assert(changed.drop_last() =~= pairs.drop_last());
    }
}

/// A mapping from names to values.
#[derive(Debug)]
pub struct Table<V> {
    pairs: Vec<(String, V)>,
}

impl<V> Table<V> {
    #[verifier::type_invariant]
    spec fn well_formed(&self) -> bool {
        unique_names(self.pairs@)
    }

    /// The pairs in insertion order.
    pub closed spec fn pairs(&self) -> Seq<(String, V)> {
        self.pairs@
    }

    /// The position of `key`, if the table has it.
    fn position(&self, key: &String) -> (at: Option<usize>)
        ensures
            match at {
                Some(i) => i < self.pairs@.len() && self.pairs@[i as int].0@ == key@,
                None => forall|j: int| 0 <= j < self.pairs@.len() ==> self.pairs@[j].0@ != key@,
            },
    {
        let mut i: usize = 0;
        while i < self.pairs.len()
            invariant
                i <= self.pairs@.len(),
                forall|j: int| 0 <= j < i ==> self.pairs@[j].0@ != key@,
            decreases self.pairs@.len() - i,
        {
            if self.pairs[i].0 == *key {
                return Some(i);
            }
            i = i + 1;
        }
        None
    }
}

impl<V: View> Table<V> {
    /// The mapping the table stands for.
    pub closed spec fn view(&self) -> Map<Seq<char>, V::V> {
        Map::new(
            |key: Seq<char>| lookup(self.pairs@, key) is Some,
            |key: Seq<char>| lookup(self.pairs@, key).unwrap()@,
        )
    }

    /// The number of names. The mapping has a name exactly if it stands at
    /// one of the positions below that number.
    pub fn len(&self) -> (n: usize)
        ensures
            n == self.pairs().len(),
            forall|key: Seq<char>|
                self@.contains_key(key) <==> exists|i: int|
                    0 <= i < n && #[trigger] self.pairs()[i].0@ == key,
    {
        proof {
            use_type_invariant(self);
            assert forall|key: Seq<char>|
                self@.contains_key(key) <==> exists|i: int|
                    0 <= i < self.pairs@.len() && #[trigger] self.pairs@[i].0@ == key by {
                if exists|i: int| 0 <= i < self.pairs@.len() && #[trigger] self.pairs@[i].0@ == key {
                    let i = choose|i: int|
                        0 <= i < self.pairs@.len() && #[trigger] self.pairs@[i].0@ == key;
                    lemma_lookup_at(self.pairs@, i);
                } else {
                    lemma_lookup_absent(self.pairs@, key);
                }
            }
        }
        self.pairs.len()
    }

    /// The name at position `i` of the insertion order. It stands at no
    /// other position, and the mapping has it.
    pub fn name_at(&self, i: usize) -> (name: &String)
        requires
            i < self.pairs().len(),
        ensures
            *name == self.pairs()[i as int].0,
            self@.contains_key(name@),
            self@[name@] == self.pairs()[i as int].1@,
            forall|j: int| 0 <= j < self.pairs().len() && j != i ==> self.pairs()[j].0@ != name@,
    {
        proof {
            use_type_invariant(self);
            lemma_lookup_at(self.pairs@, i as int);
        }
        &self.pairs[i].0
    }

    /// The value at position `i` of the insertion order.
    pub fn value_at(&self, i: usize) -> (value: &V)
        requires
            i < self.pairs().len(),
        ensures
            *value == self.pairs()[i as int].1,
            self@[self.pairs()[i as int].0@] == value@,
    {
        proof {
            use_type_invariant(self);
            lemma_lookup_at(self.pairs@, i as int);
        }
        &self.pairs[i].1
    }

    /// A table without names.
    pub fn new() -> (t: Table<V>)
        ensures
            t@ == Map::<Seq<char>, V::V>::empty(),
            t.pairs().len() == 0,
    {
        let t = Table { pairs: Vec::new() };
        assert(t.view() =~= Map::<Seq<char>, V::V>::empty());
        t
    }

    /// The value under `key`, if the table has the name.
    pub fn get(&self, key: &String) -> (value: Option<&V>)
        ensures
            match value {
                Some(v) => self@.contains_key(key@) && self@[key@] == v@,
                None => !self@.contains_key(key@),
            },
    {
        proof {
            use_type_invariant(self);
        }
        match self.position(key) {
            Some(i) => {
                proof {
                    lemma_lookup_at(self.pairs@, i as int);
                }
                Some(&self.pairs[i].1)
            },
            None => {
                proof {
                    lemma_lookup_absent(self.pairs@, key@);
                }
                None
            },
        }
    }

    /// Whether the table has the name `key`.
    pub fn contains_key(&self, key: &String) -> (found: bool)
        ensures
            found == self@.contains_key(key@),
    {
        self.get(key).is_some()
    }

    /// The table with `value` under `key`, in place of what was there. A name
    /// that the table had keeps its position; a new name goes to the end.
    pub fn insert(self, key: String, value: V) -> (t: Table<V>)
        ensures
            t@ == self@.insert(key@, value@),
            !self@.contains_key(key@) ==> t.pairs() == self.pairs().push((key, value)),
            forall|i: int|
                0 <= i < self.pairs().len() && #[trigger] self.pairs()[i].0@ == key@ ==> t.pairs()
                    == self.pairs().update(i, (key, value)),
    {
        proof {
            use_type_invariant(&self);
        }
        let at = self.position(&key);
        let ghost before = self.pairs@;
        let mut pairs = self.pairs;
        match at {
            Some(i) => {
                pairs.set(i, (key, value));
                proof {
                    let after = pairs@;
                    assert forall|a: int, b: int| 0 <= a < b < after.len() implies after[a].0@
                        != after[b].0@ by {
                        assert(before[a].0@ != before[b].0@);
                    }
                    lemma_lookup_at(after, i as int);
                    assert forall|k: Seq<char>| k != key@ implies lookup(after, k) == lookup(
                        before,
                        k,
                    ) by {
                        lemma_lookup_update(before, i as int, (key, value), k);
                    }
                }
            },
            None => {
                pairs.push((key, value));
                proof {
                    assert(pairs@.drop_last() =~= before);
                }
            },
        }
        let t = Table { pairs };
        assert(t.view() =~= self.view().insert(key@, value@));
        proof {
            match at {
                Some(i) => {
                    lemma_lookup_at(before, i as int);
                    assert forall|j: int|
                        0 <= j < before.len() && #[trigger] before[j].0@ == key@ implies j == i by {
                        if j != i {
                            assert(before[j].0@ != before[i as int].0@);
                        }
                    }
                },
                None => {
                    lemma_lookup_absent(before, key@);
                },
            }
        }
        t
    }
}

} // verus!
