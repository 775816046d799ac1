//! A map from names to values that keeps its entries in name order.

use crate::names::{
    compare_names, lemma_name_before_irreflexive, lemma_name_before_transitive, name_before,
    strictly_sorted, NameOrder,
};
use vstd::prelude::*;

verus! {

/// A map keyed by name. Its entries are held in strictly increasing name order,
/// so that each name occurs once and the values come out sorted by name.
#[derive(Debug)]
pub struct NameMap<V> {
    keys: Vec<String>,
    values: Vec<V>,
}

/// In a strictly sorted list each name is found at its own position only.
pub proof fn lemma_sorted_index_of(names: Seq<Seq<char>>, i: int)
    requires
        strictly_sorted(names),
        0 <= i < names.len(),
    ensures
        names.index_of(names[i]) == i,
{
    let j = names.index_of(names[i]);
    assert(0 <= j < names.len() && names[j] == names[i]);
    lemma_name_before_irreflexive(names[i]);
    if j < i {
        assert(name_before(names[j], names[i]));
    } else if i < j {
        assert(name_before(names[i], names[j]));
    }
}

/// A name that sorts after everything before position `p` and before the name at
/// `p` does not occur in a strictly sorted list.
pub proof fn lemma_sorted_absent(names: Seq<Seq<char>>, name: Seq<char>, p: int)
    requires
        strictly_sorted(names),
        0 <= p <= names.len(),
        forall|i: int| 0 <= i < p ==> name_before(#[trigger] names[i], name),
        p < names.len() ==> name_before(name, names[p]),
    ensures
        !names.contains(name),
{
    lemma_name_before_irreflexive(name);
    if names.contains(name) {
        let j = choose|j: int| 0 <= j < names.len() && names[j] == name;
        if j > p {
            lemma_name_before_transitive(name, names[p], names[j]);
        }
    }
}

impl<V> NameMap<V> {
    /// The names of the entries, in name order.
    pub closed spec fn names(&self) -> Seq<Seq<char>> {
        self.keys.deep_view()
    }

    /// The values of the entries, in the name order of their names.
    pub closed spec fn values(&self) -> Seq<V> {
        self.values@
    }

    /// The map as a mathematical map from names to values.
    pub closed spec fn view(&self) -> Map<Seq<char>, V> {
        let names = self.keys.deep_view();
        let values = self.values@;
        Map::new(|k: Seq<char>| names.contains(k), |k: Seq<char>| values[names.index_of(k)])
    }

    /// The entries are in strictly increasing name order, and the map holds
    /// exactly them.
    pub open spec fn wf(&self) -> bool {
        &&& self.names().len() == self.values().len()
        &&& strictly_sorted(self.names())
        &&& forall|k: Seq<char>| self@.dom().contains(k) <==> self.names().contains(k)
        &&& forall|i: int|
            0 <= i < self.names().len() ==> self@[#[trigger] self.names()[i]] == self.values()[i]
    }

    proof fn lemma_view(&self)
        requires
            self.names().len() == self.values().len(),
            strictly_sorted(self.names()),
        ensures
            self.wf(),
    {
        let names = self.names();
        assert forall|i: int| 0 <= i < names.len() implies self@[#[trigger] names[i]]
            == self.values()[i] by {
            lemma_sorted_index_of(names, i);
        }
    }

    /// An empty map.
    pub fn new() -> (map: Self)
        ensures
            map.wf(),
            map@ == Map::<Seq<char>, V>::empty(),
            map.names() == Seq::<Seq<char>>::empty(),
            map.values() == Seq::<V>::empty(),
    {
        let map = NameMap { keys: Vec::new(), values: Vec::new() };
        proof {
            assert(map.names() =~= Seq::<Seq<char>>::empty());
            map.lemma_view();
            assert(map@ =~= Map::<Seq<char>, V>::empty());
        }
        map
    }

    /// The number of entries.
    pub fn len(&self) -> (n: usize)
        requires
            self.wf(),
        ensures
            n == self.names().len(),
            n == self@.dom().len(),
            self@.dom().finite(),
    {
        proof {
            self.lemma_dom();
        }
        self.keys.len()
    }

    /// The names of a well-formed map are distinct and make up its domain.
    pub proof fn lemma_dom(&self)
        requires
            self.wf(),
        ensures
            self.names().no_duplicates(),
            self@.dom() == self.names().to_set(),
            self@.dom().finite(),
            self@.dom().len() == self.names().len(),
    {
        let names = self.names();
        assert forall|i: int, j: int| 0 <= i < names.len() && 0 <= j < names.len() && i != j implies names[i]
            != names[j] by {
            lemma_name_before_irreflexive(names[i]);
            if i < j {
                assert(name_before(names[i], names[j]));
            } else {
                assert(name_before(names[j], names[i]));
            }
        }
        assert(self@.dom() =~= names.to_set());
        names.unique_seq_to_set();
    }

    /// The position at which `name` stands or would have to be put, and whether
    /// it stands there.
    fn position(&self, name: &str) -> (found: (usize, bool))
        requires
            self.wf(),
        ensures
            found.0 <= self.names().len(),
            forall|i: int| 0 <= i < found.0 ==> name_before(#[trigger] self.names()[i], name@),
            found.1 ==> found.0 < self.names().len() && self.names()[found.0 as int] == name@,
            !found.1 ==> (found.0 < self.names().len() ==> name_before(
                name@,
                self.names()[found.0 as int],
            )),
            found.1 == self@.dom().contains(name@),
    {
        let mut i: usize = 0;
        while i < self.keys.len()
            invariant
                self.wf(),
                i <= self.keys.len(),
                forall|j: int| 0 <= j < i ==> name_before(#[trigger] self.names()[j], name@),
            decreases self.keys.len() - i,
        {
            match compare_names(self.keys[i].as_str(), name) {
                NameOrder::Before => {},
                NameOrder::Same => {
                    assert(self.names()[i as int] == name@);
                    return (i, true);
                },
                NameOrder::After => {
                    proof {
                        assert(self.names()[i as int] == self.keys[i as int]@);
                        lemma_sorted_absent(self.names(), name@, i as int);
                    }
                    return (i, false);
                },
            }
            assert(self.names()[i as int] == self.keys[i as int]@);
            i += 1;
        }
        proof {
            lemma_sorted_absent(self.names(), name@, i as int);
        }
        (i, false)
    }

    /// The value that stands under `name`, if there is one.
    pub fn get(&self, name: &str) -> (value: Option<&V>)
        requires
            self.wf(),
        ensures
            match value {
                Some(v) => self@.dom().contains(name@) && *v == self@[name@],
                None => !self@.dom().contains(name@),
            },
    {
        let (i, found) = self.position(name);
        if found {
            Some(&self.values[i])
        } else {
            None
        }
    }

    /// Puts `value` under `name`, in place of whatever stood there.
    pub fn insert(&mut self, name: String, value: V)
        requires
            old(self).wf(),
        ensures
            final(self).wf(),
            final(self)@ == old(self)@.insert(name@, value),
    {
        let (i, found) = self.position(name.as_str());
        if found {
            self.values.set(i, value);
            proof {
                assert(self.names() == old(self).names());
                self.lemma_view();
                assert forall|k: Seq<char>| old(self)@.insert(name@, value).dom().contains(k) implies 
                    #[trigger] self@[k] == old(self)@.insert(name@, value)[k] by {
                    let j = self.names().index_of(k);
                    assert(0 <= j < self.names().len() && self.names()[j] == k);
                    lemma_sorted_index_of(self.names(), i as int);
                }
                assert(self@ =~= old(self)@.insert(name@, value));
            }
        } else {
            self.keys.insert(i, name);
            self.values.insert(i, value);
            proof {
                let before = old(self).names();
                let after = self.names();
                assert(after =~= before.insert(i as int, name@));
                assert forall|a: int, b: int| 0 <= a < b < after.len() implies name_before(
                    after[a],
                    after[b],
                ) by {
                    if a < i && b == i {
                        assert(after[a] == before[a]);
                    } else if a < i && b > i {
                        assert(name_before(before[a], before[b - 1]));
                    } else if a < i {
                        assert(name_before(before[a], before[b]));
                    } else if a == i {
                        assert(after[b] == before[b - 1]);
                        if b - 1 > i {
                            assert(name_before(before[i as int], before[b - 1]));
                            lemma_name_before_transitive(name@, before[i as int], before[b - 1]);
                        }
                    } else {
                        assert(name_before(before[a - 1], before[b - 1]));
                    }
                }
                self.lemma_view();
                let target = old(self)@.insert(name@, value);
                assert forall|k: Seq<char>| target.dom().contains(k) implies after.contains(k) by {
                    if k == name@ {
                        assert(after[i as int] == k);
                    } else {
                        let j = before.index_of(k);
                        assert(0 <= j < before.len() && before[j] == k);
                        if j < i {
                            assert(after[j] == k);
                        } else {
                            assert(after[j + 1] == k);
                        }
                    }
                }
                assert forall|k: Seq<char>| after.contains(k) implies target.dom().contains(k)
                    && self@[k] == target[k] by {
                    let j = after.index_of(k);
                    assert(0 <= j < after.len() && after[j] == k);
                    lemma_sorted_index_of(after, j);
                    if j < i {
                        assert(before[j] == k);
                        lemma_sorted_index_of(before, j);
                    } else if j > i {
                        assert(before[j - 1] == k);
                        lemma_sorted_index_of(before, j - 1);
                    }
                }
                assert(self@ =~= target);
            }
        }
    }

    /// The name of the entry at position `i` of the name order.
    pub fn name_at(&self, i: usize) -> (name: &String)
        requires
            self.wf(),
            i < self.names().len(),
        ensures
            name@ == self.names()[i as int],
    {
        &self.keys[i]
    }

    /// The value of the entry at position `i` of the name order.
    pub fn value_at(&self, i: usize) -> (value: &V)
        requires
            self.wf(),
            i < self.names().len(),
        ensures
            *value == self.values()[i as int],
    {
        &self.values[i]
    }

    /// Takes the map apart into its values, ordered by the names they stood under.
    pub fn into_values(self) -> (values: Vec<V>)
        requires
            self.wf(),
        ensures
            values@ == self.values(),
    {
        self.values
    }
}

} // verus!
