//! A map from names to values that keeps its entries in lexicographic order
//! of the names.

use crate::text::{
    lemma_lex_less_irreflexive, lemma_lex_less_total, lemma_lex_less_transitive, lex_less,
    text_order, TextOrder,
};
use vstd::prelude::*;

verus! {

/// Each name comes before all the names after it.
pub open spec fn strictly_sorted(keys: Seq<Seq<char>>) -> bool {
    forall|i: int, j: int|
        0 <= i < j < keys.len() ==> lex_less(#[trigger] keys[i], #[trigger] keys[j])
}

/// A sorted sequence of names holds no name twice.
pub proof fn lemma_sorted_no_duplicates(keys: Seq<Seq<char>>)
    requires
        strictly_sorted(keys),
    ensures
        keys.no_duplicates(),
{
    assert forall|i: int, j: int| 0 <= i < keys.len() && 0 <= j < keys.len() && i != j implies keys[i]
        != keys[j] by {
        lemma_lex_less_irreflexive(keys[i]);
        if i < j {
            assert(lex_less(keys[i], keys[j]));
        } else {
            assert(lex_less(keys[j], keys[i]));
        }
    }
}

/// Two sorted sequences of names that hold the same names are the same.
pub proof fn lemma_sorted_names_unique(a: Seq<Seq<char>>, b: Seq<Seq<char>>)
    requires
        strictly_sorted(a),
        strictly_sorted(b),
        a.to_set() == b.to_set(),
    ensures
        a == b,
    decreases a.len(),
{
    if a.len() == 0 {
        if b.len() > 0 {
            assert(b.contains(b[0]));
            assert(b.to_set().contains(b[0]));
            assert(a.contains(b[0]));
        }
        assert(a =~= b);
    } else {
        assert(a.contains(a[0]));
        assert(a.to_set().contains(a[0]));
        assert(b.contains(a[0]));
        let j = b.index_of(a[0]);
        assert(b[j] == a[0]);
        assert(b.contains(b[0]));
        assert(b.to_set().contains(b[0]));
        assert(a.contains(b[0]));
        let i = a.index_of(b[0]);
        assert(a[i] == b[0]);
        lemma_lex_less_irreflexive(a[0]);
        if j > 0 {
            assert(lex_less(b[0], b[j]));
            if i > 0 {
                assert(lex_less(a[0], a[i]));
                lemma_lex_less_transitive(a[0], b[0], a[0]);
            }
        }
        assert(a[0] == b[0]);
        let rest_a = a.drop_first();
        let rest_b = b.drop_first();
        assert forall|n: Seq<char>| rest_a.to_set().contains(n) <==> rest_b.to_set().contains(n) by {
            lemma_lex_less_irreflexive(n);
            if rest_a.contains(n) {
                let k = rest_a.index_of(n);
                assert(rest_a[k] == n);
                assert(a[k + 1] == n);
                assert(lex_less(a[0], a[k + 1]));
                assert(a.contains(n));
                assert(a.to_set().contains(n));
                assert(b.contains(n));
                let m = b.index_of(n);
                assert(b[m] == n);
                assert(m > 0);
                assert(rest_b[m - 1] == n);
            }
            if rest_b.contains(n) {
                let k = rest_b.index_of(n);
                assert(rest_b[k] == n);
                assert(b[k + 1] == n);
                assert(lex_less(b[0], b[k + 1]));
                assert(b.contains(n));
                assert(b.to_set().contains(n));
                assert(a.contains(n));
                let m = a.index_of(n);
                assert(a[m] == n);
                assert(m > 0);
                assert(rest_a[m - 1] == n);
            }
        }
        assert(rest_a.to_set() =~= rest_b.to_set());
        assert(strictly_sorted(rest_a)) by {
            assert forall|x: int, y: int| 0 <= x < y < rest_a.len() implies lex_less(
                #[trigger] rest_a[x],
                #[trigger] rest_a[y],
            ) by {
                assert(lex_less(a[x + 1], a[y + 1]));
            }
        }
        assert(strictly_sorted(rest_b)) by {
            assert forall|x: int, y: int| 0 <= x < y < rest_b.len() implies lex_less(
                #[trigger] rest_b[x],
                #[trigger] rest_b[y],
            ) by {
                assert(lex_less(b[x + 1], b[y + 1]));
            }
        }
        lemma_sorted_names_unique(rest_a, rest_b);
        assert(a =~= seq![a[0]] + rest_a);
        assert(b =~= seq![b[0]] + rest_b);
    }
}

/// The names of a sequence of entries, in order.
pub open spec fn entry_keys<V>(entries: Seq<(String, V)>) -> Seq<Seq<char>> {
    Seq::new(entries.len(), |i: int| entries[i].0@)
}

/// The values of a sequence of entries, in order.
pub open spec fn entry_values<V>(entries: Seq<(String, V)>) -> Seq<V> {
    Seq::new(entries.len(), |i: int| entries[i].1)
}

/// An ordered map keyed by name. Iteration by index visits the names in
/// ascending lexicographic order, and no name occurs twice.
#[derive(Debug, PartialEq, Eq)]
pub struct NameMap<V> {
    entries: Vec<(String, V)>,
}

impl<V> View for NameMap<V> {
    type V = Map<Seq<char>, V>;

    /// The map from each name to its value.
    open spec fn view(&self) -> Map<Seq<char>, V> {
        Map::new(
            |k: Seq<char>| self.keys().contains(k),
            |k: Seq<char>| self.values()[self.keys().index_of(k)],
        )
    }
}

impl<V> NameMap<V> {
    /// The names, in iteration order.
    pub closed spec fn keys(&self) -> Seq<Seq<char>> {
        entry_keys(self.entries@)
    }

    /// The values, in the order of their names.
    pub closed spec fn values(&self) -> Seq<V> {
        entry_values(self.entries@)
    }

    #[verifier::type_invariant]
    spec fn sorted(&self) -> bool {
        strictly_sorted(self.keys())
    }

    /// The names are in strictly ascending order, one value for each.
    pub open spec fn wf(&self) -> bool {
        &&& self.keys().len() == self.values().len()
        &&& strictly_sorted(self.keys())
    }

    /// The value stored under `key`, if any.
    pub open spec fn spec_get(&self, key: Seq<char>) -> Option<V> {
        if self@.contains_key(key) {
            Some(self@[key])
        } else {
            None
        }
    }

    /// In a well-formed map the entry at index `i` is the one found under its name.
    pub proof fn lemma_entry(&self, i: int)
        requires
            self.wf(),
            0 <= i < self.keys().len(),
        ensures
            self@.contains_key(self.keys()[i]),
            self@[self.keys()[i]] == self.values()[i],
            self.keys().index_of(self.keys()[i]) == i,
            self.spec_get(self.keys()[i]) == Some(self.values()[i]),
    {
        lemma_sorted_no_duplicates(self.keys());
        let k = self.keys()[i];
        assert(self.keys().contains(k));
        let j = self.keys().index_of(k);
        assert(self.keys()[j] == k);
    }

    /// A name is in the map exactly when it occurs among the keys.
    pub proof fn lemma_contains(&self, key: Seq<char>)
        ensures
            self@.contains_key(key) <==> self.keys().contains(key),
            self@.contains_key(key) ==> 0 <= self.keys().index_of(key) < self.keys().len()
                && self.keys()[self.keys().index_of(key)] == key,
    {
    }

    /// The names of the map are those of its keys, finitely many.
    pub proof fn lemma_dom(&self)
        ensures
            self@.dom() == self.keys().to_set(),
            self@.dom().finite(),
    {
        vstd::seq_lib::seq_to_set_is_finite(self.keys());
        assert(self@.dom() =~= self.keys().to_set());
    }

    /// The order of the entries is a matter of their names alone: two maps
    /// that hold the same entries hold them in the same order.
    pub proof fn lemma_order_is_determined(&self, other: &NameMap<V>)
        requires
            self.wf(),
            other.wf(),
            self@ == other@,
        ensures
            self.keys() == other.keys(),
            self.values() == other.values(),
    {
        self.lemma_dom();
        other.lemma_dom();
        lemma_sorted_names_unique(self.keys(), other.keys());
        assert forall|i: int| 0 <= i < self.values().len() implies self.values()[i]
            == other.values()[i] by {
            self.lemma_entry(i);
            other.lemma_entry(i);
        }
        assert(self.values() =~= other.values());
    }

    /// An empty map.
    pub fn new() -> (r: Self)
        ensures
            r.wf(),
            r.keys() == Seq::<Seq<char>>::empty(),
            r@ == Map::<Seq<char>, V>::empty(),
    {
        let r = NameMap { entries: Vec::new() };
        assert(r.keys() =~= Seq::<Seq<char>>::empty());
        assert(r@ =~= Map::<Seq<char>, V>::empty());
        r
    }

    /// The number of entries.
    pub fn len(&self) -> (n: usize)
        ensures
            self.wf(),
            n == self.keys().len(),
    {
        proof {
            use_type_invariant(self);
        }
        self.entries.len()
    }

    /// Whether the map holds no entry.
    pub fn is_empty(&self) -> (r: bool)
        ensures
            self.wf(),
            r == (self.keys().len() == 0),
    {
        proof {
            use_type_invariant(self);
        }
        self.entries.len() == 0
    }

    /// The name at position `i` of the iteration order.
    pub fn key_at(&self, i: usize) -> (k: &String)
        requires
            i < self.keys().len(),
        ensures
            self.wf(),
            k@ == self.keys()[i as int],
    {
        proof {
            use_type_invariant(self);
        }
        &self.entries[i].0
    }

    /// The value at position `i` of the iteration order.
    pub fn value_at(&self, i: usize) -> (v: &V)
        requires
            i < self.keys().len(),
        ensures
            self.wf(),
            *v == self.values()[i as int],
    {
        proof {
            use_type_invariant(self);
        }
        &self.entries[i].1
    }

    /// Looks for `key`: whether it is present, and the position where it is
    /// or where it would have to be inserted.
    fn search(&self, key: &str) -> (r: (bool, usize))
        ensures
            self.wf(),
            r.1 <= self.keys().len(),
            r.0 ==> r.1 < self.keys().len() && self.keys()[r.1 as int] == key@,
            r.0 == self.keys().contains(key@),
            forall|j: int| 0 <= j < r.1 ==> lex_less(#[trigger] self.keys()[j], key@),
            !r.0 ==> forall|j: int|
                r.1 <= j < self.keys().len() ==> lex_less(key@, #[trigger] self.keys()[j]),
    {
        proof {
            use_type_invariant(self);
        }
        let mut i: usize = 0;
        while i < self.entries.len()
            invariant
                0 <= i <= self.entries.len(),
                self.entries@.len() == self.keys().len(),
                strictly_sorted(self.keys()),
                forall|j: int| 0 <= j < i ==> lex_less(#[trigger] self.keys()[j], key@),
            decreases self.entries.len() - i,
        {
            let order = text_order(self.entries[i].0.as_str(), key);
            proof {
                lemma_lex_less_total(self.keys()[i as int], key@);
            }
            match order {
                TextOrder::Same => {
                    return (true, i);
                },
                TextOrder::After => {
                    proof {
                        assert forall|j: int| i <= j < self.keys().len() implies lex_less(
                            key@,
                            #[trigger] self.keys()[j],
                        ) by {
                            if i < j {
                                lemma_lex_less_transitive(key@, self.keys()[i as int], self.keys()[j]);
                            }
                        }
                        assert forall|j: int| 0 <= j < self.keys().len() implies self.keys()[j]
                            != key@ by {
                            lemma_lex_less_irreflexive(key@);
                        }
                    }
                    return (false, i);
                },
                TextOrder::Before => {},
            }
            i += 1;
        }
        proof {
            assert forall|j: int| 0 <= j < self.keys().len() implies self.keys()[j] != key@ by {
                lemma_lex_less_irreflexive(key@);
            }
        }
        (false, i)
    }

    /// Whether an entry is stored under `key`.
    pub fn contains_key(&self, key: &str) -> (r: bool)
        ensures
            self.wf(),
            r == self@.contains_key(key@),
    {
        self.search(key).0
    }

    /// The value stored under `key`.
    pub fn get(&self, key: &str) -> (r: Option<&V>)
        ensures
            self.wf(),
            r is Some == self@.contains_key(key@),
            r matches Some(v) ==> *v == self@[key@],
            r matches Some(v) ==> self.spec_get(key@) == Some(*v),
            r is None ==> self.spec_get(key@) is None,
    {
        let (found, at) = self.search(key);
        if found {
            proof {
                self.lemma_entry(at as int);
            }
            Some(&self.entries[at].1)
        } else {
            None
        }
    }

    /// Stores `value` under `key`, replacing and returning what was there.
    pub fn insert(&mut self, key: String, value: V) -> (previous: Option<V>)
        ensures
            final(self).wf(),
            final(self)@ == old(self)@.insert(key@, value),
            previous == old(self).spec_get(key@),
    {
        let (found, at) = self.search(key.as_str());
        let ghost before = *self;
        let ghost name = key@;
        let mut taken = NameMap { entries: Vec::new() };
        proof {
            assert(taken.keys() =~= Seq::<Seq<char>>::empty());
        }
        std::mem::swap(self, &mut taken);
        let mut entries = taken.entries;
        let mut previous: Option<V> = None;
        if found {
            proof {
                before.lemma_entry(at as int);
            }
            let entry = entries.remove(at);
            previous = Some(entry.1);
        }
        entries.insert(at, (key, value));
        proof {
            let after_keys = entry_keys(entries@);
            let mid_keys = if found {
                before.keys().remove(at as int)
            } else {
                before.keys()
            };
            let mid_values = if found {
                before.values().remove(at as int)
            } else {
                before.values()
            };
            assert(after_keys =~= mid_keys.insert(at as int, name));
            assert(entry_values(entries@) =~= mid_values.insert(at as int, value));
            assert forall|i: int, j: int| 0 <= i < j < after_keys.len() implies lex_less(
                #[trigger] after_keys[i],
                #[trigger] after_keys[j],
            ) by {
                let shift = if found { 1int } else { 0int };
                let oi = if i < at { i } else { i - 1 + shift };
                let oj = if j < at { j } else { j - 1 + shift };
                if i == at {
                    assert(after_keys[j] == before.keys()[oj]);
                    if found {
                        assert(lex_less(before.keys()[at as int], before.keys()[oj]));
                    }
                } else if j == at {
                    assert(after_keys[i] == before.keys()[oi]);
                } else {
                    assert(after_keys[i] == before.keys()[oi]);
                    assert(after_keys[j] == before.keys()[oj]);
                    assert(lex_less(before.keys()[oi], before.keys()[oj]));
                }
            }
        }
        let after = NameMap { entries };
        proof {
            lemma_insert_view(before, after, name, value, at as int, found);
        }
        *self = after;
        previous
    }

    /// Removes the entry stored under `key` and returns its value.
    pub fn remove(&mut self, key: &str) -> (previous: Option<V>)
        ensures
            final(self).wf(),
            final(self)@ == old(self)@.remove(key@),
            previous == old(self).spec_get(key@),
    {
        let (found, at) = self.search(key);
        let ghost before = *self;
        if found {
            let mut taken = NameMap { entries: Vec::new() };
            proof {
                assert(taken.keys() =~= Seq::<Seq<char>>::empty());
                before.lemma_entry(at as int);
            }
            std::mem::swap(self, &mut taken);
            let mut entries = taken.entries;
            let entry = entries.remove(at);
            proof {
                assert(entry_keys(entries@) =~= before.keys().remove(at as int));
                assert(entry_values(entries@) =~= before.values().remove(at as int));
                assert(strictly_sorted(entry_keys(entries@)));
            }
            let after = NameMap { entries };
            proof {
                lemma_remove_view(before, after, key@, at as int);
            }
            *self = after;
            Some(entry.1)
        } else {
            proof {
                assert(self@ =~= before@.remove(key@));
            }
            None
        }
    }
}

impl<V: Clone> Clone for NameMap<V> {
    /// A map with the same names in the same order, and a copy of each value.
    fn clone(&self) -> (r: Self)
        ensures
            r.wf(),
            r.keys() == self.keys(),
    {
        proof {
            use_type_invariant(self);
        }
        let mut entries: Vec<(String, V)> = Vec::new();
        let mut i: usize = 0;
        while i < self.entries.len()
            invariant
                0 <= i <= self.entries.len(),
                entries.len() == i,
                forall|k: int| 0 <= k < i ==> (#[trigger] entries[k]).0@ == self.entries[k].0@,
            decreases self.entries.len() - i,
        {
            entries.push((self.entries[i].0.clone(), self.entries[i].1.clone()));
            i += 1;
        }
        proof {
            assert(entry_keys(entries@) =~= self.keys());
        }
        NameMap { entries }
    }
}

/// Inserting a name at its sorted position (after removing a previous entry of
/// the same name) updates the map at that name alone.
proof fn lemma_insert_view<V>(
    before: NameMap<V>,
    after: NameMap<V>,
    name: Seq<char>,
    value: V,
    at: int,
    found: bool,
)
    requires
        before.wf(),
        after.wf(),
        0 <= at <= before.keys().len(),
        found == before.keys().contains(name),
        found ==> at < before.keys().len() && before.keys()[at] == name,
        after.keys() == (if found {
            before.keys().remove(at)
        } else {
            before.keys()
        }).insert(at, name),
        after.values() == (if found {
            before.values().remove(at)
        } else {
            before.values()
        }).insert(at, value),
    ensures
        after@ == before@.insert(name, value),
{
    assert(after.keys()[at] == name);
    after.lemma_entry(at);
    assert forall|k: Seq<char>| #[trigger] after@.contains_key(k) <==> before@.insert(name, value).contains_key(k) by {
        if k != name {
            if after.keys().contains(k) {
                let j = after.keys().index_of(k);
                assert(after.keys()[j] == k);
                let oj = if j < at { j } else if found { j } else { j - 1 };
                assert(before.keys()[oj] == k);
            }
            if before.keys().contains(k) {
                let j = before.keys().index_of(k);
                assert(before.keys()[j] == k);
                let nj = if j < at { j } else if found { j } else { j + 1 };
                assert(after.keys()[nj] == k);
            }
        }
    }
    assert forall|k: Seq<char>| #[trigger] after@.contains_key(k) implies after@[k] == before@.insert(name, value)[k] by {
        if k != name {
            let j = after.keys().index_of(k);
            assert(after.keys()[j] == k);
            let oj = if j < at { j } else if found { j } else { j - 1 };
            assert(before.keys()[oj] == k);
            before.lemma_entry(oj);
            after.lemma_entry(j);
        }
    }
    assert(after@ =~= before@.insert(name, value));
}

/// Removing the entry at the position of a name removes that name alone.
proof fn lemma_remove_view<V>(before: NameMap<V>, after: NameMap<V>, name: Seq<char>, at: int)
    requires
        before.wf(),
        after.wf(),
        0 <= at < before.keys().len(),
        before.keys()[at] == name,
        after.keys() == before.keys().remove(at),
        after.values() == before.values().remove(at),
    ensures
        after@ == before@.remove(name),
{
    lemma_sorted_no_duplicates(before.keys());
    assert forall|k: Seq<char>| #[trigger] after@.contains_key(k) <==> before@.remove(name).contains_key(k) by {
        if after.keys().contains(k) {
            let j = after.keys().index_of(k);
            assert(after.keys()[j] == k);
            let oj = if j < at { j } else { j + 1 };
            assert(before.keys()[oj] == k);
        }
        if before.keys().contains(k) && k != name {
            let j = before.keys().index_of(k);
            assert(before.keys()[j] == k);
            let nj = if j < at { j } else { j - 1 };
            assert(after.keys()[nj] == k);
        }
    }
    assert forall|k: Seq<char>| #[trigger] after@.contains_key(k) implies after@[k] == before@.remove(name)[k] by {
        let j = after.keys().index_of(k);
        assert(after.keys()[j] == k);
        let oj = if j < at { j } else { j + 1 };
        assert(before.keys()[oj] == k);
        before.lemma_entry(oj);
        after.lemma_entry(j);
    }
    assert(after@ =~= before@.remove(name));
}

} // verus!
