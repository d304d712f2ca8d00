//! A map keyed by strings, held as a vector of entries in insertion order.
//!
//! Its model is an association list, `listing`: the entries in order, each key
//! once. Its view is the `Map` that the listing stands for. That no key occurs
//! twice is the table's well-formedness, which `new` establishes and every
//! method keeps.

use crate::text::str_eq;
use vstd::prelude::*;

verus! {

/// Some entry of `list` has the key `key`.
pub open spec fn assoc_has<V>(list: Seq<(Seq<char>, V)>, key: Seq<char>) -> bool {
    exists|i: int| 0 <= i < list.len() && (#[trigger] list[i]).0 == key
}

/// Where `list` has the key `key`.
pub open spec fn assoc_index<V>(list: Seq<(Seq<char>, V)>, key: Seq<char>) -> int {
    choose|i: int| 0 <= i < list.len() && (#[trigger] list[i]).0 == key
}

/// What `list` binds `key` to.
pub open spec fn assoc_get<V>(list: Seq<(Seq<char>, V)>, key: Seq<char>) -> Option<V> {
    if assoc_has(list, key) {
        Some(list[assoc_index(list, key)].1)
    } else {
        None
    }
}

/// `list` with `key` bound to `value`: in the place of its old binding, or at the
/// end where it had none.
pub open spec fn assoc_put<V>(list: Seq<(Seq<char>, V)>, key: Seq<char>, value: V) -> Seq<
    (Seq<char>, V),
> {
    if assoc_has(list, key) {
        list.update(assoc_index(list, key), (key, value))
    } else {
        list.push((key, value))
    }
}

/// `list` without the binding of `key`.
pub open spec fn assoc_del<V>(list: Seq<(Seq<char>, V)>, key: Seq<char>) -> Seq<(Seq<char>, V)> {
    if assoc_has(list, key) {
        list.remove(assoc_index(list, key))
    } else {
        list
    }
}

/// No key occurs twice in `list`.
pub open spec fn assoc_distinct<V>(list: Seq<(Seq<char>, V)>) -> bool {
    forall|i: int, j: int| 0 <= i < j < list.len() ==> list[i].0 != list[j].0
}

/// The keys of `list`, in order.
pub open spec fn assoc_keys<V>(list: Seq<(Seq<char>, V)>) -> Seq<Seq<char>> {
    list.map_values(|e: (Seq<char>, V)| e.0)
}

/// The map that `list` stands for.
pub open spec fn assoc_map<V>(list: Seq<(Seq<char>, V)>) -> Map<Seq<char>, V> {
    Map::new(|k: Seq<char>| assoc_has(list, k), |k: Seq<char>| list[assoc_index(list, k)].1)
}

/// In a list without repeated keys, an entry is found by its key.
pub proof fn lemma_assoc_at<V>(list: Seq<(Seq<char>, V)>, i: int)
    requires
        assoc_distinct(list),
        0 <= i < list.len(),
    ensures
        assoc_has(list, list[i].0),
        assoc_index(list, list[i].0) == i,
        assoc_get(list, list[i].0) == Some(list[i].1),
{
    let j = assoc_index(list, list[i].0);
    assert(0 <= j < list.len() && list[j].0 == list[i].0);
}

/// Binding a key keeps the keys distinct, binds that key, and leaves the others
/// as they were.
pub proof fn lemma_assoc_put<V>(list: Seq<(Seq<char>, V)>, key: Seq<char>, value: V)
    requires
        assoc_distinct(list),
    ensures
        assoc_distinct(assoc_put(list, key, value)),
        assoc_get(assoc_put(list, key, value), key) == Some(value),
        forall|k: Seq<char>|
            k != key ==> assoc_get(assoc_put(list, key, value), k) == assoc_get(list, k),
        forall|k: Seq<char>|
            assoc_has(assoc_put(list, key, value), k) <==> k == key || assoc_has(list, k),
        assoc_map(assoc_put(list, key, value)) == assoc_map(list).insert(key, value),
{
    let after = assoc_put(list, key, value);
    if assoc_has(list, key) {
        let at = assoc_index(list, key);
        assert forall|i: int, j: int| 0 <= i < j < after.len() implies after[i].0
            != after[j].0 by {
            assert(after[i].0 == list[i].0);
            assert(after[j].0 == list[j].0);
        }
        lemma_assoc_at(after, at);
        assert forall|k: Seq<char>| assoc_has(after, k) <==> k == key || assoc_has(list, k) by {
            if assoc_has(after, k) {
                let i = assoc_index(after, k);
                assert(list[i].0 == after[i].0);
            }
            if assoc_has(list, k) {
                let i = assoc_index(list, k);
                assert(after[i].0 == k);
            }
        }
        assert forall|k: Seq<char>| k != key implies assoc_get(after, k) == assoc_get(list, k) by {
            if assoc_has(list, k) {
                let i = assoc_index(list, k);
                assert(after[i] == list[i]);
                lemma_assoc_at(after, i);
            }
        }
    } else {
        let n = list.len() as int;
        assert forall|i: int, j: int| 0 <= i < j < after.len() implies after[i].0
            != after[j].0 by {
            assert(after[i] == list[i]);
            if j < n {
                assert(after[j] == list[j]);
            }
        }
        lemma_assoc_at(after, n);
        assert forall|k: Seq<char>| assoc_has(after, k) <==> k == key || assoc_has(list, k) by {
            if assoc_has(after, k) {
                let i = assoc_index(after, k);
                if i < n {
                    assert(list[i].0 == k);
                }
            }
            if assoc_has(list, k) {
                let i = assoc_index(list, k);
                assert(after[i].0 == k);
            }
        }
        assert forall|k: Seq<char>| k != key implies assoc_get(after, k) == assoc_get(list, k) by {
            if assoc_has(list, k) {
                let i = assoc_index(list, k);
                assert(after[i] == list[i]);
                lemma_assoc_at(after, i);
            }
        }
    }
    assert(assoc_map(after) =~= assoc_map(list).insert(key, value)) by {
        assert forall|k: Seq<char>| assoc_map(after).contains_key(k) implies #[trigger]
            assoc_map(after)[k] == assoc_map(list).insert(key, value)[k] by {
            if k != key {
                assert(assoc_get(after, k) == assoc_get(list, k));
            }
        }
    }
}

/// Unbinding a key keeps the keys distinct, unbinds that key, and leaves the
/// others as they were.
pub proof fn lemma_assoc_del<V>(list: Seq<(Seq<char>, V)>, key: Seq<char>)
    requires
        assoc_distinct(list),
    ensures
        assoc_distinct(assoc_del(list, key)),
        !assoc_has(assoc_del(list, key), key),
        forall|k: Seq<char>| k != key ==> assoc_get(assoc_del(list, key), k) == assoc_get(list, k),
        forall|k: Seq<char>|
            assoc_has(assoc_del(list, key), k) <==> k != key && assoc_has(list, k),
        assoc_map(assoc_del(list, key)) == assoc_map(list).remove(key),
{
    let after = assoc_del(list, key);
    if assoc_has(list, key) {
        let at = assoc_index(list, key);
        assert forall|i: int, j: int| 0 <= i < j < after.len() implies after[i].0
            != after[j].0 by {
            assert(after[i] == list[if i < at { i } else { i + 1 }]);
            assert(after[j] == list[if j < at { j } else { j + 1 }]);
        }
        assert forall|k: Seq<char>| assoc_has(after, k) <==> k != key && assoc_has(list, k) by {
            if assoc_has(after, k) {
                let i = assoc_index(after, k);
                assert(after[i] == list[if i < at { i } else { i + 1 }]);
            }
            if k != key && assoc_has(list, k) {
                let i = assoc_index(list, k);
                if i < at {
                    assert(after[i].0 == k);
                } else {
                    assert(after[i - 1].0 == k);
                }
            }
        }
        assert forall|k: Seq<char>| k != key implies assoc_get(after, k) == assoc_get(list, k) by {
            if assoc_has(list, k) {
                let i = assoc_index(list, k);
                if i < at {
                    assert(after[i] == list[i]);
                    lemma_assoc_at(after, i);
                } else {
                    assert(after[i - 1] == list[i]);
                    lemma_assoc_at(after, i - 1);
                }
            }
        }
    }
    assert(assoc_map(after) =~= assoc_map(list).remove(key)) by {
        assert forall|k: Seq<char>| assoc_map(after).contains_key(k) implies #[trigger]
            assoc_map(after)[k] == assoc_map(list).remove(key)[k] by {
            assert(assoc_get(after, k) == assoc_get(list, k));
        }
    }
}

/// `list` with each value replaced by what `f` makes of it.
pub open spec fn assoc_mapped<V, W>(list: Seq<(Seq<char>, V)>, f: spec_fn(V) -> W) -> Seq<
    (Seq<char>, W),
> {
    list.map_values(|e: (Seq<char>, V)| (e.0, f(e.1)))
}

/// Replacing the values keeps the keys where they are.
pub proof fn lemma_assoc_mapped<V, W>(list: Seq<(Seq<char>, V)>, f: spec_fn(V) -> W, key: Seq<char>)
    requires
        assoc_distinct(list),
    ensures
        assoc_distinct(assoc_mapped(list, f)),
        assoc_has(assoc_mapped(list, f), key) == assoc_has(list, key),
        assoc_has(list, key) ==> assoc_index(assoc_mapped(list, f), key) == assoc_index(list, key),
        assoc_get(assoc_mapped(list, f), key) == (match assoc_get(list, key) {
            Some(v) => Some(f(v)),
            None => None,
        }),
{
    let mapped = assoc_mapped(list, f);
    assert forall|i: int, j: int| 0 <= i < j < mapped.len() implies mapped[i].0
        != mapped[j].0 by {
        assert(mapped[i].0 == list[i].0);
        assert(mapped[j].0 == list[j].0);
    }
    if assoc_has(list, key) {
        let i = assoc_index(list, key);
        assert(mapped[i].0 == key);
        lemma_assoc_at(mapped, i);
    }
    if assoc_has(mapped, key) {
        let i = assoc_index(mapped, key);
        assert(list[i].0 == key);
    }
}

/// Binding a key and replacing the values can be done in either order.
pub proof fn lemma_assoc_mapped_put<V, W>(
    list: Seq<(Seq<char>, V)>,
    f: spec_fn(V) -> W,
    key: Seq<char>,
    value: V,
)
    requires
        assoc_distinct(list),
    ensures
        assoc_mapped(assoc_put(list, key, value), f) == assoc_put(
            assoc_mapped(list, f),
            key,
            f(value),
        ),
{
    lemma_assoc_mapped(list, f, key);
    assert(assoc_mapped(assoc_put(list, key, value), f) =~= assoc_put(
        assoc_mapped(list, f),
        key,
        f(value),
    ));
}

/// A map from strings to values of `V`.
#[derive(Debug, Clone)]
pub struct StringMap<V> {
    entries: Vec<(String, V)>,
}

impl<V> View for StringMap<V> {
    type V = Map<Seq<char>, V>;

    closed spec fn view(&self) -> Map<Seq<char>, V> {
        assoc_map(self.listing())
    }
}

impl<V> StringMap<V> {
    /// The entries, in the order in which their keys were first bound.
    pub closed spec fn listing(&self) -> Seq<(Seq<char>, V)> {
        self.entries@.map_values(|e: (String, V)| (e.0@, e.1))
    }

    /// No key occurs twice.
    pub closed spec fn wf(&self) -> bool {
        assoc_distinct(self.listing())
    }

    /// The keys, in the order in which they were first bound.
    pub closed spec fn order(&self) -> Seq<Seq<char>> {
        assoc_keys(self.listing())
    }

    /// The view and the order are those of the listing.
    pub proof fn lemma_listing(&self)
        ensures
            self@ == assoc_map(self.listing()),
            self.order() == assoc_keys(self.listing()),
            self.wf() == assoc_distinct(self.listing()),
            forall|k: Seq<char>| self@.contains_key(k) <==> assoc_has(self.listing(), k),
            forall|k: Seq<char>|
                self@.contains_key(k) ==> assoc_get(self.listing(), k) == Some(self@[k]),
    {
    }

    /// The keys of the map are the items of `order`, each once.
    pub proof fn lemma_order(&self)
        requires
            self.wf(),
        ensures
            self.order().no_duplicates(),
            forall|k: Seq<char>| self@.contains_key(k) <==> self.order().contains(k),
            forall|i: int|
                0 <= i < self.order().len() ==> self@.contains_key(#[trigger] self.order()[i]),
    {
        let list = self.listing();
        assert forall|k: Seq<char>| self@.contains_key(k) <==> self.order().contains(k) by {
            if self@.contains_key(k) {
                let i = assoc_index(list, k);
                assert(self.order()[i] == k);
            }
            if self.order().contains(k) {
                let i = self.order().index_of(k);
                assert(list[i].0 == k);
            }
        }
        assert forall|i: int| 0 <= i < self.order().len() implies self@.contains_key(
            #[trigger] self.order()[i],
        ) by {
            assert(list[i].0 == self.order()[i]);
        }
        assert forall|i: int, j: int|
            0 <= i < self.order().len() && 0 <= j < self.order().len() && i
                != j implies self.order()[i] != self.order()[j] by {
            assert(list[i].0 == self.order()[i]);
            assert(list[j].0 == self.order()[j]);
        }
    }

    proof fn lemma_slot(&self, i: int)
        requires
            self.wf(),
            0 <= i < self.entries@.len(),
        ensures
            self@.contains_key(self.entries@[i].0@),
            self@[self.entries@[i].0@] == self.entries@[i].1,
            self.listing()[i] == (self.entries@[i].0@, self.entries@[i].1),
            self.order()[i] == self.entries@[i].0@,
    {
        lemma_assoc_at(self.listing(), i);
    }

    /// The empty map.
    pub fn new() -> (m: Self)
        ensures
            m.wf(),
            m@ == Map::<Seq<char>, V>::empty(),
            m.order() == Seq::<Seq<char>>::empty(),
            m.listing() == Seq::<(Seq<char>, V)>::empty(),
    {
        let m = StringMap { entries: Vec::new() };
        assert(m.listing() =~= Seq::<(Seq<char>, V)>::empty());
        assert(m@ =~= Map::<Seq<char>, V>::empty());
        assert(m.order() =~= Seq::<Seq<char>>::empty());
        m
    }

    /// The number of keys.
    pub fn len(&self) -> (n: usize)
        ensures
            n == self.order().len(),
            n == self.listing().len(),
    {
        self.entries.len()
    }

    /// The key at place `i` of `order`.
    pub fn key_at(&self, i: usize) -> (k: &String)
        requires
            i < self.order().len(),
        ensures
            k@ == self.order()[i as int],
            k@ == self.listing()[i as int].0,
    {
        &self.entries[i].0
    }

    /// What the key at place `i` of `order` is bound to.
    pub fn value_at(&self, i: usize) -> (v: &V)
        requires
            self.wf(),
            i < self.order().len(),
        ensures
            self@.contains_key(self.order()[i as int]),
            *v == self@[self.order()[i as int]],
            *v == self.listing()[i as int].1,
    {
        proof {
            self.lemma_slot(i as int);
        }
        &self.entries[i].1
    }

    /// Where `key` stands in `order`, if it is a key of the map.
    pub fn position(&self, key: &str) -> (r: Option<usize>)
        requires
            self.wf(),
        ensures
            match r {
                Some(i) => i < self.order().len() && self.order()[i as int] == key@
                    && self@.contains_key(key@) && i == assoc_index(self.listing(), key@),
                None => !self@.contains_key(key@),
            },
    {
        let mut i: usize = 0;
        while i < self.entries.len()
            invariant
                self.wf(),
                i <= self.entries@.len(),
                forall|j: int| 0 <= j < i ==> (#[trigger] self.listing()[j]).0 != key@,
            decreases self.entries@.len() - i,
        {
            if str_eq(self.entries[i].0.as_str(), key) {
                proof {
                    self.lemma_slot(i as int);
                    lemma_assoc_at(self.listing(), i as int);
                }
                return Some(i);
            }
            i += 1;
        }
        None
    }

    /// Whether `key` is bound.
    pub fn contains_key(&self, key: &str) -> (b: bool)
        requires
            self.wf(),
        ensures
            b == self@.contains_key(key@),
    {
        self.position(key).is_some()
    }

    /// What `key` is bound to.
    pub fn get(&self, key: &str) -> (r: Option<&V>)
        requires
            self.wf(),
        ensures
            match r {
                Some(v) => self@.contains_key(key@) && *v == self@[key@],
                None => !self@.contains_key(key@),
            },
    {
        match self.position(key) {
            Some(i) => {
                proof {
                    self.lemma_slot(i as int);
                }
                Some(&self.entries[i].1)
            },
            None => None,
        }
    }

    /// Binds `key` to `value` and hands back what `key` was bound to before.
    pub fn insert(&mut self, key: String, value: V) -> (before: Option<V>)
        requires
            old(self).wf(),
        ensures
            final(self).wf(),
            final(self)@ == old(self)@.insert(key@, value),
            final(self).listing() == assoc_put(old(self).listing(), key@, value),
            before == if old(self)@.contains_key(key@) {
                Some(old(self)@[key@])
            } else {
                None::<V>
            },
            final(self).order() == if old(self)@.contains_key(key@) {
                old(self).order()
            } else {
                old(self).order().push(key@)
            },
    {
        let ghost before_list = self.listing();
        proof {
            lemma_assoc_put(before_list, key@, value);
        }
        match self.position(key.as_str()) {
            Some(i) => {
                proof {
                    self.lemma_slot(i as int);
                }
                let removed = self.entries.remove(i);
                self.entries.insert(i, (key, value));
                assert(self.listing() =~= assoc_put(before_list, key@, value));
                assert(self.order() =~= assoc_keys(before_list));
                Some(removed.1)
            },
            None => {
                self.entries.push((key, value));
                assert(self.listing() =~= assoc_put(before_list, key@, value));
                assert(self.order() =~= assoc_keys(before_list).push(key@));
                None
            },
        }
    }

    /// Unbinds `key` and hands back what it was bound to.
    pub fn remove(&mut self, key: &str) -> (before: Option<V>)
        requires
            old(self).wf(),
        ensures
            final(self).wf(),
            final(self)@ == old(self)@.remove(key@),
            final(self).listing() == assoc_del(old(self).listing(), key@),
            before == if old(self)@.contains_key(key@) {
                Some(old(self)@[key@])
            } else {
                None::<V>
            },
            forall|k: Seq<char>|
                final(self).order().contains(k) <==> old(self).order().contains(k) && k != key@,
    {
        let ghost before_list = self.listing();
        proof {
            lemma_assoc_del(before_list, key@);
            self.lemma_order();
        }
        let r = match self.position(key) {
            Some(i) => {
                proof {
                    self.lemma_slot(i as int);
                }
                let removed = self.entries.remove(i);
                assert(self.listing() =~= assoc_del(before_list, key@));
                Some(removed.1)
            },
            None => None,
        };
        proof {
            self.lemma_order();
        }
        r
    }

    /// The keys, in `order`.
    pub fn keys(&self) -> (r: Vec<String>)
        ensures
            crate::text::views(r@) == self.order(),
    {
        let mut r: Vec<String> = Vec::new();
        let mut i: usize = 0;
        while i < self.entries.len()
            invariant
                i <= self.entries@.len(),
                crate::text::views(r@) == self.order().take(i as int),
            decreases self.entries@.len() - i,
        {
            let key = self.entries[i].0.clone();
            assert(key@ == self.order()[i as int]);
            let ghost before = r@;
            r.push(key);
            assert(crate::text::views(r@) =~= crate::text::views(before).push(key@));
            assert(crate::text::views(r@) =~= self.order().take(i as int + 1));
            i += 1;
        }
        assert(self.order().take(self.entries@.len() as int) =~= self.order());
        r
    }
}

} // verus!
