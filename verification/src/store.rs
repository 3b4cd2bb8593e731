//! Ordered key-value and key-set stores used by the registries.
//!
//! Both stores are backed by vectors that keep insertion order, so every walk
//! over them is deterministic. Their abstract views are a `Map` and a `Set`;
//! the order of entries is exposed separately so that callers can state
//! broadcast order exactly.

use vstd::prelude::*;

use crate::watcher::Id;

verus! {

/// The map denoted by an association list: later entries win.
pub open spec fn assoc_map<V>(s: Seq<(Id, V)>) -> Map<Id, V>
    decreases s.len(),
{
    if s.len() == 0 {
        Map::empty()
    } else {
        assoc_map(s.drop_last()).insert(s.last().0, s.last().1)
    }
}

/// The keys of an association list, in entry order.
pub open spec fn assoc_keys<V>(s: Seq<(Id, V)>) -> Seq<Id> {
    s.map_values(|e: (Id, V)| e.0)
}

/// Whether an association list binds each key at most once.
pub open spec fn assoc_distinct<V>(s: Seq<(Id, V)>) -> bool {
    forall|i: int, j: int| 0 <= i < j < s.len() ==> (#[trigger] s[i]).0 != (#[trigger] s[j]).0
}

/// A key is in the denoted map exactly when some entry carries it.
pub proof fn lemma_assoc_map_contains<V>(s: Seq<(Id, V)>, k: Id)
    ensures
        assoc_map(s).contains_key(k) <==> exists|i: int| 0 <= i < s.len() && (#[trigger] s[i]).0 == k,
    decreases s.len(),
{
    if s.len() > 0 {
        lemma_assoc_map_contains(s.drop_last(), k);
        if s.last().0 == k {
            assert((#[trigger] s[s.len() - 1]).0 == k);
        } else if assoc_map(s).contains_key(k) {
            let i = choose|i: int| 0 <= i < s.drop_last().len() && (#[trigger] s.drop_last()[i]).0 == k;
            assert((#[trigger] s[i]).0 == k);
        } else {
            assert(forall|i: int| 0 <= i < s.len() - 1 ==> s.drop_last()[i] == (#[trigger] s[i]));
        }
    }
}

/// In a duplicate-free association list, each entry gives its key's value.
pub proof fn lemma_assoc_map_index<V>(s: Seq<(Id, V)>, i: int)
    requires
        assoc_distinct(s),
        0 <= i < s.len(),
    ensures
        assoc_map(s).contains_key(s[i].0),
        assoc_map(s)[s[i].0] == s[i].1,
    decreases s.len(),
{
    if i == s.len() - 1 {
        lemma_assoc_map_contains(s, s[i].0);
    } else {
        assert(forall|j: int| 0 <= j < s.len() - 1 ==> s.drop_last()[j] == (#[trigger] s[j]));
        lemma_assoc_map_index(s.drop_last(), i);
        assert(s.last().0 != s[i].0);
    }
}

/// Replacing the value at one entry updates the denoted map at that key alone.
pub proof fn lemma_assoc_map_update<V>(s: Seq<(Id, V)>, i: int, v: V)
    requires
        assoc_distinct(s),
        0 <= i < s.len(),
    ensures
        assoc_map(s.update(i, (s[i].0, v))) =~= assoc_map(s).insert(s[i].0, v),
    decreases s.len(),
{
    let t = s.update(i, (s[i].0, v));
    if i == s.len() - 1 {
        assert(t.drop_last() =~= s.drop_last());
    } else {
        assert(t.drop_last() =~= s.drop_last().update(i, (s[i].0, v)));
        assert(forall|j: int| 0 <= j < s.len() - 1 ==> s.drop_last()[j] == (#[trigger] s[j]));
        lemma_assoc_map_update(s.drop_last(), i, v);
        assert(s.last().0 != s[i].0);
    }
}

/// Appending a fresh entry inserts its binding.
pub proof fn lemma_assoc_map_push<V>(s: Seq<(Id, V)>, k: Id, v: V)
    ensures
        assoc_map(s.push((k, v))) =~= assoc_map(s).insert(k, v),
{
    assert(s.push((k, v)).drop_last() =~= s);
}

/// An association list denotes a finite map no larger than itself.
pub proof fn lemma_assoc_map_dom_finite<V>(s: Seq<(Id, V)>)
    ensures
        assoc_map(s).dom().finite(),
        assoc_map(s).dom().len() <= s.len(),
    decreases s.len(),
{
    if s.len() > 0 {
        lemma_assoc_map_dom_finite(s.drop_last());
    }
}

/// A key-value store keyed by watcher identifiers, in insertion order.
#[derive(Debug, Clone)]
pub struct IdMap<V> {
    entries: Vec<(Id, V)>,
}

impl<V> View for IdMap<V> {
    type V = Map<Id, V>;

    closed spec fn view(&self) -> Map<Id, V> {
        assoc_map(self.entries@)
    }
}

impl<V> IdMap<V> {
    /// The entries, in insertion order.
    pub closed spec fn entry_seq(self) -> Seq<(Id, V)> {
        self.entries@
    }

    /// The keys, in insertion order.
    pub open spec fn key_seq(self) -> Seq<Id> {
        assoc_keys(self.entry_seq())
    }

    /// Every key is bound at most once.
    pub closed spec fn wf(self) -> bool {
        assoc_distinct(self.entries@)
    }

    /// The denoted map is the fold of the entries.
    pub proof fn lemma_view(self)
        ensures
            self@ == assoc_map(self.entry_seq()),
    {
    }

    /// The denoted map is finite and no larger than the entry list.
    pub proof fn lemma_dom_finite(self)
        ensures
            self@.dom().finite(),
            self@.dom().len() <= self.entry_seq().len(),
    {
        lemma_assoc_map_dom_finite(self.entries@);
    }

    /// Keys are pairwise distinct along the key order.
    pub proof fn lemma_keys_distinct(self)
        requires
            self.wf(),
        ensures
            forall|i: int, j: int|
                0 <= i < j < self.key_seq().len() ==> self.key_seq()[i] != self.key_seq()[j],
    {
        assert(forall|i: int|
            0 <= i < self.entries@.len() ==> self.key_seq()[i] == (#[trigger] self.entries@[i]).0);
    }

    /// A key is bound exactly when it appears in the key order.
    pub proof fn lemma_contains(self, k: Id)
        ensures
            self@.contains_key(k) <==> self.key_seq().contains(k),
    {
        lemma_assoc_map_contains(self.entries@, k);
        if self.key_seq().contains(k) {
            let i = choose|i: int| 0 <= i < self.key_seq().len() && self.key_seq()[i] == k;
            assert((#[trigger] self.entries@[i]).0 == k);
        } else {
            assert(forall|i: int|
                0 <= i < self.entries@.len() ==> self.key_seq()[i] == (#[trigger] self.entries@[i]).0);
        }
    }

    /// Each entry gives the value its key maps to.
    pub proof fn lemma_entry(self, i: int)
        requires
            self.wf(),
            0 <= i < self.entry_seq().len(),
        ensures
            self@.contains_key(self.entry_seq()[i].0),
            self@[self.entry_seq()[i].0] == self.entry_seq()[i].1,
    {
        lemma_assoc_map_index(self.entries@, i);
    }

    /// An empty store.
    pub fn new() -> (r: IdMap<V>)
        ensures
            r.wf(),
            r@ == Map::<Id, V>::empty(),
            r.entry_seq() == Seq::<(Id, V)>::empty(),
    {
        IdMap { entries: Vec::new() }
    }

    /// How many keys are bound.
    pub fn len(&self) -> (r: usize)
        ensures
            r == self.entry_seq().len(),
    {
        self.entries.len()
    }

    /// The entry at one position of the insertion order.
    pub fn entry_at(&self, i: usize) -> (r: &(Id, V))
        requires
            i < self.entry_seq().len(),
        ensures
            *r == self.entry_seq()[i as int],
    {
        &self.entries[i]
    }

    /// Whether `k` is bound.
    #[verifier::loop_isolation(false)]
    pub fn contains_key(&self, k: Id) -> (r: bool)
        ensures
            r == self@.contains_key(k),
    {
        let mut i: usize = 0;
        while i < self.entries.len()
            invariant
                0 <= i <= self.entries@.len(),
                forall|j: int| 0 <= j < i ==> (#[trigger] self.entries@[j]).0 != k,
            decreases self.entries@.len() - i,
        {
            if self.entries[i].0 == k {
                proof {
                    lemma_assoc_map_contains(self.entries@, k);
                }
                return true;
            }
            i += 1;
        }
        proof {
            lemma_assoc_map_contains(self.entries@, k);
        }
        false
    }

    /// Look up the value bound to `k`.
    #[verifier::loop_isolation(false)]
    pub fn get(&self, k: Id) -> (r: Option<&V>)
        requires
            self.wf(),
        ensures
            match r {
                Some(v) => self@.contains_key(k) && *v == self@[k],
                None => !self@.contains_key(k),
            },
    {
        let mut i: usize = 0;
        while i < self.entries.len()
            invariant
                self.wf(),
                0 <= i <= self.entries@.len(),
                forall|j: int| 0 <= j < i ==> (#[trigger] self.entries@[j]).0 != k,
            decreases self.entries@.len() - i,
        {
            if self.entries[i].0 == k {
                proof {
                    lemma_assoc_map_index(self.entries@, i as int);
                }
                return Some(&self.entries[i].1);
            }
            i += 1;
        }
        proof {
            lemma_assoc_map_contains(self.entries@, k);
        }
        None
    }

    /// Bind `k` to `v`, replacing any previous binding in place.
    #[verifier::loop_isolation(false)]
    pub fn insert(&mut self, k: Id, v: V)
        requires
            old(self).wf(),
        ensures
            final(self).wf(),
            final(self)@ == old(self)@.insert(k, v),
            final(self).key_seq() == if old(self)@.contains_key(k) {
                old(self).key_seq()
            } else {
                old(self).key_seq().push(k)
            },
    {
        let ghost orig = self.entries@;
        let mut i: usize = 0;
        while i < self.entries.len()
            invariant
                self.entries@ == orig,
                0 <= i <= orig.len(),
                forall|j: int| 0 <= j < i ==> (#[trigger] orig[j]).0 != k,
            decreases orig.len() - i,
        {
            if self.entries[i].0 == k {
                proof {
                    lemma_assoc_map_update(orig, i as int, v);
                    lemma_assoc_map_contains(orig, k);
                }
                self.entries[i] = (k, v);
                proof {
                    assert(self.key_seq() =~= old(self).key_seq());
                }
                return ;
            }
            i += 1;
        }
        proof {
            lemma_assoc_map_push(orig, k, v);
            lemma_assoc_map_contains(orig, k);
        }
        self.entries.push((k, v));
        proof {
            assert(self.key_seq() =~= old(self).key_seq().push(k));
            assert forall|a: int, b: int| 0 <= a < b < self.entries@.len() implies (
            #[trigger] self.entries@[a]).0 != (#[trigger] self.entries@[b]).0 by {
                if b == self.entries@.len() - 1 {
                    assert((#[trigger] orig[a]).0 != k);
                }
            }
        }
    }

    /// The position of `k` in the insertion order, if it is bound.
    #[verifier::loop_isolation(false)]
    pub fn get_index(&self, k: Id) -> (r: Option<usize>)
        ensures
            match r {
                Some(i) => i < self.entry_seq().len() && self.entry_seq()[i as int].0 == k,
                None => !self@.contains_key(k),
            },
    {
        let mut i: usize = 0;
        while i < self.entries.len()
            invariant
                0 <= i <= self.entries@.len(),
                forall|j: int| 0 <= j < i ==> (#[trigger] self.entries@[j]).0 != k,
            decreases self.entries@.len() - i,
        {
            if self.entries[i].0 == k {
                return Some(i);
            }
            i += 1;
        }
        proof {
            lemma_assoc_map_contains(self.entries@, k);
        }
        None
    }

    /// Replace the value at one position of the insertion order.
    pub fn set_at(&mut self, i: usize, v: V)
        requires
            old(self).wf(),
            i < old(self).entry_seq().len(),
        ensures
            final(self).wf(),
            final(self)@ == old(self)@.insert(old(self).entry_seq()[i as int].0, v),
            final(self).entry_seq() == old(self).entry_seq().update(
                i as int,
                (old(self).entry_seq()[i as int].0, v),
            ),
            final(self).key_seq() == old(self).key_seq(),
    {
        let k = self.entries[i].0;
        self.entries[i] = (k, v);
        proof {
            lemma_assoc_map_update(old(self).entries@, i as int, v);
            assert(self.key_seq() =~= old(self).key_seq());
        }
    }
}

/// A set of identifiers in insertion order.
#[derive(Debug, Clone)]
pub struct IdSet {
    items: Vec<Id>,
}

impl View for IdSet {
    type V = Set<Id>;

    closed spec fn view(&self) -> Set<Id> {
        self.items@.to_set()
    }
}

impl IdSet {
    /// The members, in insertion order.
    pub closed spec fn item_seq(self) -> Seq<Id> {
        self.items@
    }

    /// No member is listed twice.
    pub closed spec fn wf(self) -> bool {
        forall|i: int, j: int| 0 <= i < j < self.items@.len() ==> self.items@[i] != self.items@[j]
    }

    /// Membership and the order agree.
    pub proof fn lemma_view(self)
        ensures
            forall|k: Id| self@.contains(k) <==> self.item_seq().contains(k),
    {
    }

    /// Members are pairwise distinct along the order.
    pub proof fn lemma_items_distinct(self)
        requires
            self.wf(),
        ensures
            forall|i: int, j: int|
                #![trigger self.item_seq()[i], self.item_seq()[j]]
                0 <= i < j < self.item_seq().len() ==> self.item_seq()[i] != self.item_seq()[j],
    {
    }

    /// An empty set.
    pub fn new() -> (r: IdSet)
        ensures
            r.wf(),
            r@ == Set::<Id>::empty(),
            r.item_seq() == Seq::<Id>::empty(),
    {
        let items: Vec<Id> = Vec::new();
        proof {
            assert(items@.to_set() =~= Set::<Id>::empty());
        }
        IdSet { items }
    }

    /// How many members there are.
    pub fn len(&self) -> (r: usize)
        ensures
            r == self.item_seq().len(),
    {
        self.items.len()
    }

    /// The member at one position of the insertion order.
    pub fn item_at(&self, i: usize) -> (r: Id)
        requires
            i < self.item_seq().len(),
        ensures
            r == self.item_seq()[i as int],
    {
        self.items[i]
    }

    /// Whether `k` is a member.
    #[verifier::loop_isolation(false)]
    pub fn contains(&self, k: Id) -> (r: bool)
        ensures
            r == self@.contains(k),
    {
        let mut i: usize = 0;
        while i < self.items.len()
            invariant
                0 <= i <= self.items@.len(),
                forall|j: int| 0 <= j < i ==> self.items@[j] != k,
            decreases self.items@.len() - i,
        {
            if self.items[i] == k {
                return true;
            }
            i += 1;
        }
        proof {
            assert(!self.items@.contains(k));
        }
        false
    }

    /// Add `k` if absent; appended at the end of the order.
    #[verifier::loop_isolation(false)]
    pub fn insert(&mut self, k: Id)
        requires
            old(self).wf(),
        ensures
            final(self).wf(),
            final(self)@ == old(self)@.insert(k),
            final(self).item_seq() == if old(self)@.contains(k) {
                old(self).item_seq()
            } else {
                old(self).item_seq().push(k)
            },
    {
        if !self.contains(k) {
            self.items.push(k);
            proof {
                let n = old(self).items@.len() as int;
                assert forall|a: Id| self.items@.to_set().contains(a) implies old(
                    self,
                ).items@.to_set().insert(k).contains(a) by {
                    let j = choose|j: int| 0 <= j < self.items@.len() && self.items@[j] == a;
                    if j < n {
                        assert(old(self).items@[j] == a);
                    }
                }
                assert forall|a: Id| old(self).items@.to_set().insert(k).contains(a) implies
                    self.items@.to_set().contains(a) by {
                    if a == k {
                        assert(self.items@[n] == a);
                    } else {
                        let j = choose|j: int|
                            0 <= j < old(self).items@.len() && old(self).items@[j] == a;
                        assert(self.items@[j] == a);
                    }
                }
                assert(self.items@.to_set() =~= old(self).items@.to_set().insert(k));
            }
        } else {
            proof {
                assert(self.items@.to_set() =~= old(self).items@.to_set().insert(k));
            }
        }
    }

    /// Drop `k`, keeping the order of the others.
    #[verifier::loop_isolation(false)]
    pub fn remove(&mut self, k: Id)
        requires
            old(self).wf(),
        ensures
            final(self).wf(),
            final(self)@ == old(self)@.remove(k),
            final(self).item_seq() == old(self).item_seq().remove_value(k),
    {
        let ghost orig = self.items@;
        let mut i: usize = 0;
        while i < self.items.len()
            invariant
                self.items@ == orig,
                0 <= i <= orig.len(),
                forall|j: int| 0 <= j < i ==> orig[j] != k,
            decreases orig.len() - i,
        {
            if self.items[i] == k {
                self.items.remove(i);
                proof {
                    assert(orig.index_of_first(k) == Some(i as int)) by {
                        orig.index_of_first_ensures(k);
                    }
                    assert(self.item_seq() =~= old(self).item_seq().remove_value(k));
                    lemma_seq_remove_to_set(orig, i as int);
                }
                return ;
            }
            i += 1;
        }
        proof {
            assert(!orig.contains(k));
            assert(orig.index_of_first(k) == None::<int>) by {
                orig.index_of_first_ensures(k);
            }
            assert(self@ =~= old(self)@.remove(k));
        }
    }
}

/// Removing one occurrence from a duplicate-free order removes the member.
proof fn lemma_seq_remove_to_set(s: Seq<Id>, i: int)
    requires
        forall|a: int, b: int| 0 <= a < b < s.len() ==> s[a] != s[b],
        0 <= i < s.len(),
    ensures
        s.remove(i).to_set() =~= s.to_set().remove(s[i]),
{
    let t = s.remove(i);
    assert forall|k: Id| t.to_set().contains(k) implies s.to_set().remove(s[i]).contains(k) by {
        let j = choose|j: int| 0 <= j < t.len() && t[j] == k;
        if j < i {
            assert(s[j] == k);
        } else {
            assert(s[j + 1] == k);
        }
    }
    assert forall|k: Id| s.to_set().remove(s[i]).contains(k) implies t.to_set().contains(k) by {
        let j = choose|j: int| 0 <= j < s.len() && s[j] == k;
        if j < i {
            assert(t[j] == k);
        } else {
            assert(t[j - 1] == k);
        }
    }
}

} // verus!
