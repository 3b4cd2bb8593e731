//! The name registry: a profanity-filtered, unique name-to-identifier bimap.
//!
//! Three structures are kept in step: the mapping from identifier to name,
//! the reverse mapping from name to identifier, and the set of taken names.
//! `set_name` is the only mutator and is all-or-nothing: on any failure all
//! three are left unchanged.

use vstd::prelude::*;
use vstd::string::StrSliceExecFns;

use crate::store::IdMap;
use crate::watcher::Id;

verus! {

/// The longest name accepted, in characters, before trimming.
pub const MAX_NAME_LENGTH: usize = 30;

/// What `rustrict::trim_whitespace` leaves of a string: both ends stripped of
/// whitespace in rustrict's broad sense. The result depends on the characters
/// alone.
pub uninterp spec fn trimmed_of(s: Seq<char>) -> Seq<char>;

/// Whether rustrict's filter deems a string inappropriate. The verdict
/// depends on the characters alone (this crate never customises the filter's
/// word lists).
pub uninterp spec fn inappropriate(s: Seq<char>) -> bool;

/// Relies on `rustrict::trim_whitespace`: returns a slice of its input with
/// both ends stripped, so the result is never longer and an empty string
/// stays empty.
#[verifier::external_body]
fn trim_whitespace(s: &str) -> (r: String)
    ensures
        r@ == trimmed_of(s@),
        r@.len() <= s@.len(),
        s@.len() == 0 ==> r@.len() == 0,
{
    rustrict::trim_whitespace(s).to_string()
}

/// Relies on `rustrict::CensorStr::is_inappropriate`: profanity analysis of
/// the characters alone.
#[verifier::external_body]
fn str_is_inappropriate(s: &str) -> (r: bool)
    ensures
        r == inappropriate(s@),
{
    rustrict::CensorStr::is_inappropriate(s)
}

/// Why a requested name was refused.
#[derive(Debug, Clone, Copy, PartialEq, Eq, Structural)]
pub enum Error {
    /// The name is already in use.
    Used,
    /// The requester already has a name.
    Assigned,
    /// The name is empty after trimming.
    Empty,
    /// The name is inappropriate.
    Sinful,
    /// The name is too long.
    TooLong,
}

/// The name registry.
#[derive(Debug)]
pub struct Names {
    mapping: IdMap<String>,
    reverse_mapping: Vec<(String, Id)>,
    existing: Vec<String>,
}

impl Names {
    /// The identifier-to-name mapping.
    pub closed spec fn name_map(self) -> Map<Id, String> {
        self.mapping@
    }

    /// Whether some identifier holds the name `n`.
    pub open spec fn name_bound(self, n: Seq<char>) -> bool {
        exists|id: Id| #[trigger] self.name_map().contains_key(id) && self.name_map()[id]@ == n
    }

    /// Whether `n` is on the taken list.
    pub closed spec fn name_taken(self, n: Seq<char>) -> bool {
        exists|i: int| 0 <= i < self.existing@.len() && (#[trigger] self.existing@[i])@ == n
    }

    /// The registry's well-formedness: the taken list holds exactly the names
    /// bound in the mapping, without duplicates; the reverse mapping holds
    /// exactly the inverse pairs of the mapping; and no two identifiers hold
    /// the same name.
    pub closed spec fn wf(self) -> bool {
        &&& self.mapping.wf()
        &&& forall|i: int, j: int|
            0 <= i < j < self.existing@.len() ==> (#[trigger] self.existing@[i])@ != (
            #[trigger] self.existing@[j])@
        &&& forall|n: Seq<char>| #[trigger] self.name_taken(n) <==> self.name_bound(n)
        &&& forall|i: int|
            0 <= i < self.reverse_mapping@.len() ==> {
                &&& self.name_map().contains_key((#[trigger] self.reverse_mapping@[i]).1)
                &&& self.name_map()[self.reverse_mapping@[i].1]@ == self.reverse_mapping@[i].0@
            }
        &&& forall|id: Id|
            #[trigger] self.name_map().contains_key(id) ==> exists|i: int|
                0 <= i < self.reverse_mapping@.len() && (#[trigger] self.reverse_mapping@[i]).1
                    == id
        &&& forall|a: Id, b: Id|
            #[trigger] self.name_map().contains_key(a) && #[trigger] self.name_map().contains_key(
                b,
            ) && self.name_map()[a]@ == self.name_map()[b]@ ==> a == b
    }

    /// The set of registry entries equals the set of taken names.
    pub proof fn lemma_entries_equal_taken(self, n: Seq<char>)
        requires
            self.wf(),
        ensures
            self.name_taken(n) <==> self.name_bound(n),
    {
    }

    /// Looking a named watcher's name back up yields the same watcher: names
    /// are bound to at most one identifier.
    pub proof fn lemma_name_roundtrip(self, a: Id, b: Id)
        requires
            self.wf(),
            self.name_map().contains_key(a),
            self.name_map().contains_key(b),
            self.name_map()[a]@ == self.name_map()[b]@,
        ensures
            a == b,
    {
    }

    /// An empty registry.
    pub fn new() -> (r: Names)
        ensures
            r.wf(),
            r.name_map() == Map::<Id, String>::empty(),
            forall|n: Seq<char>| !r.name_taken(n),
    {
        let r = Names { mapping: IdMap::new(), reverse_mapping: Vec::new(), existing: Vec::new() };
        proof {
            assert(forall|n: Seq<char>| !r.name_taken(n));
            assert(forall|n: Seq<char>| !r.name_bound(n));
        }
        r
    }

    /// The name this identifier holds, if any.
    pub fn get_name(&self, id: Id) -> (r: Option<String>)
        requires
            self.wf(),
        ensures
            match r {
                Some(name) => self.name_map().contains_key(id) && name@ == self.name_map()[id]@,
                None => !self.name_map().contains_key(id),
            },
    {
        match self.mapping.get(id) {
            Some(name) => Some(name.clone()),
            None => None,
        }
    }

    /// The identifier holding this name, if any.
    #[verifier::loop_isolation(false)]
    pub fn get_id(&self, name: &str) -> (r: Option<Id>)
        requires
            self.wf(),
        ensures
            match r {
                Some(id) => self.name_map().contains_key(id) && self.name_map()[id]@ == name@,
                None => !self.name_bound(name@),
            },
    {
        let owned: String = name.to_string();
        let mut i: usize = 0;
        while i < self.reverse_mapping.len()
            invariant
                0 <= i <= self.reverse_mapping@.len(),
                forall|j: int| 0 <= j < i ==> (#[trigger] self.reverse_mapping@[j]).0@ != name@,
            decreases self.reverse_mapping@.len() - i,
        {
            if self.reverse_mapping[i].0 == owned {
                return Some(self.reverse_mapping[i].1);
            }
            i += 1;
        }
        proof {
            if self.name_bound(name@) {
                let id = choose|id: Id| #[trigger]
                    self.name_map().contains_key(id) && self.name_map()[id]@ == name@;
                let j = choose|j: int|
                    0 <= j < self.reverse_mapping@.len() && (#[trigger] self.reverse_mapping@[j]).1
                        == id;
                assert((#[trigger] self.reverse_mapping@[j]).0@ == name@);
            }
        }
        None
    }

    /// Request a name for `id`.
    ///
    /// The checks run in order: length, trimmed emptiness, profanity,
    /// uniqueness, requester already named. On any failure nothing changes;
    /// on success the trimmed name is bound to `id` and returned.
    #[verifier::loop_isolation(false)]
    pub fn set_name(&mut self, id: Id, name: &str) -> (r: Result<String, Error>)
        requires
            old(self).wf(),
        ensures
            final(self).wf(),
            ({
                let trimmed = trimmed_of(name@);
                match r {
                    Err(Error::TooLong) => name@.len() > MAX_NAME_LENGTH && *final(self) == *old(
                        self,
                    ),
                    Err(Error::Empty) => name@.len() <= MAX_NAME_LENGTH && trimmed.len() == 0
                        && *final(self) == *old(self),
                    Err(Error::Sinful) => name@.len() <= MAX_NAME_LENGTH && trimmed.len() > 0
                        && inappropriate(trimmed) && *final(self) == *old(self),
                    Err(Error::Used) => name@.len() <= MAX_NAME_LENGTH && trimmed.len() > 0
                        && !inappropriate(trimmed) && old(self).name_taken(trimmed) && *final(self)
                        == *old(self),
                    Err(Error::Assigned) => name@.len() <= MAX_NAME_LENGTH && trimmed.len() > 0
                        && !inappropriate(trimmed) && !old(self).name_taken(trimmed) && old(
                        self,
                    ).name_map().contains_key(id) && *final(self) == *old(self),
                    Ok(assigned) => {
                        &&& name@.len() <= MAX_NAME_LENGTH
                        &&& trimmed.len() > 0
                        &&& !inappropriate(trimmed)
                        &&& !old(self).name_taken(trimmed)
                        &&& !old(self).name_map().contains_key(id)
                        &&& assigned@ == trimmed
                        &&& final(self).name_map() == old(self).name_map().insert(id, assigned)
                    },
                }
            }),
    {
        if name.unicode_len() > MAX_NAME_LENGTH {
            return Err(Error::TooLong);
        }
        let trimmed = trim_whitespace(name);
        if trimmed.unicode_len() == 0 {
            return Err(Error::Empty);
        }
        if str_is_inappropriate(trimmed.as_str()) {
            return Err(Error::Sinful);
        }
        let mut i: usize = 0;
        while i < self.existing.len()
            invariant
                0 <= i <= self.existing@.len(),
                forall|j: int| 0 <= j < i ==> (#[trigger] self.existing@[j])@ != trimmed@,
            decreases self.existing@.len() - i,
        {
            if self.existing[i] == trimmed {
                return Err(Error::Used);
            }
            i += 1;
        }
        if self.mapping.contains_key(id) {
            return Err(Error::Assigned);
        }
        let assigned = trimmed.clone();
        self.existing.push(trimmed);
        self.mapping.insert(id, assigned.clone());
        self.reverse_mapping.push((assigned.clone(), id));
        proof {
            let trimmed_view = trimmed_of(name@);
            let n0 = old(self).existing@.len() as int;
            assert(self.existing@.len() == n0 + 1);
            assert((#[trigger] self.existing@[n0])@ == trimmed_view);
            assert(forall|j: int| 0 <= j < n0 ==> self.existing@[j] == old(self).existing@[j]);
            assert(self.name_map() == old(self).name_map().insert(id, assigned));
            let m0 = old(self).reverse_mapping@.len() as int;
            assert(self.reverse_mapping@.len() == m0 + 1);
            assert((#[trigger] self.reverse_mapping@[m0]).1 == id);
            assert(self.reverse_mapping@[m0].0@ == trimmed_view);
            assert(forall|j: int|
                0 <= j < m0 ==> self.reverse_mapping@[j] == old(self).reverse_mapping@[j]);
            assert forall|n: Seq<char>| #[trigger]
                self.name_taken(n) <==> self.name_bound(n) by {
                if n == trimmed_view {
                    assert((#[trigger] self.existing@[self.existing@.len() - 1])@ == n);
                    assert(self.name_map().contains_key(id) && self.name_map()[id]@ == n);
                } else {
                    if self.name_taken(n) {
                        let j = choose|j: int|
                            0 <= j < self.existing@.len() && (#[trigger] self.existing@[j])@ == n;
                        assert(0 <= j < self.existing@.len() && (self.existing@[j])@ == n);
                        assert(j != n0);
                        assert((old(self).existing@[j])@ == n);
                        assert(old(self).name_taken(n));
                        assert(old(self).name_bound(n));
                        let w = choose|w: Id| #[trigger]
                            old(self).name_map().contains_key(w) && old(self).name_map()[w]@ == n;
                        assert(w != id);
                        assert(self.name_map().contains_key(w) && self.name_map()[w]@ == n);
                    }
                    if self.name_bound(n) {
                        let w = choose|w: Id| #[trigger]
                            self.name_map().contains_key(w) && self.name_map()[w]@ == n;
                        assert(w != id);
                        assert(old(self).name_map().contains_key(w));
                        assert(old(self).name_taken(n));
                        let j = choose|j: int|
                            0 <= j < old(self).existing@.len() && (#[trigger] old(
                                self,
                            ).existing@[j])@ == n;
                        assert((#[trigger] self.existing@[j])@ == n);
                    }
                }
            }
            assert forall|w: Id| #[trigger]
                self.name_map().contains_key(w) implies exists|j: int|
                0 <= j < self.reverse_mapping@.len() && (#[trigger] self.reverse_mapping@[j]).1
                    == w by {
                if w == id {
                    assert((#[trigger] self.reverse_mapping@[self.reverse_mapping@.len() - 1]).1
                        == w);
                } else {
                    let j = choose|j: int|
                        0 <= j < old(self).reverse_mapping@.len() && (#[trigger] old(
                            self,
                        ).reverse_mapping@[j]).1 == w;
                    assert((#[trigger] self.reverse_mapping@[j]).1 == w);
                }
            }
            assert forall|a: Id, b: Id|
                #[trigger] self.name_map().contains_key(a)
                    && #[trigger] self.name_map().contains_key(b) && self.name_map()[a]@
                    == self.name_map()[b]@ implies a == b by {
                if a != id && b != id {
                    assert(old(self).name_map().contains_key(a));
                    assert(old(self).name_map().contains_key(b));
                } else if a == id && b != id {
                    assert(old(self).name_map().contains_key(b));
                    assert(old(self).name_bound(trimmed_view));
                    assert(old(self).name_taken(trimmed_view));
                } else if a != id && b == id {
                    assert(old(self).name_map().contains_key(a));
                    assert(old(self).name_bound(trimmed_view));
                    assert(old(self).name_taken(trimmed_view));
                }
            }
        }
        Ok(assigned)
    }
}

} // verus!
