//! The team manager: partitions players into named teams.
//!
//! Before finalization it collects preference lists. Finalization groups the
//! players by mutual preference anchors, shuffles within each group for
//! attack resistance, greedily merges small groups up to the target size,
//! and gives each team a pluralized petname drawn through the name registry.
//! After finalization, late joiners are assigned round-robin.
//!
//! The manager's well-formedness ties the player-to-team mapping and the
//! team-to-players lists together: every assigned player sits in exactly one
//! team's list, at the position its mapping claims.

use vstd::prelude::*;
use vstd::set_lib::lemma_len_subset;

use crate::names::Names;
use crate::store::{IdMap, IdSet};
use crate::watcher::{Id, PlayerValue, Value, Watchers};
use crate::TruncatedVec;

verus! {

/// How many petname draws are attempted before a team keeps an unregistered
/// name.
pub const NAME_ATTEMPTS: usize = 64;

/// What `pluralizer::pluralize` makes of a word for a count of two, without
/// the count. The result depends on the word alone (this crate never
/// customises the rule lists).
pub uninterp spec fn plural_of(s: Seq<char>) -> Seq<char>;

/// Relies on `pluralizer::pluralize` with count two: the plural form of the
/// word, computed from the word alone.
#[verifier::external_body]
fn pluralize_word(word: &str) -> (r: String)
    ensures
        r@ == plural_of(word@),
{
    pluralizer::pluralize(word, 2, false)
}

/// Relies on `petname::petname`: two random English words joined by a space,
/// or none if the word lists are empty; nothing is promised of the value.
#[verifier::external_body]
fn random_petname() -> Option<String> {
    petname::petname(2, " ")
}

/// Relies on `fastrand::shuffle`: permutes the identifiers in place, keeping
/// them as a multiset; nothing is promised of the order.
#[verifier::external_body]
fn shuffle_ids(items: &mut Vec<Id>)
    ensures
        final(items)@.to_multiset() == old(items)@.to_multiset(),
        final(items)@.len() == old(items)@.len(),
{
    fastrand::shuffle(items.as_mut_slice());
}

/// The team manager.
pub struct TeamManager {
    player_to_team: IdMap<Id>,
    optimal_size: usize,
    assign_random: bool,
    preferences: IdMap<Vec<Id>>,
    teams: Option<Vec<(Id, String)>>,
    next_team_to_receive_player: usize,
    team_to_players: IdMap<Vec<Id>>,
}

impl TeamManager {
    /// The target initial team size.
    pub closed spec fn spec_optimal_size(self) -> usize {
        self.optimal_size
    }

    /// The target initial team size.
    /// How many teams exist.
    pub closed spec fn spec_team_count(self) -> nat {
        self.team_to_players.key_seq().len()
    }

    pub fn max_team_size(&self) -> (r: usize)
        ensures
            r == self.spec_optimal_size(),
    {
        self.optimal_size
    }

    /// The player-to-team mapping.
    pub closed spec fn team_map(self) -> Map<Id, Id> {
        self.player_to_team@
    }

    /// The team membership lists.
    pub closed spec fn members_map(self) -> Map<Id, Vec<Id>> {
        self.team_to_players@
    }

    /// Whether the partition has been frozen.
    pub closed spec fn finalized(self) -> bool {
        self.teams is Some
    }

    /// The formed teams, in creation order.
    pub closed spec fn team_seq(self) -> Seq<(Id, String)> {
        self.teams->Some_0@
    }

    /// Mapping and membership lists agree: every assigned player sits in
    /// exactly the list its mapping names, lists hold no duplicates, every
    /// team in the roster has a list, and an unfinalized manager has no
    /// assignments.
    pub closed spec fn wf(self) -> bool {
        &&& self.player_to_team.wf()
        &&& self.team_to_players.wf()
        &&& self.preferences.wf()
        &&& forall|p: Id|
            #[trigger] self.team_map().contains_key(p) ==> self.members_map().contains_key(
                self.team_map()[p],
            ) && self.members_map()[self.team_map()[p]]@.contains(p)
        &&& forall|t: Id, i: int|
            self.members_map().contains_key(t) && 0 <= i < self.members_map()[t]@.len()
                ==> self.team_map().contains_key(#[trigger] self.members_map()[t]@[i])
                && self.team_map()[self.members_map()[t]@[i]] == t
        &&& forall|t: Id, i: int, j: int|
            #![trigger self.members_map()[t]@[i], self.members_map()[t]@[j]]
            self.members_map().contains_key(t) && 0 <= i < j < self.members_map()[t]@.len()
                ==> self.members_map()[t]@[i] != self.members_map()[t]@[j]
        &&& (self.teams matches Some(ts) ==> {
            &&& ts@.len() >= 1
            &&& (forall|i: int, j: int|
                0 <= i < j < ts@.len() ==> (#[trigger] ts@[i]).0 != (#[trigger] ts@[j]).0)
            &&& (forall|i: int|
                0 <= i < ts@.len() ==> self.members_map().contains_key((#[trigger] ts@[i]).0))
            &&& (forall|t: Id|
                #[trigger] self.members_map().contains_key(t) ==> exists|i: int|
                    0 <= i < ts@.len() && (#[trigger] ts@[i]).0 == t)
        })
        &&& (self.teams is None ==> self.team_map() == Map::<Id, Id>::empty()
            && self.members_map() == Map::<Id, Vec<Id>>::empty())
    }

    /// With a target team size of one every finalized team is a single
    /// player's own: an assigned player's member list is exactly themselves.
    pub proof fn lemma_singleton_teams(self, p: Id)
        requires
            self.wf(),
            self.team_map().contains_key(p),
            forall|t: Id|
                #[trigger] self.members_map().contains_key(t) ==> self.members_map()[t]@.len()
                    <= 1,
        ensures
            self.members_map()[self.team_map()[p]]@ =~= seq![p],
    {
        let t = self.team_map()[p];
        assert(self.members_map().contains_key(t));
        assert(self.members_map()[t]@.contains(p));
        let k = choose|k: int|
            0 <= k < self.members_map()[t]@.len() && self.members_map()[t]@[k] == p;
        assert(k == 0);
    }

    /// Every assigned player is in exactly one team: any two teams whose
    /// lists share a player are the same team.
    pub proof fn lemma_one_team(self, t1: Id, t2: Id, p: Id)
        requires
            self.wf(),
            self.members_map().contains_key(t1),
            self.members_map().contains_key(t2),
            self.members_map()[t1]@.contains(p),
            self.members_map()[t2]@.contains(p),
        ensures
            t1 == t2,
    {
        let i = choose|i: int|
            0 <= i < self.members_map()[t1]@.len() && self.members_map()[t1]@[i] == p;
        assert(self.members_map().contains_key(t1) && 0 <= i < self.members_map()[t1]@.len());
        assert(self.team_map()[#[trigger] self.members_map()[t1]@[i]] == t1);
        let j = choose|j: int|
            0 <= j < self.members_map()[t2]@.len() && self.members_map()[t2]@[j] == p;
        assert(self.team_map()[#[trigger] self.members_map()[t2]@[j]] == t2);
    }

    /// A fresh manager accepting preferences (unless random assignment was
    /// chosen).
    pub fn new(optimal_size: usize, assign_random: bool) -> (r: TeamManager)
        ensures
            r.wf(),
            !r.finalized(),
            r.spec_optimal_size() == optimal_size,
            r.spec_is_random_assignments() == assign_random,
    {
        TeamManager {
            player_to_team: IdMap::new(),
            team_to_players: IdMap::new(),
            assign_random,
            optimal_size,
            preferences: IdMap::new(),
            teams: None,
            next_team_to_receive_player: 0,
        }
    }

    /// Whether teams are assigned at random instead of by preference.
    pub closed spec fn spec_is_random_assignments(self) -> bool {
        self.assign_random
    }

    /// Whether teams are assigned at random instead of by preference.
    pub fn is_random_assignments(&self) -> (r: bool)
        ensures
            r == self.spec_is_random_assignments(),
    {
        self.assign_random
    }

    /// The team a player belongs to, if any.
    pub fn get_team(&self, player_id: Id) -> (r: Option<Id>)
        requires
            self.wf(),
        ensures
            match r {
                Some(t) => self.team_map().contains_key(player_id) && self.team_map()[player_id]
                    == t,
                None => !self.team_map().contains_key(player_id),
            },
    {
        match self.player_to_team.get(player_id) {
            Some(t) => Some(*t),
            None => None,
        }
    }

    /// Record a player's teammate preferences (ignored in random mode).
    pub fn set_preferences(&mut self, player_id: Id, preferences: Vec<Id>)
        requires
            old(self).wf(),
        ensures
            final(self).wf(),
            final(self).finalized() == old(self).finalized(),
            final(self).team_map() == old(self).team_map(),
            final(self).members_map() == old(self).members_map(),
            final(self).team_seq() == old(self).team_seq(),
            final(self).spec_optimal_size() == old(self).spec_optimal_size(),
            final(self).spec_is_random_assignments() == old(self).spec_is_random_assignments(),
    {
        proof {
            assert(old(self).preferences.wf());
        }
        if !self.assign_random {
            self.preferences.insert(player_id, preferences);
        }
        proof {
            assert(self.team_map() == old(self).team_map());
            assert(self.members_map() == old(self).members_map());
            assert(self.teams == old(self).teams);
            assert(self.preferences.wf());
            assert(self.wf());
        }
    }

    /// A player's stated preferences, if any.
    pub fn get_preferences(&self, watcher_id: Id) -> (r: Option<Vec<Id>>)
        requires
            self.wf(),
    {
        if self.assign_random {
            return None;
        }
        match self.preferences.get(watcher_id) {
            Some(v) => Some(copy_ids(v)),
            None => None,
        }
    }

    /// The formed team names, truncated for display.
    pub fn team_names(&self) -> (r: Option<TruncatedVec<String>>)
        requires
            self.wf(),
        ensures
            r is Some <==> self.finalized(),
    {
        match &self.teams {
            Some(ts) => {
                let mut names: Vec<String> = Vec::new();
                let mut i: usize = 0;
                while i < ts.len()
                    invariant
                        0 <= i <= ts@.len(),
                        names@.len() == i,
                    decreases ts@.len() - i,
                {
                    names.push(ts[i].1.clone());
                    i += 1;
                }
                let count = ts.len();
                Some(TruncatedVec::new(names, 50, count))
            },
            None => None,
        }
    }

    /// All team identifiers, in creation order; empty before finalization.
    pub fn all_ids(&self) -> (r: Vec<Id>)
        requires
            self.wf(),
        ensures
            r@.len() == if self.finalized() {
                self.team_seq().len()
            } else {
                0
            },
            forall|i: int| 0 <= i < r@.len() ==> (#[trigger] r@[i]) == self.team_seq()[i].0,
            forall|i: int|
                0 <= i < r@.len() ==> self.members_map().contains_key(#[trigger] r@[i]),
    {
        match &self.teams {
            Some(ts) => {
                let mut r: Vec<Id> = Vec::new();
                let mut i: usize = 0;
                while i < ts.len()
                    invariant
                        0 <= i <= ts@.len(),
                        r@.len() == i,
                        forall|j: int| 0 <= j < i ==> (#[trigger] r@[j]) == ts@[j].0,
                    decreases ts@.len() - i,
                {
                    r.push(ts[i].0);
                    i += 1;
                }
                proof {
                    assert forall|i2: int| 0 <= i2 < r@.len() implies self.members_map(
                    ).contains_key(#[trigger] r@[i2]) by {
                        assert(self.members_map().contains_key((self.teams->Some_0)@[i2].0));
                    }
                }
                r
            },
            None => Vec::new(),
        }
    }

    /// The members of a player's team, if the player is assigned.
    pub fn team_members(&self, player_id: Id) -> (r: Option<Vec<Id>>)
        requires
            self.wf(),
        ensures
            match r {
                Some(members) => self.team_map().contains_key(player_id) && members@
                    == self.members_map()[self.team_map()[player_id]]@,
                None => !self.team_map().contains_key(player_id),
            },
    {
        match self.player_to_team.get(player_id) {
            Some(t) => match self.team_to_players.get(*t) {
                Some(members) => Some(copy_ids(members)),
                None => None,
            },
            None => None,
        }
    }

    /// How many of a player's teammates (the player included) are alive.
    pub fn alive_members_count(&self, player_id: Id, connected: &IdSet) -> (r: Option<usize>)
        requires
            self.wf(),
        ensures
            r is Some <==> self.team_map().contains_key(player_id),
    {
        match self.team_members(player_id) {
            Some(members) => {
                let mut count: usize = 0;
                let mut i: usize = 0;
                while i < members.len()
                    invariant
                        0 <= i <= members@.len(),
                        count <= i,
                    decreases members@.len() - i,
                {
                    if connected.contains(members[i]) {
                        count += 1;
                    }
                    i += 1;
                }
                Some(count)
            },
            None => None,
        }
    }

    /// A player's position within their team's member list after filtering
    /// to registered members, used for answer-visibility rotation. A player
    /// who is not registered themselves gets nothing.
    pub fn team_index(&self, player_id: Id, watchers: &Watchers) -> (r: Option<usize>)
        requires
            self.wf(),
            watchers.wf(),
        ensures
            !self.team_map().contains_key(player_id) ==> r is None,
            self.team_map().contains_key(player_id) && !watchers.value_map().contains_key(
                player_id,
            ) ==> r is None,
            self.team_map().contains_key(player_id) && watchers.value_map().contains_key(
                player_id,
            ) ==> exists|k: int|
                {
                    &&& 0 <= k < self.members_map()[self.team_map()[player_id]]@.len()
                    &&& (#[trigger] self.members_map()[self.team_map()[player_id]]@[k])
                        == player_id
                    &&& r matches Some(ix) && ix as int == spec_registered_before(
                        self.members_map()[self.team_map()[player_id]]@,
                        *watchers,
                        k,
                    )
                },
    {
        match self.team_members(player_id) {
            Some(members) => {
                let ghost ms = self.members_map()[self.team_map()[player_id]]@;
                let mut index: usize = 0;
                let mut i: usize = 0;
                while i < members.len()
                    invariant
                        0 <= i <= members@.len(),
                        index <= i,
                        members@ == ms,
                        self.team_map().contains_key(player_id),
                        ms == self.members_map()[self.team_map()[player_id]]@,
                        forall|k: int|
                            0 <= k < i ==> (ms[k] != player_id || !watchers.value_map().contains_key(
                                #[trigger] ms[k],
                            )),
                        index as int == spec_registered_before(ms, *watchers, i as int),
                    decreases members@.len() - i,
                {
                    if watchers.has_watcher(members[i]) {
                        if members[i] == player_id {
                            proof {
                                assert(0 <= i < ms.len() && ms[i as int] == player_id);
                            }
                            return Some(index);
                        }
                        index += 1;
                    }
                    i += 1;
                }
                proof {
                    if watchers.value_map().contains_key(player_id) {
                        // Well-formedness puts every assigned player in their
                        // team's member list, so a registered player cannot
                        // be missed.
                        assert(ms.contains(player_id));
                        let k = choose|k: int| 0 <= k < ms.len() && ms[k] == player_id;
                        assert(false);
                    }
                }
                None
            },
            None => None,
        }
    }
}

/// How many of the first `k` entries of a member list are registered
/// watchers.
pub open spec fn spec_registered_before(members: Seq<Id>, watchers: Watchers, k: int) -> int
    decreases k,
{
    if k <= 0 {
        0
    } else {
        spec_registered_before(members, watchers, k - 1) + (if watchers.value_map().contains_key(
            members[k - 1],
        ) {
            1int
        } else {
            0int
        })
    }
}


/// The leaderboard key an individual's points are credited under: their
/// team when they have one, themselves otherwise.
pub open spec fn spec_group_key(tm: TeamManager, p: Id) -> Id {
    if tm.team_map().contains_key(p) {
        tm.team_map()[p]
    } else {
        p
    }
}

/// Whether some individual delta is credited under `g`.
pub open spec fn spec_group_has(indiv: Seq<(Id, u64)>, tm: TeamManager, g: Id) -> bool {
    exists|i: int| 0 <= i < indiv.len() && spec_group_key(tm, (#[trigger] indiv[i]).0) == g
}

/// The minimum points among the individual deltas credited under `g`
/// (meaningful when at least one entry is).
pub open spec fn spec_group_min(indiv: Seq<(Id, u64)>, tm: TeamManager, g: Id) -> int
    decreases indiv.len(),
{
    if indiv.len() == 0 {
        0
    } else {
        let rest = indiv.drop_last();
        let rmin = spec_group_min(rest, tm, g);
        if spec_group_key(tm, indiv.last().0) == g {
            if spec_group_has(rest, tm, g) {
                if (indiv.last().1 as int) < rmin {
                    indiv.last().1 as int
                } else {
                    rmin
                }
            } else {
                indiv.last().1 as int
            }
        } else {
            rmin
        }
    }
}

/// Whether a delta row lists a key.
pub open spec fn row_has(row: Seq<(Id, u64)>, g: Id) -> bool {
    exists|k: int| 0 <= k < row.len() && (#[trigger] row[k]).0 == g
}

/// The team-mode scoring law: the pushed row credits each group with the
/// minimum of the individual deltas under it (so an absent teammate's zero
/// drags the team to zero), lists every formed team (zero when no
/// individual delta reaches it), lists nothing else, and lists each key
/// once.
pub open spec fn team_deltas_ok(row: Seq<(Id, u64)>, indiv: Seq<(Id, u64)>, tm: TeamManager) -> bool {
    &&& (forall|a: int, b: int|
        0 <= a < b < row.len() ==> (#[trigger] row[a]).0 != (#[trigger] row[b]).0)
    &&& (forall|k: int|
        0 <= k < row.len() ==> (#[trigger] row[k]).1 as int == if spec_group_has(
            indiv,
            tm,
            row[k].0,
        ) {
            spec_group_min(indiv, tm, row[k].0)
        } else {
            0
        })
    &&& (forall|i: int|
        0 <= i < indiv.len() ==> row_has(row, spec_group_key(tm, (#[trigger] indiv[i]).0)))
    &&& (forall|t: Id| #[trigger] tm.members_map().contains_key(t) ==> row_has(row, t))
    &&& (forall|k: int|
        0 <= k < row.len() ==> spec_group_has(indiv, tm, (#[trigger] row[k]).0)
            || tm.members_map().contains_key(row[k].0))
}

/// Collapse individual deltas to the per-group minima and list every formed
/// team, in first-credit order followed by the remaining teams.
#[verifier::loop_isolation(false)]
#[verifier::rlimit(100)]
#[verifier::spinoff_prover]
pub fn group_team_deltas(tm: &TeamManager, indiv: &Vec<(Id, u64)>) -> (r: Vec<(Id, u64)>)
    requires
        tm.wf(),
    ensures
        team_deltas_ok(r@, indiv@, *tm),
{
    let mut grouped: IdMap<u64> = IdMap::new();
    let mut i: usize = 0;
    while i < indiv.len()
        invariant
            0 <= i <= indiv@.len(),
            grouped.wf(),
            forall|g: Id| #[trigger]
                grouped@.contains_key(g) <==> spec_group_has(indiv@.take(i as int), *tm, g),
            forall|g: Id|
                #[trigger] grouped@.contains_key(g) ==> grouped@[g] as int == spec_group_min(
                    indiv@.take(i as int),
                    *tm,
                    g,
                ),
        decreases indiv@.len() - i,
    {
        let (p, pts) = indiv[i];
        let key = match tm.get_team(p) {
            Some(t) => t,
            None => p,
        };
        proof {
            assert(key == spec_group_key(*tm, p));
            assert(indiv@.take(i + 1).drop_last() =~= indiv@.take(i as int));
            assert(indiv@.take(i + 1).last() == indiv@[i as int]);
        }
        let ghost before = grouped@;
        match grouped.get(key) {
            Some(prev) => {
                let m = if pts < *prev {
                    pts
                } else {
                    *prev
                };
                grouped.insert(key, m);
            },
            None => {
                grouped.insert(key, pts);
            },
        }
        proof {
            let taken = indiv@.take(i + 1);
            let cur = indiv@.take(i as int);
            assert forall|g: Id| #[trigger]
                grouped@.contains_key(g) <==> spec_group_has(taken, *tm, g) by {
                if g == key {
                    assert(spec_group_key(*tm, taken[i as int].0) == g);
                } else {
                    if spec_group_has(taken, *tm, g) {
                        let w = choose|w: int|
                            0 <= w < taken.len() && spec_group_key(*tm, (#[trigger] taken[w]).0)
                                == g;
                        assert(w < i);
                        assert(spec_group_key(*tm, (#[trigger] cur[w]).0) == g);
                    }
                    if spec_group_has(cur, *tm, g) {
                        let w = choose|w: int|
                            0 <= w < cur.len() && spec_group_key(*tm, (#[trigger] cur[w]).0) == g;
                        assert(spec_group_key(*tm, (#[trigger] taken[w]).0) == g);
                    }
                }
            }
            assert forall|g: Id|
                #[trigger] grouped@.contains_key(g) implies grouped@[g] as int == spec_group_min(
                taken,
                *tm,
                g,
            ) by {
                if g == key {
                    if spec_group_has(cur, *tm, g) {
                        assert(before.contains_key(g));
                    }
                } else {
                    assert(grouped@[g] == before[g]);
                    assert(spec_group_min(taken, *tm, g) == spec_group_min(cur, *tm, g));
                    if grouped@.contains_key(g) {
                        assert(spec_group_has(taken, *tm, g));
                        let w = choose|w: int|
                            0 <= w < taken.len() && spec_group_key(*tm, (#[trigger] taken[w]).0)
                                == g;
                        assert(w < i);
                        assert(spec_group_key(*tm, (#[trigger] cur[w]).0) == g);
                        assert(before.contains_key(g));
                    }
                }
            }
        }
        i += 1;
    }
    proof {
        assert(indiv@.take(indiv@.len() as int) =~= indiv@);
    }
    // Every formed team is listed; teams nobody credits get zero.
    let team_ids = tm.all_ids();
    let mut i: usize = 0;
    while i < team_ids.len()
        invariant
            0 <= i <= team_ids@.len(),
            grouped.wf(),
            forall|g: Id|
                #[trigger] grouped@.contains_key(g) ==> spec_group_has(indiv@, *tm, g) || (
                tm.members_map().contains_key(g) && grouped@[g] == 0),
            forall|g: Id|
                #[trigger] grouped@.contains_key(g) && spec_group_has(indiv@, *tm, g)
                    ==> grouped@[g] as int == spec_group_min(indiv@, *tm, g),
            forall|g: Id| spec_group_has(indiv@, *tm, g) ==> #[trigger] grouped@.contains_key(g),
            forall|j: int| 0 <= j < i ==> grouped@.contains_key(#[trigger] team_ids@[j]),
        decreases team_ids@.len() - i,
    {
        let t = team_ids[i];
        if !grouped.contains_key(t) {
            grouped.insert(t, 0);
        }
        i += 1;
    }
    let mut row: Vec<(Id, u64)> = Vec::new();
    let total = grouped.len();
    let mut i: usize = 0;
    while i < total
        invariant
            0 <= i <= total,
            total == grouped.entry_seq().len(),
            row@ == grouped.entry_seq().take(i as int),
        decreases total - i,
    {
        let e = grouped.entry_at(i);
        row.push((e.0, e.1));
        proof {
            assert(grouped.entry_seq()[i as int] == (
            grouped.entry_seq()[i as int].0,
            grouped.entry_seq()[i as int].1,
            ));
            assert(row@ =~= grouped.entry_seq().take(i + 1));
        }
        i += 1;
    }
    proof {
        assert(row@ =~= grouped.entry_seq());
        grouped.lemma_keys_distinct();
        assert(forall|q: int|
            0 <= q < grouped.entry_seq().len() ==> grouped.key_seq()[q] == (
            #[trigger] grouped.entry_seq()[q]).0);
        assert forall|a: int, b: int| 0 <= a < b < row@.len() implies (#[trigger] row@[a]).0 != (
        #[trigger] row@[b]).0 by {
            assert(row@[a].0 == grouped.key_seq()[a]);
            assert(row@[b].0 == grouped.key_seq()[b]);
        }
        assert forall|k: int| 0 <= k < row@.len() implies (#[trigger] row@[k]).1 as int == (
        if spec_group_has(indiv@, *tm, row@[k].0) {
            spec_group_min(indiv@, *tm, row@[k].0)
        } else {
            0
        }) by {
            grouped.lemma_entry(k);
        }
        assert forall|i2: int| 0 <= i2 < indiv@.len() implies row_has(
            row@,
            spec_group_key(*tm, (#[trigger] indiv@[i2]).0),
        ) by {
            let g = spec_group_key(*tm, indiv@[i2].0);
            assert(spec_group_has(indiv@, *tm, g));
            assert(grouped@.contains_key(g));
            grouped.lemma_contains(g);
            let k = choose|k: int|
                0 <= k < grouped.key_seq().len() && grouped.key_seq()[k] == g;
            assert((#[trigger] row@[k]).0 == g);
        }
        assert forall|t: Id| #[trigger] tm.members_map().contains_key(t) implies row_has(
            row@,
            t,
        ) by {
            assert(tm.teams matches Some(ts) ==> exists|j: int|
                0 <= j < ts@.len() && (#[trigger] ts@[j]).0 == t);
            let j = choose|j: int|
                0 <= j < tm.team_seq().len() && (#[trigger] tm.team_seq()[j]).0 == t;
            assert(team_ids@[j] == t);
            assert(grouped@.contains_key(t));
            grouped.lemma_contains(t);
            let k = choose|k: int|
                0 <= k < grouped.key_seq().len() && grouped.key_seq()[k] == t;
            assert((#[trigger] row@[k]).0 == t);
        }
        assert forall|k: int| 0 <= k < row@.len() implies spec_group_has(
            indiv@,
            *tm,
            (#[trigger] row@[k]).0,
        ) || tm.members_map().contains_key(row@[k].0) by {
            grouped.lemma_entry(k);
        }
        assert(team_deltas_ok(row@, indiv@, *tm));
    }
    row
}

/// The rows partition exactly the players the ghost map knows: every row
/// member is recorded, rows are duplicate-free and pairwise disjoint, and
/// every recorded player sits in some row.
pub open spec fn partition_ok(working: Seq<Vec<Id>>, assigned: Map<Id, Id>) -> bool {
    &&& forall|a: int, k: int|
        0 <= a < working.len() && 0 <= k < working[a]@.len() ==> assigned.contains_key(
            #[trigger] working[a]@[k],
        )
    &&& forall|a: int, x: int, y: int|
        #![trigger working[a]@[x], working[a]@[y]]
        0 <= a < working.len() && 0 <= x < y < working[a]@.len() ==> working[a]@[x]
            != working[a]@[y]
    &&& forall|a: int, b: int, x: int, y: int|
        0 <= a < b < working.len() && 0 <= x < working[a]@.len() && 0 <= y < working[b]@.len()
            ==> (#[trigger] working[a]@[x]) != (#[trigger] working[b]@[y])
    &&& forall|p: Id|
        #[trigger] assigned.contains_key(p) ==> exists|a: int, k: int|
            0 <= a < working.len() && 0 <= k < working[a]@.len() && working[a]@[k] == p
}

/// The registered players that have a live tunnel, in bucket order and
/// without duplicates.
#[verifier::loop_isolation(false)]
fn connected_players(watchers: &Watchers, connected: &IdSet) -> (r: Vec<Id>)
    requires
        watchers.wf(),
    ensures
        forall|a: int, b: int| 0 <= a < b < r@.len() ==> (#[trigger] r@[a]) != (#[trigger] r@[b]),
        forall|p: Id|
            watchers.kind_bucket(crate::watcher::ValueKind::Player).contains(p)
                && connected@.contains(p) ==> r@.contains(p),
        r@ == watchers.kind_bucket(crate::watcher::ValueKind::Player).filter(
            |id: Id| connected@.contains(id),
        ),
        forall|a: int|
            0 <= a < r@.len() ==> watchers.kind_bucket(crate::watcher::ValueKind::Player).contains(
                #[trigger] r@[a],
            ) && connected@.contains(r@[a]),
{
    let all_players = watchers.specific_ids_vec(crate::watcher::ValueKind::Player);
    proof {
        watchers.lemma_bucket_distinct(crate::watcher::ValueKind::Player);
    }
    let mut players: Vec<Id> = Vec::new();
    let mut i: usize = 0;
    proof {
        broadcast use Seq::lemma_filter_push;

    }
    while i < all_players.len()
        invariant
            0 <= i <= all_players@.len(),
            all_players@ == watchers.kind_bucket(crate::watcher::ValueKind::Player),
            players@ == all_players@.take(i as int).filter(|id: Id| connected@.contains(id)),
            forall|a: int, b: int|
                #![trigger all_players@[a], all_players@[b]]
                0 <= a < b < all_players@.len() ==> all_players@[a] != all_players@[b],
            forall|a: int, b: int|
                0 <= a < b < players@.len() ==> (#[trigger] players@[a]) != (
                #[trigger] players@[b]),
            forall|a: int|
                0 <= a < players@.len() ==> exists|j: int|
                    0 <= j < i && all_players@[j] == (#[trigger] players@[a]),
            forall|a: int|
                0 <= a < players@.len() ==> connected@.contains(#[trigger] players@[a]),
            forall|j: int|
                0 <= j < i ==> (connected@.contains(#[trigger] all_players@[j])
                    <==> players@.contains(all_players@[j])),
        decreases all_players@.len() - i,
    {
        let p = all_players[i];
        let ghost players_before = players@;
        proof {
            assert(all_players@.take(i + 1) =~= all_players@.take(i as int).push(
                all_players@[i as int],
            ));
        }
        if connected.contains(p) {
            proof {
                if players@.contains(p) {
                    let a = choose|a: int| 0 <= a < players@.len() && players@[a] == p;
                    let j = choose|j: int| 0 <= j < i && all_players@[j] == players@[a];
                    assert(all_players@[j] == all_players@[i as int]);
                }
            }
            players.push(p);
        }
        proof {
            assert forall|a2: int|
                0 <= a2 < players@.len() implies exists|j: int|
                0 <= j < i + 1 && all_players@[j] == (#[trigger] players@[a2]) by {
                if a2 < players_before.len() {
                    let j = choose|j: int|
                        0 <= j < i && all_players@[j] == (#[trigger] players_before[a2]);
                    assert(all_players@[j] == players@[a2]);
                } else {
                    assert(all_players@[i as int] == players@[a2]);
                }
            }
            assert forall|j: int|
                0 <= j < i + 1 implies (connected@.contains(#[trigger] all_players@[j])
                <==> players@.contains(all_players@[j])) by {
                if j == i {
                    if connected@.contains(all_players@[j]) {
                        assert(players@[players@.len() - 1] == all_players@[j]);
                    }
                } else {
                    if connected@.contains(all_players@[j]) {
                        let a = choose|a: int|
                            0 <= a < players_before.len() && players_before[a] == all_players@[j];
                        assert(players@[a] == all_players@[j]);
                    }
                }
            }
        }
        i += 1;
    }
    proof {
        assert forall|p: Id|
            watchers.kind_bucket(crate::watcher::ValueKind::Player).contains(p)
                && connected@.contains(p) implies players@.contains(p) by {
            let j = choose|j: int|
                0 <= j < all_players@.len() && all_players@[j] == p;
        }
    }
    proof {
        assert(all_players@.take(all_players@.len() as int) =~= all_players@);
    }
    players
}


/// Merge the smallest row into the largest row it fits into while there/// Merge the smallest row into the largest row it fits into while there are
/// more rows than the target; the partition is preserved.
#[verifier::loop_isolation(false)]
#[verifier::rlimit(100)]
fn merge_working(
    working: &mut Vec<Vec<Id>>,
    teams_count: usize,
    optimal_size: usize,
    Ghost(all_assigned): Ghost<Map<Id, Id>>,
)
    requires
        partition_ok(old(working)@, all_assigned),
    ensures
        partition_ok(final(working)@, all_assigned),
        (forall|a: int|
            0 <= a < old(working)@.len() ==> (#[trigger] old(working)@[a]@).len()
                <= optimal_size) ==> (forall|a: int|
            0 <= a < final(working)@.len() ==> (#[trigger] final(working)@[a]@).len()
                <= optimal_size),
        old(working)@.len() <= teams_count ==> final(working)@ == old(working)@,
{
    let ghost bounded = forall|a: int|
        0 <= a < old(working)@.len() ==> (#[trigger] old(working)@[a]@).len() <= optimal_size;
    while working.len() > teams_count
        invariant
            partition_ok(working@, all_assigned),
            bounded == (forall|a: int|
                0 <= a < old(working)@.len() ==> (#[trigger] old(working)@[a]@).len()
                    <= optimal_size),
            bounded ==> (forall|a: int|
                0 <= a < working@.len() ==> (#[trigger] working@[a]@).len() <= optimal_size),
            old(working)@.len() <= teams_count ==> working@ == old(working)@,
        decreases working@.len(),
    {
        // Find the smallest row.
        let mut smallest: usize = 0;
        let mut a: usize = 1;
        while a < working.len()
            invariant
                0 <= smallest < a <= working@.len(),
                forall|b: int|
                    0 <= b < a ==> working@[smallest as int]@.len() <= (
                    #[trigger] working@[b]@).len(),
            decreases working@.len() - a,
        {
            if working[a].len() < working[smallest].len() {
                smallest = a;
            }
            a += 1;
        }
        // Find the largest other row it still fits into.
        let small_len = working[smallest].len();
        let mut target: usize = working.len();
        let mut a: usize = 0;
        while a < working.len()
            invariant
                0 <= a <= working@.len(),
                smallest < working@.len(),
                target == working@.len() || (target < working@.len() && target != smallest
                    && working@[target as int]@.len() + small_len <= optimal_size),
            decreases working@.len() - a,
        {
            if a != smallest && small_len <= optimal_size && working[a].len() <= optimal_size
                - small_len {
                if target == working.len() || working[a].len() > working[target].len() {
                    target = a;
                }
            }
            a += 1;
        }
        if target == working.len() {
            // Nothing fits: stop merging.
            break ;
        }
        let ghost working_before = working@;
        let mut merged = copy_ids(&working[target]);
        let smallest_row = copy_ids(&working[smallest]);
        let mut mi: usize = 0;
        while mi < smallest_row.len()
            invariant
                0 <= mi <= smallest_row@.len(),
                smallest_row@ == working_before[smallest as int]@,
                merged@ == working_before[target as int]@ + smallest_row@.take(mi as int),
            decreases smallest_row@.len() - mi,
        {
            merged.push(smallest_row[mi]);
            proof {
                assert(merged@ =~= working_before[target as int]@ + smallest_row@.take(mi + 1));
            }
            mi += 1;
        }
        proof {
            assert(smallest_row@.take(smallest_row@.len() as int) =~= smallest_row@);
        }
        working[target] = merged;
        let ghost after_update = working@;
        let removed = working.remove(smallest);
        proof {
            lemma_merge_preserves(
                working_before,
                working@,
                smallest as int,
                target as int,
                all_assigned,
            );
            if bounded {
                assert forall|a: int|
                    0 <= a < working@.len() implies (#[trigger] working@[a]@).len()
                    <= optimal_size by {
                    if a < smallest {
                        assert(working@[a] == after_update[a]);
                    } else {
                        assert(working@[a] == after_update[a + 1]);
                    }
                }
            }
        }
    }
}

/// Pick a team identifier that is not yet a key of the membership map:
/// a random draw when it is free, else the first free small identifier,
/// which exists because the map is finite.
#[verifier::loop_isolation(false)]
fn fresh_team_id(taken: &IdMap<Vec<Id>>) -> (r: Id)
    requires
        taken.wf(),
    ensures
        !taken@.contains_key(r),
{
    let candidate = Id::new();
    if !taken.contains_key(candidate) {
        return candidate;
    }
    let n = taken.len();
    let mut i: usize = 0;
    while i < n
        invariant
            0 <= i <= n,
            forall|j: int|
                0 <= j < i ==> taken@.contains_key(Id::spec_from_bits(#[trigger] (j as u128))),
        decreases n - i,
    {
        let c = Id::from_bits(i as u128);
        if !taken.contains_key(c) {
            return c;
        }
        i += 1;
    }
    let c = Id::from_bits(n as u128);
    if !taken.contains_key(c) {
        return c;
    }
    proof {
        assert(forall|j: int|
            0 <= j < n + 1 ==> taken@.contains_key(Id::spec_from_bits(#[trigger] (j as u128))));
        taken.lemma_dom_finite();
        let cs = Seq::new((n + 1) as nat, |j: int| Id::spec_from_bits(j as u128));
        assert forall|a: int, b: int| 0 <= a < b < cs.len() implies cs[a] != cs[b] by {
            Id::lemma_from_bits_injective(a as u128, b as u128);
        }
        cs.unique_seq_to_set();
        assert forall|id: Id| cs.to_set().contains(id) implies taken@.dom().contains(id) by {
            let j = choose|j: int| 0 <= j < cs.len() && cs[j] == id;
            assert(taken@.contains_key(Id::spec_from_bits(j as u128)));
        }
        lemma_len_subset(cs.to_set(), taken@.dom());
    }
    proof {
        assert(false);
    }
    // Unreachable: some small identifier is always free.
    Id::new()
}

impl TeamManager {
    /// Freeze the partition: group the connected players by mutual
    /// preference anchors, shuffle within groups, merge small groups up to
    /// the target count, and give each resulting team an identifier, a
    /// pluralized petname, and its members.
    ///
    /// A second call is a no-op. Afterwards every player that was connected
    /// at the call is assigned to exactly one team, watcher roles keep their
    /// kinds, and previously registered names are untouched.
    #[verifier::loop_isolation(false)]
    pub fn finalize(&mut self, watchers: &mut Watchers, names: &mut Names, connected: &IdSet)
        requires
            old(self).wf(),
            old(watchers).wf(),
            old(names).wf(),
            old(self).spec_optimal_size() >= 1,
        ensures
            final(self).wf(),
            final(watchers).wf(),
            final(names).wf(),
            final(self).finalized(),
            old(self).finalized() ==> *final(self) == *old(self) && *final(watchers) == *old(watchers) && *final(names) == *old(names),
            final(self).spec_optimal_size() == old(self).spec_optimal_size(),
            final(self).spec_is_random_assignments() == old(self).spec_is_random_assignments(),
            !old(self).finalized() ==> forall|p: Id|
                old(watchers).kind_bucket(crate::watcher::ValueKind::Player).contains(p)
                    && connected@.contains(p) ==> final(self).team_map().contains_key(p),
            (!old(self).finalized() && old(self).spec_optimal_size() == 1) ==> forall|t: Id|
                #[trigger] final(self).members_map().contains_key(t) ==> final(self).members_map()[t]@.len() <= 1,
            (!old(self).finalized() && (old(self).spec_optimal_size() == 1 || old(self).spec_is_random_assignments())) ==> forall|t: Id|
                #[trigger] final(self).members_map().contains_key(t) ==> final(self).members_map()[t]@.len() <= old(self).spec_optimal_size(),
            (!old(self).finalized() && old(self).spec_optimal_size() == 1) ==> {
                let n = old(watchers).kind_bucket(crate::watcher::ValueKind::Player).filter(
                    |id: Id| connected@.contains(id),
                ).len();
                &&& (n > 0 ==> final(self).spec_team_count() == n)
                &&& (n == 0 ==> final(self).spec_team_count() == 1)
            },
            !old(self).finalized() ==> forall|p: Id|
                old(watchers).kind_bucket(crate::watcher::ValueKind::Player).contains(p)
                    && connected@.contains(p) ==> (#[trigger] final(watchers).value_map()[p] matches crate::watcher::Value::Player(
                    crate::watcher::PlayerValue::Team { team_id: t, .. },
                ) && t == final(self).team_map()[p]),
            forall|id: Id|
                final(watchers).value_map().contains_key(id) <==> old(watchers).value_map().contains_key(id),
            forall|id: Id|
                #[trigger] final(watchers).value_map().contains_key(id) ==> final(watchers).value_map()[id].spec_kind() == old(watchers).value_map()[id].spec_kind(),
            forall|id: Id|
                #[trigger] old(names).name_map().contains_key(id) ==> final(names).name_map().contains_key(id) && final(names).name_map()[id] == old(names).name_map()[id],
    {
        if self.teams.is_some() {
            return ;
        }
        let players = connected_players(watchers, connected);
        let (mut working, assigned) = self.group_players(&players);
        let ghost singleton = self.spec_optimal_size() == 1;
        let optimal_size = self.max_team_size();
        let teams_count = {
            let n = players.len();
            if n == 0 {
                1
            } else {
                1 + (n - 1) / optimal_size
            }
        };
        merge_working(&mut working, teams_count, optimal_size, assigned);
        let ghost working_view = working@;
        proof {
            if singleton {
                let n0 = players@.len() as int;
                assert(optimal_size == 1);
                if n0 > 0 {
                    assert((n0 - 1) / 1int == n0 - 1) by (nonlinear_arith);
                    assert(teams_count as int == n0);
                }
                assert(working_view.len() == players@.len());
            }
        }
        proof {
            assert forall|p: Id| #[trigger]
                assigned@.contains_key(p) implies watchers.value_map().contains_key(p)
                && watchers.value_map()[p].spec_kind() == crate::watcher::ValueKind::Player by {
                assert(players@.contains(p));
                let a = choose|a: int| 0 <= a < players@.len() && players@[a] == p;
                assert(watchers.kind_bucket(crate::watcher::ValueKind::Player).contains(
                    players@[a],
                ));
                watchers.lemma_buckets_match_mapping(p, crate::watcher::ValueKind::Player);
            }
        }
        self.build_teams(working, watchers, names, assigned);
        proof {
            assert forall|p: Id|
                old(watchers).kind_bucket(crate::watcher::ValueKind::Player).contains(p)
                    && connected@.contains(p) implies self.team_map().contains_key(p) by {
                assert(players@.contains(p));
                assert(assigned@.contains_key(p));
            }
            assert forall|p: Id|
                old(watchers).kind_bucket(crate::watcher::ValueKind::Player).contains(p)
                    && connected@.contains(p) implies (#[trigger] watchers.value_map()[p] matches
                crate::watcher::Value::Player(
                    crate::watcher::PlayerValue::Team { team_id: t, .. },
                ) && t == self.team_map()[p]) by {
                assert(players@.contains(p));
                assert(assigned@.contains_key(p));
            }
            if singleton {
                assert(players@ == old(watchers).kind_bucket(
                    crate::watcher::ValueKind::Player,
                ).filter(|id: Id| connected@.contains(id)));
                assert(working_view.len() == players@.len());
            }
        }
    }

    /// Group the players by mutual preference anchor and shuffle each group.
    /// The returned ghost map records each player's group, witnessing that
    /// the rows partition exactly the given players.
    #[verifier::loop_isolation(false)]
    #[verifier::rlimit(100)]
    fn group_players(&self, players: &Vec<Id>) -> (r: (Vec<Vec<Id>>, Ghost<Map<Id, Id>>))
        requires
            self.wf(),
            forall|a: int, b: int|
                0 <= a < b < players@.len() ==> (#[trigger] players@[a]) != (
                #[trigger] players@[b]),
        ensures
            partition_ok(r.0@, r.1@),
            forall|p: Id| #[trigger] r.1@.contains_key(p) <==> players@.contains(p),
            (self.spec_optimal_size() == 1 || self.spec_is_random_assignments()) ==> forall|x: int|
                0 <= x < r.0@.len() ==> (#[trigger] r.0@[x]@).len() <= 1,
            self.spec_optimal_size() == 1 ==> r.0@.len() == players@.len(),
    {
        let mut groups: IdMap<Vec<Id>> = IdMap::new();
        let ghost mut assigned: Map<Id, Id> = Map::empty();
        let mut i: usize = 0;
        while i < players.len()
            invariant
                0 <= i <= players@.len(),
                groups.wf(),
                forall|a: int, b: int|
                    0 <= a < b < players@.len() ==> (#[trigger] players@[a]) != (
                    #[trigger] players@[b]),
                forall|p: Id| #[trigger]
                    assigned.contains_key(p) <==> players@.take(i as int).contains(p),
                forall|p: Id|
                    #[trigger] assigned.contains_key(p) ==> groups@.contains_key(assigned[p])
                        && groups@[assigned[p]]@.contains(p),
                forall|g: Id, k: int|
                    #[trigger] groups@.contains_key(g) && 0 <= k < groups@[g]@.len() ==> (
                    assigned.contains_key(#[trigger] groups@[g]@[k]) && assigned[groups@[g]@[k]]
                        == g),
                forall|g: Id, a: int, b: int|
                    #![trigger groups@[g]@[a], groups@[g]@[b]]
                    groups@.contains_key(g) && 0 <= a < b < groups@[g]@.len() ==> groups@[g]@[a]
                        != groups@[g]@[b],
                (self.spec_optimal_size() == 1 || self.spec_is_random_assignments()) ==> forall|
                    g: Id,
                |
                    #[trigger] groups@.contains_key(g) ==> assigned.contains_key(g),
                (self.spec_optimal_size() == 1 || self.spec_is_random_assignments()) ==> forall|
                    g: Id,
                |
                    #[trigger] groups@.contains_key(g) ==> groups@[g]@.len() <= 1,
                self.spec_optimal_size() == 1 ==> groups.key_seq().len() == i,
            decreases players@.len() - i,
        {
            let p = players[i];
            proof {
                if players@.take(i as int).contains(p) {
                    let a = choose|a: int| 0 <= a < i && players@.take(i as int)[a] == p;
                    assert(players@[a] == players@[i as int]);
                }
                assert(!assigned.contains_key(p));
            }
            // Under a target size of one, and under random assignment,
            // nobody groups with anyone: every player anchors their own
            // singleton group.
            let anchor = if self.max_team_size() == 1 {
                p
            } else {
                self.mutual_anchor(p, players)
            };
            let ghost groups_before = groups;
            match groups.get_index(anchor) {
                Some(gi) => {
                    proof {
                        if self.spec_optimal_size() == 1 || self.spec_is_random_assignments() {
                            // A self-anchored player is not yet assigned, so
                            // no group carries them.
                            groups.lemma_entry(gi as int);
                            assert(groups@.contains_key(anchor));
                            assert(assigned.contains_key(p));
                            assert(false);
                        }
                    }
                    let mut row = copy_ids(&groups.entry_at(gi).1);
                    proof {
                        groups.lemma_entry(gi as int);
                    }
                    row.push(p);
                    groups.set_at(gi, row);
                },
                None => {
                    let mut row: Vec<Id> = Vec::new();
                    row.push(p);
                    groups.insert(anchor, row);
                },
            }
            proof {
                assigned = assigned.insert(p, anchor);
                assert(players@.take(i + 1).drop_last() =~= players@.take(i as int));
                let taken_next = players@.take(i + 1);
                let taken_cur = players@.take(i as int);
                assert forall|p2: Id| #[trigger]
                    assigned.contains_key(p2) <==> players@.take(i + 1).contains(p2) by {
                    if p2 == p {
                        assert(taken_next[i as int] == p);
                    } else {
                        if taken_next.contains(p2) {
                            let a = choose|a: int|
                                0 <= a < taken_next.len() && #[trigger] taken_next[a] == p2;
                            assert(taken_cur[a] == p2);
                        }
                        if taken_cur.contains(p2) {
                            let a = choose|a: int|
                                0 <= a < taken_cur.len() && #[trigger] taken_cur[a] == p2;
                            assert(taken_next[a] == p2);
                        }
                    }
                }
                assert forall|g: Id, k: int|
                    #[trigger] groups@.contains_key(g) && 0 <= k < groups@[g]@.len() implies (
                assigned.contains_key(#[trigger] groups@[g]@[k]) && assigned[groups@[g]@[k]]
                    == g) by {
                    if g == anchor && k == groups@[g]@.len() - 1 {
                    } else {
                        assert(groups_before@.contains_key(g) && groups_before@[g]@[k]
                            == groups@[g]@[k]);
                    }
                }
                assert forall|g: Id, a: int, b: int|
                    #![trigger groups@[g]@[a], groups@[g]@[b]]
                    groups@.contains_key(g) && 0 <= a < b < groups@[g]@.len() implies groups@[g]@[a]
                    != groups@[g]@[b] by {
                    if g == anchor && b == groups@[g]@.len() - 1 && groups_before@.contains_key(
                        anchor,
                    ) {
                        if groups@[g]@[a] == p {
                            assert(assigned.contains_key(p) && assigned[p] == g);
                        }
                    }
                }
                if self.spec_optimal_size() == 1 || self.spec_is_random_assignments() {
                    assert forall|g: Id| #[trigger]
                        groups@.contains_key(g) implies assigned.contains_key(g) by {
                        if g != anchor {
                            assert(groups_before@.contains_key(g));
                        }
                    }
                    assert forall|g: Id| #[trigger]
                        groups@.contains_key(g) implies groups@[g]@.len() <= 1 by {
                        if g != anchor {
                            assert(groups_before@.contains_key(g));
                            assert(groups@[g] == groups_before@[g]);
                        }
                    }
                }
                assert forall|p2: Id|
                    #[trigger] assigned.contains_key(p2) implies groups@.contains_key(
                    assigned[p2],
                ) && groups@[assigned[p2]]@.contains(p2) by {
                    if p2 == p {
                        assert(groups@[anchor]@[groups@[anchor]@.len() - 1] == p);
                    } else {
                        assert(groups_before@.contains_key(assigned[p2])
                            && groups_before@[assigned[p2]]@.contains(p2));
                        if assigned[p2] == anchor {
                            let k = choose|k: int|
                                0 <= k < groups_before@[anchor]@.len()
                                    && groups_before@[anchor]@[k] == p2;
                            assert(groups@[anchor]@[k] == p2);
                        }
                    }
                }
            }
            i += 1;
        }
        proof {
            assert(players@.take(players@.len() as int) =~= players@);
        }
        proof {
            assert(groups.key_seq().len() == groups.entry_seq().len());
        }
        // Collect the groups as rows, shuffling each for attack resistance.
        let group_total = groups.len();
        let mut working: Vec<Vec<Id>> = Vec::new();
        let mut i: usize = 0;
        while i < group_total
            invariant
                0 <= i <= group_total,
                group_total == groups.entry_seq().len(),
                groups.wf(),
                working@.len() == i,
                forall|p: Id|
                    #[trigger] assigned.contains_key(p) ==> groups@.contains_key(assigned[p])
                        && groups@[assigned[p]]@.contains(p),
                forall|g: Id, k: int|
                    #[trigger] groups@.contains_key(g) && 0 <= k < groups@[g]@.len() ==> (
                    assigned.contains_key(#[trigger] groups@[g]@[k]) && assigned[groups@[g]@[k]]
                        == g),
                forall|a: int, k: int|
                    0 <= a < working@.len() && 0 <= k < working@[a]@.len() ==> (
                    assigned.contains_key(#[trigger] working@[a]@[k]) && assigned[working@[a]@[k]]
                        == groups.entry_seq()[a].0),
                forall|a: int, x: int, y: int|
                    #![trigger working@[a]@[x], working@[a]@[y]]
                    0 <= a < working@.len() && 0 <= x < y < working@[a]@.len() ==> working@[a]@[x]
                        != working@[a]@[y],
                (self.spec_optimal_size() == 1 || self.spec_is_random_assignments()) ==> forall|
                    a: int,
                |
                    0 <= a < working@.len() ==> (#[trigger] working@[a]@).len() <= 1,
                forall|a: int|
                    0 <= a < working@.len() ==> (#[trigger] working@[a]@).to_multiset()
                        == groups.entry_seq()[a].1@.to_multiset(),
            decreases group_total - i,
        {
            let mut row = copy_ids(&groups.entry_at(i).1);
            shuffle_ids(&mut row);
            proof {
                groups.lemma_entry(i as int);
                let pre = groups.entry_seq()[i as int].1@;
                pre.to_multiset_ensures();
                row@.to_multiset_ensures();
                assert forall|k: int| 0 <= k < row@.len() implies (assigned.contains_key(
                    #[trigger] row@[k],
                ) && assigned[row@[k]] == groups.entry_seq()[i as int].0) by {
                    assert(row@.to_multiset().contains(row@[k]));
                    assert(pre.contains(row@[k]));
                }
                assert forall|x: int, y: int|
                    #![trigger row@[x], row@[y]]
                    0 <= x < y < row@.len() implies row@[x] != row@[y] by {
                    if row@[x] == row@[y] {
                        lemma_dup_count(row@, x, y);
                        lemma_count_distinct(pre, row@[x]);
                    }
                }
            }
            working.push(row);
            i += 1;
        }
        proof {
            groups.lemma_keys_distinct();
            assert(forall|q: int|
                0 <= q < groups.entry_seq().len() ==> groups.key_seq()[q] == (
                #[trigger] groups.entry_seq()[q]).0);
            assert forall|p: Id| #[trigger] assigned.contains_key(p) implies exists|a: int, k: int|
                0 <= a < working@.len() && 0 <= k < working@[a]@.len() && working@[a]@[k] == p by {
                groups.lemma_contains(assigned[p]);
                groups.key_seq().index_of_first_ensures(assigned[p]);
                let gi = groups.key_seq().index_of_first(assigned[p])->Some_0;
                assert(groups.entry_seq()[gi].0 == assigned[p]);
                groups.lemma_entry(gi);
                assert(groups@[assigned[p]]@.contains(p));
                let pre = groups.entry_seq()[gi].1@;
                pre.to_multiset_ensures();
                working@[gi]@.to_multiset_ensures();
                assert(pre.to_multiset().contains(p));
                assert(working@[gi]@.contains(p));
                let k = choose|k: int| 0 <= k < working@[gi]@.len() && working@[gi]@[k] == p;
            }
            assert forall|a: int, b: int, x: int, y: int|
                0 <= a < b < working@.len() && 0 <= x < working@[a]@.len() && 0 <= y
                    < working@[b]@.len() implies (#[trigger] working@[a]@[x]) != (
            #[trigger] working@[b]@[y]) by {
                groups.lemma_keys_distinct();
                if working@[a]@[x] == working@[b]@[y] {
                    assert(assigned[working@[a]@[x]] == groups.entry_seq()[a].0);
                    assert(assigned[working@[b]@[y]] == groups.entry_seq()[b].0);
                    assert(groups.key_seq()[a] == groups.entry_seq()[a].0);
                    assert(groups.key_seq()[b] == groups.entry_seq()[b].0);
                }
            }
        }
        (working, Ghost(assigned))
    }

    /// Build the final teams from the working rows: identifier, pluralized
    /// petname, members, watcher roles.
    #[verifier::loop_isolation(false)]
    #[verifier::rlimit(100)]
    fn build_teams(
        &mut self,
        working: Vec<Vec<Id>>,
        watchers: &mut Watchers,
        names: &mut Names,
        Ghost(all_assigned): Ghost<Map<Id, Id>>,
    )
        requires
            old(self).wf(),
            !old(self).finalized(),
            old(watchers).wf(),
            old(names).wf(),
            partition_ok(working@, all_assigned),
            forall|p: Id|
                #[trigger] all_assigned.contains_key(p) ==> old(watchers).value_map().contains_key(p) && old(watchers).value_map()[p].spec_kind()
                    == crate::watcher::ValueKind::Player,
        ensures
            final(self).wf(),
            final(watchers).wf(),
            final(names).wf(),
            final(self).finalized(),
            final(self).spec_optimal_size() == old(self).spec_optimal_size(),
            final(self).spec_is_random_assignments() == old(self).spec_is_random_assignments(),
            forall|p: Id|
                #[trigger] all_assigned.contains_key(p) ==> final(self).team_map().contains_key(p),
            (forall|x: int| 0 <= x < working@.len() ==> (#[trigger] working@[x]@).len() <= 1)
                ==> (forall|t: Id|
                #[trigger] final(self).members_map().contains_key(t) ==> final(self).members_map()[t]@.len() <= 1),
            (forall|x: int|
                0 <= x < working@.len() ==> (#[trigger] working@[x]@).len() <= old(self).spec_optimal_size()) ==> (forall|t: Id|
                #[trigger] final(self).members_map().contains_key(t) ==> final(self).members_map()[t]@.len() <= old(self).spec_optimal_size()),
            working@.len() > 0 ==> final(self).spec_team_count() == working@.len(),
            working@.len() == 0 ==> final(self).spec_team_count() == 1,
            forall|p: Id|
                #[trigger] all_assigned.contains_key(p) ==> (final(watchers).value_map()[p] matches Value::Player(PlayerValue::Team { team_id: t, .. }) && t
                    == final(self).team_map()[p]),
            forall|id: Id|
                final(watchers).value_map().contains_key(id) <==> old(watchers).value_map().contains_key(id),
            forall|id: Id|
                #[trigger] final(watchers).value_map().contains_key(id) ==> final(watchers).value_map()[id].spec_kind() == old(watchers).value_map()[id].spec_kind(),
            forall|id: Id|
                #[trigger] old(names).name_map().contains_key(id) ==> final(names).name_map().contains_key(id) && final(names).name_map()[id] == old(names).name_map()[id],
    {
        proof {
            if self.team_to_players.entry_seq().len() > 0 {
                self.team_to_players.lemma_entry(0);
                assert(self.members_map().contains_key(self.team_to_players.entry_seq()[0].0));
                assert(false);
            }
            assert(self.team_to_players.key_seq().len() == 0);
        }
        let mut team_list: Vec<(Id, String)> = Vec::new();
        let mut i: usize = 0;
        while i < working.len()
            invariant
                0 <= i <= working@.len(),
                self.player_to_team.wf(),
                self.team_to_players.wf(),
                self.teams is None,
                self.preferences.wf(),
                self.spec_optimal_size() == old(self).spec_optimal_size(),
                self.assign_random == old(self).assign_random,
                watchers.wf(),
                names.wf(),
                partition_ok(working@, all_assigned),
                team_list@.len() == i,
                forall|a: int, b: int|
                    0 <= a < b < team_list@.len() ==> (#[trigger] team_list@[a]).0 != (
                    #[trigger] team_list@[b]).0,
                forall|a: int|
                    0 <= a < i ==> self.team_to_players@.contains_key((#[trigger] team_list@[a]).0),
                forall|t: Id|
                    #[trigger] self.team_to_players@.contains_key(t) ==> exists|a: int|
                        0 <= a < i && (#[trigger] team_list@[a]).0 == t,
                forall|t: Id, k: int|
                    self.team_to_players@.contains_key(t) && 0 <= k < self.team_to_players@[t]@.len()
                        ==> (self.player_to_team@.contains_key(#[trigger] self.team_to_players@[t]@[k])
                        && self.player_to_team@[self.team_to_players@[t]@[k]] == t),
                forall|t: Id, x: int, y: int|
                    #![trigger self.team_to_players@[t]@[x], self.team_to_players@[t]@[y]]
                    self.team_to_players@.contains_key(t) && 0 <= x < y
                        < self.team_to_players@[t]@.len() ==> self.team_to_players@[t]@[x]
                        != self.team_to_players@[t]@[y],
                forall|p: Id|
                    #[trigger] self.player_to_team@.contains_key(p) ==> self.team_to_players@.contains_key(
                        self.player_to_team@[p],
                    ) && self.team_to_players@[self.player_to_team@[p]]@.contains(p),
                forall|p: Id|
                    #[trigger] self.player_to_team@.contains_key(p) ==> exists|a: int, k: int|
                        0 <= a < i && 0 <= k < working@[a]@.len() && working@[a]@[k] == p,
                forall|a: int, k: int|
                    0 <= a < i && 0 <= k < working@[a]@.len() ==> self.player_to_team@.contains_key(
                        #[trigger] working@[a]@[k],
                    ),
                (forall|x: int| 0 <= x < working@.len() ==> (#[trigger] working@[x]@).len() <= 1)
                    ==> (forall|t: Id|
                    #[trigger] self.team_to_players@.contains_key(t)
                        ==> self.team_to_players@[t]@.len() <= 1),
                (forall|x: int|
                    0 <= x < working@.len() ==> (#[trigger] working@[x]@).len() <= old(self).spec_optimal_size()) ==> (forall|t: Id|
                    #[trigger] self.team_to_players@.contains_key(t)
                        ==> self.team_to_players@[t]@.len() <= old(self).spec_optimal_size()),
                self.team_to_players.key_seq().len() == i,
                forall|p: Id|
                    #[trigger] self.player_to_team@.contains_key(p) ==> (
                    watchers.value_map()[p] matches Value::Player(
                        PlayerValue::Team { team_id: t, .. },
                    ) && t == self.player_to_team@[p]),
                forall|id: Id|
                    watchers.value_map().contains_key(id) <==> old(watchers).value_map().contains_key(id),
                forall|id: Id|
                    #[trigger] watchers.value_map().contains_key(id)
                        ==> watchers.value_map()[id].spec_kind() == old(watchers).value_map()[id].spec_kind(),
                forall|id: Id|
                    #[trigger] old(names).name_map().contains_key(id)
                        ==> names.name_map().contains_key(id) && names.name_map()[id] == old(names).name_map()[id],
            decreases working@.len() - i,
        {
            let team_id = fresh_team_id(&self.team_to_players);
            let team_name = self.draw_team_name(team_id, names);
            let members = copy_ids(&working[i]);
            let ghost ptm_before = self.player_to_team;
            let ghost ttp_pre = self.team_to_players;
            let ghost self_pre = *self;
            // Assign each member to this team.
            let mut k: usize = 0;
            while k < members.len()
                invariant
                    0 <= k <= members@.len(),
                    members@ == working@[i as int]@,
                    0 <= (i as int) < working@.len(),
                    self.player_to_team.wf(),
                    self.team_to_players == ttp_pre,
                    self.teams == self_pre.teams,
                    self.preferences == self_pre.preferences,
                    self.assign_random == self_pre.assign_random,
                    self.optimal_size == self_pre.optimal_size,
                    self.next_team_to_receive_player == self_pre.next_team_to_receive_player,
                    watchers.wf(),
                    partition_ok(working@, all_assigned),
                    !self.team_to_players@.contains_key(team_id),
                    forall|p: Id| #[trigger]
                        self.player_to_team@.contains_key(p) <==> (ptm_before@.contains_key(p)
                            || members@.take(k as int).contains(p)),
                    forall|p: Id|
                        #[trigger] members@.take(k as int).contains(p) ==> self.player_to_team@[p]
                            == team_id,
                    forall|p: Id|
                        #[trigger] ptm_before@.contains_key(p) && !members@.take(
                            k as int,
                        ).contains(p) ==> self.player_to_team@[p] == ptm_before@[p],
                    forall|id: Id|
                        watchers.value_map().contains_key(id) <==> old(watchers).value_map().contains_key(id),
                    forall|id: Id|
                        #[trigger] watchers.value_map().contains_key(id)
                            ==> watchers.value_map()[id].spec_kind() == old(watchers).value_map()[id].spec_kind(),
                    names.wf(),
                    forall|p2: Id|
                        #[trigger] members@.take(k as int).contains(p2) ==> (
                        watchers.value_map()[p2] matches Value::Player(
                            PlayerValue::Team { team_id: t, .. },
                        ) && t == team_id),
                    forall|p2: Id|
                        #[trigger] ptm_before@.contains_key(p2) ==> (
                        watchers.value_map()[p2] matches Value::Player(
                            PlayerValue::Team { team_id: t, .. },
                        ) && t == ptm_before@[p2]),
                    forall|p2: Id|
                        #[trigger] ptm_before@.contains_key(p2) ==> exists|a: int, k2: int|
                            0 <= a < i && 0 <= k2 < working@[a]@.len() && working@[a]@[k2] == p2,
                decreases members@.len() - k,
            {
                let p = members[k];
                proof {
                    // This member sits in row `i`, so it is in no earlier
                    // row and carries the player kind from the start.
                    assert(members@.contains(p));
                    assert(all_assigned.contains_key(p));
                    if ptm_before@.contains_key(p) {
                        let (a, k2): (int, int) = choose|a: int, k2: int|
                            0 <= a < i && 0 <= k2 < working@[a]@.len() && working@[a]@[k2] == p;
                        assert(working@[a]@[k2] == working@[i as int]@[k as int]);
                        assert(false);
                    }
                }
                self.player_to_team.insert(p, team_id);
                let individual_name = match names.get_name(p) {
                    Some(n) => n,
                    None => String::new(),
                };
                let old_kind_is_player = match watchers.get_watcher_value(p) {
                    Some(v) => matches!(v.kind(), crate::watcher::ValueKind::Player),
                    None => false,
                };
                proof {
                    assert(watchers.value_map().contains_key(p));
                    assert(watchers.value_map()[p].spec_kind()
                        == crate::watcher::ValueKind::Player);
                }
                if old_kind_is_player {
                    watchers.update_watcher_value(
                        p,
                        Value::Player(
                            PlayerValue::Team {
                                team_name: team_name.clone(),
                                individual_name,
                                team_id,
                                player_index_in_team: k,
                            },
                        ),
                    );
                } else {
                    proof {
                        // Unreachable: the member is registered as a player.
                        assert(false);
                    }
                }
                proof {
                    assert(members@.take(k + 1).drop_last() =~= members@.take(k as int));
                    assert(members@.take(k + 1)[k as int] == p);
                    assert forall|p2: Id|
                        #[trigger] members@.take(k + 1).contains(p2) implies (
                        watchers.value_map()[p2] matches Value::Player(
                            PlayerValue::Team { team_id: t, .. },
                        ) && t == team_id) by {
                        if p2 != p {
                            let a = choose|a: int|
                                0 <= a < members@.take(k + 1).len() && #[trigger] members@.take(
                                    k + 1,
                                )[a] == p2;
                            assert(members@.take(k as int)[a] == p2);
                            assert(members@.take(k as int).contains(p2));
                        }
                    }
                    let taken_next = members@.take(k + 1);
                    let taken_cur = members@.take(k as int);
                    assert forall|p2: Id| #[trigger]
                        self.player_to_team@.contains_key(p2) <==> (ptm_before@.contains_key(p2)
                            || members@.take(k + 1).contains(p2)) by {
                        if p2 == p {
                            assert(taken_next[k as int] == p);
                        } else {
                            if taken_next.contains(p2) {
                                let a = choose|a: int|
                                    0 <= a < taken_next.len() && #[trigger] taken_next[a] == p2;
                                assert(taken_cur[a] == p2);
                            }
                            if taken_cur.contains(p2) {
                                let a = choose|a: int|
                                    0 <= a < taken_cur.len() && #[trigger] taken_cur[a] == p2;
                                assert(taken_next[a] == p2);
                            }
                        }
                    }
                    assert forall|p2: Id| #[trigger]
                        members@.take(k + 1).contains(p2) implies self.player_to_team@[p2]
                        == team_id by {
                        if p2 != p {
                            let a = choose|a: int|
                                0 <= a < taken_next.len() && #[trigger] taken_next[a] == p2;
                            assert(a != k);
                            assert(taken_cur[a] == p2);
                            assert(members@.take(k as int).contains(p2));
                        }
                    }
                    assert forall|p2: Id|
                        #[trigger] ptm_before@.contains_key(p2) && !members@.take(
                            k + 1,
                        ).contains(p2) implies self.player_to_team@[p2] == ptm_before@[p2] by {
                        assert(taken_next[k as int] == p);
                        assert(p2 != p);
                        if members@.take(k as int).contains(p2) {
                            let a = choose|a: int|
                                0 <= a < taken_cur.len() && #[trigger] taken_cur[a] == p2;
                            assert(taken_next[a] == p2);
                        }
                    }
                }
                k += 1;
            }
            proof {
                assert(members@.take(members@.len() as int) =~= members@);
            }
            let ghost team_list_before = team_list@;
            let ghost ttp_before = self.team_to_players@;
            self.team_to_players.insert(team_id, members);
            team_list.push((team_id, team_name));
            proof {
                assert forall|t: Id| #[trigger]
                    self.team_to_players@.contains_key(t) implies exists|a: int|
                    0 <= a < i + 1 && (#[trigger] team_list@[a]).0 == t by {
                    if t == team_id {
                        assert(team_list@[i as int].0 == t);
                    } else {
                        assert(ttp_before.contains_key(t));
                        let a = choose|a: int| 0 <= a < i && (#[trigger] team_list_before[a]).0 == t;
                        assert(team_list@[a].0 == t);
                    }
                }
                assert forall|p: Id|
                    #[trigger] self.player_to_team@.contains_key(p) implies self.members_map(
                ).contains_key(self.player_to_team@[p]) && self.team_to_players@[self.player_to_team@[p]]@.contains(
                    p,
                ) by {
                    if members@.contains(p) {
                        assert(self.player_to_team@[p] == team_id);
                    } else {
                        assert(ptm_before@.contains_key(p));
                        assert(self.player_to_team@[p] == ptm_before@[p]);
                        assert(ptm_before@[p] != team_id);
                    }
                }
                assert forall|t: Id, k2: int|
                    self.team_to_players@.contains_key(t) && 0 <= k2
                        < self.team_to_players@[t]@.len() implies (self.player_to_team@.contains_key(
                    #[trigger] self.team_to_players@[t]@[k2],
                ) && self.player_to_team@[self.team_to_players@[t]@[k2]] == t) by {
                    if t == team_id {
                        assert(self.team_to_players@[t]@[k2] == members@[k2]);
                        assert(members@.contains(members@[k2]));
                    } else {
                        assert(ttp_before.contains_key(t));
                        let m = self.team_to_players@[t]@[k2];
                        if members@.contains(m) {
                            let (a2, x2) = choose|a2: int, x2: int|
                                0 <= a2 < i && 0 <= x2 < working@[a2]@.len() && working@[a2]@[x2]
                                    == m;
                            let y2 = choose|y2: int|
                                0 <= y2 < working@[i as int]@.len() && working@[i as int]@[y2]
                                    == m;
                            assert(working@[a2]@[x2] != working@[i as int]@[y2]);
                        }
                    }
                }
                assert forall|p: Id|
                    #[trigger] self.player_to_team@.contains_key(p) implies exists|a: int, k2: int|
                    0 <= a < i + 1 && 0 <= k2 < working@[a]@.len() && working@[a]@[k2] == p by {
                    if members@.contains(p) {
                        let k2 = choose|k2: int|
                            0 <= k2 < working@[i as int]@.len() && working@[i as int]@[k2] == p;
                    } else {
                        assert(ptm_before@.contains_key(p));
                        let (a, k2) = choose|a: int, k2: int|
                            0 <= a < i && 0 <= k2 < working@[a]@.len() && working@[a]@[k2] == p;
                    }
                }
            }
            i += 1;
        }
        // There is always at least one (possibly empty) team.
        if team_list.len() == 0 {
            let team_id = fresh_team_id(&self.team_to_players);
            let team_name = self.draw_team_name(team_id, names);
            proof {
                assert(self.team_to_players.key_seq().len() == 0);
            }
            self.team_to_players.insert(team_id, Vec::new());
            team_list.push((team_id, team_name));
            proof {
                assert forall|t: Id| #[trigger]
                    self.team_to_players@.contains_key(t) implies exists|a: int|
                    0 <= a < team_list@.len() && (#[trigger] team_list@[a]).0 == t by {
                    assert(team_list@[0].0 == team_id);
                }
            }
        }
        proof {
            assert forall|p: Id| #[trigger]
                all_assigned.contains_key(p) implies (watchers.value_map()[p] matches Value::Player(
                PlayerValue::Team { team_id: t, .. },
            ) && t == self.team_map()[p]) by {
                let (a, k): (int, int) = choose|a: int, k: int|
                    0 <= a < working@.len() && 0 <= k < working@[a]@.len() && working@[a]@[k] == p;
                assert(self.player_to_team@.contains_key(p));
            }
        }
        self.teams = Some(team_list);
        self.next_team_to_receive_player = 0;
    }

    /// The mutual anchor of a player: the smallest of the player's own
    /// identifier and the identifiers of preferred players that prefer the
    /// player back.
    #[verifier::loop_isolation(false)]
    fn mutual_anchor(&self, p: Id, players: &Vec<Id>) -> (r: Id)
        requires
            self.wf(),
        ensures
            self.spec_is_random_assignments() ==> r == p,
    {
        let _ = players;
        let mut best = p;
        if self.assign_random {
            return best;
        }
        match self.preferences.get(p) {
            Some(my_prefs) => {
                let my_prefs = copy_ids(my_prefs);
                let mut i: usize = 0;
                while i < my_prefs.len()
                    invariant
                        0 <= i <= my_prefs@.len(),
                    decreases my_prefs@.len() - i,
                {
                    let q = my_prefs[i];
                    let mutual = match self.preferences.get(q) {
                        Some(their_prefs) => {
                            let mut found = false;
                            let mut j: usize = 0;
                            while j < their_prefs.len()
                                invariant
                                    0 <= j <= their_prefs@.len(),
                                decreases their_prefs@.len() - j + if found {
                                    0int
                                } else {
                                    1int
                                },
                            {
                                if their_prefs[j] == p {
                                    found = true;
                                    break ;
                                }
                                j += 1;
                            }
                            found
                        },
                        None => false,
                    };
                    if mutual && q.le(&best) {
                        best = q;
                    }
                    i += 1;
                }
            },
            None => {},
        }
        best
    }

    /// Draw a unique pluralized petname for a team, retrying a bounded
    /// number of times; if every draw is refused, the team keeps the last
    /// candidate without registering it.
    fn draw_team_name(&self, team_id: Id, names: &mut Names) -> (r: String)
        requires
            old(names).wf(),
        ensures
            final(names).wf(),
            forall|id: Id|
                #[trigger] old(names).name_map().contains_key(id) ==> final(names).name_map().contains_key(id) && final(names).name_map()[id] == old(names).name_map()[id],
    {
        let mut fallback = String::new();
        let mut attempts: usize = 0;
        while attempts < NAME_ATTEMPTS
            invariant
                names.wf(),
                forall|id: Id|
                    #[trigger] old(names).name_map().contains_key(id)
                        ==> names.name_map().contains_key(id) && names.name_map()[id] == old(names).name_map()[id],
            decreases NAME_ATTEMPTS - attempts,
        {
            match random_petname() {
                Some(word) => {
                    let plural = pluralize_word(word.as_str());
                    fallback = plural.clone();
                    match names.set_name(team_id, plural.as_str()) {
                        Ok(assigned) => {
                            return assigned;
                        },
                        Err(_) => {},
                    }
                },
                None => {},
            }
            attempts += 1;
        }
        fallback
    }

    /// Assign a late joiner: an already-assigned player just learns their
    /// team name again; otherwise the player joins the teams round-robin.
    /// Before finalization nothing happens.
    #[verifier::loop_isolation(false)]
    #[verifier::rlimit(100)]
    pub fn add_player(&mut self, player_id: Id, watchers: &mut Watchers) -> (r: Option<String>)
        requires
            old(self).wf(),
            old(watchers).wf(),
        ensures
            final(self).wf(),
            final(watchers).wf(),
            final(self).finalized() == old(self).finalized(),
            final(self).spec_optimal_size() == old(self).spec_optimal_size(),
            final(self).spec_is_random_assignments() == old(self).spec_is_random_assignments(),
            r is Some <==> old(self).finalized(),
            old(self).finalized() ==> final(self).team_map().contains_key(player_id),
            !old(self).finalized() ==> *final(self) == *old(self) && *final(watchers) == *old(watchers),
            old(self).team_map().contains_key(player_id) ==> *final(self) == *old(self),
            forall|id: Id|
                final(watchers).value_map().contains_key(id) <==> old(watchers).value_map().contains_key(id),
            forall|id: Id|
                #[trigger] final(watchers).value_map().contains_key(id) && id != player_id
                    ==> final(watchers).value_map()[id] == old(watchers).value_map()[id],
    {
        let existing = self.get_team(player_id);
        match existing {
            Some(team) => {
                match &self.teams {
                    Some(ts) => {
                        let mut i: usize = 0;
                        while i < ts.len()
                            invariant
                                0 <= i <= ts@.len(),
                            decreases ts@.len() - i,
                        {
                            if ts[i].0 == team {
                                return Some(ts[i].1.clone());
                            }
                            i += 1;
                        }
                        Some(String::new())
                    },
                    None => {
                        // Unreachable: an unfinalized manager assigns nobody.
                        proof {
                            assert(false);
                        }
                        Some(String::new())
                    },
                }
            },
            None => {
                let ghost before = *self;
                match &self.teams {
                    Some(ts) => {
                        let next_index = self.next_team_to_receive_player;
                        self.next_team_to_receive_player = if next_index < usize::MAX {
                            next_index + 1
                        } else {
                            0
                        };
                        let slot = next_index % ts.len();
                        let team_id = ts[slot].0;
                        let team_name = ts[slot].1.clone();
                        self.player_to_team.insert(player_id, team_id);
                        let gi = match self.team_to_players.get_index(team_id) {
                            Some(gi) => gi,
                            None => {
                                // Unreachable: every rostered team has a list.
                                proof {
                                    assert(false);
                                }
                                0
                            },
                        };
                        let mut row = copy_ids(&self.team_to_players.entry_at(gi).1);
                        proof {
                            self.team_to_players.lemma_entry(gi as int);
                            assert(!row@.contains(player_id)) by {
                                if row@.contains(player_id) {
                                    let k = choose|k: int|
                                        0 <= k < row@.len() && row@[k] == player_id;
                                    assert(before.members_map()[team_id]@[k] == player_id);
                                    assert(before.team_map().contains_key(player_id));
                                }
                            }
                        }
                        let new_index = row.len();
                        row.push(player_id);
                        self.team_to_players.set_at(gi, row);
                        let individual_name = match watchers.get_name(player_id) {
                            Some(n) => n,
                            None => String::new(),
                        };
                        watchers.update_watcher_value(
                            player_id,
                            Value::Player(
                                PlayerValue::Team {
                                    team_name: team_name.clone(),
                                    individual_name,
                                    team_id,
                                    player_index_in_team: new_index,
                                },
                            ),
                        );
                        proof {
                            let old_members = before.members_map()[team_id]@;
                            assert(self.team_to_players@[team_id]@ =~= old_members.push(
                                player_id,
                            ));
                            assert forall|p2: Id|
                                #[trigger] self.player_to_team@.contains_key(p2) implies
                                self.team_to_players@.contains_key(self.player_to_team@[p2])
                                    && self.team_to_players@[self.player_to_team@[p2]]@.contains(
                                p2,
                            ) by {
                                if p2 == player_id {
                                    assert(self.team_to_players@[team_id]@[old_members.len() as int]
                                        == player_id);
                                } else {
                                    assert(before.team_map().contains_key(p2));
                                    let t2 = before.team_map()[p2];
                                    assert(before.members_map()[t2]@.contains(p2));
                                    if t2 == team_id {
                                        let a = choose|a: int|
                                            0 <= a < old_members.len() && old_members[a] == p2;
                                        assert(self.team_to_players@[team_id]@[a] == p2);
                                    }
                                }
                            }
                            assert forall|t2: Id, k2: int|
                                self.team_to_players@.contains_key(t2) && 0 <= k2
                                    < self.team_to_players@[t2]@.len() implies (
                            self.player_to_team@.contains_key(
                                #[trigger] self.team_to_players@[t2]@[k2],
                            ) && self.player_to_team@[self.team_to_players@[t2]@[k2]] == t2) by {
                                if t2 == team_id && k2 == old_members.len() {
                                } else {
                                    assert(before.members_map().contains_key(t2));
                                    let m = self.team_to_players@[t2]@[k2];
                                    assert(before.members_map()[t2]@[k2] == m);
                                    assert(before.team_map().contains_key(m) && before.team_map()[m]
                                        == t2);
                                    assert(m != player_id);
                                }
                            }
                            assert forall|t2: Id, x: int, y: int|
                                #![trigger self.team_to_players@[t2]@[x], self.team_to_players@[t2]@[y]]
                                self.team_to_players@.contains_key(t2) && 0 <= x < y
                                    < self.team_to_players@[t2]@.len() implies
                                self.team_to_players@[t2]@[x] != self.team_to_players@[t2]@[y] by {
                                if t2 == team_id {
                                    if y == old_members.len() {
                                        assert(self.team_to_players@[t2]@[x] == old_members[x]);
                                        assert(before.team_map().contains_key(old_members[x]));
                                    } else {
                                        assert(self.team_to_players@[t2]@[x] == old_members[x]);
                                        assert(self.team_to_players@[t2]@[y] == old_members[y]);
                                    }
                                } else {
                                    assert(before.members_map().contains_key(t2));
                                }
                            }
                            assert(self.teams == before.teams);
                            assert(self.team_seq() == before.team_seq());
                            assert forall|t2: Id|
                                #[trigger] self.team_to_players@.contains_key(t2) implies exists|
                                a: int,
                            |
                                0 <= a < self.team_seq().len() && (#[trigger] self.team_seq()[a]).0
                                    == t2 by {
                                assert(before.members_map().contains_key(t2));
                                let a = choose|a: int|
                                    0 <= a < before.team_seq().len() && (
                                    #[trigger] before.team_seq()[a]).0 == t2;
                                assert((self.team_seq()[a]).0 == t2);
                            }
                            assert(self.wf());
                        }
                        Some(team_name)
                    },
                    None => None,
                }
            },
        }
    }
}

/// Merging one working row into another preserves the partition facts.
proof fn lemma_merge_preserves(
    before: Seq<Vec<Id>>,
    after: Seq<Vec<Id>>,
    smallest: int,
    target: int,
    all_assigned: Map<Id, Id>,
)
    requires
        0 <= smallest < before.len(),
        0 <= target < before.len(),
        target != smallest,
        after.len() == before.len() - 1,
        forall|a: int|
            0 <= a < after.len() ==> #[trigger] after[a] == if a == (if target < smallest {
                target
            } else {
                target - 1
            }) {
                after[a]
            } else if a < smallest {
                before[a]
            } else {
                before[a + 1]
            },
        ({
            let t2 = if target < smallest {
                target
            } else {
                target - 1
            };
            after[t2]@ == before[target]@ + before[smallest]@
        }),
        forall|a: int, k: int|
            0 <= a < before.len() && 0 <= k < before[a]@.len() ==> all_assigned.contains_key(
                #[trigger] before[a]@[k],
            ),
        forall|a: int, x: int, y: int|
            #![trigger before[a]@[x], before[a]@[y]]
            0 <= a < before.len() && 0 <= x < y < before[a]@.len() ==> before[a]@[x]
                != before[a]@[y],
        forall|a: int, b: int, x: int, y: int|
            0 <= a < b < before.len() && 0 <= x < before[a]@.len() && 0 <= y < before[b]@.len()
                ==> (#[trigger] before[a]@[x]) != (#[trigger] before[b]@[y]),
        forall|p: Id|
            #[trigger] all_assigned.contains_key(p) ==> exists|a: int, k: int|
                0 <= a < before.len() && 0 <= k < before[a]@.len() && before[a]@[k] == p,
    ensures
        partition_ok(after, all_assigned),
{
    let t2 = if target < smallest {
        target
    } else {
        target - 1
    };
    let origin = |a: int|
        if a < smallest {
            a
        } else {
            a + 1
        };
    assert forall|a: int| 0 <= a < after.len() && a != t2 implies after[a]
        == before[origin(a)] by {}
    let tl = before[target]@.len() as int;
    assert forall|a: int, k: int|
        0 <= a < after.len() && 0 <= k < after[a]@.len() implies all_assigned.contains_key(
        #[trigger] after[a]@[k],
    ) by {
        if a == t2 {
            if k < tl {
                assert(after[a]@[k] == before[target]@[k]);
            } else {
                assert(after[a]@[k] == before[smallest]@[k - tl]);
            }
        } else {
            assert(after[a]@[k] == before[origin(a)]@[k]);
        }
    }
    assert forall|a: int, x: int, y: int|
        #![trigger after[a]@[x], after[a]@[y]]
        0 <= a < after.len() && 0 <= x < y < after[a]@.len() implies after[a]@[x]
        != after[a]@[y] by {
        if a == t2 {
            if x < tl && y < tl {
                assert(after[a]@[x] == before[target]@[x]);
                assert(after[a]@[y] == before[target]@[y]);
            } else if x >= tl && y >= tl {
                assert(after[a]@[x] == before[smallest]@[x - tl]);
                assert(after[a]@[y] == before[smallest]@[y - tl]);
            } else {
                assert(after[a]@[x] == before[target]@[x]);
                assert(after[a]@[y] == before[smallest]@[y - tl]);
                if target < smallest {
                    assert(before[target]@[x] != before[smallest]@[y - tl]);
                } else {
                    assert(before[smallest]@[y - tl] != before[target]@[x]);
                }
            }
        } else {
            assert(after[a]@[x] == before[origin(a)]@[x]);
            assert(after[a]@[y] == before[origin(a)]@[y]);
        }
    }
    assert forall|a: int, b: int, x: int, y: int|
        0 <= a < b < after.len() && 0 <= x < after[a]@.len() && 0 <= y < after[b]@.len() implies (
    #[trigger] after[a]@[x]) != (#[trigger] after[b]@[y]) by {
        let ea = if a == t2 && x >= tl {
            before[smallest]@[x - tl]
        } else if a == t2 {
            before[target]@[x]
        } else {
            before[origin(a)]@[x]
        };
        let eb = if b == t2 && y >= tl {
            before[smallest]@[y - tl]
        } else if b == t2 {
            before[target]@[y]
        } else {
            before[origin(b)]@[y]
        };
        assert(after[a]@[x] == ea);
        assert(after[b]@[y] == eb);
        assert(origin(a) != origin(b));
        if a == t2 {
            assert(origin(b) != target && origin(b) != smallest);
        } else if b == t2 {
            assert(origin(a) != target && origin(a) != smallest);
        }
    }
    assert forall|p: Id| #[trigger] all_assigned.contains_key(p) implies exists|a: int, k: int|
        0 <= a < after.len() && 0 <= k < after[a]@.len() && after[a]@[k] == p by {
        let (a0, k0) = choose|a0: int, k0: int|
            0 <= a0 < before.len() && 0 <= k0 < before[a0]@.len() && before[a0]@[k0] == p;
        if a0 == smallest {
            assert(after[t2]@[tl + k0] == p);
        } else if a0 == target {
            assert(after[t2]@[k0] == p);
        } else if a0 < smallest {
            assert(after[a0]@[k0] == p);
        } else {
            assert(after[a0 - 1]@[k0] == p);
        }
    }
}

/// Two equal elements at distinct positions give a count of at least two.
proof fn lemma_dup_count(s: Seq<Id>, x: int, y: int)
    requires
        0 <= x < y < s.len(),
        s[x] == s[y],
    ensures
        s.to_multiset().count(s[x]) >= 2,
{
    s.to_multiset_ensures();
    let without = s.remove(y);
    without.to_multiset_ensures();
    assert(without.to_multiset() =~= s.to_multiset().remove(s[y]));
    assert(without[x] == s[x]);
    assert(without.contains(without[x]));
    assert(without.to_multiset().count(s[x]) >= 1);
    assert(s.to_multiset().count(s[x]) == without.to_multiset().count(s[x]) + 1) by {
        assert(s.to_multiset().remove(s[y]).count(s[x]) == s.to_multiset().count(s[x]) - 1);
    }
}

/// A duplicate-free sequence counts every element at most once.
proof fn lemma_count_distinct(s: Seq<Id>, v: Id)
    requires
        forall|x: int, y: int| #![trigger s[x], s[y]] 0 <= x < y < s.len() ==> s[x] != s[y],
    ensures
        s.to_multiset().count(v) <= 1,
    decreases s.len(),
{
    s.to_multiset_ensures();
    if s.len() > 0 {
        let rest = s.drop_last();
        rest.to_multiset_ensures();
        assert(forall|x: int, y: int|
            #![trigger rest[x], rest[y]]
            0 <= x < y < rest.len() ==> rest[x] != rest[y]);
        lemma_count_distinct(rest, v);
        assert(rest.push(s.last()) =~= s);
        assert(rest.push(s.last()).to_multiset() =~= rest.to_multiset().insert(s.last()));
        assert(s.to_multiset() == rest.to_multiset().insert(s.last()));
        if v == s.last() {
            if rest.to_multiset().count(v) >= 1 {
                assert(rest.contains(v));
                let x = choose|x: int| 0 <= x < rest.len() && rest[x] == v;
                assert(s[x] == v && s[s.len() - 1] == v);
            }
        }
    }
}

/// An element-for-element copy of an identifier vector.
fn copy_ids(v: &Vec<Id>) -> (r: Vec<Id>)
    ensures
        r@ == v@,
{
    let mut r: Vec<Id> = Vec::new();
    let mut i: usize = 0;
    while i < v.len()
        invariant
            0 <= i <= v@.len(),
            r@ == v@.take(i as int),
        decreases v@.len() - i,
    {
        r.push(v[i]);
        proof {
            assert(r@ =~= v@.take(i + 1));
        }
        i += 1;
    }
    proof {
        assert(r@ =~= v@);
    }
    r
}

} // verus!
