//! The leaderboard: an append-only history of per-slide score deltas, with
//! cached projections — the cumulative standings sorted descending, the
//! standings before the latest slide, and each scorer's points and rank.
//!
//! Additions saturate at the top of the score range instead of overflowing.

use vstd::prelude::*;

use crate::store::IdMap;
use crate::watcher::Id;
use crate::TruncatedVec;

verus! {

/// How many entries a published leaderboard keeps.
pub const LEADERBOARD_LIMIT: usize = 50;

/// Saturating addition within the score range.
pub open spec fn sat_add64(a: int, b: int) -> int {
    if a + b > u64::MAX {
        u64::MAX as int
    } else {
        a + b
    }
}

/// Fold one delta entry into a cumulative score map.
pub open spec fn accum_entry(m: Map<Id, u64>, e: (Id, u64)) -> Map<Id, u64> {
    let prev: int = if m.contains_key(e.0) {
        m[e.0] as int
    } else {
        0
    };
    m.insert(e.0, sat_add64(prev, e.1 as int) as u64)
}

/// Fold one slide's delta list into a cumulative score map.
pub open spec fn accum_slide(m: Map<Id, u64>, s: Seq<(Id, u64)>) -> Map<Id, u64>
    decreases s.len(),
{
    if s.len() == 0 {
        m
    } else {
        accum_entry(accum_slide(m, s.drop_last()), s.last())
    }
}

/// The cumulative score map of a whole history.
pub open spec fn cumulative(h: Seq<Seq<(Id, u64)>>) -> Map<Id, u64>
    decreases h.len(),
{
    if h.len() == 0 {
        Map::empty()
    } else {
        accum_slide(cumulative(h.drop_last()), h.last())
    }
}

/// The history without its most recent slide.
pub open spec fn prior_history(h: Seq<Seq<(Id, u64)>>) -> Seq<Seq<(Id, u64)>> {
    if h.len() == 0 {
        h
    } else {
        h.drop_last()
    }
}

/// Whether `entries` is a faithful descending-sorted listing of `m`.
pub open spec fn standings_rep(entries: Seq<(Id, u64)>, m: Map<Id, u64>) -> bool {
    &&& forall|i: int, j: int|
        0 <= i < j < entries.len() ==> (#[trigger] entries[i]).0 != (#[trigger] entries[j]).0
    &&& forall|i: int, j: int|
        0 <= i < j < entries.len() ==> (#[trigger] entries[i]).1 >= (#[trigger] entries[j]).1
    &&& forall|i: int|
        0 <= i < entries.len() ==> m.contains_key((#[trigger] entries[i]).0) && m[entries[i].0]
            == entries[i].1
    &&& forall|id: Id|
        m.contains_key(id) ==> exists|i: int|
            0 <= i < entries.len() && (#[trigger] entries[i]).0 == id
}

/// How many entries of one slide earned points, and how many did not.
pub open spec fn earned_count(s: Seq<(Id, u64)>) -> int
    decreases s.len(),
{
    if s.len() == 0 {
        0
    } else {
        earned_count(s.drop_last()) + if s.last().1 > 0 {
            1int
        } else {
            0int
        }
    }
}

/// The points one scorer earned on one slide: the last entry carrying their
/// identifier wins, matching how submissions overwrite.
pub open spec fn slide_points(s: Seq<(Id, u64)>, id: Id) -> int
    decreases s.len(),
{
    if s.len() == 0 {
        0
    } else if s.last().0 == id {
        s.last().1 as int
    } else {
        slide_points(s.drop_last(), id)
    }
}

/// A scorer absent from a slide earned nothing on it.
pub proof fn lemma_slide_points_absent(s: Seq<(Id, u64)>, id: Id)
    requires
        forall|j: int| 0 <= j < s.len() ==> (#[trigger] s[j]).0 != id,
    ensures
        slide_points(s, id) == 0,
    decreases s.len(),
{
    if s.len() > 0 {
        assert(forall|j: int| 0 <= j < s.len() - 1 ==> s.drop_last()[j] == (#[trigger] s[j]));
        assert((#[trigger] s[s.len() - 1]).0 != id);
        lemma_slide_points_absent(s.drop_last(), id);
    }
}

/// Whether a scorer appears anywhere in a history.
/// How many distinct ids earned an entry anywhere in the history.
pub open spec fn scorer_count(h: Seq<Seq<(Id, u64)>>) -> nat {
    Set::new(|id: Id| occurs_in(h, id)).len()
}

pub open spec fn occurs_in(h: Seq<Seq<(Id, u64)>>, id: Id) -> bool {
    exists|i: int, j: int|
        0 <= i < h.len() && 0 <= j < h[i].len() && (#[trigger] h[i][j]).0 == id
}

/// A summary entry, hiding magnitudes unless real scores are shown.
pub open spec fn map_score(points: int, show_real: bool) -> int {
    if show_real {
        points
    } else if points > 1 {
        1
    } else {
        points
    }
}

/// A scorer's points and 0-based rank.
#[derive(Debug, Clone, Copy, PartialEq, Eq, Structural)]
pub struct ScoreMessage {
    pub points: u64,
    pub position: usize,
}

/// The memoized final summary: per-slide earned/missed counts, and each
/// scorer's per-slide points. `show_real` records which flavor was captured
/// on first request.
#[derive(Debug)]
pub struct FinalSummary {
    stats: Vec<(usize, usize)>,
    mapping: IdMap<Vec<u64>>,
    show_real: bool,
}

impl FinalSummary {
    /// Which flavor was captured on first request.
    pub closed spec fn spec_show_real(self) -> bool {
        self.show_real
    }

    /// Whether this summary faithfully reflects a history.
    pub closed spec fn wf(self, h: Seq<Seq<(Id, u64)>>) -> bool {
        &&& self.mapping.wf()
        &&& self.stats@.len() == h.len()
        &&& forall|i: int|
            0 <= i < h.len() ==> (#[trigger] self.stats@[i]).0 == earned_count(h[i])
                && self.stats@[i].1 == h[i].len() - earned_count(h[i])
        &&& forall|id: Id| #[trigger] self.mapping@.contains_key(id) <==> occurs_in(h, id)
        &&& forall|id: Id|
            #[trigger] self.mapping@.contains_key(id) ==> self.mapping@[id]@.len() == h.len()
        &&& forall|id: Id, i: int|
            #[trigger] self.mapping@.contains_key(id) && 0 <= i < h.len() ==> (
            #[trigger] self.mapping@[id]@[i]) == map_score(slide_points(h[i], id), self.show_real)
    }
}

/// The leaderboard.
pub struct Leaderboard {
    points_earned: Vec<Vec<(Id, u64)>>,
    previous_scores_descending: Vec<(Id, u64)>,
    scores_descending: Vec<(Id, u64)>,
    score_and_position: IdMap<(u64, usize)>,
    final_summary: Option<FinalSummary>,
    summary_history: Ghost<Seq<Seq<(Id, u64)>>>,
}

impl Leaderboard {
    /// The per-slide delta history, oldest first.
    pub closed spec fn history(self) -> Seq<Seq<(Id, u64)>> {
        self.points_earned@.map_values(|v: Vec<(Id, u64)>| v@)
    }

    /// The cached current standings.
    pub closed spec fn spec_standings(self) -> Seq<(Id, u64)> {
        self.scores_descending@
    }

    /// The cached standings before the latest slide.
    pub closed spec fn spec_prior_standings(self) -> Seq<(Id, u64)> {
        self.previous_scores_descending@
    }

    /// The memoized summary, if it has been captured.
    pub closed spec fn spec_summary(self) -> Option<FinalSummary> {
        self.final_summary
    }

    /// The history the memoized summary was captured from.
    pub closed spec fn spec_summary_history(self) -> Seq<Seq<(Id, u64)>> {
        self.summary_history@
    }

    /// Whether the memoized summary has been captured.
    pub open spec fn summary_captured(self) -> bool {
        self.spec_summary() is Some
    }

    /// The caches faithfully reflect the history: the standings list the
    /// cumulative map in descending order, the prior standings list the
    /// cumulative map before the latest slide, the rank cache holds each
    /// scorer's points and position, and a captured summary reflects the
    /// history it was captured from.
    pub closed spec fn wf(self) -> bool {
        &&& standings_rep(self.scores_descending@, cumulative(self.history()))
        &&& standings_rep(
            self.previous_scores_descending@,
            cumulative(prior_history(self.history())),
        )
        &&& self.score_and_position.wf()
        &&& forall|i: int|
            0 <= i < self.scores_descending@.len() ==> {
                &&& self.score_and_position@.contains_key((#[trigger] self.scores_descending@[i]).0)
                &&& self.score_and_position@[self.scores_descending@[i].0] == (
                self.scores_descending@[i].1, i as usize)
            }
        &&& forall|id: Id|
            #[trigger] self.score_and_position@.contains_key(id) ==> exists|i: int|
                0 <= i < self.scores_descending@.len() && (#[trigger] self.scores_descending@[i]).0
                    == id
        &&& (self.final_summary matches Some(fs) ==> fs.wf(self.summary_history@))
    }

    /// An empty leaderboard.
    pub fn new() -> (r: Leaderboard)
        ensures
            r.wf(),
            r.history() == Seq::<Seq<(Id, u64)>>::empty(),
            !r.summary_captured(),
    {
        let r = Leaderboard {
            points_earned: Vec::new(),
            previous_scores_descending: Vec::new(),
            scores_descending: Vec::new(),
            score_and_position: IdMap::new(),
            final_summary: None,
            summary_history: Ghost(Seq::empty()),
        };
        proof {
            assert(r.history() =~= Seq::<Seq<(Id, u64)>>::empty());
        }
        r
    }

    /// How many slides have been scored.
    pub fn history_len(&self) -> (r: usize)
        ensures
            r == self.history().len(),
    {
        proof {
            assert(self.points_earned@.len() == self.history().len());
        }
        self.points_earned.len()
    }

    /// One slide's recorded deltas, copied.
    pub fn history_at(&self, i: usize) -> (r: Vec<(Id, u64)>)
        requires
            i < self.history().len(),
        ensures
            r@ == self.history()[i as int],
    {
        proof {
            assert(self.points_earned@.len() == self.history().len());
        }
        copy_pairs(&self.points_earned[i])
    }

    /// A scorer's points and rank, if they have any score.
    pub fn score(&self, watcher_id: Id) -> (r: Option<ScoreMessage>)
        requires
            self.wf(),
        ensures
            match r {
                Some(m) => {
                    &&& m.position < self.spec_standings().len()
                    &&& self.spec_standings()[m.position as int].0 == watcher_id
                    &&& self.spec_standings()[m.position as int].1 == m.points
                },
                None => forall|i: int|
                    0 <= i < self.spec_standings().len() ==> (
                    #[trigger] self.spec_standings()[i]).0 != watcher_id,
            },
    {
        match self.score_and_position.get(watcher_id) {
            Some(pair) => {
                let points = pair.0;
                let position = pair.1;
                proof {
                    let i = choose|i: int|
                        0 <= i < self.scores_descending@.len() && (
                        #[trigger] self.scores_descending@[i]).0 == watcher_id;
                    assert(0 <= i < self.scores_descending@.len());
                    assert(self.scores_descending@[i].0 == watcher_id);
                    assert(self.score_and_position@[watcher_id] == (
                    self.scores_descending@[i].1, i as usize));
                    assert(self.scores_descending@.len() == self.scores_descending.len());
                    assert((self.score_and_position@[watcher_id]).1 == i as usize);
                    assert(*pair == self.score_and_position@[watcher_id]);
                    assert(position as int == i);
                }
                Some(ScoreMessage { points, position })
            },
            None => {
                proof {
                    assert forall|i: int|
                        0 <= i < self.spec_standings().len() implies (
                    #[trigger] self.spec_standings()[i]).0 != watcher_id by {
                        if self.spec_standings()[i].0 == watcher_id {
                            assert(self.score_and_position@.contains_key(watcher_id));
                        }
                    }
                }
                None
            },
        }
    }

    /// The current and prior standings, truncated to the published limit
    /// with their exact lengths attached.
    pub fn last_two_scores_descending(&self) -> (r: (
        TruncatedVec<(Id, u64)>,
        TruncatedVec<(Id, u64)>,
    ))
        requires
            self.wf(),
        ensures
            r.0.spec_exact_count() == self.spec_standings().len(),
            r.0.spec_items() == if self.spec_standings().len() <= LEADERBOARD_LIMIT {
                self.spec_standings()
            } else {
                self.spec_standings().take(LEADERBOARD_LIMIT as int)
            },
            r.1.spec_exact_count() == self.spec_prior_standings().len(),
            r.1.spec_items() == if self.spec_prior_standings().len() <= LEADERBOARD_LIMIT {
                self.spec_prior_standings()
            } else {
                self.spec_prior_standings().take(LEADERBOARD_LIMIT as int)
            },
    {
        let current = TruncatedVec::new(
            copy_pairs(&self.scores_descending),
            LEADERBOARD_LIMIT,
            self.scores_descending.len(),
        );
        let prior = TruncatedVec::new(
            copy_pairs(&self.previous_scores_descending),
            LEADERBOARD_LIMIT,
            self.previous_scores_descending.len(),
        );
        (current, prior)
    }

    /// Append one slide's deltas and refresh every cache: merge the deltas
    /// into the cumulative map (saturating), re-sort descending, rebuild the
    /// rank cache, and rotate the prior standings.
    #[verifier::loop_isolation(false)]
    #[verifier::rlimit(100)]
    #[verifier::spinoff_prover]
    pub fn add_scores(&mut self, scores: &Vec<(Id, u64)>)
        requires
            old(self).wf(),
        ensures
            final(self).wf(),
            final(self).history() == old(self).history().push(scores@),
            final(self).spec_prior_standings() == old(self).spec_standings(),
            standings_rep(
                final(self).spec_standings(),
                cumulative(old(self).history().push(scores@)),
            ),
            final(self).spec_summary() == old(self).spec_summary(),
            final(self).spec_summary_history() == old(self).spec_summary_history(),
    {
        let ghost h = self.history();
        let ghost m0 = cumulative(h);
        // Start from the cached standings: they list the cumulative map.
        let mut summary: IdMap<u64> = IdMap::new();
        let mut i: usize = 0;
        while i < self.scores_descending.len()
            invariant
                0 <= i <= self.scores_descending@.len(),
                summary.wf(),
                forall|k: int|
                    0 <= k < i ==> summary@.contains_key((#[trigger] self.scores_descending@[k]).0)
                        && summary@[self.scores_descending@[k].0] == self.scores_descending@[k].1,
                forall|id: Id|
                    #[trigger] summary@.contains_key(id) ==> exists|k: int|
                        0 <= k < i && (#[trigger] self.scores_descending@[k]).0 == id,
            decreases self.scores_descending@.len() - i,
        {
            let entry = self.scores_descending[i];
            summary.insert(entry.0, entry.1);
            proof {
                assert forall|id: Id| #[trigger] summary@.contains_key(id) implies exists|k: int|
                    0 <= k < i + 1 && (#[trigger] self.scores_descending@[k]).0 == id by {
                    if id == entry.0 {
                        assert(self.scores_descending@[i as int].0 == id);
                    }
                }
            }
            i += 1;
        }
        proof {
            assert forall|id: Id| #[trigger] summary@.contains_key(id) implies m0.contains_key(id)
                && m0[id] == summary@[id] by {
                let k = choose|k: int|
                    0 <= k < self.scores_descending@.len() && (
                    #[trigger] self.scores_descending@[k]).0 == id;
                assert(m0.contains_key(self.scores_descending@[k].0));
            }
            assert forall|id: Id| m0.contains_key(id) implies #[trigger] summary@.contains_key(
                id,
            ) by {
                let k = choose|k: int|
                    0 <= k < self.scores_descending@.len() && (
                    #[trigger] self.scores_descending@[k]).0 == id;
                assert(summary@.contains_key(self.scores_descending@[k].0));
            }
            assert(summary@ =~= m0);
        }
        // Fold this slide's deltas in, saturating.
        let mut i: usize = 0;
        while i < scores.len()
            invariant
                0 <= i <= scores@.len(),
                summary.wf(),
                summary@ == accum_slide(m0, scores@.take(i as int)),
            decreases scores@.len() - i,
        {
            proof {
                assert(scores@.take(i + 1).drop_last() =~= scores@.take(i as int));
                assert(scores@.take(i + 1).last() == scores@[i as int]);
            }
            let entry = scores[i];
            let prev: u64 = match summary.get(entry.0) {
                Some(p) => *p,
                None => 0,
            };
            let next: u64 = if prev as u128 + entry.1 as u128 > u64::MAX as u128 {
                u64::MAX
            } else {
                prev + entry.1
            };
            summary.insert(entry.0, next);
            i += 1;
        }
        proof {
            assert(scores@.take(scores@.len() as int) =~= scores@);
        }
        let ghost m_new = accum_slide(m0, scores@);
        // List the merged entries, then sort them descending by points.
        let mut rest: Vec<(Id, u64)> = Vec::new();
        let mut i: usize = 0;
        let total = summary.len();
        while i < total
            invariant
                0 <= i <= total,
                total == summary.entry_seq().len(),
                rest@ == summary.entry_seq().take(i as int),
            decreases total - i,
        {
            let entry = summary.entry_at(i);
            rest.push((entry.0, entry.1));
            proof {
                assert(summary.entry_seq()[i as int] == (
                summary.entry_seq()[i as int].0,
                summary.entry_seq()[i as int].1,
                ));
                assert(rest@ =~= summary.entry_seq().take(i + 1));
            }
            i += 1;
        }
        proof {
            assert(rest@ =~= summary.entry_seq());
            assert forall|k: int| 0 <= k < rest@.len() implies m_new.contains_key(
                (#[trigger] rest@[k]).0,
            ) && m_new[rest@[k].0] == rest@[k].1 by {
                summary.lemma_entry(k);
            }
            assert forall|id: Id| m_new.contains_key(id) implies exists|k: int|
                0 <= k < rest@.len() && (#[trigger] rest@[k]).0 == id by {
                summary.lemma_contains(id);
                let k = choose|k: int|
                    0 <= k < summary.key_seq().len() && summary.key_seq()[k] == id;
                assert((#[trigger] rest@[k]).0 == id);
            }
            summary.lemma_keys_distinct();
            assert(forall|q: int|
                0 <= q < summary.entry_seq().len() ==> summary.key_seq()[q] == (
                #[trigger] summary.entry_seq()[q]).0);
            assert forall|a: int, b: int| 0 <= a < b < rest@.len() implies (
            #[trigger] rest@[a]).0 != (#[trigger] rest@[b]).0 by {
                assert(rest@[a].0 == summary.key_seq()[a]);
                assert(rest@[b].0 == summary.key_seq()[b]);
            }
        }
        let mut sorted: Vec<(Id, u64)> = Vec::new();
        while rest.len() > 0
            invariant
                forall|a: int, b: int|
                    0 <= a < b < sorted@.len() ==> (#[trigger] sorted@[a]).1 >= (
                    #[trigger] sorted@[b]).1,
                forall|a: int, b: int|
                    0 <= a < sorted@.len() && 0 <= b < rest@.len() ==> (#[trigger] sorted@[a]).1
                        >= (#[trigger] rest@[b]).1,
                forall|a: int, b: int|
                    0 <= a < b < sorted@.len() ==> (#[trigger] sorted@[a]).0 != (
                    #[trigger] sorted@[b]).0,
                forall|a: int, b: int|
                    0 <= a < b < rest@.len() ==> (#[trigger] rest@[a]).0 != (#[trigger] rest@[b]).0,
                forall|a: int, b: int|
                    0 <= a < sorted@.len() && 0 <= b < rest@.len() ==> (#[trigger] sorted@[a]).0
                        != (#[trigger] rest@[b]).0,
                forall|k: int|
                    0 <= k < sorted@.len() ==> m_new.contains_key((#[trigger] sorted@[k]).0)
                        && m_new[sorted@[k].0] == sorted@[k].1,
                forall|k: int|
                    0 <= k < rest@.len() ==> m_new.contains_key((#[trigger] rest@[k]).0)
                        && m_new[rest@[k].0] == rest@[k].1,
                forall|id: Id|
                    m_new.contains_key(id) ==> (exists|k: int|
                        0 <= k < sorted@.len() && (#[trigger] sorted@[k]).0 == id) || (exists|
                        k: int,
                    |
                        0 <= k < rest@.len() && (#[trigger] rest@[k]).0 == id),
            decreases rest@.len(),
        {
            let mut best: usize = 0;
            let mut j: usize = 1;
            while j < rest.len()
                invariant
                    0 <= best < j <= rest@.len(),
                    forall|k: int| 0 <= k < j ==> (#[trigger] rest@[k]).1 <= rest@[best as int].1,
                decreases rest@.len() - j,
            {
                if rest[j].1 > rest[best].1 {
                    best = j;
                }
                j += 1;
            }
            let ghost rest_before = rest@;
            let ghost sorted_before = sorted@;
            let picked = rest.swap_remove(best);
            sorted.push(picked);
            proof {
                assert(sorted@.drop_last() =~= sorted_before);
                assert forall|id: Id| m_new.contains_key(id) implies (exists|k: int|
                    0 <= k < sorted@.len() && (#[trigger] sorted@[k]).0 == id) || (exists|k: int|
                    0 <= k < rest@.len() && (#[trigger] rest@[k]).0 == id) by {
                    if exists|k: int|
                        0 <= k < sorted_before.len() && (#[trigger] sorted_before[k]).0 == id {
                        let k0 = choose|k0: int|
                            0 <= k0 < sorted_before.len() && (#[trigger] sorted_before[k0]).0
                                == id;
                        assert((#[trigger] sorted@[k0]).0 == id);
                    } else {
                        let k0 = choose|k0: int|
                            0 <= k0 < rest_before.len() && (#[trigger] rest_before[k0]).0 == id;
                        if k0 == best {
                            assert((#[trigger] sorted@[sorted@.len() - 1]).0 == id);
                        } else if k0 == rest_before.len() - 1 {
                            if best < rest@.len() {
                                assert(rest@[best as int] == rest_before[rest_before.len() - 1]);
                                assert((#[trigger] rest@[best as int]).0 == id);
                            } else {
                                assert((#[trigger] sorted@[sorted@.len() - 1]).0 == id);
                            }
                        } else {
                            assert(rest@[k0] == rest_before[k0]);
                            assert((#[trigger] rest@[k0]).0 == id);
                        }
                    }
                }
                assert forall|a: int, b: int|
                    0 <= a < sorted@.len() && 0 <= b < rest@.len() implies (
                #[trigger] sorted@[a]).1 >= (#[trigger] rest@[b]).1 by {
                    if b == best {
                        assert(rest@[b] == rest_before[rest_before.len() - 1]);
                    }
                }
            }
        }
        // Rebuild the rank cache from the sorted standings.
        let mut positions: IdMap<(u64, usize)> = IdMap::new();
        let mut i: usize = 0;
        while i < sorted.len()
            invariant
                0 <= i <= sorted@.len(),
                positions.wf(),
                forall|k: int|
                    0 <= k < i ==> positions@.contains_key((#[trigger] sorted@[k]).0)
                        && positions@[sorted@[k].0] == (sorted@[k].1, k as usize),
                forall|id: Id|
                    #[trigger] positions@.contains_key(id) ==> exists|k: int|
                        0 <= k < i && (#[trigger] sorted@[k]).0 == id,
            decreases sorted@.len() - i,
        {
            let entry = sorted[i];
            positions.insert(entry.0, (entry.1, i));
            proof {
                assert forall|id: Id| #[trigger]
                    positions@.contains_key(id) implies exists|k: int|
                    0 <= k < i + 1 && (#[trigger] sorted@[k]).0 == id by {
                    if id == entry.0 {
                        assert(sorted@[i as int].0 == id);
                    }
                }
            }
            i += 1;
        }
        self.points_earned.push(copy_pairs(scores));
        core::mem::swap(&mut self.previous_scores_descending, &mut self.scores_descending);
        self.scores_descending = sorted;
        self.score_and_position = positions;
        proof {
            assert(self.history() =~= h.push(scores@));
            assert(self.history().drop_last() =~= h);
            assert(cumulative(self.history()) == m_new);
            assert(standings_rep(self.scores_descending@, cumulative(self.history())));
            assert(standings_rep(
                self.previous_scores_descending@,
                cumulative(prior_history(self.history())),
            ));
            assert(self.score_and_position.wf());
            assert(forall|q: int|
                0 <= q < self.scores_descending@.len() ==> {
                    &&& self.score_and_position@.contains_key(
                        (#[trigger] self.scores_descending@[q]).0,
                    )
                    &&& self.score_and_position@[self.scores_descending@[q].0] == (
                    self.scores_descending@[q].1, q as usize)
                });
            assert(forall|id: Id|
                #[trigger] self.score_and_position@.contains_key(id) ==> exists|q: int|
                    0 <= q < self.scores_descending@.len() && (
                    #[trigger] self.scores_descending@[q]).0 == id);
            assert(self.final_summary matches Some(fs) ==> fs.wf(self.summary_history@));
            assert(self.wf());
        }
    }

    /// Capture the memoized summary if it has not been captured yet.
    #[verifier::rlimit(100)]
    #[verifier::spinoff_prover]
    fn capture_summary(&mut self, show_real_score: bool)
        requires
            old(self).wf(),
        ensures
            final(self).wf(),
            final(self).history() == old(self).history(),
            final(self).spec_standings() == old(self).spec_standings(),
            final(self).spec_prior_standings() == old(self).spec_prior_standings(),
            final(self).summary_captured(),
            !old(self).summary_captured() ==> {
                &&& final(self).spec_summary_history() == old(self).history()
                &&& (final(self).spec_summary() matches Some(fs) && fs.spec_show_real()
                    == show_real_score)
            },
            old(self).summary_captured() ==> final(self).spec_summary() == old(self).spec_summary()
                && final(self).spec_summary_history() == old(self).spec_summary_history(),
    {
        if self.final_summary.is_some() {
            return ;
        }
        let fs = compute_final_summary(&self.points_earned, show_real_score);
        proof {
            assert(fs.wf(self.history()));
        }
        self.final_summary = Some(fs);
        self.summary_history = Ghost(self.history());
    }

    /// The host's side of the final summary: how many scorers there are, and
    /// per slide how many entries earned points and how many did not.
    ///
    /// The summary is memoized on first request; `show_real_score` is
    /// captured then, and later calls reuse the captured summary.
    pub fn host_summary(&mut self, show_real_score: bool) -> (r: (usize, Vec<(usize, usize)>))
        requires
            old(self).wf(),
        ensures
            final(self).wf(),
            final(self).history() == old(self).history(),
            final(self).spec_standings() == old(self).spec_standings(),
            final(self).spec_prior_standings() == old(self).spec_prior_standings(),
            final(self).summary_captured(),
            !old(self).summary_captured() ==> final(self).spec_summary_history() == old(self).history(),
            old(self).summary_captured() ==> final(self).spec_summary_history() == old(self).spec_summary_history(),
            !old(self).summary_captured() ==> (final(self).spec_summary() matches Some(fs)
                && fs.spec_show_real() == show_real_score),
            r.0 == scorer_count(final(self).spec_summary_history()),
            (r.1)@.len() == final(self).spec_summary_history().len(),
            forall|i: int|
                0 <= i < final(self).spec_summary_history().len() ==> (#[trigger] (r.1)@[i]).0
                    == earned_count(final(self).spec_summary_history()[i]) && (r.1)@[i].1 == final(self).spec_summary_history()[i].len() - earned_count(
                    final(self).spec_summary_history()[i],
                ),
    {
        self.capture_summary(show_real_score);
        match &self.final_summary {
            Some(fs) => {
                let mut stats: Vec<(usize, usize)> = Vec::new();
                let mut i: usize = 0;
                while i < fs.stats.len()
                    invariant
                        0 <= i <= fs.stats@.len(),
                        stats@ == fs.stats@.take(i as int),
                    decreases fs.stats@.len() - i,
                {
                    stats.push(fs.stats[i]);
                    proof {
                        assert(stats@ =~= fs.stats@.take(i + 1));
                    }
                    i += 1;
                }
                proof {
                    assert(stats@ =~= fs.stats@);
                    let h = self.summary_history@;
                    fs.mapping.lemma_keys_distinct();
                    assert(fs.mapping.key_seq().no_duplicates());
                    fs.mapping.key_seq().unique_seq_to_set();
                    assert forall|id: Id|
                        fs.mapping.key_seq().to_set().contains(id) == (#[trigger] occurs_in(
                            h,
                            id,
                        )) by {
                        fs.mapping.lemma_contains(id);
                    }
                    assert(fs.mapping.key_seq().to_set() =~= Set::new(
                        |id: Id| occurs_in(h, id),
                    ));
                }
                (fs.mapping.len(), stats)
            },
            None => {
                // Unreachable: the summary was just captured.
                (0, Vec::new())
            },
        }
    }

    /// A player's side of the final summary: their points on each slide, in
    /// slide order (magnitudes hidden unless real scores were captured).
    ///
    /// Shares the memoized summary with `host_summary`.
    pub fn player_summary(&mut self, id: Id, show_real_score: bool) -> (r: Vec<u64>)
        requires
            old(self).wf(),
        ensures
            final(self).wf(),
            final(self).history() == old(self).history(),
            final(self).spec_standings() == old(self).spec_standings(),
            final(self).spec_prior_standings() == old(self).spec_prior_standings(),
            final(self).summary_captured(),
            !old(self).summary_captured() ==> final(self).spec_summary_history() == old(self).history(),
            old(self).summary_captured() ==> final(self).spec_summary_history() == old(self).spec_summary_history(),
            !old(self).summary_captured() ==> (final(self).spec_summary() matches Some(fs)
                && fs.spec_show_real() == show_real_score),
            r@.len() == final(self).spec_summary_history().len(),
            (final(self).spec_summary() matches Some(fs) ==> {
                &&& occurs_in(final(self).spec_summary_history(), id) ==> forall|i: int|
                    0 <= i < r@.len() ==> (#[trigger] r@[i]) == map_score(
                        slide_points(final(self).spec_summary_history()[i], id),
                        fs.spec_show_real(),
                    )
                &&& !occurs_in(final(self).spec_summary_history(), id) ==> forall|i: int|
                    0 <= i < r@.len() ==> (#[trigger] r@[i]) == 0
            }),
    {
        self.capture_summary(show_real_score);
        match &self.final_summary {
            Some(fs) => {
                match fs.mapping.get(id) {
                    Some(points) => copy_u64s(points),
                    None => zero_vec(fs.stats.len()),
                }
            },
            None => {
                // Unreachable: the summary was just captured.
                zero_vec(self.points_earned.len())
            },
        }
    }
}

/// The standings list each scorer once: any two positions carrying the
/// same identifier are the same position. Together with `score`, whose
/// result points at a position carrying the scorer, this pins a scorer's
/// reported position to their unique 0-based index in the current
/// standings.
pub proof fn lemma_standings_distinct(lb: Leaderboard, i: int, j: int)
    requires
        lb.wf(),
        0 <= i < lb.spec_standings().len(),
        0 <= j < lb.spec_standings().len(),
        lb.spec_standings()[i].0 == lb.spec_standings()[j].0,
    ensures
        i == j,
{
    if i < j {
        assert((lb.scores_descending@[i]).0 != (lb.scores_descending@[j]).0);
    } else if j < i {
        assert((lb.scores_descending@[j]).0 != (lb.scores_descending@[i]).0);
    }
}

/// A vector of `n` zeros.
fn zero_vec(n: usize) -> (r: Vec<u64>)
    ensures
        r@.len() == n,
        forall|i: int| 0 <= i < n ==> (#[trigger] r@[i]) == 0,
{
    let mut r: Vec<u64> = Vec::new();
    let mut i: usize = 0;
    while i < n
        invariant
            0 <= i <= n,
            r@.len() == i,
            forall|j: int| 0 <= j < i ==> (#[trigger] r@[j]) == 0,
        decreases n - i,
    {
        r.push(0);
        i += 1;
    }
    r
}

/// An element-for-element copy of a pair vector.
fn copy_pairs(v: &Vec<(Id, u64)>) -> (r: Vec<(Id, u64)>)
    ensures
        r@ == v@,
{
    let mut r: Vec<(Id, u64)> = Vec::new();
    let mut i: usize = 0;
    while i < v.len()
        invariant
            0 <= i <= v@.len(),
            r@ == v@.take(i as int),
        decreases v@.len() - i,
    {
        r.push(v[i]);
        proof {
            assert(r@ =~= v@.take(i + 1));
        }
        i += 1;
    }
    proof {
        assert(r@ =~= v@);
    }
    r
}

/// An element-for-element copy of a score row.
fn copy_u64s(v: &Vec<u64>) -> (r: Vec<u64>)
    ensures
        r@ == v@,
{
    let mut r: Vec<u64> = Vec::new();
    let mut i: usize = 0;
    while i < v.len()
        invariant
            0 <= i <= v@.len(),
            r@ == v@.take(i as int),
        decreases v@.len() - i,
    {
        r.push(v[i]);
        proof {
            assert(r@ =~= v@.take(i + 1));
        }
        i += 1;
    }
    proof {
        assert(r@ =~= v@);
    }
    r
}

/// The stored summary entry for a raw score.
fn rescore(total: u64, show_real_score: bool) -> (r: u64)
    ensures
        r == map_score(total as int, show_real_score),
{
    if show_real_score {
        total
    } else if total > 1 {
        1
    } else {
        total
    }
}

/// Compute the final summary of a history.
#[verifier::loop_isolation(false)]
fn compute_final_summary(points_earned: &Vec<Vec<(Id, u64)>>, show_real_score: bool) -> (r:
    FinalSummary)
    ensures
        r.wf(points_earned@.map_values(|v: Vec<(Id, u64)>| v@)),
        r.show_real == show_real_score,
{
    let ghost h = points_earned@.map_values(|v: Vec<(Id, u64)>| v@);
    let mut stats: Vec<(usize, usize)> = Vec::new();
    let mut mapping: IdMap<Vec<u64>> = IdMap::new();
    let mut i: usize = 0;
    while i < points_earned.len()
        invariant
            0 <= i <= points_earned@.len(),
            stats@.len() == i,
            mapping.wf(),
            forall|k: int|
                0 <= k < i ==> (#[trigger] stats@[k]).0 == earned_count(h[k]) && stats@[k].1
                    == h[k].len() - earned_count(h[k]),
            forall|id: Id| #[trigger]
                mapping@.contains_key(id) <==> occurs_in(h.take(i as int), id),
            forall|id: Id| #[trigger] mapping@.contains_key(id) ==> mapping@[id]@.len() == i,
            forall|id: Id, k: int|
                #[trigger] mapping@.contains_key(id) && 0 <= k < i ==> (
                #[trigger] mapping@[id]@[k]) == map_score(slide_points(h[k], id), show_real_score),
        decreases points_earned@.len() - i,
    {
        let slide = &points_earned[i];
        let ghost s = h[i as int];
        proof {
            assert(s == slide@);
        }
        // Count how many entries earned points.
        let mut earned: usize = 0;
        let mut j: usize = 0;
        while j < slide.len()
            invariant
                0 <= j <= slide@.len(),
                earned == earned_count(slide@.take(j as int)),
                earned <= j,
            decreases slide@.len() - j,
        {
            proof {
                assert(slide@.take(j + 1).drop_last() =~= slide@.take(j as int));
            }
            if slide[j].1 > 0 {
                earned += 1;
            }
            j += 1;
        }
        proof {
            assert(slide@.take(slide@.len() as int) =~= slide@);
        }
        stats.push((earned, slide.len() - earned));
        // Give every known scorer a zero entry for this slide first.
        let mut k: usize = 0;
        let total = mapping.len();
        let ghost keys0 = mapping.key_seq();
        let ghost before_pad = mapping;
        proof {
            assert forall|k2: int, q: int|
                0 <= k2 < mapping.entry_seq().len() && 0 <= q < i implies (#[trigger] (
            mapping.entry_seq()[k2]).1@[q]) == map_score(
                slide_points(h[q], mapping.entry_seq()[k2].0),
                show_real_score,
            ) by {
                mapping.lemma_entry(k2);
            }
            assert forall|k2: int| 0 <= k2 < mapping.entry_seq().len() implies (
            #[trigger] mapping.entry_seq()[k2]).1@.len() == i by {
                mapping.lemma_entry(k2);
            }
        }
        while k < total
            invariant
                0 <= k <= total,
                total == mapping.entry_seq().len(),
                mapping.wf(),
                mapping.key_seq() == keys0,
                forall|k2: int, q: int|
                    0 <= k2 < mapping.entry_seq().len() && 0 <= q < i ==> (#[trigger] (
                    mapping.entry_seq()[k2]).1@[q]) == map_score(
                        slide_points(h[q], mapping.entry_seq()[k2].0),
                        show_real_score,
                    ),
                forall|k2: int|
                    0 <= k2 < k ==> (#[trigger] mapping.entry_seq()[k2]).1@.len() == i + 1 && (
                    mapping.entry_seq()[k2]).1@[i as int] == 0,
                forall|k2: int|
                    k <= k2 < mapping.entry_seq().len() ==> (
                    #[trigger] mapping.entry_seq()[k2]).1@.len() == i,
            decreases total - k,
        {
            let mut row = copy_u64s(&mapping.entry_at(k).1);
            row.push(0);
            mapping.set_at(k, row);
            k += 1;
        }
        proof {
            assert(forall|q: int|
                0 <= q < mapping.entry_seq().len() ==> mapping.key_seq()[q] == (
                #[trigger] mapping.entry_seq()[q]).0);
            assert(forall|q: int|
                0 <= q < before_pad.entry_seq().len() ==> before_pad.key_seq()[q] == (
                #[trigger] before_pad.entry_seq()[q]).0);
            assert forall|id: Id| #[trigger] mapping@.contains_key(id) <==> occurs_in(
                h.take(i as int),
                id,
            ) by {
                mapping.lemma_contains(id);
                before_pad.lemma_contains(id);
            }
            assert forall|id: Id| #[trigger] mapping@.contains_key(id) implies mapping@[id]@.len()
                == i + 1 && mapping@[id]@[i as int] == 0 && (forall|q: int|
                0 <= q < i ==> (#[trigger] mapping@[id]@[q]) == map_score(
                    slide_points(h[q], id),
                    show_real_score,
                )) by {
                mapping.lemma_contains(id);
                let k2 = choose|k2: int|
                    0 <= k2 < mapping.key_seq().len() && mapping.key_seq()[k2] == id;
                assert((mapping.entry_seq()[k2]).0 == id);
                mapping.lemma_entry(k2);
            }
        }
        // Fold this slide's entries in: the last entry per scorer wins.
        let mut j: usize = 0;
        proof {
            assert(i < points_earned@.len());
            assert(points_earned@.len() == points_earned.len());
        }
        while j < slide.len()
            invariant
                0 <= j <= slide@.len(),
                mapping.wf(),
                forall|id: Id| #[trigger]
                    mapping@.contains_key(id) <==> occurs_in(h.take(i as int), id) || (exists|
                        k2: int,
                    |
                        0 <= k2 < j && (#[trigger] slide@[k2]).0 == id),
                forall|id: Id|
                    #[trigger] mapping@.contains_key(id) ==> mapping@[id]@.len() == i + 1,
                forall|id: Id, k2: int|
                    #[trigger] mapping@.contains_key(id) && 0 <= k2 < i ==> (
                    #[trigger] mapping@[id]@[k2]) == map_score(
                        slide_points(h[k2], id),
                        show_real_score,
                    ),
                forall|id: Id|
                    #[trigger] mapping@.contains_key(id) ==> mapping@[id]@[i as int] == map_score(
                        slide_points(slide@.take(j as int), id),
                        show_real_score,
                    ),
            decreases slide@.len() - j,
        {
            let entry = slide[j];
            proof {
                assert(slide@.take(j + 1).drop_last() =~= slide@.take(j as int));
                assert(slide@.take(j + 1).last() == slide@[j as int]);
            }
            let shown = rescore(entry.1, show_real_score);
            let ghost map_before = mapping@;
            match mapping.get_index(entry.0) {
                Some(idx) => {
                    let mut row = copy_u64s(&mapping.entry_at(idx).1);
                    proof {
                        mapping.lemma_entry(idx as int);
                    }
                    row[i] = shown;
                    mapping.set_at(idx, row);
                },
                None => {
                    // First sighting of this scorer: zeros so far, then this
                    // slide's points.
                    let mut row = zero_vec(i);
                    row.push(shown);
                    mapping.insert(entry.0, row);
                },
            }
            proof {
                assert(mapping@ == map_before.insert(entry.0, mapping@[entry.0]));
                assert forall|id: Id| #[trigger]
                    mapping@.contains_key(id) <==> occurs_in(h.take(i as int), id) || (exists|
                        k2: int,
                    |
                        0 <= k2 < j + 1 && (#[trigger] slide@[k2]).0 == id) by {
                    if id == entry.0 {
                        assert(slide@[j as int].0 == id);
                    } else {
                        if exists|k2: int| 0 <= k2 < j + 1 && (#[trigger] slide@[k2]).0 == id {
                            let k2 = choose|k2: int|
                                0 <= k2 < j + 1 && (#[trigger] slide@[k2]).0 == id;
                            assert(k2 < j);
                        }
                    }
                }
                assert forall|id: Id| #[trigger] mapping@.contains_key(id) implies mapping@[id]@.len()
                    == i + 1 by {
                    if id != entry.0 {
                        assert(map_before.contains_key(id));
                    }
                }
                assert forall|id: Id, k2: int|
                    #[trigger] mapping@.contains_key(id) && 0 <= k2 < i implies (
                #[trigger] mapping@[id]@[k2]) == map_score(
                    slide_points(h[k2], id),
                    show_real_score,
                ) by {
                    if id == entry.0 {
                        if !map_before.contains_key(id) {
                            assert(!occurs_in(h.take(i as int), id));
                            assert forall|jq: int| 0 <= jq < h[k2].len() implies (
                            #[trigger] h[k2][jq]).0 != id by {
                                if h[k2][jq].0 == id {
                                    assert((h.take(i as int)[k2][jq]).0 == id);
                                    assert(occurs_in(h.take(i as int), id));
                                }
                            }
                            lemma_slide_points_absent(h[k2], id);
                        }
                    } else {
                        assert(map_before.contains_key(id));
                    }
                }
                assert forall|id: Id| #[trigger]
                    mapping@.contains_key(id) implies mapping@[id]@[i as int] == map_score(
                    slide_points(slide@.take(j + 1), id),
                    show_real_score,
                ) by {
                    if id != entry.0 {
                        assert(slide_points(slide@.take(j + 1), id) == slide_points(
                            slide@.take(j as int),
                            id,
                        ));
                        assert(map_before.contains_key(id));
                    }
                }
            }
            j += 1;
        }
        proof {
            assert(slide@.take(slide@.len() as int) =~= slide@);
            assert(h.take(i + 1).drop_last() =~= h.take(i as int));
            assert forall|id: Id| #[trigger]
                mapping@.contains_key(id) <==> occurs_in(h.take(i + 1), id) by {
                if occurs_in(h.take(i + 1), id) {
                    let (a, b) = choose|a: int, b: int|
                        0 <= a < h.take(i + 1).len() && 0 <= b < h.take(i + 1)[a].len() && (
                        #[trigger] h.take(i + 1)[a][b]).0 == id;
                    if a < i {
                        assert((h.take(i as int)[a][b]).0 == id);
                        assert(occurs_in(h.take(i as int), id));
                    } else {
                        assert((slide@[b]).0 == id);
                    }
                }
                if mapping@.contains_key(id) {
                    if occurs_in(h.take(i as int), id) {
                        let (a, b) = choose|a: int, b: int|
                            0 <= a < h.take(i as int).len() && 0 <= b < h.take(i as int)[a].len()
                                && (#[trigger] h.take(i as int)[a][b]).0 == id;
                        assert((#[trigger] h.take(i + 1)[a][b]).0 == id);
                    } else {
                        let k2 = choose|k2: int|
                            0 <= k2 < slide@.len() && (#[trigger] slide@[k2]).0 == id;
                        assert((#[trigger] h.take(i + 1)[i as int][k2]).0 == id);
                    }
                }
            }
        }
        i += 1;
    }
    proof {
        assert(h.take(h.len() as int) =~= h);
    }
    FinalSummary { stats, mapping, show_real: show_real_score }
}

} // verus!
