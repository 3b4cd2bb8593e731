//! The type-answer slide engine: a question answered by typing text. A
//! submission matches when its cleaned form equals the cleaned form of any
//! accepted answer; cleaning trims whitespace and, unless the slide is
//! case-sensitive, lowercases.

use vstd::prelude::*;

use crate::media::Media;
use crate::session::Effects;
use crate::store::{IdMap, IdSet};
use crate::watcher::{Id, Watchers};

verus! {

/// Phase of the slide. Phases only ever move forward.
#[derive(Debug, Clone, Copy, PartialEq, Eq, Structural)]
pub enum SlideState {
    /// Not yet begun; treated like `Question` once the slide starts.
    Unstarted,
    /// Showing the question without accepting answers.
    Question,
    /// Accepting player answers.
    Answers,
    /// Showing the accepted answers and their statistics.
    AnswersResults,
}

/// The position of a phase in the forward order.
pub open spec fn phase_index(s: SlideState) -> int {
    match s {
        SlideState::Unstarted => 0,
        SlideState::Question => 1,
        SlideState::Answers => 2,
        SlideState::AnswersResults => 3,
    }
}

/// What `str::trim` leaves of a string: both ends stripped of Unicode
/// whitespace. The result depends on the characters alone.
pub uninterp spec fn trim_of(s: Seq<char>) -> Seq<char>;

/// What `str::to_lowercase` makes of a string. The result depends on the
/// characters alone.
pub uninterp spec fn lowercase_of(s: Seq<char>) -> Seq<char>;

/// Relies on `str::trim`: returns a subslice with leading and trailing
/// whitespace removed, so the result is never longer and an empty string
/// stays empty.
#[verifier::external_body]
fn str_trim(s: &str) -> (r: String)
    ensures
        r@ == trim_of(s@),
        r@.len() <= s@.len(),
        s@.len() == 0 ==> r@.len() == 0,
{
    s.trim().to_string()
}

/// Relies on `str::to_lowercase`: the Unicode lowercase mapping of the
/// characters alone; an empty string stays empty.
#[verifier::external_body]
fn str_to_lowercase(s: &str) -> (r: String)
    ensures
        r@ == lowercase_of(s@),
        s@.len() == 0 ==> r@.len() == 0,
{
    s.to_lowercase()
}

/// The cleaned form of a submission or accepted answer.
pub open spec fn spec_clean_answer(s: Seq<char>, case_sensitive: bool) -> Seq<char> {
    if case_sensitive {
        trim_of(s)
    } else {
        lowercase_of(trim_of(s))
    }
}

/// Clean an answer: trim whitespace, then lowercase unless case-sensitive.
pub fn clean_answer(answer: &str, case_sensitive: bool) -> (r: String)
    ensures
        r@ == spec_clean_answer(answer@, case_sensitive),
{
    let trimmed = str_trim(answer);
    if case_sensitive {
        trimmed
    } else {
        str_to_lowercase(trimmed.as_str())
    }
}

/// Whether `text` is the cleaning of some stored submission.
pub open spec fn from_some_submission(
    entries: Seq<(Id, (String, u64))>,
    text: Seq<char>,
    cs: bool,
) -> bool {
    exists|e: int|
        0 <= e < entries.len() && text == spec_clean_answer((#[trigger] entries[e]).1.0@, cs)
}

/// What the revealed results hold: the configured answers cleaned in
/// order, and per-text tallies of distinct cleaned submissions in
/// descending count order, each text the cleaning of some stored
/// submission.
pub open spec fn results_payload_ok(s: State, m: UpdateMessage) -> bool {
    m matches UpdateMessage::AnswersResults { answers: ans, results: rs, case_sensitive: cs } && {
        &&& cs == s.config.case_sensitive
        &&& ans@.len() == s.config.answers@.len()
        &&& (forall|k: int|
            0 <= k < ans@.len() ==> (#[trigger] ans@[k])@ == spec_clean_answer(
                s.config.answers@[k]@,
                s.config.case_sensitive,
            ))
        &&& counts_sorted(rs@)
        &&& (forall|a: int, b: int|
            0 <= a < b < rs@.len() ==> (#[trigger] rs@[a]).0@ != (#[trigger] rs@[b]).0@)
        &&& (forall|k: int|
            0 <= k < rs@.len() ==> from_some_submission(
                s.user_answers.entry_seq(),
                (#[trigger] rs@[k]).0@,
                s.config.case_sensitive,
            ))
        &&& (forall|k: int|
            0 <= k < rs@.len() ==> (#[trigger] rs@[k]).1 as int == spec_clean_tally(
                s.user_answers.entry_seq(),
                rs@[k].0@,
                s.config.case_sensitive,
                s.user_answers.entry_seq().len() as int,
            ))
        &&& (forall|e: int|
            0 <= e < s.user_answers.entry_seq().len() ==> result_listed(
                rs@,
                spec_clean_answer(
                    (#[trigger] s.user_answers.entry_seq()[e]).1.0@,
                    s.config.case_sensitive,
                ),
            ))
    }
}

/// `post` extends `pre` by exactly one results broadcast to `live`.
pub open spec fn results_broadcast_ok(
    pre: Seq<crate::session::Outgoing>,
    post: Seq<crate::session::Outgoing>,
    live: Seq<Id>,
    s: State,
) -> bool {
    &&& post.len() == pre.len() + 1
    &&& post.take(pre.len() as int) == pre
    &&& (post.last() matches crate::session::Outgoing::Update {
        to,
        message: crate::UpdateMessage::TypeAnswer(m),
    } && to@ == live && results_payload_ok(s, m))
}

/// How many of the first `k` stored submissions clean to exactly `text`.
pub open spec fn spec_clean_tally(
    entries: Seq<(Id, (String, u64))>,
    text: Seq<char>,
    cs: bool,
    k: int,
) -> int
    decreases k,
{
    if k <= 0 {
        0
    } else {
        spec_clean_tally(entries, text, cs, k - 1) + (
        if spec_clean_answer(entries[k - 1].1.0@, cs) == text {
            1int
        } else {
            0int
        })
    }
}

/// A tally over a prefix never exceeds the prefix length.
proof fn lemma_tally_le(entries: Seq<(Id, (String, u64))>, text: Seq<char>, cs: bool, k: int)
    requires
        k >= 0,
    ensures
        0 <= spec_clean_tally(entries, text, cs, k) <= k,
    decreases k,
{
    if k > 0 {
        lemma_tally_le(entries, text, cs, k - 1);
    }
}

/// A text no prefix entry cleans to has a zero tally.
proof fn lemma_tally_zero(entries: Seq<(Id, (String, u64))>, text: Seq<char>, cs: bool, k: int)
    requires
        0 <= k,
        forall|e: int|
            0 <= e < k ==> spec_clean_answer((#[trigger] entries[e]).1.0@, cs) != text,
    ensures
        spec_clean_tally(entries, text, cs, k) == 0,
    decreases k,
{
    if k > 0 {
        lemma_tally_zero(entries, text, cs, k - 1);
    }
}

/// Whether some listed text equals `text`.
pub open spec fn text_listed(texts: Seq<String>, text: Seq<char>) -> bool {
    exists|t: int| 0 <= t < texts.len() && (#[trigger] texts[t])@ == text
}

/// Whether some result row carries exactly `text`.
pub open spec fn result_listed(rs: Seq<(String, usize)>, text: Seq<char>) -> bool {
    exists|t: int| 0 <= t < rs.len() && (#[trigger] rs[t]).0@ == text
}

/// Counts never increase along the list.
pub open spec fn counts_sorted(rs: Seq<(String, usize)>) -> bool {
    forall|a: int, b: int| 0 <= a < b < rs.len() ==> (#[trigger] rs[a]).1 >= (#[trigger] rs[b]).1
}

/// Order the aggregated results by descending count (selection sort), keeping
/// exactly the given entries.
#[verifier::loop_isolation(false)]
fn sort_results(input: Vec<(String, usize)>) -> (r: Vec<(String, usize)>)
    ensures
        counts_sorted(r@),
        r@.to_multiset() == input@.to_multiset(),
        r@.len() == input@.len(),
        forall|k: int| 0 <= k < r@.len() ==> input@.contains(#[trigger] r@[k]),
        forall|k: int| 0 <= k < input@.len() ==> r@.contains(#[trigger] input@[k]),
        input@.no_duplicates() ==> r@.no_duplicates(),
{
    let mut v = input;
    let ghost orig = v@;
    let mut i: usize = 0;
    while i < v.len()
        invariant
            0 <= i <= v@.len(),
            v@.len() == orig.len(),
            v@.to_multiset() == orig.to_multiset(),
            forall|a: int, b: int|
                0 <= a < b < v@.len() && a < i ==> (#[trigger] v@[a]).1 >= (#[trigger] v@[b]).1,
        decreases v@.len() - i,
    {
        let mut best: usize = i;
        let mut j: usize = i + 1;
        while j < v.len()
            invariant
                i <= best < v@.len(),
                i < j <= v@.len(),
                forall|q: int| i <= q < j ==> (#[trigger] v@[q]).1 <= v@[best as int].1,
            decreases v@.len() - j,
        {
            if v[j].1 > v[best].1 {
                best = j;
            }
            j += 1;
        }
        let ghost before = v@;
        if best != i {
            let a = v[i].0.clone();
            let ac = v[i].1;
            let b = v[best].0.clone();
            let bc = v[best].1;
            proof {
                assert(before[i as int].0@ == a@ && before[best as int].0@ == b@);
            }
            v[i] = (b, bc);
            v[best] = (a, ac);
            proof {
                lemma_swap_multiset(before, v@, i as int, best as int);
            }
        }
        i += 1;
    }
    proof {
        v@.to_multiset_ensures();
        orig.to_multiset_ensures();
        assert forall|k: int| 0 <= k < v@.len() implies orig.contains(#[trigger] v@[k]) by {
            assert(v@.contains(v@[k]));
            assert(v@.to_multiset().count(v@[k]) > 0);
        }
        assert forall|k: int| 0 <= k < orig.len() implies v@.contains(#[trigger] orig[k]) by {
            assert(orig.contains(orig[k]));
            assert(orig.to_multiset().count(orig[k]) > 0);
        }
        if orig.no_duplicates() {
            orig.lemma_multiset_has_no_duplicates();
            v@.lemma_multiset_has_no_duplicates_conv();
        }
    }
    v
}

/// Swapping two positions keeps the multiset of entries, up to the string
/// views being equal values.
proof fn lemma_swap_multiset(before: Seq<(String, usize)>, after: Seq<(String, usize)>, i: int, j: int)
    requires
        0 <= i < j < before.len(),
        after.len() == before.len(),
        after[i] == before[j],
        after[j] == before[i],
        forall|q: int| 0 <= q < before.len() && q != i && q != j ==> after[q] == before[q],
    ensures
        after.to_multiset() == before.to_multiset(),
{
    assert(after =~= before.update(i, before[j]).update(j, before[i]));
    vstd::seq_lib::lemma_multiset_commutative(before, Seq::empty());
    before.to_multiset_ensures();
    after.to_multiset_ensures();
    assert(after.to_multiset() =~= before.to_multiset()) by {
        lemma_update_update_swap(before, i, j);
    }
}

/// A two-sided update that exchanges entries keeps the multiset.
proof fn lemma_update_update_swap(s: Seq<(String, usize)>, i: int, j: int)
    requires
        0 <= i < j < s.len(),
    ensures
        s.update(i, s[j]).update(j, s[i]).to_multiset() == s.to_multiset(),
{
    let t = s.update(i, s[j]).update(j, s[i]);
    assert(t.to_multiset() =~= s.to_multiset()) by {
        lemma_seq_update_multiset(s, i, s[j]);
        lemma_seq_update_multiset(s.update(i, s[j]), j, s[i]);
        assert(s.update(i, s[j])[j] == s[j]);
        assert(s.update(i, s[j]).update(j, s[i]).to_multiset() == s.update(i, s[j]).to_multiset()
            .remove(s[j]).insert(s[i]));
        assert(s.update(i, s[j]).to_multiset() == s.to_multiset().remove(s[i]).insert(s[j]));
        s.to_multiset_ensures();
        assert(s.to_multiset().count(s[i]) > 0);
        assert(s.to_multiset().count(s[j]) > 0);
    }
}

/// Updating one position replaces exactly that entry in the multiset.
proof fn lemma_seq_update_multiset(s: Seq<(String, usize)>, i: int, v: (String, usize))
    requires
        0 <= i < s.len(),
    ensures
        s.update(i, v).to_multiset() == s.to_multiset().remove(s[i]).insert(v),
{
    s.to_multiset_ensures();
    s.update(i, v).to_multiset_ensures();
    assert(s.update(i, v)[i] == v);
    assert(s.update(i, v).remove(i) =~= s.remove(i));
    assert(s.update(i, v).remove(i).to_multiset() =~= s.update(i, v).to_multiset().remove(v));
    assert(s.remove(i).to_multiset() =~= s.to_multiset().remove(s[i]));
    assert(s.update(i, v).remove(i).to_multiset() == s.remove(i).to_multiset());
    assert(s.update(i, v).contains(v)) by {
        assert(s.update(i, v)[i] == v);
    }
    assert(s.update(i, v).to_multiset().count(v) > 0);
    assert(s.update(i, v).to_multiset() =~= s.to_multiset().remove(s[i]).insert(v));
}

/// Whether two configurations carry the same data.
pub open spec fn spec_config_equal(a: SlideConfig, b: SlideConfig) -> bool {
    &&& a.title == b.title
    &&& a.media == b.media
    &&& a.introduce_question == b.introduce_question
    &&& a.time_limit == b.time_limit
    &&& a.points_awarded == b.points_awarded
    &&& a.answers@ == b.answers@
    &&& a.case_sensitive == b.case_sensitive
}

/// The static configuration of one type-answer slide. Durations are in
/// milliseconds.
#[derive(Debug, PartialEq, Eq)]
pub struct SlideConfig {
    /// The question title: what is being asked.
    pub title: String,
    /// Accompanying media.
    pub media: Option<Media>,
    /// Time the question shows before answers are accepted.
    pub introduce_question: u64,
    /// Time players have to answer.
    pub time_limit: u64,
    /// Maximum points awarded; decays to half by the end of the time limit.
    pub points_awarded: u64,
    /// The accepted answers.
    pub answers: Vec<String>,
    /// Whether matching is case-sensitive.
    pub case_sensitive: bool,
}

impl SlideConfig {
    /// An equal copy.
    pub fn clone_value(&self) -> (r: SlideConfig)
        ensures
            spec_config_equal(r, *self),
    {
        let answers = self.answers.clone();
        proof {
            assert(answers@ =~= self.answers@);
        }
        SlideConfig {
            title: self.title.clone(),
            media: crate::media::clone_media_option(&self.media),
            introduce_question: self.introduce_question,
            time_limit: self.time_limit,
            points_awarded: self.points_awarded,
            answers,
            case_sensitive: self.case_sensitive,
        }
    }

    /// Fresh runtime state for this configuration.
    pub fn to_state(&self) -> (r: State)
        ensures
            spec_config_equal(r.config, *self),
            r.user_answers@ == Map::<Id, (String, u64)>::empty(),
            r.user_answers.wf(),
            r.answer_start is None,
            r.state == SlideState::Unstarted,
    {
        State {
            config: self.clone_value(),
            user_answers: IdMap::new(),
            answer_start: None,
            state: SlideState::Unstarted,
        }
    }
}

/// The runtime state of one type-answer slide.
#[derive(Debug)]
pub struct State {
    /// The validated configuration this slide runs.
    pub config: SlideConfig,
    /// Each player's submitted text and its submission time.
    pub user_answers: IdMap<(String, u64)>,
    /// When the answering phase began, if it has.
    pub answer_start: Option<u64>,
    /// The current phase.
    pub state: SlideState,
}

/// State-delta messages this engine sends.
#[derive(Debug, PartialEq, Eq)]
pub enum UpdateMessage {
    /// The question; `accept_answers` tells players whether to answer now.
    QuestionAnnouncement {
        /// Index of the slide (0-based).
        index: usize,
        /// Total count of slides.
        count: usize,
        /// The question text.
        question: String,
        /// Accompanying media.
        media: Option<Media>,
        /// Time before the next transition, in milliseconds.
        duration: u64,
        /// Whether answers are being accepted.
        accept_answers: bool,
    },
    /// (Host only) how many players have answered.
    AnswersCount(usize),
    /// The cleaned accepted answers, and submission statistics.
    AnswersResults {
        answers: Vec<String>,
        results: Vec<(String, usize)>,
        case_sensitive: bool,
    },
}

/// The alarm payload this engine schedules and later receives back.
#[derive(Debug, Clone, Copy, PartialEq, Eq, Structural)]
pub enum AlarmMessage {
    ProceedFromSlideIntoSlide { index: usize, to: SlideState },
}

/// Full-state messages for late joiners and reconnects.
#[derive(Debug, PartialEq, Eq)]
pub enum SyncMessage {
    /// Showing the question; `accept_answers` tells whether to answer now.
    QuestionAnnouncement {
        index: usize,
        count: usize,
        question: String,
        media: Option<Media>,
        /// Remaining time, in milliseconds.
        duration: u64,
        accept_answers: bool,
    },
    /// Showing the accepted answers and their statistics.
    AnswersResults {
        index: usize,
        count: usize,
        question: String,
        media: Option<Media>,
        answers: Vec<String>,
        results: Vec<(String, usize)>,
        case_sensitive: bool,
    },
}


/// Whether a submission matches some accepted answer after cleaning.
pub open spec fn spec_matches(c: SlideConfig, submission: Seq<char>) -> bool {
    exists|i: int|
        0 <= i < c.answers@.len() && spec_clean_answer(
            (#[trigger] c.answers@[i])@,
            c.case_sensitive,
        ) == spec_clean_answer(submission, c.case_sensitive)
}

/// The points a recorded submission earns.
pub open spec fn spec_answer_points(c: SlideConfig, entry: (String, u64), start: u64) -> int {
    if spec_matches(c, entry.0@) {
        crate::multiple_choice::spec_score(
            c.time_limit,
            crate::multiple_choice::spec_taken(entry.1, start),
            c.points_awarded,
        )
    } else {
        0
    }
}

/// The per-player score deltas of a solo game.
pub open spec fn spec_solo_deltas(s: State, start: u64, alive_players: Seq<Id>) -> Seq<(Id, u64)> {
    s.user_answers.entry_seq().map_values(
        |e: (Id, (String, u64))| (e.0, spec_answer_points(s.config, e.1, start) as u64),
    ) + alive_players.filter(|id: Id| !s.user_answers@.contains_key(id)).map_values(
        |id: Id| (id, 0u64),
    )
}

/// The engine's validity conditions.
pub open spec fn state_wf(s: State) -> bool {
    &&& s.user_answers.wf()
    &&& crate::fuiz::spec_durations_valid(s.config.introduce_question, s.config.time_limit)
}

impl State {
    /// Move forward one phase, exactly when the current phase is `before`.
    fn change_state(&mut self, before: SlideState, after: SlideState) -> (r: bool)
        ensures
            r == (old(self).state == before),
            final(self).state == if r {
                after
            } else {
                old(self).state
            },
            final(self).config == old(self).config,
            final(self).user_answers == old(self).user_answers,
            final(self).answer_start == old(self).answer_start,
    {
        if self.state == before {
            self.state = after;
            true
        } else {
            false
        }
    }

    /// Whether an answer text matches some accepted answer after cleaning.
    #[verifier::loop_isolation(false)]
    pub fn matches_answer(&self, submission: &str) -> (r: bool)
        ensures
            r == spec_matches(self.config, submission@),
    {
        let cleaned = clean_answer(submission, self.config.case_sensitive);
        let mut i: usize = 0;
        while i < self.config.answers.len()
            invariant
                0 <= i <= self.config.answers@.len(),
                cleaned@ == spec_clean_answer(submission@, self.config.case_sensitive),
                forall|j: int|
                    0 <= j < i ==> spec_clean_answer(
                        (#[trigger] self.config.answers@[j])@,
                        self.config.case_sensitive,
                    ) != cleaned@,
            decreases self.config.answers@.len() - i,
        {
            let accepted = clean_answer(self.config.answers[i].as_str(), self.config.case_sensitive);
            if accepted == cleaned {
                return true;
            }
            i += 1;
        }
        false
    }

    /// Begin the slide: announce the question; with a zero introduction,
    /// accept answers immediately.
    pub fn play(
        &mut self,
        watchers: &Watchers,
        connected: &IdSet,
        eff: &mut Effects,
        now: u64,
        index: usize,
        count: usize,
    )
        requires
            state_wf(*old(self)),
            watchers.wf(),
            connected.wf(),
        ensures
            state_wf(*final(self)),
            final(self).config == old(self).config,
            final(self).user_answers == old(self).user_answers,
            phase_index(final(self).state) >= phase_index(old(self).state),
            crate::session::extends(old(eff).outgoing@, final(eff).outgoing@),
            crate::session::extends_alarms(old(eff).alarms@, final(eff).alarms@),
            old(self).state == SlideState::Unstarted && old(self).config.introduce_question > 0
                ==> final(self).state == SlideState::Question && crate::session::appended_update(
                old(eff).outgoing@,
                final(eff).outgoing@,
                watchers.ordered_ids().filter(|id: Id| connected@.contains(id)),
                crate::UpdateMessage::TypeAnswer(
                    (UpdateMessage::QuestionAnnouncement {
                        index,
                        count,
                        question: old(self).config.title,
                        media: old(self).config.media,
                        duration: old(self).config.introduce_question,
                        accept_answers: false,
                    }),
                ),
            ) && final(eff).alarms@ == old(eff).alarms@.push(
                crate::session::ScheduleRequest {
                    alarm: crate::AlarmMessage::TypeAnswer(
                        AlarmMessage::ProceedFromSlideIntoSlide {
                            index,
                            to: SlideState::Answers,
                        },
                    ),
                    delay: old(self).config.introduce_question,
                },
            ),
            old(self).state == SlideState::Unstarted && old(self).config.introduce_question == 0
                ==> final(self).state == SlideState::Answers && final(self).answer_start == Some(
                now,
            ) && crate::session::appended_update(
                old(eff).outgoing@,
                final(eff).outgoing@,
                watchers.ordered_ids().filter(|id: Id| connected@.contains(id)),
                crate::UpdateMessage::TypeAnswer(
                    (UpdateMessage::QuestionAnnouncement {
                        index,
                        count,
                        question: old(self).config.title,
                        media: old(self).config.media,
                        duration: old(self).config.time_limit,
                        accept_answers: true,
                    }),
                ),
            ) && final(eff).alarms@ == old(eff).alarms@.push(
                crate::session::ScheduleRequest {
                    alarm: crate::AlarmMessage::TypeAnswer(
                        AlarmMessage::ProceedFromSlideIntoSlide {
                            index,
                            to: SlideState::AnswersResults,
                        },
                    ),
                    delay: old(self).config.time_limit,
                },
            ),
            old(self).state != SlideState::Unstarted ==> *final(self) == *old(self) && *final(eff)
                == *old(eff),
    {
        self.send_question_announcements(watchers, connected, eff, now, index, count);
    }

    /// Announce the question; with a zero introduction skip straight to
    /// accepting answers.
    fn send_question_announcements(
        &mut self,
        watchers: &Watchers,
        connected: &IdSet,
        eff: &mut Effects,
        now: u64,
        index: usize,
        count: usize,
    )
        requires
            state_wf(*old(self)),
            watchers.wf(),
            connected.wf(),
        ensures
            state_wf(*final(self)),
            final(self).config == old(self).config,
            final(self).user_answers == old(self).user_answers,
            phase_index(final(self).state) >= phase_index(old(self).state),
            crate::session::extends(old(eff).outgoing@, final(eff).outgoing@),
            crate::session::extends_alarms(old(eff).alarms@, final(eff).alarms@),
            old(self).state == SlideState::Unstarted && old(self).config.introduce_question > 0
                ==> final(self).state == SlideState::Question && crate::session::appended_update(
                old(eff).outgoing@,
                final(eff).outgoing@,
                watchers.ordered_ids().filter(|id: Id| connected@.contains(id)),
                crate::UpdateMessage::TypeAnswer(
                    (UpdateMessage::QuestionAnnouncement {
                        index,
                        count,
                        question: old(self).config.title,
                        media: old(self).config.media,
                        duration: old(self).config.introduce_question,
                        accept_answers: false,
                    }),
                ),
            ) && final(eff).alarms@ == old(eff).alarms@.push(
                crate::session::ScheduleRequest {
                    alarm: crate::AlarmMessage::TypeAnswer(
                        AlarmMessage::ProceedFromSlideIntoSlide {
                            index,
                            to: SlideState::Answers,
                        },
                    ),
                    delay: old(self).config.introduce_question,
                },
            ),
            old(self).state == SlideState::Unstarted && old(self).config.introduce_question == 0
                ==> final(self).state == SlideState::Answers && final(self).answer_start == Some(
                now,
            ) && crate::session::appended_update(
                old(eff).outgoing@,
                final(eff).outgoing@,
                watchers.ordered_ids().filter(|id: Id| connected@.contains(id)),
                crate::UpdateMessage::TypeAnswer(
                    (UpdateMessage::QuestionAnnouncement {
                        index,
                        count,
                        question: old(self).config.title,
                        media: old(self).config.media,
                        duration: old(self).config.time_limit,
                        accept_answers: true,
                    }),
                ),
            ) && final(eff).alarms@ == old(eff).alarms@.push(
                crate::session::ScheduleRequest {
                    alarm: crate::AlarmMessage::TypeAnswer(
                        AlarmMessage::ProceedFromSlideIntoSlide {
                            index,
                            to: SlideState::AnswersResults,
                        },
                    ),
                    delay: old(self).config.time_limit,
                },
            ),
            old(self).state != SlideState::Unstarted ==> *final(self) == *old(self) && *final(eff)
                == *old(eff),
    {
        if self.change_state(SlideState::Unstarted, SlideState::Question) {
            if self.config.introduce_question == 0 {
                self.send_accepting_answers(watchers, connected, eff, now, index, count);
                return ;
            }
            self.answer_start = Some(now);
            let live = watchers.live_ids_vec(connected);
            eff.send_to(
                live,
                crate::UpdateMessage::TypeAnswer(
                    UpdateMessage::QuestionAnnouncement {
                        index,
                        count,
                        question: self.config.title.clone(),
                        media: crate::media::clone_media_option(&self.config.media),
                        duration: self.config.introduce_question,
                        accept_answers: false,
                    },
                ),
            );
            eff.schedule(
                crate::AlarmMessage::TypeAnswer(
                    AlarmMessage::ProceedFromSlideIntoSlide { index, to: SlideState::Answers },
                ),
                self.config.introduce_question,
            );
        }
    }

    /// Start accepting answers: announce with `accept_answers` set and
    /// schedule the results.
    fn send_accepting_answers(
        &mut self,
        watchers: &Watchers,
        connected: &IdSet,
        eff: &mut Effects,
        now: u64,
        index: usize,
        count: usize,
    )
        requires
            state_wf(*old(self)),
            watchers.wf(),
            connected.wf(),
        ensures
            state_wf(*final(self)),
            final(self).config == old(self).config,
            final(self).user_answers == old(self).user_answers,
            phase_index(final(self).state) >= phase_index(old(self).state),
            crate::session::extends(old(eff).outgoing@, final(eff).outgoing@),
            crate::session::extends_alarms(old(eff).alarms@, final(eff).alarms@),
            old(self).state == SlideState::Question ==> final(self).state == SlideState::Answers
                && final(self).answer_start == Some(now) && crate::session::appended_update(
                old(eff).outgoing@,
                final(eff).outgoing@,
                watchers.ordered_ids().filter(|id: Id| connected@.contains(id)),
                crate::UpdateMessage::TypeAnswer(
                    (UpdateMessage::QuestionAnnouncement {
                        index,
                        count,
                        question: old(self).config.title,
                        media: old(self).config.media,
                        duration: old(self).config.time_limit,
                        accept_answers: true,
                    }),
                ),
            ) && final(eff).alarms@ == old(eff).alarms@.push(
                crate::session::ScheduleRequest {
                    alarm: crate::AlarmMessage::TypeAnswer(
                        AlarmMessage::ProceedFromSlideIntoSlide {
                            index,
                            to: SlideState::AnswersResults,
                        },
                    ),
                    delay: old(self).config.time_limit,
                },
            ),
            old(self).state != SlideState::Question ==> *final(self) == *old(self) && *final(eff)
                == *old(eff),
    {
        if self.change_state(SlideState::Question, SlideState::Answers) {
            self.answer_start = Some(now);
            let live = watchers.live_ids_vec(connected);
            eff.send_to(
                live,
                crate::UpdateMessage::TypeAnswer(
                    UpdateMessage::QuestionAnnouncement {
                        index,
                        count,
                        question: self.config.title.clone(),
                        media: crate::media::clone_media_option(&self.config.media),
                        duration: self.config.time_limit,
                        accept_answers: true,
                    },
                ),
            );
            eff.schedule(
                crate::AlarmMessage::TypeAnswer(
                    AlarmMessage::ProceedFromSlideIntoSlide {
                        index,
                        to: SlideState::AnswersResults,
                    },
                ),
                self.config.time_limit,
            );
        }
    }

    /// Reveal the results: the cleaned accepted answers and how often each
    /// cleaned submission was given.
    fn send_answers_results(&mut self, watchers: &Watchers, connected: &IdSet, eff: &mut Effects)
        requires
            state_wf(*old(self)),
            watchers.wf(),
            connected.wf(),
        ensures
            state_wf(*final(self)),
            final(self).config == old(self).config,
            final(self).user_answers == old(self).user_answers,
            final(self).answer_start == old(self).answer_start,
            phase_index(final(self).state) >= phase_index(old(self).state),
            crate::session::extends(old(eff).outgoing@, final(eff).outgoing@),
            final(eff).alarms@ == old(eff).alarms@,
            old(self).state == SlideState::Answers ==> final(self).state
                == SlideState::AnswersResults && results_broadcast_ok(
                old(eff).outgoing@,
                final(eff).outgoing@,
                watchers.ordered_ids().filter(|id: Id| connected@.contains(id)),
                *old(self),
            ),
            old(self).state != SlideState::Answers ==> *final(self) == *old(self) && *final(eff)
                == *old(eff),
    {
        if self.change_state(SlideState::Answers, SlideState::AnswersResults) {
            let msg = self.results_message();
            proof {
                assert(results_payload_ok(*old(self), msg));
            }
            let live = watchers.live_ids_vec(connected);
            eff.send_to(live, crate::UpdateMessage::TypeAnswer(msg));
        }
    }

    /// The position of an equal text among those already listed.
    #[verifier::loop_isolation(false)]
    fn find_text(texts: &Vec<String>, cleaned: &String) -> (r: Option<usize>)
        ensures
            match r {
                Some(j) => j < texts@.len() && texts@[j as int]@ == cleaned@,
                None => forall|q: int| 0 <= q < texts@.len() ==> (#[trigger] texts@[q])@ != cleaned@,
            },
    {
        let mut j: usize = 0;
        while j < texts.len()
            invariant
                0 <= j <= texts@.len(),
                forall|q: int| 0 <= q < j ==> (#[trigger] texts@[q])@ != cleaned@,
            decreases texts@.len() - j,
        {
            if texts[j] == *cleaned {
                return Some(j);
            }
            j += 1;
        }
        None
    }

    /// Count each distinct cleaned submission, in first-appearance order.
    #[verifier::loop_isolation(false)]
    #[verifier::rlimit(60)]
    fn aggregate_results(&self) -> (r: Vec<(String, usize)>)
        requires
            self.user_answers.wf(),
        ensures
            forall|a: int, b: int|
                0 <= a < b < r@.len() ==> (#[trigger] r@[a]).0@ != (#[trigger] r@[b]).0@,
            forall|k: int|
                0 <= k < r@.len() ==> from_some_submission(
                    self.user_answers.entry_seq(),
                    (#[trigger] r@[k]).0@,
                    self.config.case_sensitive,
                ),
            forall|k: int|
                0 <= k < r@.len() ==> (#[trigger] r@[k]).1 as int == spec_clean_tally(
                    self.user_answers.entry_seq(),
                    r@[k].0@,
                    self.config.case_sensitive,
                    self.user_answers.entry_seq().len() as int,
                ),
            forall|e: int|
                0 <= e < self.user_answers.entry_seq().len() ==> result_listed(
                    r@,
                    spec_clean_answer((#[trigger] self.user_answers.entry_seq()[e]).1.0@, self.config.case_sensitive),
                ),
    {
        let ghost entries = self.user_answers.entry_seq();
        let ghost cs = self.config.case_sensitive;
        let mut texts: Vec<String> = Vec::new();
        let mut counts: Vec<usize> = Vec::new();
        let total = self.user_answers.len();
        let mut i: usize = 0;
        while i < total
            invariant
                0 <= i <= total,
                total == entries.len(),
                entries == self.user_answers.entry_seq(),
                cs == self.config.case_sensitive,
                self.user_answers.wf(),
                texts@.len() == counts@.len(),
                forall|a: int, b: int|
                    0 <= a < b < texts@.len() ==> (#[trigger] texts@[a])@ != (
                    #[trigger] texts@[b])@,
                forall|t: int|
                    0 <= t < texts@.len() ==> from_some_submission(
                        entries,
                        (#[trigger] texts@[t])@,
                        cs,
                    ),
                forall|t: int|
                    0 <= t < texts@.len() ==> (#[trigger] counts@[t]) as int == spec_clean_tally(
                        entries,
                        texts@[t]@,
                        cs,
                        i as int,
                    ),
                forall|e: int|
                    0 <= e < i ==> text_listed(
                        texts@,
                        spec_clean_answer((#[trigger] entries[e]).1.0@, cs),
                    ),
            decreases total - i,
        {
            let cleaned = clean_answer(
                self.user_answers.entry_at(i).1.0.as_str(),
                self.config.case_sensitive,
            );
            let ghost texts0 = texts@;
            match Self::find_text(&texts, &cleaned) {
                Some(j) => {
                    let c = counts[j];
                    proof {
                        lemma_tally_le(entries, texts@[j as int]@, cs, i as int);
                    }
                    counts[j] = c + 1;
                    proof {
                        assert forall|t: int|
                            0 <= t < texts@.len() implies (#[trigger] counts@[t]) as int
                            == spec_clean_tally(entries, texts@[t]@, cs, i + 1) by {
                            if t == j {
                                assert(spec_clean_answer(entries[i as int].1.0@, cs)
                                    == texts@[t]@);
                            } else {
                                assert(texts@[t]@ != cleaned@);
                            }
                        }
                        assert forall|e: int|
                            0 <= e < i + 1 implies text_listed(
                            texts@,
                            spec_clean_answer((#[trigger] entries[e]).1.0@, cs),
                        ) by {
                            if e == i {
                                assert(0 <= j < texts@.len() && texts@[j as int]@
                                    == spec_clean_answer(entries[e].1.0@, cs));
                            }
                        }
                    }
                },
                None => {
                    texts.push(cleaned);
                    counts.push(1);
                    proof {
                        assert(texts@.last()@ == spec_clean_answer(
                            entries[i as int].1.0@,
                            cs,
                        ));
                        assert(from_some_submission(entries, texts@.last()@, cs)) by {
                            assert(0 <= i < entries.len() && texts@.last()@
                                == spec_clean_answer(entries[i as int].1.0@, cs));
                        }
                        assert forall|e: int|
                            0 <= e < i implies spec_clean_answer(
                            (#[trigger] entries[e]).1.0@,
                            cs,
                        ) != texts@.last()@ by {
                            assert(text_listed(texts0, spec_clean_answer(entries[e].1.0@, cs)));
                            let t = choose|t: int|
                                0 <= t < texts0.len() && (#[trigger] texts0[t])@
                                    == spec_clean_answer(entries[e].1.0@, cs);
                            assert(texts@[t]@ == texts0[t]@);
                        }
                        lemma_tally_zero(entries, texts@.last()@, cs, i as int);
                        assert forall|t: int|
                            0 <= t < texts@.len() implies (#[trigger] counts@[t]) as int
                            == spec_clean_tally(entries, texts@[t]@, cs, i + 1) by {
                            if t < texts@.len() - 1 {
                                assert(texts@[t] == texts0[t]);
                                assert(texts0[t]@ != cleaned@);
                            } else {
                                assert(texts@[t]@ == cleaned@);
                            }
                        }
                        assert forall|e: int|
                            0 <= e < i + 1 implies text_listed(
                            texts@,
                            spec_clean_answer((#[trigger] entries[e]).1.0@, cs),
                        ) by {
                            if e == i {
                                let t = texts@.len() - 1;
                                assert(0 <= t < texts@.len() && texts@[t]@
                                    == spec_clean_answer(entries[e].1.0@, cs));
                            } else {
                                assert(text_listed(texts0, spec_clean_answer(entries[e].1.0@, cs)));
                                let t = choose|t: int|
                                    0 <= t < texts0.len() && (#[trigger] texts0[t])@
                                        == spec_clean_answer(entries[e].1.0@, cs);
                                assert(0 <= t < texts@.len() && texts@[t]@
                                    == spec_clean_answer(entries[e].1.0@, cs));
                            }
                        }
                    }
                },
            }
            i += 1;
        }
        let mut results: Vec<(String, usize)> = Vec::new();
        let mut i: usize = 0;
        while i < texts.len()
            invariant
                0 <= i <= texts@.len(),
                texts@.len() == counts@.len(),
                results@.len() == i,
                entries == self.user_answers.entry_seq(),
                cs == self.config.case_sensitive,
                forall|k: int| 0 <= k < i ==> (#[trigger] results@[k]).0@ == texts@[k]@,
                forall|k: int| 0 <= k < i ==> (#[trigger] results@[k]).1 == counts@[k],
                forall|a: int, b: int|
                    0 <= a < b < texts@.len() ==> (#[trigger] texts@[a])@ != (
                    #[trigger] texts@[b])@,
                forall|t: int|
                    0 <= t < texts@.len() ==> from_some_submission(
                        entries,
                        (#[trigger] texts@[t])@,
                        cs,
                    ),
                forall|t: int|
                    0 <= t < texts@.len() ==> (#[trigger] counts@[t]) as int == spec_clean_tally(
                        entries,
                        texts@[t]@,
                        cs,
                        entries.len() as int,
                    ),
                forall|e: int|
                    0 <= e < entries.len() ==> text_listed(
                        texts@,
                        spec_clean_answer((#[trigger] entries[e]).1.0@, cs),
                    ),
            decreases texts@.len() - i,
        {
            let t = texts[i].clone();
            results.push((t, counts[i]));
            i += 1;
        }
        proof {
            assert forall|e: int|
                0 <= e < entries.len() implies result_listed(
                results@,
                spec_clean_answer((#[trigger] entries[e]).1.0@, cs),
            ) by {
                assert(text_listed(texts@, spec_clean_answer(entries[e].1.0@, cs)));
                let t = choose|t: int|
                    0 <= t < texts@.len() && (#[trigger] texts@[t])@ == spec_clean_answer(
                        entries[e].1.0@,
                        cs,
                    );
                assert(0 <= t < results@.len() && results@[t].0@ == spec_clean_answer(
                    entries[e].1.0@,
                    cs,
                ));
            }
        }
        results
    }

    /// The results payload: cleaned accepted answers, and per-text counts of
    /// the cleaned submissions, in descending count order.
    #[verifier::loop_isolation(false)]
    #[verifier::rlimit(100)]
    #[verifier::spinoff_prover]
    fn results_message(&self) -> (r: UpdateMessage)
        requires
            self.user_answers.wf(),
        ensures
            r is AnswersResults,
            results_payload_ok(*self, r),
    {
        let mut answers: Vec<String> = Vec::new();
        let mut i: usize = 0;
        while i < self.config.answers.len()
            invariant
                0 <= i <= self.config.answers@.len(),
                answers@.len() == i,
                forall|k: int|
                    0 <= k < i ==> (#[trigger] answers@[k])@ == spec_clean_answer(
                        self.config.answers@[k]@,
                        self.config.case_sensitive,
                    ),
            decreases self.config.answers@.len() - i,
        {
            answers.push(clean_answer(self.config.answers[i].as_str(), self.config.case_sensitive));
            i += 1;
        }
        let results = self.aggregate_results();
        let ghost results0 = results@;
        let results = sort_results(results);
        proof {
            assert forall|a: int, b: int|
                0 <= a < results0.len() && 0 <= b < results0.len() && a != b implies results0[a]
                != results0[b] by {
                if a < b {
                    assert(results0[a].0@ != results0[b].0@);
                } else {
                    assert(results0[b].0@ != results0[a].0@);
                }
            }
            assert(results0.no_duplicates());
            assert forall|a: int, b: int|
                0 <= a < b < results@.len() implies (#[trigger] results@[a]).0@ != (
            #[trigger] results@[b]).0@ by {
                assert(results0.contains(results@[a]));
                assert(results0.contains(results@[b]));
                let qa = choose|q: int| 0 <= q < results0.len() && results0[q] == results@[a];
                let qb = choose|q: int| 0 <= q < results0.len() && results0[q] == results@[b];
                if qa == qb {
                    assert(results@[a] == results@[b]);
                    assert(false);
                } else if qa < qb {
                    assert(results0[qa].0@ != results0[qb].0@);
                } else {
                    assert(results0[qb].0@ != results0[qa].0@);
                }
            }
            assert forall|k: int| 0 <= k < results@.len() implies from_some_submission(
                self.user_answers.entry_seq(),
                (#[trigger] results@[k]).0@,
                self.config.case_sensitive,
            ) by {
                assert(results0.contains(results@[k]));
                let q = choose|q: int| 0 <= q < results0.len() && results0[q] == results@[k];
                assert(from_some_submission(
                    self.user_answers.entry_seq(),
                    results0[q].0@,
                    self.config.case_sensitive,
                ));
            }
            assert forall|k: int| 0 <= k < results@.len() implies (#[trigger] results@[k]).1
                as int == spec_clean_tally(
                self.user_answers.entry_seq(),
                results@[k].0@,
                self.config.case_sensitive,
                self.user_answers.entry_seq().len() as int,
            ) by {
                assert(results0.contains(results@[k]));
                let q = choose|q: int| 0 <= q < results0.len() && results0[q] == results@[k];
                assert(results0[q].1 as int == spec_clean_tally(
                    self.user_answers.entry_seq(),
                    results0[q].0@,
                    self.config.case_sensitive,
                    self.user_answers.entry_seq().len() as int,
                ));
            }
            assert forall|e: int|
                0 <= e < self.user_answers.entry_seq().len() implies result_listed(
                results@,
                spec_clean_answer(
                    (#[trigger] self.user_answers.entry_seq()[e]).1.0@,
                    self.config.case_sensitive,
                ),
            ) by {
                assert(result_listed(
                    results0,
                    spec_clean_answer(
                        self.user_answers.entry_seq()[e].1.0@,
                        self.config.case_sensitive,
                    ),
                ));
                let t = choose|t: int|
                    0 <= t < results0.len() && (#[trigger] results0[t]).0@ == spec_clean_answer(
                        self.user_answers.entry_seq()[e].1.0@,
                        self.config.case_sensitive,
                    );
                assert(results@.contains(results0[t]));
                let k = choose|k: int| 0 <= k < results@.len() && results@[k] == results0[t];
                assert(0 <= k < results@.len() && results@[k].0@ == spec_clean_answer(
                    self.user_answers.entry_seq()[e].1.0@,
                    self.config.case_sensitive,
                ));
            }
        }
        UpdateMessage::AnswersResults {
            answers,
            results,
            case_sensitive: self.config.case_sensitive,
        }
    }

    /// Score the slide and push the per-player deltas to the leaderboard.
    #[verifier::loop_isolation(false)]
    #[verifier::rlimit(60)]
    pub fn add_scores(
        &self,
        leaderboard: &mut crate::leaderboard::Leaderboard,
        watchers: &Watchers,
        team_manager: Option<&crate::teams::TeamManager>,
        connected: &IdSet,
        now: u64,
    )
        requires
            state_wf(*self),
            old(leaderboard).wf(),
            watchers.wf(),
            connected.wf(),
            (team_manager matches Some(tm) ==> tm.wf()),
        ensures
            final(leaderboard).wf(),
            final(leaderboard).history().len() == old(leaderboard).history().len() + 1,
            final(leaderboard).spec_summary() == old(leaderboard).spec_summary(),
            final(leaderboard).history().drop_last() == old(leaderboard).history(),
            team_manager is None ==> final(leaderboard).history() == old(leaderboard).history().push(
                spec_solo_deltas(
                    *self,
                    if self.answer_start is Some {
                        self.answer_start->Some_0
                    } else {
                        now
                    },
                    watchers.spec_alive_players(connected@),
                ),
            ),
            (team_manager matches Some(tm) ==> crate::teams::team_deltas_ok(
                final(leaderboard).history().last(),
                spec_solo_deltas(
                    *self,
                    if self.answer_start is Some {
                        self.answer_start->Some_0
                    } else {
                        now
                    },
                    watchers.spec_alive_players(connected@),
                ),
                *tm,
            )),
    {
        broadcast use Seq::lemma_filter_push;

        let start = match self.answer_start {
            Some(s) => s,
            None => now,
        };
        let mut deltas: Vec<(Id, u64)> = Vec::new();
        let total = self.user_answers.len();
        let mut i: usize = 0;
        while i < total
            invariant
                0 <= i <= total,
                total == self.user_answers.entry_seq().len(),
                state_wf(*self),
                deltas@ == self.user_answers.entry_seq().take(i as int).map_values(
                    |e: (Id, (String, u64))| (
                        e.0,
                        spec_answer_points(self.config, e.1, start) as u64,
                    ),
                ),
            decreases total - i,
        {
            let entry = self.user_answers.entry_at(i);
            let id = entry.0;
            let submitted = entry.1.1;
            let correct = self.matches_answer(entry.1.0.as_str());
            let points: u64 = if correct {
                let taken = if submitted >= start {
                    submitted - start
                } else {
                    0
                };
                crate::multiple_choice::calculate_score_for(
                    self.config.time_limit,
                    taken,
                    self.config.points_awarded,
                )
            } else {
                0
            };
            deltas.push((id, points));
            proof {
                let f = |e: (Id, (String, u64))|
                    (e.0, spec_answer_points(self.config, e.1, start) as u64);
                let es = self.user_answers.entry_seq();
                assert(es.take(i + 1).drop_last() =~= es.take(i as int));
                assert(es.take(i + 1).map_values(f) =~= es.take(i as int).map_values(f).push(
                    f(es[i as int]),
                ));
                assert(deltas@ =~= es.take(i + 1).map_values(f));
            }
            i += 1;
        }
        proof {
            let es = self.user_answers.entry_seq();
            assert(es.take(es.len() as int) =~= es);
        }
        // Connected players without a submission are recorded with zero, so
        // every leaderboard total stays accurate and, in a team game, a team
        // with an absent member earns nothing.
        let alive = watchers.alive_players_vec(connected);
        let ghost base = deltas@;
        let mut i: usize = 0;
        while i < alive.len()
            invariant
                0 <= i <= alive@.len(),
                alive@ == watchers.spec_alive_players(connected@),
                state_wf(*self),
                deltas@ == base + alive@.take(i as int).filter(
                    |id: Id| !self.user_answers@.contains_key(id),
                ).map_values(|id: Id| (id, 0u64)),
            decreases alive@.len() - i,
        {
            let id = alive[i];
            proof {
                let pred = |id2: Id| !self.user_answers@.contains_key(id2);
                let f = |id2: Id| (id2, 0u64);
                assert(alive@.take(i + 1).drop_last() =~= alive@.take(i as int));
                assert(alive@.take(i as int).push(id) =~= alive@.take(i + 1));
                if pred(id) {
                    assert(alive@.take(i + 1).filter(pred).map_values(f) =~= alive@.take(
                        i as int,
                    ).filter(pred).map_values(f).push(f(id)));
                } else {
                    assert(alive@.take(i + 1).filter(pred).map_values(f) =~= alive@.take(
                        i as int,
                    ).filter(pred).map_values(f));
                }
            }
            if !self.user_answers.contains_key(id) {
                deltas.push((id, 0));
            }
            i += 1;
        }
        proof {
            assert(alive@.take(alive@.len() as int) =~= alive@);
            assert(deltas@ =~= spec_solo_deltas(
                *self,
                start,
                watchers.spec_alive_players(connected@),
            ));
        }
        match team_manager {
            Some(tm) => {
                let row = crate::teams::group_team_deltas(tm, &deltas);
                leaderboard.add_scores(&row);
                proof {
                    assert(leaderboard.history().drop_last() =~= old(leaderboard).history());
                }
            },
            None => {
                leaderboard.add_scores(&deltas);
                proof {
                    assert(leaderboard.history().drop_last() =~= old(leaderboard).history());
                }
            },
        }
    }

    /// Whether every connected player has submitted.
    #[verifier::loop_isolation(false)]
    fn all_answered(&self, watchers: &Watchers, connected: &IdSet) -> (r: bool)
        requires
            self.user_answers.wf(),
            watchers.wf(),
            connected.wf(),
        ensures
            r == forall|i: int|
                0 <= i < watchers.spec_alive_players(connected@).len()
                    ==> self.user_answers@.contains_key(
                    #[trigger] watchers.spec_alive_players(connected@)[i],
                ),
    {
        let alive = watchers.alive_players_vec(connected);
        let mut i: usize = 0;
        while i < alive.len()
            invariant
                0 <= i <= alive@.len(),
                alive@ == watchers.spec_alive_players(connected@),
                self.user_answers.wf(),
                forall|j: int|
                    0 <= j < i ==> self.user_answers@.contains_key(#[trigger] alive@[j]),
            decreases alive@.len() - i,
        {
            if !self.user_answers.contains_key(alive[i]) {
                return false;
            }
            i += 1;
        }
        true
    }

    /// How many connected players have submitted.
    #[verifier::loop_isolation(false)]
    fn answered_count(&self, watchers: &Watchers, connected: &IdSet) -> (r: usize)
        requires
            self.user_answers.wf(),
            watchers.wf(),
            connected.wf(),
        ensures
            r == watchers.spec_alive_players(connected@).filter(
                |id: Id| self.user_answers@.contains_key(id),
            ).len(),
    {
        broadcast use Seq::lemma_filter_push;

        let alive = watchers.alive_players_vec(connected);
        let mut count: usize = 0;
        let mut i: usize = 0;
        while i < alive.len()
            invariant
                0 <= i <= alive@.len(),
                alive@ == watchers.spec_alive_players(connected@),
                self.user_answers.wf(),
                count == alive@.take(i as int).filter(
                    |id: Id| self.user_answers@.contains_key(id),
                ).len(),
            decreases alive@.len() - i,
        {
            let id = alive[i];
            proof {
                assert(alive@.take(i + 1).drop_last() =~= alive@.take(i as int));
                assert(alive@.take(i as int).push(id) =~= alive@.take(i + 1));
            }
            if self.user_answers.contains_key(id) {
                count += 1;
            }
            i += 1;
        }
        proof {
            assert(alive@.take(alive@.len() as int) =~= alive@);
        }
        count
    }

    /// Handle one incoming message: the host advances the phase, players
    /// submit text answers. Returns whether the slide just completed.
    #[verifier::rlimit(60)]
    pub fn receive_message(
        &mut self,
        watcher_id: Id,
        message: &crate::game::IncomingMessage,
        leaderboard: &mut crate::leaderboard::Leaderboard,
        watchers: &Watchers,
        team_manager: Option<&crate::teams::TeamManager>,
        connected: &IdSet,
        eff: &mut Effects,
        now: u64,
        index: usize,
        count: usize,
    ) -> (r: bool)
        requires
            state_wf(*old(self)),
            old(leaderboard).wf(),
            watchers.wf(),
            connected.wf(),
            (team_manager matches Some(tm) ==> tm.wf()),
        ensures
            state_wf(*final(self)),
            final(leaderboard).wf(),
            final(self).config == old(self).config,
            phase_index(final(self).state) >= phase_index(old(self).state),
            crate::session::extends(old(eff).outgoing@, final(eff).outgoing@),
            crate::session::extends_alarms(old(eff).alarms@, final(eff).alarms@),
            r == (message matches crate::game::IncomingMessage::Host(
                crate::game::IncomingHostMessage::Next,
            ) && old(self).state == SlideState::AnswersResults),
            r ==> final(leaderboard).history().len() == old(leaderboard).history().len() + 1,
            !r ==> *final(leaderboard) == *old(leaderboard),
            r ==> final(leaderboard).history().drop_last() == old(leaderboard).history(),
            (r && team_manager is None) ==> final(leaderboard).history().last()
                == spec_solo_deltas(
                *old(self),
                if old(self).answer_start is Some {
                    old(self).answer_start->Some_0
                } else {
                    now
                },
                watchers.spec_alive_players(connected@),
            ),
            r ==> (team_manager matches Some(tm) ==> crate::teams::team_deltas_ok(
                final(leaderboard).history().last(),
                spec_solo_deltas(
                    *old(self),
                    if old(self).answer_start is Some {
                        old(self).answer_start->Some_0
                    } else {
                        now
                    },
                    watchers.spec_alive_players(connected@),
                ),
                *tm,
            )),
            (message matches crate::game::IncomingMessage::Host(
                crate::game::IncomingHostMessage::Next,
            )) ==> {
                &&& (old(self).state == SlideState::Unstarted && old(
                    self,
                ).config.introduce_question > 0 ==> final(self).state == SlideState::Question)
                &&& (old(self).state == SlideState::Unstarted && old(
                    self,
                ).config.introduce_question == 0 ==> final(self).state == SlideState::Answers)
                &&& (old(self).state == SlideState::Question ==> final(self).state
                    == SlideState::Answers && final(self).answer_start == Some(now))
                &&& (old(self).state == SlideState::Answers ==> final(self).state
                    == SlideState::AnswersResults && results_broadcast_ok(
                    old(eff).outgoing@,
                    final(eff).outgoing@,
                    watchers.ordered_ids().filter(|id: Id| connected@.contains(id)),
                    *final(self),
                ) && final(eff).alarms@ == old(eff).alarms@)
                &&& (old(self).state == SlideState::AnswersResults ==> final(self).state == old(
                    self,
                ).state)
            },
            forall|v: String|
                *message == crate::game::IncomingMessage::Player(
                    crate::game::IncomingPlayerMessage::StringAnswer(v),
                ) ==> {
                    let subs = final(self).user_answers@;
                    let alive = watchers.spec_alive_players(connected@);
                    &&& subs.contains_key(watcher_id)
                    &&& subs[watcher_id].0@ == v@
                    &&& subs[watcher_id].1 == now
                    &&& (forall|p: Id|
                        p != watcher_id ==> ((subs.contains_key(p) <==> old(
                            self,
                        ).user_answers@.contains_key(p)) && (subs.contains_key(p)
                            ==> subs[p] == old(self).user_answers@[p])))
                    &&& ((old(self).state == SlideState::Answers && (forall|i: int|
                        0 <= i < alive.len() ==> subs.contains_key(#[trigger] alive[i])))
                        ==> final(self).state == SlideState::AnswersResults
                        && results_broadcast_ok(
                        old(eff).outgoing@,
                        final(eff).outgoing@,
                        watchers.ordered_ids().filter(|id: Id| connected@.contains(id)),
                        *final(self),
                    ) && final(eff).alarms@ == old(eff).alarms@)
                    &&& (!(old(self).state == SlideState::Answers && (forall|i: int|
                        0 <= i < alive.len() ==> subs.contains_key(#[trigger] alive[i])))
                        ==> final(self).state == old(self).state)
                    &&& (!(forall|i: int|
                        0 <= i < alive.len() ==> subs.contains_key(#[trigger] alive[i])) ==> {
                        &&& final(eff).outgoing@.len() == old(eff).outgoing@.len() + 1
                        &&& final(eff).outgoing@.take(old(eff).outgoing@.len() as int) == old(
                            eff,
                        ).outgoing@
                        &&& (final(eff).outgoing@.last() matches crate::session::Outgoing::Update {
                            to,
                            message: crate::UpdateMessage::TypeAnswer(
                                UpdateMessage::AnswersCount(c),
                            ),
                        } && to@ == watchers.kind_bucket(crate::watcher::ValueKind::Host).filter(
                            |id: Id| connected@.contains(id),
                        ) && c == alive.filter(|id: Id| subs.contains_key(id)).len())
                        &&& final(eff).alarms@ == old(eff).alarms@
                    })
                },
            (!(message matches crate::game::IncomingMessage::Host(
                crate::game::IncomingHostMessage::Next,
            )) && !(message matches crate::game::IncomingMessage::Player(
                crate::game::IncomingPlayerMessage::StringAnswer(_),
            ))) ==> *final(self) == *old(self) && *final(eff) == *old(eff),
            (message matches crate::game::IncomingMessage::Host(
                crate::game::IncomingHostMessage::Next,
            ) && old(self).state == SlideState::AnswersResults) ==> final(self).state == old(
                self,
            ).state && final(self).user_answers == old(self).user_answers && *final(eff)
                == *old(eff),
    {
        match message {
            crate::game::IncomingMessage::Host(crate::game::IncomingHostMessage::Next) => {
                match self.state {
                    SlideState::Unstarted => {
                        self.send_question_announcements(
                            watchers,
                            connected,
                            eff,
                            now,
                            index,
                            count,
                        );
                        false
                    },
                    SlideState::Question => {
                        self.send_accepting_answers(watchers, connected, eff, now, index, count);
                        false
                    },
                    SlideState::Answers => {
                        self.send_answers_results(watchers, connected, eff);
                        false
                    },
                    SlideState::AnswersResults => {
                        self.add_scores(leaderboard, watchers, team_manager, connected, now);
                        true
                    },
                }
            },
            crate::game::IncomingMessage::Player(
                crate::game::IncomingPlayerMessage::StringAnswer(v),
            ) => {
                self.user_answers.insert(watcher_id, (v.clone(), now));
                if self.all_answered(watchers, connected) {
                    self.send_answers_results(watchers, connected, eff);
                } else {
                    let count_answered = self.answered_count(watchers, connected);
                    let hosts = watchers.specific_ids_vec(crate::watcher::ValueKind::Host);
                    let mut live_hosts: Vec<Id> = Vec::new();
                    let mut i: usize = 0;
                    while i < hosts.len()
                        invariant
                            0 <= i <= hosts@.len(),
                            hosts@ == watchers.kind_bucket(crate::watcher::ValueKind::Host),
                            live_hosts@ == hosts@.take(i as int).filter(
                                |id: Id| connected@.contains(id),
                            ),
                        decreases hosts@.len() - i,
                    {
                        proof {
                            broadcast use Seq::lemma_filter_push;

                            assert(hosts@.take(i + 1) =~= hosts@.take(i as int).push(
                                hosts@[i as int],
                            ));
                        }
                        if connected.contains(hosts[i]) {
                            live_hosts.push(hosts[i]);
                        }
                        i += 1;
                    }
                    proof {
                        assert(hosts@.take(hosts@.len() as int) =~= hosts@);
                    }
                    eff.send_to(
                        live_hosts,
                        crate::UpdateMessage::TypeAnswer(UpdateMessage::AnswersCount(count_answered)),
                    );
                }
                false
            },
            _ => false,
        }
    }

    /// Handle an alarm: perform the transition it names.
    pub fn receive_alarm(
        &mut self,
        leaderboard: &mut crate::leaderboard::Leaderboard,
        watchers: &Watchers,
        connected: &IdSet,
        eff: &mut Effects,
        message: &crate::AlarmMessage,
        now: u64,
        index: usize,
        count: usize,
    ) -> (r: bool)
        requires
            state_wf(*old(self)),
            old(leaderboard).wf(),
            watchers.wf(),
            connected.wf(),
        ensures
            state_wf(*final(self)),
            *final(leaderboard) == *old(leaderboard),
            final(leaderboard).wf(),
            final(self).config == old(self).config,
            final(self).user_answers == old(self).user_answers,
            phase_index(final(self).state) >= phase_index(old(self).state),
            crate::session::extends(old(eff).outgoing@, final(eff).outgoing@),
            crate::session::extends_alarms(old(eff).alarms@, final(eff).alarms@),
            r == false,
            *message matches crate::AlarmMessage::TypeAnswer(
                AlarmMessage::ProceedFromSlideIntoSlide { index: _, to },
            ) ==> {
                &&& (to == SlideState::Answers && old(self).state == SlideState::Question
                    ==> final(self).state == SlideState::Answers && final(self).answer_start
                        == Some(now))
                &&& (to == SlideState::Answers && old(self).state != SlideState::Question
                    ==> *final(self) == *old(self) && *final(eff) == *old(eff))
                &&& (to == SlideState::AnswersResults && old(self).state == SlideState::Answers
                    ==> final(self).state == SlideState::AnswersResults)
                &&& (to == SlideState::AnswersResults && old(self).state != SlideState::Answers
                    ==> *final(self) == *old(self) && *final(eff) == *old(eff))
                &&& ((to == SlideState::Unstarted || to == SlideState::Question) ==> *final(self)
                    == *old(self) && *final(eff) == *old(eff))
            },
            (!(message matches crate::AlarmMessage::TypeAnswer(_))) ==> *final(self) == *old(
                self,
            ) && *final(eff) == *old(eff),
    {
        match message {
            crate::AlarmMessage::TypeAnswer(
                AlarmMessage::ProceedFromSlideIntoSlide { index: _, to },
            ) => {
                match to {
                    SlideState::Answers => {
                        self.send_accepting_answers(watchers, connected, eff, now, index, count);
                    },
                    SlideState::AnswersResults => {
                        self.send_answers_results(watchers, connected, eff);
                    },
                    _ => {},
                }
            },
            _ => {},
        }
        false
    }

    /// The full-state message a late joiner or reconnect receives.
    pub fn state_message(
        &self,
        watchers: &Watchers,
        connected: &IdSet,
        now: u64,
        index: usize,
        count: usize,
    ) -> (r: SyncMessage)
        requires
            state_wf(*self),
            watchers.wf(),
            connected.wf(),
        ensures
            (self.state == SlideState::Unstarted || self.state == SlideState::Question) ==> (
            r matches SyncMessage::QuestionAnnouncement { index: i, count: c, question, duration, accept_answers, .. }
                && i == index && c == count && question == self.config.title && !accept_answers
                && duration == crate::spec_remaining(
                self.config.introduce_question,
                self.answer_start,
                now,
            )),
            self.state == SlideState::Answers ==> (r matches SyncMessage::QuestionAnnouncement {
                index: i,
                count: c,
                question,
                duration,
                accept_answers,
                ..
            } && i == index && c == count && question == self.config.title && accept_answers
                && duration == crate::spec_remaining(
                self.config.time_limit,
                self.answer_start,
                now,
            )),
            self.state == SlideState::AnswersResults ==> (r matches SyncMessage::AnswersResults {
                index: i,
                count: c,
                question,
                answers: ans,
                results: rs,
                case_sensitive: cs,
                ..
            } && i == index && c == count && question == self.config.title
                && results_payload_ok(
                *self,
                (UpdateMessage::AnswersResults { answers: ans, results: rs, case_sensitive: cs }),
            )),
    {
        let start = match self.answer_start {
            Some(s) => s,
            None => now,
        };
        let elapsed = if now >= start {
            now - start
        } else {
            0
        };
        match self.state {
            SlideState::Unstarted | SlideState::Question => SyncMessage::QuestionAnnouncement {
                index,
                count,
                question: self.config.title.clone(),
                media: crate::media::clone_media_option(&self.config.media),
                duration: if self.config.introduce_question >= elapsed {
                    self.config.introduce_question - elapsed
                } else {
                    0
                },
                accept_answers: false,
            },
            SlideState::Answers => SyncMessage::QuestionAnnouncement {
                index,
                count,
                question: self.config.title.clone(),
                media: crate::media::clone_media_option(&self.config.media),
                duration: if self.config.time_limit >= elapsed {
                    self.config.time_limit - elapsed
                } else {
                    0
                },
                accept_answers: true,
            },
            SlideState::AnswersResults => {
                let msg = self.results_message();
                match msg {
                    UpdateMessage::AnswersResults { answers, results, case_sensitive } => {
                        SyncMessage::AnswersResults {
                            index,
                            count,
                            question: self.config.title.clone(),
                            media: crate::media::clone_media_option(&self.config.media),
                            answers,
                            results,
                            case_sensitive,
                        }
                    },
                    _ => {
                        proof {
                            // Unreachable: the payload is always a results
                            // message here.
                            assert(false);
                        }
                        SyncMessage::AnswersResults {
                            index,
                            count,
                            question: self.config.title.clone(),
                            media: crate::media::clone_media_option(&self.config.media),
                            answers: Vec::new(),
                            results: Vec::new(),
                            case_sensitive: self.config.case_sensitive,
                        }
                    },
                }
            },
        }
    }
}

} // verus!
