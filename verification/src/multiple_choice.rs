//! The multiple-choice slide engine: a question with a fixed list of answer
//! choices, each marked correct or not. Players pick an index; correct picks
//! earn points that decay linearly with response time.

use vstd::prelude::*;

use crate::fuiz::TextOrMedia;
use crate::media::Media;
use crate::session::Effects;
use crate::store::{IdMap, IdSet};
use crate::watcher::{Id, Watchers};

verus! {

/// Phase of the slide. Phases only ever move forward.
#[derive(Debug, Clone, Copy, PartialEq, Eq, Structural)]
pub enum SlideState {
    /// Not yet begun; treated like `Question` once the slide starts.
    Unstarted,
    /// Showing the question without its answers.
    Question,
    /// Showing the answers and accepting submissions.
    Answers,
    /// Showing the correct answers and their statistics.
    AnswersResults,
}

/// The position of a phase in the forward order.
pub open spec fn phase_index(s: SlideState) -> int {
    match s {
        SlideState::Unstarted => 0,
        SlideState::Question => 1,
        SlideState::Answers => 2,
        SlideState::AnswersResults => 3,
    }
}

/// One answer choice: its content and whether it is correct.
#[derive(Debug, PartialEq, Eq)]
pub struct AnswerChoice {
    pub correct: bool,
    pub content: TextOrMedia,
}

impl AnswerChoice {
    /// An equal copy.
    pub fn clone_value(&self) -> (r: AnswerChoice)
        ensures
            r == *self,
    {
        AnswerChoice { correct: self.correct, content: self.content.clone_value() }
    }
}

/// Correctness of one choice and how many players picked it.
#[derive(Debug, Clone, Copy, PartialEq, Eq, Structural)]
pub struct AnswerChoiceResult {
    pub correct: bool,
    pub count: usize,
}

/// Whether two configurations carry the same data.
pub open spec fn spec_config_equal(a: SlideConfig, b: SlideConfig) -> bool {
    &&& a.title == b.title
    &&& a.media == b.media
    &&& a.introduce_question == b.introduce_question
    &&& a.time_limit == b.time_limit
    &&& a.points_awarded == b.points_awarded
    &&& a.answers@ == b.answers@
}

/// The static configuration of one multiple-choice slide. Durations are in
/// milliseconds.
#[derive(Debug, PartialEq, Eq)]
pub struct SlideConfig {
    /// The question title: what is being asked.
    pub title: String,
    /// Accompanying media.
    pub media: Option<Media>,
    /// Time the question shows before its answers appear.
    pub introduce_question: u64,
    /// Time players have to answer.
    pub time_limit: u64,
    /// Maximum points awarded; decays to half by the end of the time limit.
    pub points_awarded: u64,
    /// The answer choices.
    pub answers: Vec<AnswerChoice>,
}

impl SlideConfig {
    /// An equal copy.
    pub fn clone_value(&self) -> (r: SlideConfig)
        ensures
            spec_config_equal(r, *self),
    {
        let mut answers: Vec<AnswerChoice> = Vec::new();
        let mut i: usize = 0;
        while i < self.answers.len()
            invariant
                0 <= i <= self.answers@.len(),
                answers@ == self.answers@.take(i as int),
            decreases self.answers@.len() - i,
        {
            answers.push(self.answers[i].clone_value());
            proof {
                assert(answers@ =~= self.answers@.take(i + 1));
            }
            i += 1;
        }
        proof {
            assert(answers@ =~= self.answers@);
        }
        SlideConfig {
            title: self.title.clone(),
            media: crate::media::clone_media_option(&self.media),
            introduce_question: self.introduce_question,
            time_limit: self.time_limit,
            points_awarded: self.points_awarded,
            answers,
        }
    }

    /// Fresh runtime state for this configuration.
    pub fn to_state(&self) -> (r: State)
        ensures
            spec_config_equal(r.config, *self),
            r.user_answers@ == Map::<Id, (usize, u64)>::empty(),
            r.user_answers.wf(),
            r.answer_start is None,
            r.state == SlideState::Unstarted,
    {
        State {
            config: self.clone_value(),
            user_answers: IdMap::new(),
            answer_start: None,
            state: SlideState::Unstarted,
        }
    }
}

/// The runtime state of one multiple-choice slide.
#[derive(Debug)]
pub struct State {
    /// The validated configuration this slide runs.
    pub config: SlideConfig,
    /// Each player's submitted answer index and its submission time.
    pub user_answers: IdMap<(usize, u64)>,
    /// When the answering phase began, if it has.
    pub answer_start: Option<u64>,
    /// The current phase.
    pub state: SlideState,
}

/// Content either visible to a recipient or hidden from them.
#[derive(Debug, PartialEq, Eq)]
pub enum PossiblyHidden<T> {
    Visible(T),
    Hidden,
}

/// State-delta messages this engine sends.
#[derive(Debug, PartialEq, Eq)]
pub enum UpdateMessage {
    /// The question, without its answers.
    QuestionAnnouncement {
        /// Index of the slide (0-based).
        index: usize,
        /// Total count of slides.
        count: usize,
        /// The question text.
        question: String,
        /// Accompanying media.
        media: Option<Media>,
        /// Time before the answers will be released, in milliseconds.
        duration: u64,
    },
    /// The answers to choose from; hidden entries belong to teammates.
    AnswersAnnouncement {
        /// Time before the answering phase ends, in milliseconds.
        duration: u64,
        /// The choices, each visible or hidden for this recipient.
        answers: Vec<PossiblyHidden<TextOrMedia>>,
    },
    /// (Host only) how many players have answered.
    AnswersCount(usize),
    /// The answer contents with correctness and pick counts.
    AnswersResults { answers: Vec<TextOrMedia>, results: Vec<AnswerChoiceResult> },
}

/// The alarm payload this engine schedules and later receives back.
#[derive(Debug, Clone, Copy, PartialEq, Eq, Structural)]
pub enum AlarmMessage {
    ProceedFromSlideIntoSlide { index: usize, to: SlideState },
}

/// Full-state messages for late joiners and reconnects.
#[derive(Debug, PartialEq, Eq)]
pub enum SyncMessage {
    /// Showing the question without its answers.
    QuestionAnnouncement {
        index: usize,
        count: usize,
        question: String,
        media: Option<Media>,
        /// Remaining time, in milliseconds.
        duration: u64,
    },
    /// Showing the answers and accepting submissions.
    AnswersAnnouncement {
        index: usize,
        count: usize,
        question: String,
        media: Option<Media>,
        /// Remaining time, in milliseconds.
        duration: u64,
        answers: Vec<PossiblyHidden<TextOrMedia>>,
        answered_count: usize,
    },
    /// Showing the correct answers and their statistics.
    AnswersResults {
        index: usize,
        count: usize,
        question: String,
        media: Option<Media>,
        answers: Vec<TextOrMedia>,
        results: Vec<AnswerChoiceResult>,
    },
}


/// What the revealed results hold: each configured choice's content, its
/// correctness, and how many players picked it.
pub open spec fn results_payload_ok(s: State, m: UpdateMessage) -> bool {
    m matches UpdateMessage::AnswersResults { answers, results } && {
        &&& answers@.len() == s.config.answers@.len()
        &&& results@.len() == s.config.answers@.len()
        &&& (forall|k: int|
            0 <= k < s.config.answers@.len() ==> (#[trigger] answers@[k])
                == s.config.answers@[k].content)
        &&& (forall|k: int|
            0 <= k < s.config.answers@.len() ==> (#[trigger] results@[k]).correct
                == s.config.answers@[k].correct)
        &&& (forall|k: int|
            0 <= k < s.config.answers@.len() ==> (#[trigger] results@[k]).count as int
                == spec_pick_count_before(
                s.user_answers.entry_seq(),
                k,
                s.user_answers.entry_seq().len() as int,
            ))
    }
}

/// How many of the first `k` stored submissions picked `choice`.
pub open spec fn spec_pick_count_before(
    entries: Seq<(Id, (usize, u64))>,
    choice: int,
    k: int,
) -> int
    decreases k,
{
    if k <= 0 {
        0
    } else {
        spec_pick_count_before(entries, choice, k - 1) + (
        if entries[k - 1].1.0 as int == choice {
            1int
        } else {
            0int
        })
    }
}

/// The scoring law: points decay linearly from the full award at the start
/// of the answering phase to half the award at the time limit, and to
/// nothing at twice the time limit.
pub open spec fn spec_score(full_duration: u64, taken: u64, points: u64) -> int {
    if taken >= 2 * full_duration {
        0
    } else {
        (points * (2 * full_duration - taken)) / (2 * full_duration)
    }
}

/// How long a submission took, treating a submission before the phase
/// started as instantaneous.
pub open spec fn spec_taken(submitted: u64, start: u64) -> u64 {
    if submitted >= start {
        (submitted - start) as u64
    } else {
        0
    }
}

/// The points a recorded answer earns.
pub open spec fn spec_answer_points(c: SlideConfig, entry: (usize, u64), start: u64) -> int {
    if entry.0 < c.answers@.len() && c.answers@[entry.0 as int].correct {
        spec_score(c.time_limit, spec_taken(entry.1, start), c.points_awarded)
    } else {
        0
    }
}

/// The per-player score deltas of a solo game: each submitter earns their
/// answer's points in submission order, then every other connected player
/// is listed with zero so the leaderboard covers everyone.
pub open spec fn spec_solo_deltas(s: State, start: u64, alive_players: Seq<Id>) -> Seq<(Id, u64)> {
    s.user_answers.entry_seq().map_values(
        |e: (Id, (usize, u64))| (e.0, spec_answer_points(s.config, e.1, start) as u64),
    ) + alive_players.filter(|id: Id| !s.user_answers@.contains_key(id)).map_values(
        |id: Id| (id, 0u64),
    )
}

/// The answer visibility a recipient sees: hosts see everything in solo
/// games and nothing in team games; a player sees the answers whose index
/// matches their rotation slot within their team.
pub open spec fn spec_answers_for(
    c: SlideConfig,
    kind: crate::watcher::ValueKind,
    team_size: int,
    team_index: int,
    is_team: bool,
) -> Seq<PossiblyHidden<TextOrMedia>> {
    let n = c.answers@.len() as int;
    match kind {
        crate::watcher::ValueKind::Player => {
            if n == 0 {
                Seq::empty()
            } else {
                Seq::new(
                    n as nat,
                    |i: int|
                        if i % (if team_size < n {
                            team_size
                        } else {
                            n
                        }) == team_index % n {
                            PossiblyHidden::Visible(c.answers@[i].content)
                        } else {
                            PossiblyHidden::Hidden
                        },
                )
            }
        },
        _ => {
            if is_team {
                Seq::new(n as nat, |i: int| PossiblyHidden::Hidden)
            } else {
                Seq::new(n as nat, |i: int| PossiblyHidden::Visible(c.answers@[i].content))
            }
        },
    }
}

/// With no answer choices configured, every player's solo delta is zero:
/// no submission can name a correct choice, and absentees are recorded with
/// zero anyway.
pub proof fn lemma_empty_answers_zero_deltas(s: State, start: u64, alive: Seq<Id>)
    requires
        s.config.answers@.len() == 0,
    ensures
        forall|k: int|
            0 <= k < spec_solo_deltas(s, start, alive).len() ==> (#[trigger] spec_solo_deltas(
                s,
                start,
                alive,
            )[k]).1 == 0,
{
    let d = spec_solo_deltas(s, start, alive);
    let submitted = s.user_answers.entry_seq().map_values(
        |e: (Id, (usize, u64))| (e.0, spec_answer_points(s.config, e.1, start) as u64),
    );
    let absent = alive.filter(|id: Id| !s.user_answers@.contains_key(id)).map_values(
        |id: Id| (id, 0u64),
    );
    assert forall|k: int| 0 <= k < d.len() implies (#[trigger] d[k]).1 == 0 by {
        if k < submitted.len() {
            assert(d[k] == submitted[k]);
            assert(spec_answer_points(s.config, s.user_answers.entry_seq()[k].1, start) == 0);
        } else {
            assert(d[k] == absent[k - submitted.len()]);
        }
    }
}

/// The question announcement this slide broadcasts.
pub open spec fn spec_question_msg(s: State, index: usize, count: usize) -> crate::UpdateMessage {
    crate::UpdateMessage::MultipleChoice(
        UpdateMessage::QuestionAnnouncement {
            index,
            count,
            question: s.config.title,
            media: s.config.media,
            duration: s.config.introduce_question,
        },
    )
}

/// `post` extends `pre` by one answers announcement per live watcher, each
/// addressed to exactly that watcher and carrying the time limit.
pub open spec fn answers_broadcast_ok(
    pre: Seq<crate::session::Outgoing>,
    post: Seq<crate::session::Outgoing>,
    live: Seq<Id>,
    c: SlideConfig,
) -> bool {
    &&& post.len() == pre.len() + live.len()
    &&& (forall|i: int| 0 <= i < pre.len() ==> post[i] == (#[trigger] pre[i]))
    &&& forall|k: int|
        0 <= k < live.len() ==> (#[trigger] post[pre.len() + k] matches crate::session::Outgoing::Update {
            to,
            message,
        } && (to@ == seq![live[k]] && (message matches crate::UpdateMessage::MultipleChoice(
            UpdateMessage::AnswersAnnouncement { duration, answers },
        ) && duration == c.time_limit)))
}

/// The engine's validity conditions: a well-formed submission store and
/// durations within the configured bounds.
pub open spec fn state_wf(s: State) -> bool {
    &&& s.user_answers.wf()
    &&& crate::fuiz::spec_durations_valid(s.config.introduce_question, s.config.time_limit)
}

/// The number of points a recorded answer earns, computed exactly.
pub fn calculate_score_for(full_duration: u64, taken: u64, points: u64) -> (r: u64)
    requires
        0 < full_duration <= crate::fuiz::MAX_TIME_LIMIT,
    ensures
        r == spec_score(full_duration, taken, points),
{
    let fd2: u128 = 2 * (full_duration as u128);
    if (taken as u128) >= fd2 {
        0
    } else {
        proof {
            assert((points as u128) * (fd2 - (taken as u128)) <= (u64::MAX as u128) * (2 * (
            crate::fuiz::MAX_TIME_LIMIT as u128))) by (nonlinear_arith)
                requires
                    (points as u128) <= (u64::MAX as u128),
                    fd2 - (taken as u128) <= 2 * (crate::fuiz::MAX_TIME_LIMIT as u128),
            ;
        }
        let num: u128 = (points as u128) * (fd2 - (taken as u128));
        let q: u128 = num / fd2;
        proof {
            assert(q <= points) by (nonlinear_arith)
                requires
                    q == ((points as u128) * (fd2 - (taken as u128))) as int / fd2 as int,
                    0 < fd2,
                    (taken as u128) < fd2,
                    fd2 - (taken as u128) <= fd2,
            ;
        }
        q as u64
    }
}

impl State {
    /// Move forward one phase, exactly when the current phase is `before`.
    fn change_state(&mut self, before: SlideState, after: SlideState) -> (r: bool)
        ensures
            r == (old(self).state == before),
            final(self).state == if r {
                after
            } else {
                old(self).state
            },
            final(self).config == old(self).config,
            final(self).user_answers == old(self).user_answers,
            final(self).answer_start == old(self).answer_start,
    {
        if self.state == before {
            self.state = after;
            true
        } else {
            false
        }
    }

    /// The answer visibility for one recipient.
    #[verifier::loop_isolation(false)]
    pub fn get_answers_for_player(
        &self,
        watcher_kind: crate::watcher::ValueKind,
        team_size: usize,
        team_index: usize,
        is_team: bool,
    ) -> (r: Vec<PossiblyHidden<TextOrMedia>>)
        requires
            team_size >= 1,
        ensures
            r@ == spec_answers_for(
                self.config,
                watcher_kind,
                team_size as int,
                team_index as int,
                is_team,
            ),
    {
        let n = self.config.answers.len();
        let mut r: Vec<PossiblyHidden<TextOrMedia>> = Vec::new();
        match watcher_kind {
            crate::watcher::ValueKind::Player => {
                if n == 0 {
                    proof {
                        assert(r@ =~= spec_answers_for(
                            self.config,
                            watcher_kind,
                            team_size as int,
                            team_index as int,
                            is_team,
                        ));
                    }
                    return r;
                }
                let slot = team_index % n;
                let step = if team_size < n {
                    team_size
                } else {
                    n
                };
                let mut i: usize = 0;
                while i < n
                    invariant
                        0 <= i <= n,
                        r@.len() == i,
                        n == self.config.answers@.len(),
                        n > 0,
                        step == if (team_size as int) < n as int {
                            team_size as int
                        } else {
                            n as int
                        },
                        slot == team_index as int % n as int,
                        forall|j: int|
                            0 <= j < i ==> (#[trigger] r@[j]) == (if j % (step as int) == (
                            slot as int) {
                                PossiblyHidden::Visible(self.config.answers@[j].content)
                            } else {
                                PossiblyHidden::Hidden
                            }),
                    decreases n - i,
                {
                    if i % step == slot {
                        r.push(
                            PossiblyHidden::Visible(self.config.answers[i].content.clone_value()),
                        );
                    } else {
                        r.push(PossiblyHidden::Hidden);
                    }
                    i += 1;
                }
                proof {
                    assert(r@ =~= spec_answers_for(
                        self.config,
                        watcher_kind,
                        team_size as int,
                        team_index as int,
                        is_team,
                    ));
                }
                r
            },
            _ => {
                let mut i: usize = 0;
                while i < n
                    invariant
                        0 <= i <= n,
                        r@.len() == i,
                        n == self.config.answers@.len(),
                        forall|j: int|
                            0 <= j < i ==> (#[trigger] r@[j]) == (if is_team {
                                PossiblyHidden::Hidden
                            } else {
                                PossiblyHidden::Visible(self.config.answers@[j].content)
                            }),
                    decreases n - i,
                {
                    if is_team {
                        r.push(PossiblyHidden::Hidden);
                    } else {
                        r.push(
                            PossiblyHidden::Visible(self.config.answers[i].content.clone_value()),
                        );
                    }
                    i += 1;
                }
                proof {
                    assert(r@ =~= spec_answers_for(
                        self.config,
                        watcher_kind,
                        team_size as int,
                        team_index as int,
                        is_team,
                    ));
                }
                r
            },
        }
    }
}


impl State {
    /// Begin the slide: announce the question, and either skip straight to
    /// the answering phase (zero introduction) or schedule the transition.
    pub fn play(
        &mut self,
        team_manager: Option<&crate::teams::TeamManager>,
        watchers: &Watchers,
        connected: &IdSet,
        eff: &mut Effects,
        now: u64,
        index: usize,
        count: usize,
    )
        requires
            state_wf(*old(self)),
            watchers.wf(),
            connected.wf(),
            (team_manager matches Some(tm) ==> tm.wf()),
        ensures
            state_wf(*final(self)),
            final(self).config == old(self).config,
            final(self).user_answers == old(self).user_answers,
            phase_index(final(self).state) >= phase_index(old(self).state),
            crate::session::extends(old(eff).outgoing@, final(eff).outgoing@),
            crate::session::extends_alarms(old(eff).alarms@, final(eff).alarms@),
            old(self).state == SlideState::Unstarted && old(self).config.introduce_question > 0
                ==> final(self).state == SlideState::Question && final(self).answer_start == old(self).answer_start && crate::session::appended_update(
                old(eff).outgoing@,
                final(eff).outgoing@,
                watchers.ordered_ids().filter(|id: Id| connected@.contains(id)),
                crate::UpdateMessage::MultipleChoice(
                    (UpdateMessage::QuestionAnnouncement {
                        index,
                        count,
                        question: old(self).config.title,
                        media: old(self).config.media,
                        duration: old(self).config.introduce_question,
                    }),
                ),
            ) && final(eff).alarms@ == old(eff).alarms@.push(
                crate::session::ScheduleRequest {
                    alarm: crate::AlarmMessage::MultipleChoice(
                        AlarmMessage::ProceedFromSlideIntoSlide {
                            index,
                            to: SlideState::Answers,
                        },
                    ),
                    delay: old(self).config.introduce_question,
                },
            ),
            old(self).state == SlideState::Unstarted && old(self).config.introduce_question == 0
                ==> final(self).state == SlideState::Answers && final(self).answer_start == Some(
                now,
            ) && {
                let live = watchers.ordered_ids().filter(|id: Id| connected@.contains(id));
                &&& final(eff).outgoing@.len() == old(eff).outgoing@.len() + 1 + live.len()
                &&& final(eff).outgoing@.take(old(eff).outgoing@.len() as int) == old(
                    eff,
                ).outgoing@
                &&& (final(eff).outgoing@[old(eff).outgoing@.len() as int] matches crate::session::Outgoing::Update {
                    to,
                    message: crate::UpdateMessage::MultipleChoice(
                        UpdateMessage::QuestionAnnouncement {
                            index: qi,
                            count: qc,
                            question,
                            media,
                            duration,
                        },
                    ),
                } && to@ == live && qi == index && qc == count && question == old(
                    self,
                ).config.title && media == old(self).config.media && duration == old(
                    self,
                ).config.introduce_question)
                &&& answers_broadcast_ok(
                    final(eff).outgoing@.take(old(eff).outgoing@.len() as int + 1),
                    final(eff).outgoing@,
                    live,
                    old(self).config,
                )
                &&& final(eff).alarms@ == old(eff).alarms@.push(
                    crate::session::ScheduleRequest {
                        alarm: crate::AlarmMessage::MultipleChoice(
                            AlarmMessage::ProceedFromSlideIntoSlide {
                                index,
                                to: SlideState::AnswersResults,
                            },
                        ),
                        delay: old(self).config.time_limit,
                    },
                )
            },
            old(self).state != SlideState::Unstarted ==> *final(self) == *old(self) && *final(eff)
                == *old(eff),
    {
        self.send_question_announcements(team_manager, watchers, connected, eff, now, index, count);
    }

    /// Announce the question to every live watcher; with a zero
    /// introduction, release the answers immediately.
    fn send_question_announcements(
        &mut self,
        team_manager: Option<&crate::teams::TeamManager>,
        watchers: &Watchers,
        connected: &IdSet,
        eff: &mut Effects,
        now: u64,
        index: usize,
        count: usize,
    )
        requires
            state_wf(*old(self)),
            watchers.wf(),
            connected.wf(),
            (team_manager matches Some(tm) ==> tm.wf()),
        ensures
            state_wf(*final(self)),
            final(self).config == old(self).config,
            final(self).user_answers == old(self).user_answers,
            phase_index(final(self).state) >= phase_index(old(self).state),
            crate::session::extends(old(eff).outgoing@, final(eff).outgoing@),
            crate::session::extends_alarms(old(eff).alarms@, final(eff).alarms@),
            old(self).state == SlideState::Unstarted && old(self).config.introduce_question > 0
                ==> final(self).state == SlideState::Question && final(self).answer_start == old(self).answer_start && crate::session::appended_update(
                old(eff).outgoing@,
                final(eff).outgoing@,
                watchers.ordered_ids().filter(|id: Id| connected@.contains(id)),
                crate::UpdateMessage::MultipleChoice(
                    (UpdateMessage::QuestionAnnouncement {
                        index,
                        count,
                        question: old(self).config.title,
                        media: old(self).config.media,
                        duration: old(self).config.introduce_question,
                    }),
                ),
            ) && final(eff).alarms@ == old(eff).alarms@.push(
                crate::session::ScheduleRequest {
                    alarm: crate::AlarmMessage::MultipleChoice(
                        AlarmMessage::ProceedFromSlideIntoSlide {
                            index,
                            to: SlideState::Answers,
                        },
                    ),
                    delay: old(self).config.introduce_question,
                },
            ),
            old(self).state == SlideState::Unstarted && old(self).config.introduce_question == 0
                ==> final(self).state == SlideState::Answers && final(self).answer_start == Some(
                now,
            ) && {
                let live = watchers.ordered_ids().filter(|id: Id| connected@.contains(id));
                &&& final(eff).outgoing@.len() == old(eff).outgoing@.len() + 1 + live.len()
                &&& final(eff).outgoing@.take(old(eff).outgoing@.len() as int) == old(
                    eff,
                ).outgoing@
                &&& (final(eff).outgoing@[old(eff).outgoing@.len() as int] matches crate::session::Outgoing::Update {
                    to,
                    message: crate::UpdateMessage::MultipleChoice(
                        UpdateMessage::QuestionAnnouncement {
                            index: qi,
                            count: qc,
                            question,
                            media,
                            duration,
                        },
                    ),
                } && to@ == live && qi == index && qc == count && question == old(
                    self,
                ).config.title && media == old(self).config.media && duration == old(
                    self,
                ).config.introduce_question)
                &&& answers_broadcast_ok(
                    final(eff).outgoing@.take(old(eff).outgoing@.len() as int + 1),
                    final(eff).outgoing@,
                    live,
                    old(self).config,
                )
                &&& final(eff).alarms@ == old(eff).alarms@.push(
                    crate::session::ScheduleRequest {
                        alarm: crate::AlarmMessage::MultipleChoice(
                            AlarmMessage::ProceedFromSlideIntoSlide {
                                index,
                                to: SlideState::AnswersResults,
                            },
                        ),
                        delay: old(self).config.time_limit,
                    },
                )
            },
            old(self).state != SlideState::Unstarted ==> *final(self) == *old(self) && *final(eff)
                == *old(eff),
    {
        if self.change_state(SlideState::Unstarted, SlideState::Question) {
            let question = crate::UpdateMessage::MultipleChoice(
                UpdateMessage::QuestionAnnouncement {
                    index,
                    count,
                    question: self.config.title.clone(),
                    media: crate::media::clone_media_option(&self.config.media),
                    duration: self.config.introduce_question,
                },
            );
            let live = watchers.live_ids_vec(connected);
            eff.send_to(live, question);
            if self.config.introduce_question == 0 {
                let ghost mid = eff.outgoing@;
                self.send_answers_announcements(team_manager, watchers, connected, eff, now, index);
                proof {
                    assert(eff.outgoing@.take(mid.len() as int) =~= mid);
                    assert(eff.outgoing@.take(old(eff).outgoing@.len() as int) =~= old(
                        eff,
                    ).outgoing@);
                }
            } else {
                eff.schedule(
                    crate::AlarmMessage::MultipleChoice(
                        AlarmMessage::ProceedFromSlideIntoSlide {
                            index,
                            to: SlideState::Answers,
                        },
                    ),
                    self.config.introduce_question,
                );
            }
        }
    }

    /// Release the answers: start the submission timer, send each live
    /// watcher their visibility of the choices, and schedule the results.
    fn send_answers_announcements(
        &mut self,
        team_manager: Option<&crate::teams::TeamManager>,
        watchers: &Watchers,
        connected: &IdSet,
        eff: &mut Effects,
        now: u64,
        index: usize,
    )
        requires
            state_wf(*old(self)),
            watchers.wf(),
            connected.wf(),
            (team_manager matches Some(tm) ==> tm.wf()),
        ensures
            state_wf(*final(self)),
            final(self).config == old(self).config,
            final(self).user_answers == old(self).user_answers,
            phase_index(final(self).state) >= phase_index(old(self).state),
            crate::session::extends(old(eff).outgoing@, final(eff).outgoing@),
            crate::session::extends_alarms(old(eff).alarms@, final(eff).alarms@),
            old(self).state == SlideState::Question ==> final(self).state == SlideState::Answers
                && final(self).answer_start == Some(now) && answers_broadcast_ok(
                old(eff).outgoing@,
                final(eff).outgoing@,
                watchers.ordered_ids().filter(|id: Id| connected@.contains(id)),
                old(self).config,
            ) && final(eff).alarms@ == old(eff).alarms@.push(
                crate::session::ScheduleRequest {
                    alarm: crate::AlarmMessage::MultipleChoice(
                        AlarmMessage::ProceedFromSlideIntoSlide {
                            index,
                            to: SlideState::AnswersResults,
                        },
                    ),
                    delay: old(self).config.time_limit,
                },
            ),
            old(self).state != SlideState::Question ==> *final(self) == *old(self) && *final(eff)
                == *old(eff),
    {
        if self.change_state(SlideState::Question, SlideState::Answers) {
            self.answer_start = Some(now);
            let live = watchers.live_ids_vec(connected);
            let is_team = team_manager.is_some();
            let mut k: usize = 0;
            let ghost pre = eff.outgoing@;
            while k < live.len()
                invariant
                    0 <= k <= live@.len(),
                    state_wf(*self),
                    self.config == old(self).config,
                    answers_broadcast_ok(pre, eff.outgoing@, live@.take(k as int), self.config),
                    eff.alarms@ == old(eff).alarms@,
                    watchers.wf(),
                    connected.wf(),
                    (team_manager matches Some(tm) ==> tm.wf()),
                decreases live@.len() - k,
            {
                let id = live[k];
                let kind = match watchers.get_watcher_value(id) {
                    Some(v) => v.kind(),
                    None => crate::watcher::ValueKind::Unassigned,
                };
                let (team_size, team_index) = match team_manager {
                    Some(tm) => {
                        let size = match tm.alive_members_count(id, connected) {
                            Some(n) => {
                                if n == 0 {
                                    1
                                } else {
                                    n
                                }
                            },
                            None => 1,
                        };
                        let idx = match tm.team_index(id, watchers) {
                            Some(i) => i,
                            None => 0,
                        };
                        (size, idx)
                    },
                    None => (1, 0),
                };
                let answers = self.get_answers_for_player(kind, team_size, team_index, is_team);
                let ghost before_push = eff.outgoing@;
                eff.send(
                    id,
                    crate::UpdateMessage::MultipleChoice(
                        UpdateMessage::AnswersAnnouncement {
                            duration: self.config.time_limit,
                            answers,
                        },
                    ),
                );
                proof {
                    assert(live@.take(k + 1).drop_last() =~= live@.take(k as int));
                    assert forall|k2: int|
                        0 <= k2 < k + 1 implies (#[trigger] eff.outgoing@[pre.len() + k2]
                        matches crate::session::Outgoing::Update { to, message } && (to@ == seq![
                        live@.take(k + 1)[k2],
                    ] && (message matches crate::UpdateMessage::MultipleChoice(
                        UpdateMessage::AnswersAnnouncement { duration, answers },
                    ) && duration == self.config.time_limit))) by {
                        if k2 < k {
                            assert(eff.outgoing@[pre.len() + k2] == before_push[pre.len() + k2]);
                        } else {
                            assert(eff.outgoing@[pre.len() + k2] == eff.outgoing@.last());
                        }
                    }
                }
                k += 1;
            }
            proof {
                assert(live@.take(live@.len() as int) =~= live@);
            }
            eff.schedule(
                crate::AlarmMessage::MultipleChoice(
                    AlarmMessage::ProceedFromSlideIntoSlide {
                        index,
                        to: SlideState::AnswersResults,
                    },
                ),
                self.config.time_limit,
            );
        }
    }

    /// Reveal the results: the answer contents with per-choice correctness
    /// and pick counts, to every live watcher.
    fn send_answers_results(&mut self, watchers: &Watchers, connected: &IdSet, eff: &mut Effects)
        requires
            state_wf(*old(self)),
            watchers.wf(),
            connected.wf(),
        ensures
            state_wf(*final(self)),
            final(self).config == old(self).config,
            final(self).user_answers == old(self).user_answers,
            final(self).answer_start == old(self).answer_start,
            phase_index(final(self).state) >= phase_index(old(self).state),
            crate::session::extends(old(eff).outgoing@, final(eff).outgoing@),
            final(eff).alarms@ == old(eff).alarms@,
            old(self).state == SlideState::Answers ==> final(self).state
                == SlideState::AnswersResults && final(eff).outgoing@.len() == old(eff).outgoing@.len() + 1 && final(eff).outgoing@.take(old(eff).outgoing@.len() as int)
                == old(eff).outgoing@ && (final(eff).outgoing@.last() matches crate::session::Outgoing::Update {
                to,
                message: crate::UpdateMessage::MultipleChoice(m),
            } && to@ == watchers.ordered_ids().filter(|id: Id| connected@.contains(id))
                && results_payload_ok(*old(self), m)),
            old(self).state != SlideState::Answers ==> *final(self) == *old(self) && *final(eff)
                == *old(eff),
    {
        if self.change_state(SlideState::Answers, SlideState::AnswersResults) {
            let msg = self.results_message();
            proof {
                assert(results_payload_ok(*old(self), msg));
            }
            let live = watchers.live_ids_vec(connected);
            eff.send_to(live, crate::UpdateMessage::MultipleChoice(msg));
        }
    }

    /// The results payload: every answer's content, with per-choice
    /// correctness and the number of players that picked it.
    #[verifier::loop_isolation(false)]
    fn results_message(&self) -> (r: UpdateMessage)
        requires
            self.user_answers.wf(),
        ensures
            r is AnswersResults,
            results_payload_ok(*self, r),
    {
        let n = self.config.answers.len();
        let mut answers: Vec<TextOrMedia> = Vec::new();
        let mut results: Vec<AnswerChoiceResult> = Vec::new();
        let mut i: usize = 0;
        while i < n
            invariant
                0 <= i <= n,
                n == self.config.answers@.len(),
                self.user_answers.wf(),
                answers@.len() == i,
                results@.len() == i,
                forall|k: int|
                    0 <= k < i ==> (#[trigger] answers@[k]) == self.config.answers@[k].content,
                forall|k: int|
                    0 <= k < i ==> (#[trigger] results@[k]).correct
                        == self.config.answers@[k].correct,
                forall|k: int|
                    0 <= k < i ==> (#[trigger] results@[k]).count as int == spec_pick_count_before(
                        self.user_answers.entry_seq(),
                        k,
                        self.user_answers.entry_seq().len() as int,
                    ),
            decreases n - i,
        {
            let mut count: usize = 0;
            let mut j: usize = 0;
            let total = self.user_answers.len();
            while j < total
                invariant
                    0 <= j <= total,
                    total == self.user_answers.entry_seq().len(),
                    self.user_answers.wf(),
                    i < n && n == self.config.answers@.len(),
                    count <= j,
                    count as int == spec_pick_count_before(
                        self.user_answers.entry_seq(),
                        i as int,
                        j as int,
                    ),
                decreases total - j,
            {
                if self.user_answers.entry_at(j).1.0 == i {
                    count += 1;
                }
                j += 1;
            }
            answers.push(self.config.answers[i].content.clone_value());
            results.push(AnswerChoiceResult { correct: self.config.answers[i].correct, count });
            i += 1;
        }
        UpdateMessage::AnswersResults { answers, results }
    }

    /// Score the slide and push the per-player deltas to the leaderboard.
    ///
    /// In a solo game each submitter earns the scoring law's points and every
    /// other connected player is recorded with zero. In a team game each
    /// team earns the minimum of its submitters' points, and teams without
    /// submitters are recorded with zero.
    #[verifier::loop_isolation(false)]
    #[verifier::rlimit(60)]
    pub fn add_scores(
        &self,
        leaderboard: &mut crate::leaderboard::Leaderboard,
        watchers: &Watchers,
        team_manager: Option<&crate::teams::TeamManager>,
        connected: &IdSet,
        now: u64,
    )
        requires
            state_wf(*self),
            old(leaderboard).wf(),
            watchers.wf(),
            connected.wf(),
            (team_manager matches Some(tm) ==> tm.wf()),
        ensures
            final(leaderboard).wf(),
            final(leaderboard).history().len() == old(leaderboard).history().len() + 1,
            final(leaderboard).spec_summary() == old(leaderboard).spec_summary(),
            final(leaderboard).history().drop_last() == old(leaderboard).history(),
            team_manager is None ==> final(leaderboard).history() == old(leaderboard).history().push(
                spec_solo_deltas(
                    *self,
                    if self.answer_start is Some {
                        self.answer_start->Some_0
                    } else {
                        now
                    },
                    watchers.spec_alive_players(connected@),
                ),
            ),
            (team_manager matches Some(tm) ==> crate::teams::team_deltas_ok(
                final(leaderboard).history().last(),
                spec_solo_deltas(
                    *self,
                    if self.answer_start is Some {
                        self.answer_start->Some_0
                    } else {
                        now
                    },
                    watchers.spec_alive_players(connected@),
                ),
                *tm,
            )),
    {
        broadcast use Seq::lemma_filter_push;

        let start = match self.answer_start {
            Some(s) => s,
            None => now,
        };
        let mut deltas: Vec<(Id, u64)> = Vec::new();
        let total = self.user_answers.len();
        let mut i: usize = 0;
        while i < total
            invariant
                0 <= i <= total,
                total == self.user_answers.entry_seq().len(),
                state_wf(*self),
                deltas@ == self.user_answers.entry_seq().take(i as int).map_values(
                    |e: (Id, (usize, u64))| (e.0, spec_answer_points(self.config, e.1, start) as u64),
                ),
            decreases total - i,
        {
            let entry = self.user_answers.entry_at(i);
            let id = entry.0;
            let ans = entry.1.0;
            let submitted = entry.1.1;
            let correct = ans < self.config.answers.len() && self.config.answers[ans].correct;
            let points: u64 = if correct {
                let taken = if submitted >= start {
                    submitted - start
                } else {
                    0
                };
                calculate_score_for(self.config.time_limit, taken, self.config.points_awarded)
            } else {
                0
            };
            deltas.push((id, points));
            proof {
                let f = |e: (Id, (usize, u64))|
                    (e.0, spec_answer_points(self.config, e.1, start) as u64);
                let es = self.user_answers.entry_seq();
                assert(es.take(i + 1).drop_last() =~= es.take(i as int));
                assert(es.take(i + 1).map_values(f) =~= es.take(i as int).map_values(f).push(
                    f(es[i as int]),
                ));
                assert(deltas@ =~= es.take(i + 1).map_values(f));
            }
            i += 1;
        }
        proof {
            let es = self.user_answers.entry_seq();
            assert(es.take(es.len() as int) =~= es);
        }
        // Connected players without a submission are recorded with zero, so
        // every leaderboard total stays accurate and, in a team game, a team
        // with an absent member earns nothing.
        let alive = watchers.alive_players_vec(connected);
        let ghost base = deltas@;
        let mut i: usize = 0;
        while i < alive.len()
            invariant
                0 <= i <= alive@.len(),
                alive@ == watchers.spec_alive_players(connected@),
                state_wf(*self),
                deltas@ == base + alive@.take(i as int).filter(
                    |id: Id| !self.user_answers@.contains_key(id),
                ).map_values(|id: Id| (id, 0u64)),
            decreases alive@.len() - i,
        {
            let id = alive[i];
            proof {
                let pred = |id2: Id| !self.user_answers@.contains_key(id2);
                let f = |id2: Id| (id2, 0u64);
                assert(alive@.take(i + 1).drop_last() =~= alive@.take(i as int));
                assert(alive@.take(i as int).push(id) =~= alive@.take(i + 1));
                if pred(id) {
                    assert(alive@.take(i + 1).filter(pred).map_values(f) =~= alive@.take(
                        i as int,
                    ).filter(pred).map_values(f).push(f(id)));
                } else {
                    assert(alive@.take(i + 1).filter(pred).map_values(f) =~= alive@.take(
                        i as int,
                    ).filter(pred).map_values(f));
                }
            }
            if !self.user_answers.contains_key(id) {
                deltas.push((id, 0));
            }
            i += 1;
        }
        proof {
            assert(alive@.take(alive@.len() as int) =~= alive@);
            assert(deltas@ =~= spec_solo_deltas(
                *self,
                start,
                watchers.spec_alive_players(connected@),
            ));
        }
        match team_manager {
            Some(tm) => {
                let row = crate::teams::group_team_deltas(tm, &deltas);
                leaderboard.add_scores(&row);
                proof {
                    assert(leaderboard.history().drop_last() =~= old(leaderboard).history());
                }
            },
            None => {
                leaderboard.add_scores(&deltas);
                proof {
                    assert(leaderboard.history().drop_last() =~= old(leaderboard).history());
                }
            },
        }
    }

    /// How many connected players have submitted.
    #[verifier::loop_isolation(false)]
    fn answered_count(&self, watchers: &Watchers, connected: &IdSet) -> (r: usize)
        requires
            self.user_answers.wf(),
            watchers.wf(),
            connected.wf(),
        ensures
            r == watchers.spec_alive_players(connected@).filter(
                |id: Id| self.user_answers@.contains_key(id),
            ).len(),
    {
        broadcast use Seq::lemma_filter_push;

        let alive = watchers.alive_players_vec(connected);
        let mut count: usize = 0;
        let mut i: usize = 0;
        while i < alive.len()
            invariant
                0 <= i <= alive@.len(),
                alive@ == watchers.spec_alive_players(connected@),
                self.user_answers.wf(),
                count == alive@.take(i as int).filter(
                    |id: Id| self.user_answers@.contains_key(id),
                ).len(),
            decreases alive@.len() - i,
        {
            let id = alive[i];
            proof {
                assert(alive@.take(i + 1).drop_last() =~= alive@.take(i as int));
                assert(alive@.take(i as int).push(id) =~= alive@.take(i + 1));
            }
            if self.user_answers.contains_key(id) {
                count += 1;
            }
            i += 1;
        }
        proof {
            assert(alive@.take(alive@.len() as int) =~= alive@);
        }
        count
    }

    /// Whether every connected player has submitted.
    #[verifier::loop_isolation(false)]
    fn all_answered(&self, watchers: &Watchers, connected: &IdSet) -> (r: bool)
        requires
            self.user_answers.wf(),
            watchers.wf(),
            connected.wf(),
        ensures
            r == forall|i: int|
                0 <= i < watchers.spec_alive_players(connected@).len()
                    ==> self.user_answers@.contains_key(
                    #[trigger] watchers.spec_alive_players(connected@)[i],
                ),
    {
        let alive = watchers.alive_players_vec(connected);
        let mut i: usize = 0;
        while i < alive.len()
            invariant
                0 <= i <= alive@.len(),
                alive@ == watchers.spec_alive_players(connected@),
                self.user_answers.wf(),
                forall|j: int|
                    0 <= j < i ==> self.user_answers@.contains_key(#[trigger] alive@[j]),
            decreases alive@.len() - i,
        {
            if !self.user_answers.contains_key(alive[i]) {
                return false;
            }
            i += 1;
        }
        true
    }
}


impl State {
    /// Handle one incoming message: the host advances the phase, players
    /// submit answer indices. Returns whether the slide just completed
    /// (scores pushed to the leaderboard).
    #[verifier::rlimit(60)]
    pub fn receive_message(
        &mut self,
        watcher_id: Id,
        message: &crate::game::IncomingMessage,
        leaderboard: &mut crate::leaderboard::Leaderboard,
        watchers: &Watchers,
        team_manager: Option<&crate::teams::TeamManager>,
        connected: &IdSet,
        eff: &mut Effects,
        now: u64,
        index: usize,
        count: usize,
    ) -> (r: bool)
        requires
            state_wf(*old(self)),
            old(leaderboard).wf(),
            watchers.wf(),
            connected.wf(),
            (team_manager matches Some(tm) ==> tm.wf()),
        ensures
            state_wf(*final(self)),
            final(leaderboard).wf(),
            final(self).config == old(self).config,
            phase_index(final(self).state) >= phase_index(old(self).state),
            crate::session::extends(old(eff).outgoing@, final(eff).outgoing@),
            crate::session::extends_alarms(old(eff).alarms@, final(eff).alarms@),
            r == (message matches crate::game::IncomingMessage::Host(
                crate::game::IncomingHostMessage::Next,
            ) && old(self).state == SlideState::AnswersResults),
            r ==> final(leaderboard).history().len() == old(leaderboard).history().len() + 1,
            !r ==> *final(leaderboard) == *old(leaderboard),
            r ==> final(leaderboard).history().drop_last() == old(leaderboard).history(),
            (r && team_manager is None) ==> final(leaderboard).history().last()
                == spec_solo_deltas(
                *old(self),
                if old(self).answer_start is Some {
                    old(self).answer_start->Some_0
                } else {
                    now
                },
                watchers.spec_alive_players(connected@),
            ),
            r ==> (team_manager matches Some(tm) ==> crate::teams::team_deltas_ok(
                final(leaderboard).history().last(),
                spec_solo_deltas(
                    *old(self),
                    if old(self).answer_start is Some {
                        old(self).answer_start->Some_0
                    } else {
                        now
                    },
                    watchers.spec_alive_players(connected@),
                ),
                *tm,
            )),
            (message matches crate::game::IncomingMessage::Host(
                crate::game::IncomingHostMessage::Next,
            )) ==> {
                &&& (old(self).state == SlideState::Unstarted && old(self).config.introduce_question > 0 ==> final(self).state == SlideState::Question)
                &&& (old(self).state == SlideState::Unstarted && old(self).config.introduce_question == 0 ==> final(self).state == SlideState::Answers)
                &&& (old(self).state == SlideState::Question ==> final(self).state
                    == SlideState::Answers && final(self).answer_start == Some(now))
                &&& (old(self).state == SlideState::Answers ==> final(self).state
                    == SlideState::AnswersResults)
                &&& (old(self).state == SlideState::AnswersResults ==> final(self).state == old(self).state)
            },
            forall|v: usize|
                *message == crate::game::IncomingMessage::Player(
                    crate::game::IncomingPlayerMessage::IndexAnswer(v),
                ) && v < old(self).config.answers@.len() ==> final(self).user_answers@ == old(self).user_answers@.insert(watcher_id, (v, now)),
            forall|v: usize|
                *message == crate::game::IncomingMessage::Player(
                    crate::game::IncomingPlayerMessage::IndexAnswer(v),
                ) && v < old(self).config.answers@.len() ==> {
                    let subs = old(self).user_answers@.insert(watcher_id, (v, now));
                    let alive = watchers.spec_alive_players(connected@);
                    &&& ((old(self).state == SlideState::Answers && (forall|i: int|
                        0 <= i < alive.len() ==> subs.contains_key(#[trigger] alive[i])))
                        ==> final(self).state == SlideState::AnswersResults)
                    &&& (!(old(self).state == SlideState::Answers && (forall|i: int|
                        0 <= i < alive.len() ==> subs.contains_key(#[trigger] alive[i])))
                        ==> final(self).state == old(self).state)
                    &&& ((old(self).state == SlideState::Answers && (forall|i: int|
                        0 <= i < alive.len() ==> subs.contains_key(#[trigger] alive[i]))) ==> {
                        &&& final(eff).outgoing@.len() == old(eff).outgoing@.len() + 1
                        &&& final(eff).outgoing@.take(old(eff).outgoing@.len() as int) == old(
                            eff,
                        ).outgoing@
                        &&& (final(eff).outgoing@.last() matches crate::session::Outgoing::Update {
                            to,
                            message: crate::UpdateMessage::MultipleChoice(m),
                        } && to@ == watchers.ordered_ids().filter(
                            |id: Id| connected@.contains(id),
                        ) && results_payload_ok(*final(self), m))
                        &&& final(eff).alarms@ == old(eff).alarms@
                    })
                },
            forall|v: usize|
                *message == crate::game::IncomingMessage::Player(
                    crate::game::IncomingPlayerMessage::IndexAnswer(v),
                ) && v < old(self).config.answers@.len() ==> {
                    let subs = old(self).user_answers@.insert(watcher_id, (v, now));
                    let alive = watchers.spec_alive_players(connected@);
                    !(forall|i: int| 0 <= i < alive.len() ==> subs.contains_key(
                        #[trigger] alive[i],
                    )) ==> {
                        &&& final(eff).outgoing@.len() == old(eff).outgoing@.len() + 1
                        &&& final(eff).outgoing@.take(old(eff).outgoing@.len() as int) == old(eff).outgoing@
                        &&& (final(eff).outgoing@.last() matches crate::session::Outgoing::Update {
                            to,
                            message: crate::UpdateMessage::MultipleChoice(
                                UpdateMessage::AnswersCount(c),
                            ),
                        } && to@ == watchers.kind_bucket(crate::watcher::ValueKind::Host).filter(
                            |id: Id| connected@.contains(id),
                        ) && c == alive.filter(|id: Id| subs.contains_key(id)).len())
                        &&& final(eff).alarms@ == old(eff).alarms@
                    }
                },
            forall|v: usize|
                *message == crate::game::IncomingMessage::Player(
                    crate::game::IncomingPlayerMessage::IndexAnswer(v),
                ) && v >= old(self).config.answers@.len() ==> *final(self) == *old(self)
                    && *final(eff) == *old(eff),
            (!(message matches crate::game::IncomingMessage::Host(
                crate::game::IncomingHostMessage::Next,
            )) && !(message matches crate::game::IncomingMessage::Player(
                crate::game::IncomingPlayerMessage::IndexAnswer(_),
            ))) ==> *final(self) == *old(self) && *final(eff) == *old(eff),
            (message matches crate::game::IncomingMessage::Host(
                crate::game::IncomingHostMessage::Next,
            ) && old(self).state == SlideState::AnswersResults) ==> final(self).state == old(self).state && final(self).user_answers == old(self).user_answers && *final(eff)
                == *old(eff),
    {
        match message {
            crate::game::IncomingMessage::Host(crate::game::IncomingHostMessage::Next) => {
                match self.state {
                    SlideState::Unstarted => {
                        self.send_question_announcements(
                            team_manager,
                            watchers,
                            connected,
                            eff,
                            now,
                            index,
                            count,
                        );
                        false
                    },
                    SlideState::Question => {
                        self.send_answers_announcements(
                            team_manager,
                            watchers,
                            connected,
                            eff,
                            now,
                            index,
                        );
                        false
                    },
                    SlideState::Answers => {
                        self.send_answers_results(watchers, connected, eff);
                        false
                    },
                    SlideState::AnswersResults => {
                        self.add_scores(leaderboard, watchers, team_manager, connected, now);
                        true
                    },
                }
            },
            crate::game::IncomingMessage::Player(
                crate::game::IncomingPlayerMessage::IndexAnswer(v),
            ) => {
                if *v < self.config.answers.len() {
                    self.user_answers.insert(watcher_id, (*v, now));
                    if self.all_answered(watchers, connected) {
                        self.send_answers_results(watchers, connected, eff);
                    } else {
                        let count_answered = self.answered_count(watchers, connected);
                        let hosts = watchers.specific_ids_vec(crate::watcher::ValueKind::Host);
                        let mut live_hosts: Vec<Id> = Vec::new();
                        let mut i: usize = 0;
                        proof {
                            broadcast use Seq::lemma_filter_push;

                        }
                        while i < hosts.len()
                            invariant
                                0 <= i <= hosts@.len(),
                                hosts@ == watchers.kind_bucket(crate::watcher::ValueKind::Host),
                                live_hosts@ == hosts@.take(i as int).filter(
                                    |id: Id| connected@.contains(id),
                                ),
                            decreases hosts@.len() - i,
                        {
                            proof {
                                broadcast use Seq::lemma_filter_push;

                                assert(hosts@.take(i + 1) =~= hosts@.take(i as int).push(
                                    hosts@[i as int],
                                ));
                            }
                            if connected.contains(hosts[i]) {
                                live_hosts.push(hosts[i]);
                            }
                            i += 1;
                        }
                        proof {
                            assert(hosts@.take(hosts@.len() as int) =~= hosts@);
                        }
                        eff.send_to(
                            live_hosts,
                            crate::UpdateMessage::MultipleChoice(
                                UpdateMessage::AnswersCount(count_answered),
                            ),
                        );
                    }
                }
                false
            },
            _ => false,
        }
    }

    /// Handle an alarm: perform the transition it names, if the slide has
    /// not moved past it already.
    pub fn receive_alarm(
        &mut self,
        leaderboard: &mut crate::leaderboard::Leaderboard,
        watchers: &Watchers,
        team_manager: Option<&crate::teams::TeamManager>,
        connected: &IdSet,
        eff: &mut Effects,
        message: &crate::AlarmMessage,
        now: u64,
        index: usize,
    ) -> (r: bool)
        requires
            state_wf(*old(self)),
            old(leaderboard).wf(),
            watchers.wf(),
            connected.wf(),
            (team_manager matches Some(tm) ==> tm.wf()),
        ensures
            state_wf(*final(self)),
            final(leaderboard).wf(),
            *final(leaderboard) == *old(leaderboard),
            final(self).config == old(self).config,
            final(self).user_answers == old(self).user_answers,
            phase_index(final(self).state) >= phase_index(old(self).state),
            crate::session::extends(old(eff).outgoing@, final(eff).outgoing@),
            crate::session::extends_alarms(old(eff).alarms@, final(eff).alarms@),
            r == false,
            *message matches crate::AlarmMessage::MultipleChoice(
                AlarmMessage::ProceedFromSlideIntoSlide { index: _, to },
            ) ==> {
                &&& (to == SlideState::Answers && old(self).state == SlideState::Question
                    ==> final(self).state == SlideState::Answers && final(self).answer_start
                        == Some(now))
                &&& (to == SlideState::Answers && old(self).state != SlideState::Question
                    ==> *final(self) == *old(self) && *final(eff) == *old(eff))
                &&& (to == SlideState::AnswersResults && old(self).state == SlideState::Answers
                    ==> final(self).state == SlideState::AnswersResults)
                &&& (to == SlideState::AnswersResults && old(self).state != SlideState::Answers
                    ==> *final(self) == *old(self) && *final(eff) == *old(eff))
                &&& ((to == SlideState::Unstarted || to == SlideState::Question) ==> *final(self)
                    == *old(self) && *final(eff) == *old(eff))
            },
            (!(message matches crate::AlarmMessage::MultipleChoice(_))) ==> *final(self) == *old(self) && *final(eff) == *old(eff),
    {
        match message {
            crate::AlarmMessage::MultipleChoice(
                AlarmMessage::ProceedFromSlideIntoSlide { index: _, to },
            ) => {
                match to {
                    SlideState::Answers => {
                        self.send_answers_announcements(
                            team_manager,
                            watchers,
                            connected,
                            eff,
                            now,
                            index,
                        );
                    },
                    SlideState::AnswersResults => {
                        self.send_answers_results(watchers, connected, eff);
                    },
                    _ => {},
                }
            },
            _ => {},
        }
        false
    }

    /// The full-state message a late joiner or reconnect receives,
    /// reflecting the current phase and the remaining time.
    pub fn state_message(
        &self,
        watcher_id: Id,
        watcher_kind: crate::watcher::ValueKind,
        team_manager: Option<&crate::teams::TeamManager>,
        watchers: &Watchers,
        connected: &IdSet,
        now: u64,
        index: usize,
        count: usize,
    ) -> (r: SyncMessage)
        requires
            state_wf(*self),
            watchers.wf(),
            connected.wf(),
            (team_manager matches Some(tm) ==> tm.wf()),
        ensures
            (self.state == SlideState::Unstarted || self.state == SlideState::Question) ==> (
            r matches SyncMessage::QuestionAnnouncement { index: i, count: c, question, duration, .. }
                && i == index && c == count && question == self.config.title && duration
                == crate::spec_remaining(
                self.config.introduce_question,
                self.answer_start,
                now,
            )),
            self.state == SlideState::Answers ==> (r matches SyncMessage::AnswersAnnouncement {
                index: i,
                count: c,
                question,
                duration,
                answered_count,
                ..
            } && i == index && c == count && question == self.config.title && duration
                == crate::spec_remaining(self.config.time_limit, self.answer_start, now)
                && answered_count == watchers.spec_alive_players(connected@).filter(
                |id: Id| self.user_answers@.contains_key(id),
            ).len()),
            self.state == SlideState::AnswersResults ==> (r matches SyncMessage::AnswersResults {
                index: i,
                count: c,
                question,
                answers: ans,
                results: rs,
                ..
            } && i == index && c == count && question == self.config.title
                && results_payload_ok(
                *self,
                (UpdateMessage::AnswersResults { answers: ans, results: rs }),
            )),
    {
        let start = match self.answer_start {
            Some(s) => s,
            None => now,
        };
        let elapsed = if now >= start {
            now - start
        } else {
            0
        };
        match self.state {
            SlideState::Unstarted | SlideState::Question => SyncMessage::QuestionAnnouncement {
                index,
                count,
                question: self.config.title.clone(),
                media: crate::media::clone_media_option(&self.config.media),
                duration: if self.config.introduce_question >= elapsed {
                    self.config.introduce_question - elapsed
                } else {
                    0
                },
            },
            SlideState::Answers => {
                let is_team = team_manager.is_some();
                let (team_size, team_index) = match team_manager {
                    Some(tm) => {
                        let size = match tm.alive_members_count(watcher_id, connected) {
                            Some(n) => {
                                if n == 0 {
                                    1
                                } else {
                                    n
                                }
                            },
                            None => 1,
                        };
                        let idx = match tm.team_index(watcher_id, watchers) {
                            Some(i) => i,
                            None => 0,
                        };
                        (size, idx)
                    },
                    None => (1, 0),
                };
                SyncMessage::AnswersAnnouncement {
                    index,
                    count,
                    question: self.config.title.clone(),
                    media: crate::media::clone_media_option(&self.config.media),
                    duration: if self.config.time_limit >= elapsed {
                        self.config.time_limit - elapsed
                    } else {
                        0
                    },
                    answers: self.get_answers_for_player(
                        watcher_kind,
                        team_size,
                        team_index,
                        is_team,
                    ),
                    answered_count: self.answered_count(watchers, connected),
                }
            },
            SlideState::AnswersResults => {
                let msg = self.results_message();
                match msg {
                    UpdateMessage::AnswersResults { answers, results } => {
                        SyncMessage::AnswersResults {
                            index,
                            count,
                            question: self.config.title.clone(),
                            media: crate::media::clone_media_option(&self.config.media),
                            answers,
                            results,
                        }
                    },
                    _ => {
                        proof {
                            // Unreachable: the payload is always a results
                            // message here.
                            assert(false);
                        }
                        SyncMessage::AnswersResults {
                            index,
                            count,
                            question: self.config.title.clone(),
                            media: crate::media::clone_media_option(&self.config.media),
                            answers: Vec::new(),
                            results: Vec::new(),
                        }
                    },
                }
            },
        }
    }
}

} // verus!
