//! The order slide engine: the correct answer is an ordering of strings.
//! Players receive the items shuffled and submit the order they believe is
//! right; a submission is correct only when it matches element for element.

use vstd::prelude::*;

use crate::media::Media;
use crate::session::Effects;
use crate::store::{IdMap, IdSet};
use crate::watcher::{Id, Watchers};

verus! {

/// Phase of the slide. Phases only ever move forward.
#[derive(Debug, Clone, Copy, PartialEq, Eq, Structural)]
pub enum SlideState {
    /// Not yet begun; treated like `Question` once the slide starts.
    Unstarted,
    /// Showing the question without its items.
    Question,
    /// Showing the shuffled items and accepting submissions.
    Answers,
    /// Showing the correct ordering and the tally.
    AnswersResults,
}

/// The position of a phase in the forward order.
pub open spec fn phase_index(s: SlideState) -> int {
    match s {
        SlideState::Unstarted => 0,
        SlideState::Question => 1,
        SlideState::Answers => 2,
        SlideState::AnswersResults => 3,
    }
}

/// Labels for the two ends of the ordering axis.
#[derive(Debug, PartialEq, Eq)]
pub struct AxisLabels {
    pub from: Option<String>,
    pub to: Option<String>,
}

impl AxisLabels {
    /// An equal copy.
    pub fn clone_value(&self) -> (r: AxisLabels)
        ensures
            r == *self,
    {
        AxisLabels {
            from: match &self.from {
                Some(s) => Some(s.clone()),
                None => None,
            },
            to: match &self.to {
                Some(s) => Some(s.clone()),
                None => None,
            },
        }
    }
}

/// Relies on `fastrand::shuffle`: permutes the slice in place, so the items
/// are kept as a multiset; nothing is promised of the order.
#[verifier::external_body]
pub fn shuffle_strings(items: &mut Vec<String>)
    ensures
        final(items)@.to_multiset() == old(items)@.to_multiset(),
        final(items)@.len() == old(items)@.len(),
{
    fastrand::shuffle(items.as_mut_slice());
}

/// Whether two configurations carry the same data.
pub open spec fn spec_config_equal(a: SlideConfig, b: SlideConfig) -> bool {
    &&& a.title == b.title
    &&& a.media == b.media
    &&& a.introduce_question == b.introduce_question
    &&& a.time_limit == b.time_limit
    &&& a.points_awarded == b.points_awarded
    &&& a.answers@ == b.answers@
    &&& a.axis_labels == b.axis_labels
}

/// The static configuration of one order slide. Durations are in
/// milliseconds.
#[derive(Debug, PartialEq, Eq)]
pub struct SlideConfig {
    /// The question title: what is being asked.
    pub title: String,
    /// Accompanying media.
    pub media: Option<Media>,
    /// Time the question shows before its items appear.
    pub introduce_question: u64,
    /// Time players have to answer.
    pub time_limit: u64,
    /// Maximum points awarded; decays to half by the end of the time limit.
    pub points_awarded: u64,
    /// The items in their correct order.
    pub answers: Vec<String>,
    /// Labels for the axis ends.
    pub axis_labels: AxisLabels,
}

impl SlideConfig {
    /// An equal copy.
    pub fn clone_value(&self) -> (r: SlideConfig)
        ensures
            spec_config_equal(r, *self),
    {
        let answers = self.answers.clone();
        proof {
            assert(answers@ =~= self.answers@);
        }
        SlideConfig {
            title: self.title.clone(),
            media: crate::media::clone_media_option(&self.media),
            introduce_question: self.introduce_question,
            time_limit: self.time_limit,
            points_awarded: self.points_awarded,
            answers,
            axis_labels: self.axis_labels.clone_value(),
        }
    }

    /// Fresh runtime state for this configuration.
    pub fn to_state(&self) -> (r: State)
        ensures
            spec_config_equal(r.config, *self),
            r.user_answers@ == Map::<Id, (Vec<String>, u64)>::empty(),
            r.user_answers.wf(),
            r.answer_start is None,
            r.shuffled_answers@ == Seq::<String>::empty(),
            r.state == SlideState::Unstarted,
    {
        State {
            config: self.clone_value(),
            shuffled_answers: Vec::new(),
            user_answers: IdMap::new(),
            answer_start: None,
            state: SlideState::Unstarted,
        }
    }
}

/// The runtime state of one order slide.
#[derive(Debug)]
pub struct State {
    /// The validated configuration this slide runs.
    pub config: SlideConfig,
    /// The items as shuffled for presentation.
    pub shuffled_answers: Vec<String>,
    /// Each player's submitted ordering and its submission time.
    pub user_answers: IdMap<(Vec<String>, u64)>,
    /// When the answering phase began, if it has.
    pub answer_start: Option<u64>,
    /// The current phase.
    pub state: SlideState,
}

/// State-delta messages this engine sends.
#[derive(Debug, PartialEq, Eq)]
pub enum UpdateMessage {
    /// The question, without its items.
    QuestionAnnouncement {
        /// Index of the slide (0-based).
        index: usize,
        /// Total count of slides.
        count: usize,
        /// The question text.
        question: String,
        /// Accompanying media.
        media: Option<Media>,
        /// Time before the items will be released, in milliseconds.
        duration: u64,
    },
    /// The shuffled items and the axis labels.
    AnswersAnnouncement {
        /// Labels for the axis ends.
        axis_labels: AxisLabels,
        /// The items in shuffled order.
        answers: Vec<String>,
        /// Time before the answering phase ends, in milliseconds.
        duration: u64,
    },
    /// (Host only) how many players have answered.
    AnswersCount(usize),
    /// The correct ordering and the (correct, wrong) tally.
    AnswersResults { answers: Vec<String>, results: (usize, usize) },
}

/// The alarm payload this engine schedules and later receives back.
#[derive(Debug, Clone, Copy, PartialEq, Eq, Structural)]
pub enum AlarmMessage {
    ProceedFromSlideIntoSlide { index: usize, to: SlideState },
}

/// Full-state messages for late joiners and reconnects.
#[derive(Debug, PartialEq, Eq)]
pub enum SyncMessage {
    /// Showing the question without its items.
    QuestionAnnouncement {
        index: usize,
        count: usize,
        question: String,
        media: Option<Media>,
        /// Remaining time, in milliseconds.
        duration: u64,
    },
    /// Showing the shuffled items and accepting submissions.
    AnswersAnnouncement {
        index: usize,
        count: usize,
        question: String,
        axis_labels: AxisLabels,
        media: Option<Media>,
        answers: Vec<String>,
        /// Remaining time, in milliseconds.
        duration: u64,
    },
    /// Showing the correct ordering and the tally.
    AnswersResults {
        index: usize,
        count: usize,
        question: String,
        axis_labels: AxisLabels,
        media: Option<Media>,
        answers: Vec<String>,
        results: (usize, usize),
    },
}


/// Whether a submitted ordering equals the correct ordering, element for
/// element.
pub open spec fn spec_ordering_correct(c: SlideConfig, submitted: Seq<String>) -> bool {
    &&& submitted.len() == c.answers@.len()
    &&& forall|i: int| 0 <= i < submitted.len() ==> (#[trigger] submitted[i])@ == c.answers@[i]@
}

/// The points a recorded ordering earns.
pub open spec fn spec_answer_points(c: SlideConfig, entry: (Vec<String>, u64), start: u64) -> int {
    if spec_ordering_correct(c, entry.0@) {
        crate::multiple_choice::spec_score(
            c.time_limit,
            crate::multiple_choice::spec_taken(entry.1, start),
            c.points_awarded,
        )
    } else {
        0
    }
}

/// The per-player score deltas of a solo game.
pub open spec fn spec_solo_deltas(s: State, start: u64, alive_players: Seq<Id>) -> Seq<(Id, u64)> {
    s.user_answers.entry_seq().map_values(
        |e: (Id, (Vec<String>, u64))| (e.0, spec_answer_points(s.config, e.1, start) as u64),
    ) + alive_players.filter(|id: Id| !s.user_answers@.contains_key(id)).map_values(
        |id: Id| (id, 0u64),
    )
}

/// The engine's validity conditions.
pub open spec fn state_wf(s: State) -> bool {
    &&& s.user_answers.wf()
    &&& crate::fuiz::spec_durations_valid(s.config.introduce_question, s.config.time_limit)
}

/// Whether two string vectors agree element for element.
/// Whether a stored submission lists exactly the configured order.
pub open spec fn spec_submission_correct(sub: Seq<String>, answers: Seq<String>) -> bool {
    sub.len() == answers.len() && forall|i: int|
        0 <= i < sub.len() ==> (#[trigger] sub[i])@ == answers[i]@
}

/// How many of the first `k` stored submissions are correct.
pub open spec fn spec_correct_before(
    entries: Seq<(Id, (Vec<String>, u64))>,
    answers: Seq<String>,
    k: int,
) -> int
    decreases k,
{
    if k <= 0 {
        0
    } else {
        spec_correct_before(entries, answers, k - 1) + (
        if spec_submission_correct(entries[k - 1].1.0@, answers) {
            1int
        } else {
            0int
        })
    }
}

/// `post` extends `pre` by exactly one results broadcast to `live`: the
/// correct ordering and the (correct, wrong) tally over the submissions.
pub open spec fn results_broadcast_ok(
    pre: Seq<crate::session::Outgoing>,
    post: Seq<crate::session::Outgoing>,
    live: Seq<Id>,
    entries: Seq<(Id, (Vec<String>, u64))>,
    answers: Seq<String>,
) -> bool {
    &&& post.len() == pre.len() + 1
    &&& post.take(pre.len() as int) == pre
    &&& (post.last() matches crate::session::Outgoing::Update {
        to,
        message: crate::UpdateMessage::Order(UpdateMessage::AnswersResults {
            answers: a,
            results,
        }),
    } && to@ == live && a@ == answers && results.0 as int == spec_correct_before(
        entries,
        answers,
        entries.len() as int,
    ) && results.0 + results.1 == entries.len())
}

fn vec_str_equal(a: &Vec<String>, b: &Vec<String>) -> (r: bool)
    ensures
        r == (a@.len() == b@.len() && forall|i: int|
            0 <= i < a@.len() ==> (#[trigger] a@[i])@ == b@[i]@),
{
    if a.len() != b.len() {
        return false;
    }
    let mut i: usize = 0;
    while i < a.len()
        invariant
            0 <= i <= a@.len(),
            a@.len() == b@.len(),
            forall|j: int| 0 <= j < i ==> (#[trigger] a@[j])@ == b@[j]@,
        decreases a@.len() - i,
    {
        if !(a[i] == b[i]) {
            return false;
        }
        i += 1;
    }
    true
}

impl State {
    /// Move forward one phase, exactly when the current phase is `before`.
    fn change_state(&mut self, before: SlideState, after: SlideState) -> (r: bool)
        ensures
            r == (old(self).state == before),
            final(self).state == if r {
                after
            } else {
                old(self).state
            },
            final(self).config == old(self).config,
            final(self).user_answers == old(self).user_answers,
            final(self).answer_start == old(self).answer_start,
            final(self).shuffled_answers == old(self).shuffled_answers,
    {
        if self.state == before {
            self.state = after;
            true
        } else {
            false
        }
    }

    /// Begin the slide: announce the question; with a zero introduction,
    /// release the shuffled items immediately.
    pub fn play(
        &mut self,
        watchers: &Watchers,
        connected: &IdSet,
        eff: &mut Effects,
        now: u64,
        index: usize,
        count: usize,
    )
        requires
            state_wf(*old(self)),
            watchers.wf(),
            connected.wf(),
        ensures
            state_wf(*final(self)),
            final(self).config == old(self).config,
            final(self).user_answers == old(self).user_answers,
            phase_index(final(self).state) >= phase_index(old(self).state),
            crate::session::extends(old(eff).outgoing@, final(eff).outgoing@),
            crate::session::extends_alarms(old(eff).alarms@, final(eff).alarms@),
            old(self).state == SlideState::Unstarted && old(self).config.introduce_question > 0
                ==> final(self).state == SlideState::Question && crate::session::appended_update(
                old(eff).outgoing@,
                final(eff).outgoing@,
                watchers.ordered_ids().filter(|id: Id| connected@.contains(id)),
                crate::UpdateMessage::Order(
                    (UpdateMessage::QuestionAnnouncement {
                        index,
                        count,
                        question: old(self).config.title,
                        media: old(self).config.media,
                        duration: old(self).config.introduce_question,
                    }),
                ),
            ) && final(eff).alarms@ == old(eff).alarms@.push(
                crate::session::ScheduleRequest {
                    alarm: crate::AlarmMessage::Order(
                        AlarmMessage::ProceedFromSlideIntoSlide {
                            index,
                            to: SlideState::Answers,
                        },
                    ),
                    delay: old(self).config.introduce_question,
                },
            ),
            old(self).state == SlideState::Unstarted && old(self).config.introduce_question == 0
                ==> final(self).state == SlideState::Answers && final(self).answer_start == Some(
                now,
            ) && final(self).shuffled_answers@.to_multiset()
                == old(self).config.answers@.to_multiset() && {
                let live = watchers.ordered_ids().filter(|id: Id| connected@.contains(id));
                &&& final(eff).outgoing@.len() == old(eff).outgoing@.len() + 2
                &&& final(eff).outgoing@.take(old(eff).outgoing@.len() as int) == old(
                    eff,
                ).outgoing@
                &&& (final(eff).outgoing@[old(eff).outgoing@.len() as int] matches crate::session::Outgoing::Update {
                    to,
                    message: crate::UpdateMessage::Order(
                        UpdateMessage::QuestionAnnouncement {
                            index: qi,
                            count: qc,
                            question,
                            media,
                            duration,
                        },
                    ),
                } && to@ == live && qi == index && qc == count && question == old(
                    self,
                ).config.title && media == old(self).config.media && duration == old(
                    self,
                ).config.introduce_question)
                &&& (final(eff).outgoing@.last() matches crate::session::Outgoing::Update {
                    to,
                    message: crate::UpdateMessage::Order(UpdateMessage::AnswersAnnouncement {
                        axis_labels,
                        answers,
                        duration,
                    }),
                } && to@ == live && axis_labels == old(self).config.axis_labels && answers@
                    == final(self).shuffled_answers@ && duration == old(self).config.time_limit)
                &&& final(eff).alarms@ == old(eff).alarms@.push(
                    crate::session::ScheduleRequest {
                        alarm: crate::AlarmMessage::Order(
                            AlarmMessage::ProceedFromSlideIntoSlide {
                                index,
                                to: SlideState::AnswersResults,
                            },
                        ),
                        delay: old(self).config.time_limit,
                    },
                )
            },
            old(self).state != SlideState::Unstarted ==> *final(self) == *old(self) && *final(eff)
                == *old(eff),
    {
        self.send_question_announcements(watchers, connected, eff, now, index, count);
    }

    /// Announce the question; with a zero introduction skip straight to the
    /// shuffled items.
    fn send_question_announcements(
        &mut self,
        watchers: &Watchers,
        connected: &IdSet,
        eff: &mut Effects,
        now: u64,
        index: usize,
        count: usize,
    )
        requires
            state_wf(*old(self)),
            watchers.wf(),
            connected.wf(),
        ensures
            state_wf(*final(self)),
            final(self).config == old(self).config,
            final(self).user_answers == old(self).user_answers,
            phase_index(final(self).state) >= phase_index(old(self).state),
            crate::session::extends(old(eff).outgoing@, final(eff).outgoing@),
            crate::session::extends_alarms(old(eff).alarms@, final(eff).alarms@),
            old(self).state == SlideState::Unstarted && old(self).config.introduce_question > 0
                ==> final(self).state == SlideState::Question && crate::session::appended_update(
                old(eff).outgoing@,
                final(eff).outgoing@,
                watchers.ordered_ids().filter(|id: Id| connected@.contains(id)),
                crate::UpdateMessage::Order(
                    (UpdateMessage::QuestionAnnouncement {
                        index,
                        count,
                        question: old(self).config.title,
                        media: old(self).config.media,
                        duration: old(self).config.introduce_question,
                    }),
                ),
            ) && final(eff).alarms@ == old(eff).alarms@.push(
                crate::session::ScheduleRequest {
                    alarm: crate::AlarmMessage::Order(
                        AlarmMessage::ProceedFromSlideIntoSlide {
                            index,
                            to: SlideState::Answers,
                        },
                    ),
                    delay: old(self).config.introduce_question,
                },
            ),
            old(self).state == SlideState::Unstarted && old(self).config.introduce_question == 0
                ==> final(self).state == SlideState::Answers && final(self).answer_start == Some(
                now,
            ) && final(self).shuffled_answers@.to_multiset()
                == old(self).config.answers@.to_multiset() && {
                let live = watchers.ordered_ids().filter(|id: Id| connected@.contains(id));
                &&& final(eff).outgoing@.len() == old(eff).outgoing@.len() + 2
                &&& final(eff).outgoing@.take(old(eff).outgoing@.len() as int) == old(
                    eff,
                ).outgoing@
                &&& (final(eff).outgoing@[old(eff).outgoing@.len() as int] matches crate::session::Outgoing::Update {
                    to,
                    message: crate::UpdateMessage::Order(
                        UpdateMessage::QuestionAnnouncement {
                            index: qi,
                            count: qc,
                            question,
                            media,
                            duration,
                        },
                    ),
                } && to@ == live && qi == index && qc == count && question == old(
                    self,
                ).config.title && media == old(self).config.media && duration == old(
                    self,
                ).config.introduce_question)
                &&& (final(eff).outgoing@.last() matches crate::session::Outgoing::Update {
                    to,
                    message: crate::UpdateMessage::Order(UpdateMessage::AnswersAnnouncement {
                        axis_labels,
                        answers,
                        duration,
                    }),
                } && to@ == live && axis_labels == old(self).config.axis_labels && answers@
                    == final(self).shuffled_answers@ && duration == old(self).config.time_limit)
                &&& final(eff).alarms@ == old(eff).alarms@.push(
                    crate::session::ScheduleRequest {
                        alarm: crate::AlarmMessage::Order(
                            AlarmMessage::ProceedFromSlideIntoSlide {
                                index,
                                to: SlideState::AnswersResults,
                            },
                        ),
                        delay: old(self).config.time_limit,
                    },
                )
            },
            old(self).state != SlideState::Unstarted ==> *final(self) == *old(self) && *final(eff)
                == *old(eff),
    {
        if self.change_state(SlideState::Unstarted, SlideState::Question) {
            let live = watchers.live_ids_vec(connected);
            eff.send_to(
                live,
                crate::UpdateMessage::Order(
                    UpdateMessage::QuestionAnnouncement {
                        index,
                        count,
                        question: self.config.title.clone(),
                        media: crate::media::clone_media_option(&self.config.media),
                        duration: self.config.introduce_question,
                    },
                ),
            );
            if self.config.introduce_question == 0 {
                let ghost mid = eff.outgoing@;
                self.send_answers_announcements(watchers, connected, eff, now, index);
                proof {
                    assert(eff.outgoing@.take(mid.len() as int) =~= mid);
                    assert(eff.outgoing@.take(old(eff).outgoing@.len() as int) =~= old(
                        eff,
                    ).outgoing@);
                }
            } else {
                eff.schedule(
                    crate::AlarmMessage::Order(
                        AlarmMessage::ProceedFromSlideIntoSlide { index, to: SlideState::Answers },
                    ),
                    self.config.introduce_question,
                );
            }
        }
    }

    /// Release the items: shuffle them, start the timer, broadcast, and
    /// schedule the results.
    fn send_answers_announcements(
        &mut self,
        watchers: &Watchers,
        connected: &IdSet,
        eff: &mut Effects,
        now: u64,
        index: usize,
    )
        requires
            state_wf(*old(self)),
            watchers.wf(),
            connected.wf(),
        ensures
            state_wf(*final(self)),
            final(self).config == old(self).config,
            final(self).user_answers == old(self).user_answers,
            phase_index(final(self).state) >= phase_index(old(self).state),
            crate::session::extends(old(eff).outgoing@, final(eff).outgoing@),
            crate::session::extends_alarms(old(eff).alarms@, final(eff).alarms@),
            old(self).state == SlideState::Question ==> final(self).state == SlideState::Answers
                && final(self).answer_start == Some(now)
                && final(self).shuffled_answers@.to_multiset()
                == old(self).config.answers@.to_multiset() && (final(eff).outgoing@.len() == old(eff).outgoing@.len() + 1 && final(eff).outgoing@.take(
                old(eff).outgoing@.len() as int,
            ) == old(eff).outgoing@ && (final(eff).outgoing@.last() matches crate::session::Outgoing::Update {
                to,
                message: crate::UpdateMessage::Order(UpdateMessage::AnswersAnnouncement {
                    axis_labels,
                    answers,
                    duration,
                }),
            } && to@ == watchers.ordered_ids().filter(|id: Id| connected@.contains(id))
                && axis_labels == old(self).config.axis_labels && answers@ == final(self).shuffled_answers@ && duration == old(self).config.time_limit)) && final(eff).alarms@ == old(eff).alarms@.push(
                crate::session::ScheduleRequest {
                    alarm: crate::AlarmMessage::Order(
                        AlarmMessage::ProceedFromSlideIntoSlide {
                            index,
                            to: SlideState::AnswersResults,
                        },
                    ),
                    delay: old(self).config.time_limit,
                },
            ),
            old(self).state != SlideState::Question ==> *final(self) == *old(self) && *final(eff)
                == *old(eff),
    {
        if self.change_state(SlideState::Question, SlideState::Answers) {
            let mut shuffled = self.clone_answers();
            shuffle_strings(&mut shuffled);
            self.shuffled_answers = shuffled;
            self.answer_start = Some(now);
            let live = watchers.live_ids_vec(connected);
            eff.send_to(
                live,
                crate::UpdateMessage::Order(
                    UpdateMessage::AnswersAnnouncement {
                        axis_labels: self.config.axis_labels.clone_value(),
                        answers: self.clone_shuffled(),
                        duration: self.config.time_limit,
                    },
                ),
            );
            eff.schedule(
                crate::AlarmMessage::Order(
                    AlarmMessage::ProceedFromSlideIntoSlide {
                        index,
                        to: SlideState::AnswersResults,
                    },
                ),
                self.config.time_limit,
            );
        }
    }

    /// An equal copy of the correct ordering.
    fn clone_answers(&self) -> (r: Vec<String>)
        ensures
            r@ == self.config.answers@,
    {
        let c = self.config.answers.clone();
        proof {
            assert(c@ =~= self.config.answers@);
        }
        c
    }

    /// An equal copy of the shuffled ordering.
    fn clone_shuffled(&self) -> (r: Vec<String>)
        ensures
            r@ == self.shuffled_answers@,
    {
        let c = self.shuffled_answers.clone();
        proof {
            assert(c@ =~= self.shuffled_answers@);
        }
        c
    }

    /// Reveal the results: the correct ordering and the (correct, wrong)
    /// tally of submissions.
    fn send_answers_results(&mut self, watchers: &Watchers, connected: &IdSet, eff: &mut Effects)
        requires
            state_wf(*old(self)),
            watchers.wf(),
            connected.wf(),
        ensures
            state_wf(*final(self)),
            final(self).config == old(self).config,
            final(self).user_answers == old(self).user_answers,
            final(self).answer_start == old(self).answer_start,
            phase_index(final(self).state) >= phase_index(old(self).state),
            crate::session::extends(old(eff).outgoing@, final(eff).outgoing@),
            final(eff).alarms@ == old(eff).alarms@,
            old(self).state == SlideState::Answers ==> final(self).state
                == SlideState::AnswersResults && results_broadcast_ok(
                old(eff).outgoing@,
                final(eff).outgoing@,
                watchers.ordered_ids().filter(|id: Id| connected@.contains(id)),
                old(self).user_answers.entry_seq(),
                old(self).config.answers@,
            ),
            old(self).state != SlideState::Answers ==> *final(self) == *old(self) && *final(eff)
                == *old(eff),
    {
        if self.change_state(SlideState::Answers, SlideState::AnswersResults) {
            let (correct, wrong) = self.tally();
            let live = watchers.live_ids_vec(connected);
            eff.send_to(
                live,
                crate::UpdateMessage::Order(
                    UpdateMessage::AnswersResults {
                        answers: self.clone_answers(),
                        results: (correct, wrong),
                    },
                ),
            );
        }
    }

    /// How many submissions are correct, and how many are not.
    #[verifier::loop_isolation(false)]
    fn tally(&self) -> (r: (usize, usize))
        requires
            self.user_answers.wf(),
        ensures
            r.0 + r.1 == self.user_answers.entry_seq().len(),
            r.0 as int == spec_correct_before(
                self.user_answers.entry_seq(),
                self.config.answers@,
                self.user_answers.entry_seq().len() as int,
            ),
    {
        let total = self.user_answers.len();
        let mut correct: usize = 0;
        let mut i: usize = 0;
        while i < total
            invariant
                0 <= i <= total,
                total == self.user_answers.entry_seq().len(),
                self.user_answers.wf(),
                correct <= i,
                correct as int == spec_correct_before(
                    self.user_answers.entry_seq(),
                    self.config.answers@,
                    i as int,
                ),
            decreases total - i,
        {
            if vec_str_equal(&self.user_answers.entry_at(i).1.0, &self.config.answers) {
                correct += 1;
            }
            i += 1;
        }
        (correct, total - correct)
    }

    /// Score the slide and push the per-player deltas to the leaderboard.
    #[verifier::loop_isolation(false)]
    #[verifier::rlimit(60)]
    pub fn add_scores(
        &self,
        leaderboard: &mut crate::leaderboard::Leaderboard,
        watchers: &Watchers,
        team_manager: Option<&crate::teams::TeamManager>,
        connected: &IdSet,
        now: u64,
    )
        requires
            state_wf(*self),
            old(leaderboard).wf(),
            watchers.wf(),
            connected.wf(),
            (team_manager matches Some(tm) ==> tm.wf()),
        ensures
            final(leaderboard).wf(),
            final(leaderboard).history().len() == old(leaderboard).history().len() + 1,
            final(leaderboard).spec_summary() == old(leaderboard).spec_summary(),
            final(leaderboard).history().drop_last() == old(leaderboard).history(),
            team_manager is None ==> final(leaderboard).history() == old(leaderboard).history().push(
                spec_solo_deltas(
                    *self,
                    if self.answer_start is Some {
                        self.answer_start->Some_0
                    } else {
                        now
                    },
                    watchers.spec_alive_players(connected@),
                ),
            ),
            (team_manager matches Some(tm) ==> crate::teams::team_deltas_ok(
                final(leaderboard).history().last(),
                spec_solo_deltas(
                    *self,
                    if self.answer_start is Some {
                        self.answer_start->Some_0
                    } else {
                        now
                    },
                    watchers.spec_alive_players(connected@),
                ),
                *tm,
            )),
    {
        broadcast use Seq::lemma_filter_push;

        let start = match self.answer_start {
            Some(s) => s,
            None => now,
        };
        let mut deltas: Vec<(Id, u64)> = Vec::new();
        let total = self.user_answers.len();
        let mut i: usize = 0;
        while i < total
            invariant
                0 <= i <= total,
                total == self.user_answers.entry_seq().len(),
                state_wf(*self),
                deltas@ == self.user_answers.entry_seq().take(i as int).map_values(
                    |e: (Id, (Vec<String>, u64))| (
                        e.0,
                        spec_answer_points(self.config, e.1, start) as u64,
                    ),
                ),
            decreases total - i,
        {
            let entry = self.user_answers.entry_at(i);
            let id = entry.0;
            let submitted = entry.1.1;
            let correct = vec_str_equal(&entry.1.0, &self.config.answers);
            let points: u64 = if correct {
                let taken = if submitted >= start {
                    submitted - start
                } else {
                    0
                };
                crate::multiple_choice::calculate_score_for(
                    self.config.time_limit,
                    taken,
                    self.config.points_awarded,
                )
            } else {
                0
            };
            deltas.push((id, points));
            proof {
                let f = |e: (Id, (Vec<String>, u64))|
                    (e.0, spec_answer_points(self.config, e.1, start) as u64);
                let es = self.user_answers.entry_seq();
                assert(es.take(i + 1).drop_last() =~= es.take(i as int));
                assert(es.take(i + 1).map_values(f) =~= es.take(i as int).map_values(f).push(
                    f(es[i as int]),
                ));
                assert(deltas@ =~= es.take(i + 1).map_values(f));
            }
            i += 1;
        }
        proof {
            let es = self.user_answers.entry_seq();
            assert(es.take(es.len() as int) =~= es);
        }
        // Connected players without a submission are recorded with zero, so
        // every leaderboard total stays accurate and, in a team game, a team
        // with an absent member earns nothing.
        let alive = watchers.alive_players_vec(connected);
        let ghost base = deltas@;
        let mut i: usize = 0;
        while i < alive.len()
            invariant
                0 <= i <= alive@.len(),
                alive@ == watchers.spec_alive_players(connected@),
                state_wf(*self),
                deltas@ == base + alive@.take(i as int).filter(
                    |id: Id| !self.user_answers@.contains_key(id),
                ).map_values(|id: Id| (id, 0u64)),
            decreases alive@.len() - i,
        {
            let id = alive[i];
            proof {
                let pred = |id2: Id| !self.user_answers@.contains_key(id2);
                let f = |id2: Id| (id2, 0u64);
                assert(alive@.take(i + 1).drop_last() =~= alive@.take(i as int));
                assert(alive@.take(i as int).push(id) =~= alive@.take(i + 1));
                if pred(id) {
                    assert(alive@.take(i + 1).filter(pred).map_values(f) =~= alive@.take(
                        i as int,
                    ).filter(pred).map_values(f).push(f(id)));
                } else {
                    assert(alive@.take(i + 1).filter(pred).map_values(f) =~= alive@.take(
                        i as int,
                    ).filter(pred).map_values(f));
                }
            }
            if !self.user_answers.contains_key(id) {
                deltas.push((id, 0));
            }
            i += 1;
        }
        proof {
            assert(alive@.take(alive@.len() as int) =~= alive@);
            assert(deltas@ =~= spec_solo_deltas(
                *self,
                start,
                watchers.spec_alive_players(connected@),
            ));
        }
        match team_manager {
            Some(tm) => {
                let row = crate::teams::group_team_deltas(tm, &deltas);
                leaderboard.add_scores(&row);
                proof {
                    assert(leaderboard.history().drop_last() =~= old(leaderboard).history());
                }
            },
            None => {
                leaderboard.add_scores(&deltas);
                proof {
                    assert(leaderboard.history().drop_last() =~= old(leaderboard).history());
                }
            },
        }
    }

    /// Whether every connected player has submitted.
    #[verifier::loop_isolation(false)]
    fn all_answered(&self, watchers: &Watchers, connected: &IdSet) -> (r: bool)
        requires
            self.user_answers.wf(),
            watchers.wf(),
            connected.wf(),
        ensures
            r == forall|i: int|
                0 <= i < watchers.spec_alive_players(connected@).len()
                    ==> self.user_answers@.contains_key(
                    #[trigger] watchers.spec_alive_players(connected@)[i],
                ),
    {
        let alive = watchers.alive_players_vec(connected);
        let mut i: usize = 0;
        while i < alive.len()
            invariant
                0 <= i <= alive@.len(),
                alive@ == watchers.spec_alive_players(connected@),
                self.user_answers.wf(),
                forall|j: int|
                    0 <= j < i ==> self.user_answers@.contains_key(#[trigger] alive@[j]),
            decreases alive@.len() - i,
        {
            if !self.user_answers.contains_key(alive[i]) {
                return false;
            }
            i += 1;
        }
        true
    }

    /// How many connected players have submitted.
    #[verifier::loop_isolation(false)]
    fn answered_count(&self, watchers: &Watchers, connected: &IdSet) -> (r: usize)
        requires
            self.user_answers.wf(),
            watchers.wf(),
            connected.wf(),
        ensures
            r == watchers.spec_alive_players(connected@).filter(
                |id: Id| self.user_answers@.contains_key(id),
            ).len(),
    {
        broadcast use Seq::lemma_filter_push;

        let alive = watchers.alive_players_vec(connected);
        let mut count: usize = 0;
        let mut i: usize = 0;
        while i < alive.len()
            invariant
                0 <= i <= alive@.len(),
                alive@ == watchers.spec_alive_players(connected@),
                self.user_answers.wf(),
                count == alive@.take(i as int).filter(
                    |id: Id| self.user_answers@.contains_key(id),
                ).len(),
            decreases alive@.len() - i,
        {
            let id = alive[i];
            proof {
                assert(alive@.take(i + 1).drop_last() =~= alive@.take(i as int));
                assert(alive@.take(i as int).push(id) =~= alive@.take(i + 1));
            }
            if self.user_answers.contains_key(id) {
                count += 1;
            }
            i += 1;
        }
        proof {
            assert(alive@.take(alive@.len() as int) =~= alive@);
        }
        count
    }

    /// Handle one incoming message: the host advances the phase, players
    /// submit orderings. Returns whether the slide just completed.
    #[verifier::rlimit(60)]
    pub fn receive_message(
        &mut self,
        watcher_id: Id,
        message: &crate::game::IncomingMessage,
        leaderboard: &mut crate::leaderboard::Leaderboard,
        watchers: &Watchers,
        team_manager: Option<&crate::teams::TeamManager>,
        connected: &IdSet,
        eff: &mut Effects,
        now: u64,
        index: usize,
        count: usize,
    ) -> (r: bool)
        requires
            state_wf(*old(self)),
            old(leaderboard).wf(),
            watchers.wf(),
            connected.wf(),
            (team_manager matches Some(tm) ==> tm.wf()),
        ensures
            state_wf(*final(self)),
            final(leaderboard).wf(),
            final(self).config == old(self).config,
            phase_index(final(self).state) >= phase_index(old(self).state),
            crate::session::extends(old(eff).outgoing@, final(eff).outgoing@),
            crate::session::extends_alarms(old(eff).alarms@, final(eff).alarms@),
            r == (message matches crate::game::IncomingMessage::Host(
                crate::game::IncomingHostMessage::Next,
            ) && old(self).state == SlideState::AnswersResults),
            r ==> final(leaderboard).history().len() == old(leaderboard).history().len() + 1,
            !r ==> *final(leaderboard) == *old(leaderboard),
            r ==> final(leaderboard).history().drop_last() == old(leaderboard).history(),
            (r && team_manager is None) ==> final(leaderboard).history().last()
                == spec_solo_deltas(
                *old(self),
                if old(self).answer_start is Some {
                    old(self).answer_start->Some_0
                } else {
                    now
                },
                watchers.spec_alive_players(connected@),
            ),
            r ==> (team_manager matches Some(tm) ==> crate::teams::team_deltas_ok(
                final(leaderboard).history().last(),
                spec_solo_deltas(
                    *old(self),
                    if old(self).answer_start is Some {
                        old(self).answer_start->Some_0
                    } else {
                        now
                    },
                    watchers.spec_alive_players(connected@),
                ),
                *tm,
            )),
            (message matches crate::game::IncomingMessage::Host(
                crate::game::IncomingHostMessage::Next,
            )) ==> {
                &&& (old(self).state == SlideState::Unstarted && old(self).config.introduce_question > 0 ==> final(self).state == SlideState::Question)
                &&& (old(self).state == SlideState::Unstarted && old(self).config.introduce_question == 0 ==> final(self).state == SlideState::Answers)
                &&& (old(self).state == SlideState::Question ==> final(self).state
                    == SlideState::Answers && final(self).answer_start == Some(now)
                    && final(self).shuffled_answers@.to_multiset()
                        == old(self).config.answers@.to_multiset())
                &&& (old(self).state == SlideState::Answers ==> final(self).state
                    == SlideState::AnswersResults && results_broadcast_ok(
                    old(eff).outgoing@,
                    final(eff).outgoing@,
                    watchers.ordered_ids().filter(|id: Id| connected@.contains(id)),
                    old(self).user_answers.entry_seq(),
                    old(self).config.answers@,
                ) && final(eff).alarms@ == old(eff).alarms@)
                &&& (old(self).state == SlideState::AnswersResults ==> final(self).state == old(self).state)
            },
            forall|v: Vec<String>|
                *message == crate::game::IncomingMessage::Player(
                    crate::game::IncomingPlayerMessage::StringArrayAnswer(v),
                ) ==> {
                    let subs = final(self).user_answers@;
                    let alive = watchers.spec_alive_players(connected@);
                    &&& subs.contains_key(watcher_id)
                    &&& subs[watcher_id].0@ == v@
                    &&& subs[watcher_id].1 == now
                    &&& (forall|p: Id|
                        p != watcher_id ==> ((subs.contains_key(p) <==> old(self).user_answers@.contains_key(p)) && (subs.contains_key(p)
                            ==> subs[p] == old(self).user_answers@[p])))
                    &&& ((old(self).state == SlideState::Answers && (forall|i: int|
                        0 <= i < alive.len() ==> subs.contains_key(#[trigger] alive[i])))
                        ==> final(self).state == SlideState::AnswersResults
                        && results_broadcast_ok(
                        old(eff).outgoing@,
                        final(eff).outgoing@,
                        watchers.ordered_ids().filter(|id: Id| connected@.contains(id)),
                        final(self).user_answers.entry_seq(),
                        old(self).config.answers@,
                    ) && final(eff).alarms@ == old(eff).alarms@)
                    &&& (!(old(self).state == SlideState::Answers && (forall|i: int|
                        0 <= i < alive.len() ==> subs.contains_key(#[trigger] alive[i])))
                        ==> final(self).state == old(self).state)
                    &&& (!(forall|i: int|
                        0 <= i < alive.len() ==> subs.contains_key(#[trigger] alive[i])) ==> {
                        &&& final(eff).outgoing@.len() == old(eff).outgoing@.len() + 1
                        &&& final(eff).outgoing@.take(old(eff).outgoing@.len() as int) == old(eff).outgoing@
                        &&& (final(eff).outgoing@.last() matches crate::session::Outgoing::Update {
                            to,
                            message: crate::UpdateMessage::Order(UpdateMessage::AnswersCount(c)),
                        } && to@ == watchers.kind_bucket(crate::watcher::ValueKind::Host).filter(
                            |id: Id| connected@.contains(id),
                        ) && c == alive.filter(|id: Id| subs.contains_key(id)).len())
                        &&& final(eff).alarms@ == old(eff).alarms@
                    })
                },
            (!(message matches crate::game::IncomingMessage::Host(
                crate::game::IncomingHostMessage::Next,
            )) && !(message matches crate::game::IncomingMessage::Player(
                crate::game::IncomingPlayerMessage::StringArrayAnswer(_),
            ))) ==> *final(self) == *old(self) && *final(eff) == *old(eff),
            (message matches crate::game::IncomingMessage::Host(
                crate::game::IncomingHostMessage::Next,
            ) && old(self).state == SlideState::AnswersResults) ==> final(self).state == old(self).state && final(self).user_answers == old(self).user_answers && *final(eff)
                == *old(eff),
    {
        match message {
            crate::game::IncomingMessage::Host(crate::game::IncomingHostMessage::Next) => {
                match self.state {
                    SlideState::Unstarted => {
                        self.send_question_announcements(
                            watchers,
                            connected,
                            eff,
                            now,
                            index,
                            count,
                        );
                        false
                    },
                    SlideState::Question => {
                        self.send_answers_announcements(watchers, connected, eff, now, index);
                        false
                    },
                    SlideState::Answers => {
                        self.send_answers_results(watchers, connected, eff);
                        false
                    },
                    SlideState::AnswersResults => {
                        self.add_scores(leaderboard, watchers, team_manager, connected, now);
                        true
                    },
                }
            },
            crate::game::IncomingMessage::Player(
                crate::game::IncomingPlayerMessage::StringArrayAnswer(v),
            ) => {
                let mut copy: Vec<String> = Vec::new();
                let mut i: usize = 0;
                while i < v.len()
                    invariant
                        0 <= i <= v@.len(),
                        copy@.len() == i,
                        forall|j: int| 0 <= j < i ==> (#[trigger] copy@[j]) == v@[j],
                    decreases v@.len() - i,
                {
                    copy.push(v[i].clone());
                    i += 1;
                }
                proof {
                    assert(copy@ =~= v@);
                }
                self.user_answers.insert(watcher_id, (copy, now));
                if self.all_answered(watchers, connected) {
                    self.send_answers_results(watchers, connected, eff);
                } else {
                    let count_answered = self.answered_count(watchers, connected);
                    let hosts = watchers.specific_ids_vec(crate::watcher::ValueKind::Host);
                    let mut live_hosts: Vec<Id> = Vec::new();
                    let mut i: usize = 0;
                    while i < hosts.len()
                        invariant
                            0 <= i <= hosts@.len(),
                            hosts@ == watchers.kind_bucket(crate::watcher::ValueKind::Host),
                            live_hosts@ == hosts@.take(i as int).filter(
                                |id: Id| connected@.contains(id),
                            ),
                        decreases hosts@.len() - i,
                    {
                        proof {
                            broadcast use Seq::lemma_filter_push;

                            assert(hosts@.take(i + 1) =~= hosts@.take(i as int).push(
                                hosts@[i as int],
                            ));
                        }
                        if connected.contains(hosts[i]) {
                            live_hosts.push(hosts[i]);
                        }
                        i += 1;
                    }
                    proof {
                        assert(hosts@.take(hosts@.len() as int) =~= hosts@);
                    }
                    eff.send_to(
                        live_hosts,
                        crate::UpdateMessage::Order(UpdateMessage::AnswersCount(count_answered)),
                    );
                }
                false
            },
            _ => false,
        }
    }

    /// Handle an alarm: perform the transition it names.
    pub fn receive_alarm(
        &mut self,
        leaderboard: &mut crate::leaderboard::Leaderboard,
        watchers: &Watchers,
        connected: &IdSet,
        eff: &mut Effects,
        message: &crate::AlarmMessage,
        now: u64,
        index: usize,
    ) -> (r: bool)
        requires
            state_wf(*old(self)),
            old(leaderboard).wf(),
            watchers.wf(),
            connected.wf(),
        ensures
            state_wf(*final(self)),
            *final(leaderboard) == *old(leaderboard),
            final(leaderboard).wf(),
            final(self).config == old(self).config,
            final(self).user_answers == old(self).user_answers,
            phase_index(final(self).state) >= phase_index(old(self).state),
            crate::session::extends(old(eff).outgoing@, final(eff).outgoing@),
            crate::session::extends_alarms(old(eff).alarms@, final(eff).alarms@),
            r == false,
            *message matches crate::AlarmMessage::Order(
                AlarmMessage::ProceedFromSlideIntoSlide { index: _, to },
            ) ==> {
                &&& (to == SlideState::Answers && old(self).state == SlideState::Question
                    ==> final(self).state == SlideState::Answers && final(self).answer_start
                        == Some(now) && final(self).shuffled_answers@.to_multiset() == old(self).config.answers@.to_multiset())
                &&& (to == SlideState::Answers && old(self).state != SlideState::Question
                    ==> *final(self) == *old(self) && *final(eff) == *old(eff))
                &&& (to == SlideState::AnswersResults && old(self).state == SlideState::Answers
                    ==> final(self).state == SlideState::AnswersResults)
                &&& (to == SlideState::AnswersResults && old(self).state != SlideState::Answers
                    ==> *final(self) == *old(self) && *final(eff) == *old(eff))
                &&& ((to == SlideState::Unstarted || to == SlideState::Question) ==> *final(self)
                    == *old(self) && *final(eff) == *old(eff))
            },
            (!(message matches crate::AlarmMessage::Order(_))) ==> *final(self) == *old(self)
                && *final(eff) == *old(eff),
    {
        match message {
            crate::AlarmMessage::Order(
                AlarmMessage::ProceedFromSlideIntoSlide { index: _, to },
            ) => {
                match to {
                    SlideState::Answers => {
                        self.send_answers_announcements(watchers, connected, eff, now, index);
                    },
                    SlideState::AnswersResults => {
                        self.send_answers_results(watchers, connected, eff);
                    },
                    _ => {},
                }
            },
            _ => {},
        }
        false
    }

    /// The full-state message a late joiner or reconnect receives.
    pub fn state_message(&self, now: u64, index: usize, count: usize) -> (r: SyncMessage)
        requires
            state_wf(*self),
        ensures
            (self.state == SlideState::Unstarted || self.state == SlideState::Question) ==> (
            r matches SyncMessage::QuestionAnnouncement { index: i, count: c, question, duration, .. }
                && i == index && c == count && question == self.config.title && duration
                == crate::spec_remaining(
                self.config.introduce_question,
                self.answer_start,
                now,
            )),
            self.state == SlideState::Answers ==> (r matches SyncMessage::AnswersAnnouncement {
                index: i,
                count: c,
                question,
                answers,
                duration,
                ..
            } && i == index && c == count && question == self.config.title && answers@
                == self.shuffled_answers@ && duration == crate::spec_remaining(
                self.config.time_limit,
                self.answer_start,
                now,
            )),
            self.state == SlideState::AnswersResults ==> (r matches SyncMessage::AnswersResults {
                index: i,
                count: c,
                question,
                answers,
                results,
                ..
            } && i == index && c == count && question == self.config.title && answers@
                == self.config.answers@ && results.0 as int == spec_correct_before(
                self.user_answers.entry_seq(),
                self.config.answers@,
                self.user_answers.entry_seq().len() as int,
            ) && results.0 + results.1 == self.user_answers.entry_seq().len()),
    {
        let start = match self.answer_start {
            Some(s) => s,
            None => now,
        };
        let elapsed = if now >= start {
            now - start
        } else {
            0
        };
        match self.state {
            SlideState::Unstarted | SlideState::Question => SyncMessage::QuestionAnnouncement {
                index,
                count,
                question: self.config.title.clone(),
                media: crate::media::clone_media_option(&self.config.media),
                duration: if self.config.introduce_question >= elapsed {
                    self.config.introduce_question - elapsed
                } else {
                    0
                },
            },
            SlideState::Answers => SyncMessage::AnswersAnnouncement {
                index,
                count,
                question: self.config.title.clone(),
                axis_labels: self.config.axis_labels.clone_value(),
                media: crate::media::clone_media_option(&self.config.media),
                answers: self.clone_shuffled(),
                duration: if self.config.time_limit >= elapsed {
                    self.config.time_limit - elapsed
                } else {
                    0
                },
            },
            SlideState::AnswersResults => {
                let (correct, wrong) = self.tally();
                SyncMessage::AnswersResults {
                    index,
                    count,
                    question: self.config.title.clone(),
                    axis_labels: self.config.axis_labels.clone_value(),
                    media: crate::media::clone_media_option(&self.config.media),
                    answers: self.clone_answers(),
                    results: (correct, wrong),
                }
            },
        }
    }
}

} // verus!
