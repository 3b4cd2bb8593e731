//! The fuiz configuration: a title and an ordered list of slides, together
//! with the tagged union of per-engine runtime states and the dispatcher
//! over them.

use vstd::prelude::*;
use vstd::string::StrSliceExecFns;

use crate::media::Media;
use crate::multiple_choice;
use crate::order;
use crate::type_answer;

verus! {

/// The most slides one fuiz may hold.
pub const MAX_SLIDES_COUNT: usize = 100;

/// The longest accepted fuiz or question title, in characters.
pub const MAX_TITLE_LENGTH: usize = 200;

/// The longest accepted answer text, in characters.
pub const MAX_TEXT_LENGTH: usize = 200;

/// The most answers one slide may hold.
pub const MAX_ANSWER_COUNT: usize = 8;

/// The longest accepted axis label, in characters.
pub const MAX_LABEL_LENGTH: usize = 100;

/// The longest accepted question introduction, in milliseconds.
pub const MAX_INTRODUCE_QUESTION: u64 = 360_000;

/// The shortest accepted answering time, in milliseconds.
pub const MIN_TIME_LIMIT: u64 = 1_000;

/// The longest accepted answering time, in milliseconds.
pub const MAX_TIME_LIMIT: u64 = 600_000;

/// Either a plain text or a media attachment.
#[derive(Debug, PartialEq, Eq)]
pub enum TextOrMedia {
    Media(Media),
    Text(String),
}

impl TextOrMedia {
    /// The stated length bounds hold.
    pub open spec fn spec_valid(self) -> bool {
        match self {
            TextOrMedia::Media(m) => m.spec_valid(),
            TextOrMedia::Text(t) => t@.len() <= MAX_TEXT_LENGTH,
        }
    }

    /// Whether the content meets its length bounds.
    pub fn validate(&self) -> (r: bool)
        ensures
            r == self.spec_valid(),
    {
        match self {
            TextOrMedia::Media(m) => m.validate(),
            TextOrMedia::Text(t) => t.as_str().unicode_len() <= MAX_TEXT_LENGTH,
        }
    }

    /// An equal copy.
    pub fn clone_value(&self) -> (r: TextOrMedia)
        ensures
            r == *self,
    {
        match self {
            TextOrMedia::Media(m) => TextOrMedia::Media(m.clone_value()),
            TextOrMedia::Text(t) => TextOrMedia::Text(t.clone()),
        }
    }
}

/// The static configuration of one slide: which engine runs it and with what
/// parameters.
#[derive(Debug, PartialEq, Eq)]
pub enum SlideConfig {
    MultipleChoice(multiple_choice::SlideConfig),
    TypeAnswer(type_answer::SlideConfig),
    Order(order::SlideConfig),
}

/// Whether two slides carry the same engine and data.
pub open spec fn spec_slide_equal(a: SlideConfig, b: SlideConfig) -> bool {
    match (a, b) {
        (SlideConfig::MultipleChoice(x), SlideConfig::MultipleChoice(y)) =>
            multiple_choice::spec_config_equal(x, y),
        (SlideConfig::TypeAnswer(x), SlideConfig::TypeAnswer(y)) =>
            type_answer::spec_config_equal(x, y),
        (SlideConfig::Order(x), SlideConfig::Order(y)) => order::spec_config_equal(x, y),
        _ => false,
    }
}

/// Whether two fuizzes carry the same title and slides.
pub open spec fn spec_fuiz_equal(a: Fuiz, b: Fuiz) -> bool {
    &&& a.title == b.title
    &&& a.slides@.len() == b.slides@.len()
    &&& forall|i: int|
        0 <= i < a.slides@.len() ==> spec_slide_equal(
            #[trigger] a.slides@[i],
            #[trigger] b.slides@[i],
        )
}

/// The common validity conditions of every slide kind: title and answer
/// bounds, and durations within their limits.
pub open spec fn spec_durations_valid(introduce_question: u64, time_limit: u64) -> bool {
    &&& introduce_question <= MAX_INTRODUCE_QUESTION
    &&& MIN_TIME_LIMIT <= time_limit <= MAX_TIME_LIMIT
}

impl SlideConfig {
    /// The stated bounds hold for this slide.
    pub open spec fn spec_valid(self) -> bool {
        match self {
            SlideConfig::MultipleChoice(c) => {
                &&& c.title@.len() <= MAX_TITLE_LENGTH
                &&& spec_durations_valid(c.introduce_question, c.time_limit)
                &&& c.answers@.len() <= MAX_ANSWER_COUNT
                &&& (forall|i: int|
                    0 <= i < c.answers@.len() ==> (#[trigger] c.answers@[i]).content.spec_valid())
                &&& (c.media matches Some(m) ==> m.spec_valid())
            },
            SlideConfig::TypeAnswer(c) => {
                &&& c.title@.len() <= MAX_TITLE_LENGTH
                &&& spec_durations_valid(c.introduce_question, c.time_limit)
                &&& c.answers@.len() <= MAX_ANSWER_COUNT
                &&& (forall|i: int|
                    0 <= i < c.answers@.len() ==> (#[trigger] c.answers@[i])@.len()
                        <= MAX_TEXT_LENGTH)
                &&& (c.media matches Some(m) ==> m.spec_valid())
            },
            SlideConfig::Order(c) => {
                &&& c.title@.len() <= MAX_TITLE_LENGTH
                &&& spec_durations_valid(c.introduce_question, c.time_limit)
                &&& c.answers@.len() <= MAX_ANSWER_COUNT
                &&& (forall|i: int|
                    0 <= i < c.answers@.len() ==> (#[trigger] c.answers@[i])@.len()
                        <= MAX_TEXT_LENGTH)
                &&& (c.axis_labels.from matches Some(l) ==> l@.len() <= MAX_LABEL_LENGTH)
                &&& (c.axis_labels.to matches Some(l) ==> l@.len() <= MAX_LABEL_LENGTH)
                &&& (c.media matches Some(m) ==> m.spec_valid())
            },
        }
    }

    /// Whether this slide meets the bounds above.
    #[verifier::loop_isolation(false)]
    pub fn validate(&self) -> (r: bool)
        ensures
            r == self.spec_valid(),
    {
        match self {
            SlideConfig::MultipleChoice(c) => {
                if c.title.as_str().unicode_len() > MAX_TITLE_LENGTH {
                    return false;
                }
                if c.introduce_question > MAX_INTRODUCE_QUESTION {
                    return false;
                }
                if c.time_limit < MIN_TIME_LIMIT || c.time_limit > MAX_TIME_LIMIT {
                    return false;
                }
                if c.answers.len() > MAX_ANSWER_COUNT {
                    return false;
                }
                match &c.media {
                    Some(m) => {
                        if !m.validate() {
                            return false;
                        }
                    },
                    None => {},
                }
                let mut i: usize = 0;
                while i < c.answers.len()
                    invariant
                        0 <= i <= c.answers@.len(),
                        forall|j: int|
                            0 <= j < i ==> (#[trigger] c.answers@[j]).content.spec_valid(),
                    decreases c.answers@.len() - i,
                {
                    if !c.answers[i].content.validate() {
                        return false;
                    }
                    i += 1;
                }
                true
            },
            SlideConfig::TypeAnswer(c) => {
                if c.title.as_str().unicode_len() > MAX_TITLE_LENGTH {
                    return false;
                }
                if c.introduce_question > MAX_INTRODUCE_QUESTION {
                    return false;
                }
                if c.time_limit < MIN_TIME_LIMIT || c.time_limit > MAX_TIME_LIMIT {
                    return false;
                }
                if c.answers.len() > MAX_ANSWER_COUNT {
                    return false;
                }
                match &c.media {
                    Some(m) => {
                        if !m.validate() {
                            return false;
                        }
                    },
                    None => {},
                }
                let mut i: usize = 0;
                while i < c.answers.len()
                    invariant
                        0 <= i <= c.answers@.len(),
                        forall|j: int|
                            0 <= j < i ==> (#[trigger] c.answers@[j])@.len() <= MAX_TEXT_LENGTH,
                    decreases c.answers@.len() - i,
                {
                    if c.answers[i].as_str().unicode_len() > MAX_TEXT_LENGTH {
                        return false;
                    }
                    i += 1;
                }
                true
            },
            SlideConfig::Order(c) => {
                if c.title.as_str().unicode_len() > MAX_TITLE_LENGTH {
                    return false;
                }
                if c.introduce_question > MAX_INTRODUCE_QUESTION {
                    return false;
                }
                if c.time_limit < MIN_TIME_LIMIT || c.time_limit > MAX_TIME_LIMIT {
                    return false;
                }
                if c.answers.len() > MAX_ANSWER_COUNT {
                    return false;
                }
                match &c.axis_labels.from {
                    Some(l) => {
                        if l.as_str().unicode_len() > MAX_LABEL_LENGTH {
                            return false;
                        }
                    },
                    None => {},
                }
                match &c.axis_labels.to {
                    Some(l) => {
                        if l.as_str().unicode_len() > MAX_LABEL_LENGTH {
                            return false;
                        }
                    },
                    None => {},
                }
                match &c.media {
                    Some(m) => {
                        if !m.validate() {
                            return false;
                        }
                    },
                    None => {},
                }
                let mut i: usize = 0;
                while i < c.answers.len()
                    invariant
                        0 <= i <= c.answers@.len(),
                        forall|j: int|
                            0 <= j < i ==> (#[trigger] c.answers@[j])@.len() <= MAX_TEXT_LENGTH,
                    decreases c.answers@.len() - i,
                {
                    if c.answers[i].as_str().unicode_len() > MAX_TEXT_LENGTH {
                        return false;
                    }
                    i += 1;
                }
                true
            },
        }
    }

    /// An equal copy.
    pub fn clone_value(&self) -> (r: SlideConfig)
        ensures
            spec_slide_equal(r, *self),
    {
        match self {
            SlideConfig::MultipleChoice(c) => SlideConfig::MultipleChoice(c.clone_value()),
            SlideConfig::TypeAnswer(c) => SlideConfig::TypeAnswer(c.clone_value()),
            SlideConfig::Order(c) => SlideConfig::Order(c.clone_value()),
        }
    }

    /// Fresh runtime state for this slide.
    pub fn to_state(&self) -> (r: SlideState)
        ensures
            match r {
                SlideState::MultipleChoice(s) => (*self matches SlideConfig::MultipleChoice(c)
                    && multiple_choice::spec_config_equal(s.config, c)) && s.state
                    == multiple_choice::SlideState::Unstarted && s.user_answers.wf()
                    && s.user_answers@ == Map::<crate::watcher::Id, (usize, u64)>::empty()
                    && s.answer_start is None,
                SlideState::TypeAnswer(s) => (*self matches SlideConfig::TypeAnswer(c)
                    && type_answer::spec_config_equal(s.config, c)) && s.state
                    == type_answer::SlideState::Unstarted && s.user_answers.wf()
                    && s.user_answers@ == Map::<crate::watcher::Id, (String, u64)>::empty()
                    && s.answer_start is None,
                SlideState::Order(s) => (*self matches SlideConfig::Order(c)
                    && order::spec_config_equal(s.config, c)) && s.state
                    == order::SlideState::Unstarted && s.user_answers.wf() && s.user_answers@
                    == Map::<crate::watcher::Id, (Vec<String>, u64)>::empty()
                    && s.answer_start is None,
            },
    {
        match self {
            SlideConfig::MultipleChoice(c) => SlideState::MultipleChoice(c.to_state()),
            SlideConfig::TypeAnswer(c) => SlideState::TypeAnswer(c.to_state()),
            SlideConfig::Order(c) => SlideState::Order(c.to_state()),
        }
    }
}

/// The runtime state of one slide: which engine runs it and its state.
#[derive(Debug)]
pub enum SlideState {
    MultipleChoice(multiple_choice::State),
    TypeAnswer(type_answer::State),
    Order(order::State),
}

/// Which slide is active and in what runtime state.
#[derive(Debug)]
pub struct CurrentSlide {
    /// Index of the active slide (0-based).
    pub index: usize,
    /// Its runtime state.
    pub state: SlideState,
}

/// A fuiz: a title and an ordered list of slides, immutable once the game
/// starts.
#[derive(Debug, PartialEq, Eq)]
pub struct Fuiz {
    /// The fuiz title.
    pub title: String,
    /// The ordered slides.
    pub slides: Vec<SlideConfig>,
}

impl Fuiz {
    /// The stated bounds hold for the title and every slide.
    pub open spec fn spec_valid(self) -> bool {
        &&& self.title@.len() <= MAX_TITLE_LENGTH
        &&& self.slides@.len() <= MAX_SLIDES_COUNT
        &&& forall|i: int| 0 <= i < self.slides@.len() ==> (#[trigger] self.slides@[i]).spec_valid()
    }

    /// Whether the fuiz meets the bounds above.
    #[verifier::loop_isolation(false)]
    pub fn validate(&self) -> (r: bool)
        ensures
            r == self.spec_valid(),
    {
        if self.title.as_str().unicode_len() > MAX_TITLE_LENGTH {
            return false;
        }
        if self.slides.len() > MAX_SLIDES_COUNT {
            return false;
        }
        let mut i: usize = 0;
        while i < self.slides.len()
            invariant
                0 <= i <= self.slides@.len(),
                forall|j: int| 0 <= j < i ==> (#[trigger] self.slides@[j]).spec_valid(),
            decreases self.slides@.len() - i,
        {
            if !self.slides[i].validate() {
                return false;
            }
            i += 1;
        }
        true
    }

    /// An equal copy.
    #[verifier::loop_isolation(false)]
    pub fn clone_value(&self) -> (r: Fuiz)
        ensures
            spec_fuiz_equal(r, *self),
    {
        let mut slides: Vec<SlideConfig> = Vec::new();
        let mut i: usize = 0;
        while i < self.slides.len()
            invariant
                0 <= i <= self.slides@.len(),
                slides@.len() == i,
                forall|j: int|
                    0 <= j < i ==> spec_slide_equal(
                        #[trigger] slides@[j],
                        #[trigger] self.slides@[j],
                    ),
            decreases self.slides@.len() - i,
        {
            slides.push(self.slides[i].clone_value());
            i += 1;
        }
        Fuiz { title: self.title.clone(), slides }
    }

    /// How many slides the fuiz holds.
    pub fn len(&self) -> (r: usize)
        ensures
            r == self.slides@.len(),
    {
        self.slides.len()
    }

    /// Whether the fuiz holds no slides.
    pub fn is_empty(&self) -> (r: bool)
        ensures
            r == (self.slides@.len() == 0),
    {
        self.slides.is_empty()
    }
}


/// The phase position of a runtime slide, through its engine.
pub open spec fn slide_phase_index(s: SlideState) -> int {
    match s {
        SlideState::MultipleChoice(e) => multiple_choice::phase_index(e.state),
        SlideState::TypeAnswer(e) => type_answer::phase_index(e.state),
        SlideState::Order(e) => order::phase_index(e.state),
    }
}

/// Whether a runtime slide runs the given configured slide.
pub open spec fn state_matches_config(s: SlideState, c: SlideConfig) -> bool {
    match (s, c) {
        (SlideState::MultipleChoice(e), SlideConfig::MultipleChoice(cc)) =>
            multiple_choice::spec_config_equal(e.config, cc),
        (SlideState::TypeAnswer(e), SlideConfig::TypeAnswer(cc)) => type_answer::spec_config_equal(
            e.config,
            cc,
        ),
        (SlideState::Order(e), SlideConfig::Order(cc)) => order::spec_config_equal(e.config, cc),
        _ => false,
    }
}

/// Whether two runtime slides run the same engine on the same
/// configuration with the same stored submissions.
pub open spec fn same_slide_config(a: SlideState, b: SlideState) -> bool {
    match (a, b) {
        (SlideState::MultipleChoice(x), SlideState::MultipleChoice(y)) => x.config == y.config
            && x.user_answers == y.user_answers,
        (SlideState::TypeAnswer(x), SlideState::TypeAnswer(y)) => x.config == y.config
            && x.user_answers == y.user_answers,
        (SlideState::Order(x), SlideState::Order(y)) => x.config == y.config && x.user_answers
            == y.user_answers,
        _ => false,
    }
}

/// What the sync message replayed for a multiple-choice slide holds, per
/// phase.
pub open spec fn mc_sync_ok(
    e: multiple_choice::State,
    m: multiple_choice::SyncMessage,
    watchers: crate::watcher::Watchers,
    connected: Set<crate::watcher::Id>,
    now: u64,
    index: usize,
    count: usize,
) -> bool {
    &&& (e.state == multiple_choice::SlideState::Unstarted || e.state
        == multiple_choice::SlideState::Question) ==> (
    m matches multiple_choice::SyncMessage::QuestionAnnouncement {
        index: i,
        count: c,
        question,
        duration,
        ..
    } && i == index && c == count && question == e.config.title && duration
        == crate::spec_remaining(e.config.introduce_question, e.answer_start, now))
    &&& e.state == multiple_choice::SlideState::Answers ==> (
    m matches multiple_choice::SyncMessage::AnswersAnnouncement {
        index: i,
        count: c,
        question,
        duration,
        answered_count,
        ..
    } && i == index && c == count && question == e.config.title && duration
        == crate::spec_remaining(e.config.time_limit, e.answer_start, now) && answered_count
        == watchers.spec_alive_players(connected).filter(
        |id: crate::watcher::Id| e.user_answers@.contains_key(id),
    ).len())
    &&& e.state == multiple_choice::SlideState::AnswersResults ==> (
    m matches multiple_choice::SyncMessage::AnswersResults {
        index: i,
        count: c,
        question,
        answers: ans,
        results: rs,
        ..
    } && i == index && c == count && question == e.config.title
        && multiple_choice::results_payload_ok(
        e,
        (multiple_choice::UpdateMessage::AnswersResults { answers: ans, results: rs }),
    ))
}

/// What the sync message replayed for a type-answer slide holds, per phase.
pub open spec fn ta_sync_ok(
    e: type_answer::State,
    m: type_answer::SyncMessage,
    now: u64,
    index: usize,
    count: usize,
) -> bool {
    &&& (e.state == type_answer::SlideState::Unstarted || e.state
        == type_answer::SlideState::Question) ==> (
    m matches type_answer::SyncMessage::QuestionAnnouncement {
        index: i,
        count: c,
        question,
        duration,
        accept_answers,
        ..
    } && i == index && c == count && question == e.config.title && !accept_answers && duration
        == crate::spec_remaining(e.config.introduce_question, e.answer_start, now))
    &&& e.state == type_answer::SlideState::Answers ==> (
    m matches type_answer::SyncMessage::QuestionAnnouncement {
        index: i,
        count: c,
        question,
        duration,
        accept_answers,
        ..
    } && i == index && c == count && question == e.config.title && accept_answers && duration
        == crate::spec_remaining(e.config.time_limit, e.answer_start, now))
    &&& e.state == type_answer::SlideState::AnswersResults ==> (
    m matches type_answer::SyncMessage::AnswersResults {
        index: i,
        count: c,
        question,
        answers: ans,
        results: rs,
        case_sensitive: cs,
        ..
    } && i == index && c == count && question == e.config.title
        && type_answer::results_payload_ok(
        e,
        (type_answer::UpdateMessage::AnswersResults {
            answers: ans,
            results: rs,
            case_sensitive: cs,
        }),
    ))
}

/// What the sync message replayed for an ordering slide holds, per phase.
pub open spec fn order_sync_ok(
    e: order::State,
    m: order::SyncMessage,
    now: u64,
    index: usize,
    count: usize,
) -> bool {
    &&& (e.state == order::SlideState::Unstarted || e.state == order::SlideState::Question) ==> (
    m matches order::SyncMessage::QuestionAnnouncement { index: i, count: c, question, duration, .. }
        && i == index && c == count && question == e.config.title && duration
        == crate::spec_remaining(e.config.introduce_question, e.answer_start, now))
    &&& e.state == order::SlideState::Answers ==> (
    m matches order::SyncMessage::AnswersAnnouncement {
        index: i,
        count: c,
        question,
        answers,
        duration,
        ..
    } && i == index && c == count && question == e.config.title && answers@
        == e.shuffled_answers@ && duration == crate::spec_remaining(
        e.config.time_limit,
        e.answer_start,
        now,
    ))
    &&& e.state == order::SlideState::AnswersResults ==> (
    m matches order::SyncMessage::AnswersResults {
        index: i,
        count: c,
        question,
        answers,
        results,
        ..
    } && i == index && c == count && question == e.config.title && answers@ == e.config.answers@
        && results.0 as int == order::spec_correct_before(
        e.user_answers.entry_seq(),
        e.config.answers@,
        e.user_answers.entry_seq().len() as int,
    ) && results.0 + results.1 == e.user_answers.entry_seq().len())
}

/// What the sync message replayed for the active slide holds, through its
/// engine.
pub open spec fn slide_sync_ok(
    s: SlideState,
    r: crate::SyncMessage,
    watchers: crate::watcher::Watchers,
    connected: Set<crate::watcher::Id>,
    now: u64,
    index: usize,
    count: usize,
) -> bool {
    match s {
        SlideState::MultipleChoice(e) => r matches crate::SyncMessage::MultipleChoice(m)
            && mc_sync_ok(e, m, watchers, connected, now, index, count),
        SlideState::TypeAnswer(e) => r matches crate::SyncMessage::TypeAnswer(m) && ta_sync_ok(
            e,
            m,
            now,
            index,
            count,
        ),
        SlideState::Order(e) => r matches crate::SyncMessage::Order(m) && order_sync_ok(
            e,
            m,
            now,
            index,
            count,
        ),
    }
}

/// The validity conditions of a runtime slide, through its engine.
pub open spec fn slide_state_wf(s: SlideState) -> bool {
    match s {
        SlideState::MultipleChoice(e) => multiple_choice::state_wf(e),
        SlideState::TypeAnswer(e) => type_answer::state_wf(e),
        SlideState::Order(e) => order::state_wf(e),
    }
}


/// The common step law of one engine handling one incoming message: the
/// configuration is kept, phases only move forward, the completion flag
/// rises exactly for a host's advance out of the results phase, the host's
/// advance steps one phase (skipping the question under a zero
/// introduction), a valid submission is recorded last-write-wins and
/// reveals the results early once every connected player has submitted,
/// and everything else leaves the slide unchanged.
pub open spec fn mc_step_ok(
    a: multiple_choice::State,
    b: multiple_choice::State,
    message: crate::game::IncomingMessage,
    watcher_id: crate::watcher::Id,
    now: u64,
    alive: Seq<crate::watcher::Id>,
    completed: bool,
) -> bool {
    &&& b.config == a.config
    &&& multiple_choice::phase_index(b.state) >= multiple_choice::phase_index(a.state)
    &&& completed == (message == crate::game::IncomingMessage::Host(
        crate::game::IncomingHostMessage::Next,
    ) && a.state == multiple_choice::SlideState::AnswersResults)
    &&& (message == crate::game::IncomingMessage::Host(crate::game::IncomingHostMessage::Next)
        ==> {
        &&& (a.state == multiple_choice::SlideState::Unstarted && a.config.introduce_question > 0
            ==> b.state == multiple_choice::SlideState::Question)
        &&& (a.state == multiple_choice::SlideState::Unstarted && a.config.introduce_question == 0
            ==> b.state == multiple_choice::SlideState::Answers)
        &&& (a.state == multiple_choice::SlideState::Question ==> b.state
            == multiple_choice::SlideState::Answers && b.answer_start == Some(now))
        &&& (a.state == multiple_choice::SlideState::Answers ==> b.state
            == multiple_choice::SlideState::AnswersResults)
        &&& (a.state == multiple_choice::SlideState::AnswersResults ==> b.state == a.state
            && b.user_answers == a.user_answers)
    })
    &&& (forall|v: usize|
        message == crate::game::IncomingMessage::Player(
            crate::game::IncomingPlayerMessage::IndexAnswer(v),
        ) && v < a.config.answers@.len() ==> {
            let subs = a.user_answers@.insert(watcher_id, (v, now));
            &&& b.user_answers@ == subs
            &&& ((a.state == multiple_choice::SlideState::Answers && (forall|i: int|
                0 <= i < alive.len() ==> subs.contains_key(#[trigger] alive[i]))) ==> b.state
                == multiple_choice::SlideState::AnswersResults)
            &&& (!(a.state == multiple_choice::SlideState::Answers && (forall|i: int|
                0 <= i < alive.len() ==> subs.contains_key(#[trigger] alive[i]))) ==> b.state
                == a.state)
        })
    &&& (forall|v: usize|
        message == crate::game::IncomingMessage::Player(
            crate::game::IncomingPlayerMessage::IndexAnswer(v),
        ) && v >= a.config.answers@.len() ==> b == a)
    &&& ((!(message matches crate::game::IncomingMessage::Host(
        crate::game::IncomingHostMessage::Next,
    )) && !(message matches crate::game::IncomingMessage::Player(
        crate::game::IncomingPlayerMessage::IndexAnswer(_),
    ))) ==> b == a)
}

/// The step law of the type-answer engine; see `mc_step_ok`.
pub open spec fn ta_step_ok(
    a: type_answer::State,
    b: type_answer::State,
    message: crate::game::IncomingMessage,
    watcher_id: crate::watcher::Id,
    now: u64,
    alive: Seq<crate::watcher::Id>,
    completed: bool,
) -> bool {
    &&& b.config == a.config
    &&& type_answer::phase_index(b.state) >= type_answer::phase_index(a.state)
    &&& completed == (message == crate::game::IncomingMessage::Host(
        crate::game::IncomingHostMessage::Next,
    ) && a.state == type_answer::SlideState::AnswersResults)
    &&& (message == crate::game::IncomingMessage::Host(crate::game::IncomingHostMessage::Next)
        ==> {
        &&& (a.state == type_answer::SlideState::Unstarted && a.config.introduce_question > 0
            ==> b.state == type_answer::SlideState::Question)
        &&& (a.state == type_answer::SlideState::Unstarted && a.config.introduce_question == 0
            ==> b.state == type_answer::SlideState::Answers)
        &&& (a.state == type_answer::SlideState::Question ==> b.state
            == type_answer::SlideState::Answers && b.answer_start == Some(now))
        &&& (a.state == type_answer::SlideState::Answers ==> b.state
            == type_answer::SlideState::AnswersResults)
        &&& (a.state == type_answer::SlideState::AnswersResults ==> b.state == a.state
            && b.user_answers == a.user_answers)
    })
    &&& (forall|v: String|
        message == crate::game::IncomingMessage::Player(
            crate::game::IncomingPlayerMessage::StringAnswer(v),
        ) ==> {
            let subs = b.user_answers@;
            &&& subs.contains_key(watcher_id)
            &&& subs[watcher_id].0@ == v@
            &&& subs[watcher_id].1 == now
            &&& ((a.state == type_answer::SlideState::Answers && (forall|i: int|
                0 <= i < alive.len() ==> subs.contains_key(#[trigger] alive[i]))) ==> b.state
                == type_answer::SlideState::AnswersResults)
            &&& (!(a.state == type_answer::SlideState::Answers && (forall|i: int|
                0 <= i < alive.len() ==> subs.contains_key(#[trigger] alive[i]))) ==> b.state
                == a.state)
        })
    &&& ((!(message matches crate::game::IncomingMessage::Host(
        crate::game::IncomingHostMessage::Next,
    )) && !(message matches crate::game::IncomingMessage::Player(
        crate::game::IncomingPlayerMessage::StringAnswer(_),
    ))) ==> b == a)
}

/// The step law of the order engine; see `mc_step_ok`.
pub open spec fn order_step_ok(
    a: order::State,
    b: order::State,
    message: crate::game::IncomingMessage,
    watcher_id: crate::watcher::Id,
    now: u64,
    alive: Seq<crate::watcher::Id>,
    completed: bool,
) -> bool {
    &&& b.config == a.config
    &&& order::phase_index(b.state) >= order::phase_index(a.state)
    &&& completed == (message == crate::game::IncomingMessage::Host(
        crate::game::IncomingHostMessage::Next,
    ) && a.state == order::SlideState::AnswersResults)
    &&& (message == crate::game::IncomingMessage::Host(crate::game::IncomingHostMessage::Next)
        ==> {
        &&& (a.state == order::SlideState::Unstarted && a.config.introduce_question > 0
            ==> b.state == order::SlideState::Question)
        &&& (a.state == order::SlideState::Unstarted && a.config.introduce_question == 0
            ==> b.state == order::SlideState::Answers)
        &&& (a.state == order::SlideState::Question ==> b.state == order::SlideState::Answers
            && b.answer_start == Some(now) && b.shuffled_answers@.to_multiset()
            == a.config.answers@.to_multiset())
        &&& (a.state == order::SlideState::Answers ==> b.state
            == order::SlideState::AnswersResults)
        &&& (a.state == order::SlideState::AnswersResults ==> b.state == a.state
            && b.user_answers == a.user_answers)
    })
    &&& (forall|v: Vec<String>|
        message == crate::game::IncomingMessage::Player(
            crate::game::IncomingPlayerMessage::StringArrayAnswer(v),
        ) ==> {
            let subs = b.user_answers@;
            &&& subs.contains_key(watcher_id)
            &&& subs[watcher_id].0@ == v@
            &&& subs[watcher_id].1 == now
            &&& ((a.state == order::SlideState::Answers && (forall|i: int|
                0 <= i < alive.len() ==> subs.contains_key(#[trigger] alive[i]))) ==> b.state
                == order::SlideState::AnswersResults)
            &&& (!(a.state == order::SlideState::Answers && (forall|i: int|
                0 <= i < alive.len() ==> subs.contains_key(#[trigger] alive[i]))) ==> b.state
                == a.state)
        })
    &&& ((!(message matches crate::game::IncomingMessage::Host(
        crate::game::IncomingHostMessage::Next,
    )) && !(message matches crate::game::IncomingMessage::Player(
        crate::game::IncomingPlayerMessage::StringArrayAnswer(_),
    ))) ==> b == a)
}

/// The step law of whichever engine runs the slide.
pub open spec fn slide_step_ok(
    pre: SlideState,
    post: SlideState,
    message: crate::game::IncomingMessage,
    watcher_id: crate::watcher::Id,
    now: u64,
    alive: Seq<crate::watcher::Id>,
    completed: bool,
) -> bool {
    match (pre, post) {
        (SlideState::MultipleChoice(a), SlideState::MultipleChoice(b)) => mc_step_ok(
            a,
            b,
            message,
            watcher_id,
            now,
            alive,
            completed,
        ),
        (SlideState::TypeAnswer(a), SlideState::TypeAnswer(b)) => ta_step_ok(
            a,
            b,
            message,
            watcher_id,
            now,
            alive,
            completed,
        ),
        (SlideState::Order(a), SlideState::Order(b)) => order_step_ok(
            a,
            b,
            message,
            watcher_id,
            now,
            alive,
            completed,
        ),
        _ => false,
    }
}

/// The alarm law of whichever engine runs the slide: the named transition
/// happens exactly when the slide still stands one guarded step before the
/// target; a stale or foreign alarm leaves the slide unchanged.
pub open spec fn slide_alarm_ok(
    pre: SlideState,
    post: SlideState,
    message: crate::AlarmMessage,
    now: u64,
) -> bool {
    match (pre, post) {
        (SlideState::MultipleChoice(a), SlideState::MultipleChoice(b)) => {
            &&& b.config == a.config
            &&& b.user_answers == a.user_answers
            &&& multiple_choice::phase_index(b.state) >= multiple_choice::phase_index(a.state)
            &&& (message matches crate::AlarmMessage::MultipleChoice(
                multiple_choice::AlarmMessage::ProceedFromSlideIntoSlide { index: _, to },
            ) ==> {
                &&& (to == multiple_choice::SlideState::Answers && a.state
                    == multiple_choice::SlideState::Question ==> b.state
                    == multiple_choice::SlideState::Answers && b.answer_start == Some(now))
                &&& (to == multiple_choice::SlideState::Answers && a.state
                    != multiple_choice::SlideState::Question ==> b == a)
                &&& (to == multiple_choice::SlideState::AnswersResults && a.state
                    == multiple_choice::SlideState::Answers ==> b.state
                    == multiple_choice::SlideState::AnswersResults)
                &&& (to == multiple_choice::SlideState::AnswersResults && a.state
                    != multiple_choice::SlideState::Answers ==> b == a)
                &&& ((to == multiple_choice::SlideState::Unstarted || to
                    == multiple_choice::SlideState::Question) ==> b == a)
            })
            &&& (!(message matches crate::AlarmMessage::MultipleChoice(_)) ==> b == a)
        },
        (SlideState::TypeAnswer(a), SlideState::TypeAnswer(b)) => {
            &&& b.config == a.config
            &&& b.user_answers == a.user_answers
            &&& type_answer::phase_index(b.state) >= type_answer::phase_index(a.state)
            &&& (message matches crate::AlarmMessage::TypeAnswer(
                type_answer::AlarmMessage::ProceedFromSlideIntoSlide { index: _, to },
            ) ==> {
                &&& (to == type_answer::SlideState::Answers && a.state
                    == type_answer::SlideState::Question ==> b.state
                    == type_answer::SlideState::Answers && b.answer_start == Some(now))
                &&& (to == type_answer::SlideState::Answers && a.state
                    != type_answer::SlideState::Question ==> b == a)
                &&& (to == type_answer::SlideState::AnswersResults && a.state
                    == type_answer::SlideState::Answers ==> b.state
                    == type_answer::SlideState::AnswersResults)
                &&& (to == type_answer::SlideState::AnswersResults && a.state
                    != type_answer::SlideState::Answers ==> b == a)
                &&& ((to == type_answer::SlideState::Unstarted || to
                    == type_answer::SlideState::Question) ==> b == a)
            })
            &&& (!(message matches crate::AlarmMessage::TypeAnswer(_)) ==> b == a)
        },
        (SlideState::Order(a), SlideState::Order(b)) => {
            &&& b.config == a.config
            &&& b.user_answers == a.user_answers
            &&& order::phase_index(b.state) >= order::phase_index(a.state)
            &&& (message matches crate::AlarmMessage::Order(
                order::AlarmMessage::ProceedFromSlideIntoSlide { index: _, to },
            ) ==> {
                &&& (to == order::SlideState::Answers && a.state == order::SlideState::Question
                    ==> b.state == order::SlideState::Answers && b.answer_start == Some(now)
                    && b.shuffled_answers@.to_multiset() == a.config.answers@.to_multiset())
                &&& (to == order::SlideState::Answers && a.state != order::SlideState::Question
                    ==> b == a)
                &&& (to == order::SlideState::AnswersResults && a.state
                    == order::SlideState::Answers ==> b.state == order::SlideState::AnswersResults)
                &&& (to == order::SlideState::AnswersResults && a.state
                    != order::SlideState::Answers ==> b == a)
                &&& ((to == order::SlideState::Unstarted || to == order::SlideState::Question)
                    ==> b == a)
            })
            &&& (!(message matches crate::AlarmMessage::Order(_)) ==> b == a)
        },
        _ => false,
    }
}

/// The score-delta law of whichever engine runs the slide: the pushed row
/// is the engine's individual deltas in a solo game, and their per-team
/// minima (absent teammates counting zero) in a team game.
pub open spec fn slide_deltas_ok(
    pre: SlideState,
    row: Seq<(crate::watcher::Id, u64)>,
    tm: Option<crate::teams::TeamManager>,
    alive: Seq<crate::watcher::Id>,
    now: u64,
) -> bool {
    match pre {
        SlideState::MultipleChoice(a) => {
            let start = if a.answer_start is Some {
                a.answer_start->Some_0
            } else {
                now
            };
            let indiv = multiple_choice::spec_solo_deltas(a, start, alive);
            match tm {
                Some(t) => crate::teams::team_deltas_ok(row, indiv, t),
                None => row == indiv,
            }
        },
        SlideState::TypeAnswer(a) => {
            let start = if a.answer_start is Some {
                a.answer_start->Some_0
            } else {
                now
            };
            let indiv = type_answer::spec_solo_deltas(a, start, alive);
            match tm {
                Some(t) => crate::teams::team_deltas_ok(row, indiv, t),
                None => row == indiv,
            }
        },
        SlideState::Order(a) => {
            let start = if a.answer_start is Some {
                a.answer_start->Some_0
            } else {
                now
            };
            let indiv = order::spec_solo_deltas(a, start, alive);
            match tm {
                Some(t) => crate::teams::team_deltas_ok(row, indiv, t),
                None => row == indiv,
            }
        },
    }
}

impl SlideState {
    /// Begin the slide through its engine.
    pub fn play(
        &mut self,
        team_manager: Option<&crate::teams::TeamManager>,
        watchers: &crate::watcher::Watchers,
        connected: &crate::store::IdSet,
        eff: &mut crate::session::Effects,
        now: u64,
        index: usize,
        count: usize,
    )
        requires
            slide_state_wf(*old(self)),
            watchers.wf(),
            connected.wf(),
            (team_manager matches Some(tm) ==> tm.wf()),
        ensures
            slide_state_wf(*final(self)),
            slide_phase_index(*final(self)) >= slide_phase_index(*old(self)),
            same_slide_config(*old(self), *final(self)),
            crate::session::extends(old(eff).outgoing@, final(eff).outgoing@),
            crate::session::extends_alarms(old(eff).alarms@, final(eff).alarms@),
            slide_phase_index(*old(self)) == 0 ==> slide_phase_index(*final(self)) >= 1 && final(eff).outgoing@.len() > old(eff).outgoing@.len(),
    {
        match self {
            SlideState::MultipleChoice(e) => e.play(
                team_manager,
                watchers,
                connected,
                eff,
                now,
                index,
                count,
            ),
            SlideState::TypeAnswer(e) => e.play(watchers, connected, eff, now, index, count),
            SlideState::Order(e) => e.play(watchers, connected, eff, now, index, count),
        }
    }

    /// Route one incoming message to the engine; true means the slide just
    /// completed and scores were pushed.
    #[verifier::rlimit(100)]
    #[verifier::spinoff_prover]
    pub fn receive_message(
        &mut self,
        watcher_id: crate::watcher::Id,
        message: &crate::game::IncomingMessage,
        leaderboard: &mut crate::leaderboard::Leaderboard,
        watchers: &crate::watcher::Watchers,
        team_manager: Option<&crate::teams::TeamManager>,
        connected: &crate::store::IdSet,
        eff: &mut crate::session::Effects,
        now: u64,
        index: usize,
        count: usize,
    ) -> (r: bool)
        requires
            slide_state_wf(*old(self)),
            old(leaderboard).wf(),
            watchers.wf(),
            connected.wf(),
            (team_manager matches Some(tm) ==> tm.wf()),
        ensures
            slide_state_wf(*final(self)),
            final(leaderboard).wf(),
            slide_phase_index(*final(self)) >= slide_phase_index(*old(self)),
            crate::session::extends(old(eff).outgoing@, final(eff).outgoing@),
            crate::session::extends_alarms(old(eff).alarms@, final(eff).alarms@),
            r ==> final(leaderboard).history().len() == old(leaderboard).history().len() + 1,
            !r ==> *final(leaderboard) == *old(leaderboard),
            slide_step_ok(
                *old(self),
                *final(self),
                *message,
                watcher_id,
                now,
                watchers.spec_alive_players(connected@),
                r,
            ),
            r ==> final(leaderboard).history().drop_last() == old(leaderboard).history(),
            r ==> slide_deltas_ok(
                *old(self),
                final(leaderboard).history().last(),
                match team_manager {
                    Some(t) => Some(*t),
                    None => None,
                },
                watchers.spec_alive_players(connected@),
                now,
            ),
    {
        let r = match self {
            SlideState::MultipleChoice(e) => e.receive_message(
                watcher_id,
                message,
                leaderboard,
                watchers,
                team_manager,
                connected,
                eff,
                now,
                index,
                count,
            ),
            SlideState::TypeAnswer(e) => e.receive_message(
                watcher_id,
                message,
                leaderboard,
                watchers,
                team_manager,
                connected,
                eff,
                now,
                index,
                count,
            ),
            SlideState::Order(e) => e.receive_message(
                watcher_id,
                message,
                leaderboard,
                watchers,
                team_manager,
                connected,
                eff,
                now,
                index,
                count,
            ),
        };
        proof {
            let pre = *old(self);
            let post = *self;
            let alive = watchers.spec_alive_players(connected@);
            match pre {
                SlideState::MultipleChoice(a) => {
                    let b = post->MultipleChoice_0;
                    assert(mc_step_ok(a, b, *message, watcher_id, now, alive, r));
                },
                SlideState::TypeAnswer(a) => {
                    let b = post->TypeAnswer_0;
                    assert(ta_step_ok(a, b, *message, watcher_id, now, alive, r));
                },
                SlideState::Order(a) => {
                    let b = post->Order_0;
                    assert(order_step_ok(a, b, *message, watcher_id, now, alive, r));
                },
            }
        }
        r
    }

    /// Route an alarm to the engine.
    pub fn receive_alarm(
        &mut self,
        leaderboard: &mut crate::leaderboard::Leaderboard,
        watchers: &crate::watcher::Watchers,
        team_manager: Option<&crate::teams::TeamManager>,
        connected: &crate::store::IdSet,
        eff: &mut crate::session::Effects,
        message: &crate::AlarmMessage,
        now: u64,
        index: usize,
        count: usize,
    ) -> (r: bool)
        requires
            slide_state_wf(*old(self)),
            old(leaderboard).wf(),
            watchers.wf(),
            connected.wf(),
            (team_manager matches Some(tm) ==> tm.wf()),
        ensures
            slide_state_wf(*final(self)),
            final(leaderboard).wf(),
            *final(leaderboard) == *old(leaderboard),
            slide_phase_index(*final(self)) >= slide_phase_index(*old(self)),
            crate::session::extends(old(eff).outgoing@, final(eff).outgoing@),
            crate::session::extends_alarms(old(eff).alarms@, final(eff).alarms@),
            r == false,
            slide_alarm_ok(*old(self), *final(self), *message, now),
    {
        match self {
            SlideState::MultipleChoice(e) => e.receive_alarm(
                leaderboard,
                watchers,
                team_manager,
                connected,
                eff,
                message,
                now,
                index,
            ),
            SlideState::TypeAnswer(e) => e.receive_alarm(
                leaderboard,
                watchers,
                connected,
                eff,
                message,
                now,
                index,
                count,
            ),
            SlideState::Order(e) => e.receive_alarm(
                leaderboard,
                watchers,
                connected,
                eff,
                message,
                now,
                index,
            ),
        }
    }

    /// The engine's full-state message, wrapped in the top-level envelope.
    pub fn state_message(
        &self,
        watcher_id: crate::watcher::Id,
        watcher_kind: crate::watcher::ValueKind,
        team_manager: Option<&crate::teams::TeamManager>,
        watchers: &crate::watcher::Watchers,
        connected: &crate::store::IdSet,
        now: u64,
        index: usize,
        count: usize,
    ) -> (r: crate::SyncMessage)
        requires
            slide_state_wf(*self),
            watchers.wf(),
            connected.wf(),
            (team_manager matches Some(tm) ==> tm.wf()),
        ensures
            (*self is MultipleChoice ==> r is MultipleChoice),
            (*self is TypeAnswer ==> r is TypeAnswer),
            (*self is Order ==> r is Order),
            slide_sync_ok(*self, r, *watchers, connected@, now, index, count),
    {
        match self {
            SlideState::MultipleChoice(e) => crate::SyncMessage::MultipleChoice(
                e.state_message(
                    watcher_id,
                    watcher_kind,
                    team_manager,
                    watchers,
                    connected,
                    now,
                    index,
                    count,
                ),
            ),
            SlideState::TypeAnswer(e) => crate::SyncMessage::TypeAnswer(
                e.state_message(watchers, connected, now, index, count),
            ),
            SlideState::Order(e) => crate::SyncMessage::Order(e.state_message(now, index, count)),
        }
    }
}

} // verus!
