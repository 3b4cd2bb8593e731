//! The top-level game state machine and its wire message types.

use vstd::prelude::*;

use crate::fuiz::{spec_fuiz_equal, spec_slide_equal, Fuiz};
use crate::session::Effects;
use crate::store::IdSet;
use crate::leaderboard::ScoreMessage;
use crate::names;
use crate::watcher::{Id, ValueKind};
use crate::TruncatedVec;

verus! {

/// The phase of the whole game.
#[derive(Debug, Clone, Copy, PartialEq, Eq, Structural)]
pub enum State {
    /// The lobby: current players are displayed while others join.
    WaitingScreen,
    /// (Team games only) the formed teams are displayed.
    TeamDisplay,
    /// Slide `i` is active.
    Slide(usize),
    /// The leaderboard after slide `i` is displayed.
    Leaderboard(usize),
    /// The game is over.
    Done,
}

/// Options for team games.
#[derive(Debug, Clone, Copy, PartialEq, Eq, Structural)]
pub struct TeamOptions {
    /// The target initial team size, between one and five.
    pub size: usize,
    /// Whether to assign teams at random instead of honoring preferences.
    pub assign_random: bool,
}

/// Options a host chooses when creating a game.
#[derive(Debug, Clone, Copy, PartialEq, Eq, Structural)]
pub struct Options {
    /// Assign random names to players, skipping the name prompt.
    pub random_names: bool,
    /// Show answers on player devices.
    pub show_answers: bool,
    /// Skip the per-slide leaderboard screens.
    pub no_leaderboard: bool,
    /// Team configuration, or none for an individual game.
    pub teams: Option<TeamOptions>,
}

impl Options {
    /// A team size must lie between one and five.
    pub open spec fn spec_valid(self) -> bool {
        match self.teams {
            Some(t) => 1 <= t.size <= 5,
            None => true,
        }
    }

    /// Whether the options meet the bound above.
    pub fn validate(&self) -> (r: bool)
        ensures
            r == self.spec_valid(),
    {
        match self.teams {
            Some(t) => 1 <= t.size && t.size <= 5,
            None => true,
        }
    }
}

/// First-frame messages from a connection that has no identity yet.
#[derive(Debug, Clone, Copy, PartialEq, Eq, Structural)]
pub enum IncomingGhostMessage {
    /// Ask for a fresh identifier.
    DemandId,
    /// Reclaim an existing identifier after a reconnect.
    ClaimId(Id),
}

/// Messages only the host may send.
#[derive(Debug, Clone, Copy, PartialEq, Eq, Structural)]
pub enum IncomingHostMessage {
    /// Advance the game or the active slide by one step.
    Next,
    /// Jump to a slide by index.
    Index(usize),
    /// Lock or unlock the game against new joiners.
    Lock(bool),
}

/// Messages only an unassigned watcher may send.
#[derive(Debug, PartialEq, Eq)]
pub enum IncomingUnassignedMessage {
    /// Request a name.
    NameRequest(String),
}

/// Messages only a player may send.
#[derive(Debug, PartialEq, Eq)]
pub enum IncomingPlayerMessage {
    /// Answer a multiple-choice slide by choice index.
    IndexAnswer(usize),
    /// Answer a type-answer slide with text.
    StringAnswer(String),
    /// Answer an order slide with an ordering.
    StringArrayAnswer(Vec<String>),
    /// State team preferences by player name.
    ChooseTeammates(Vec<String>),
}

/// Any message a client can send, tagged by the role it claims. The
/// first-frame messages of a connection without identity are carried by the
/// `Unbound` variant.
#[derive(Debug, PartialEq, Eq)]
pub enum IncomingMessage {
    Unbound(IncomingGhostMessage),
    Host(IncomingHostMessage),
    Unassigned(IncomingUnassignedMessage),
    Player(IncomingPlayerMessage),
}

impl IncomingMessage {
    /// Whether a sender of the given kind is allowed to send this message.
    pub open spec fn spec_follows(self, sender_kind: ValueKind) -> bool {
        match (self, sender_kind) {
            (IncomingMessage::Host(_), ValueKind::Host) => true,
            (IncomingMessage::Player(_), ValueKind::Player) => true,
            (IncomingMessage::Unassigned(_), ValueKind::Unassigned) => true,
            _ => false,
        }
    }

    /// Whether a sender of the given kind is allowed to send this message.
    pub fn follows(&self, sender_kind: ValueKind) -> (r: bool)
        ensures
            r == self.spec_follows(sender_kind),
    {
        match (self, sender_kind) {
            (IncomingMessage::Host(_), ValueKind::Host) => true,
            (IncomingMessage::Player(_), ValueKind::Player) => true,
            (IncomingMessage::Unassigned(_), ValueKind::Unassigned) => true,
            _ => false,
        }
    }
}

/// The per-role final summary.
#[derive(Debug)]
pub enum SummaryMessage {
    /// What a player sees: their score and per-slide points.
    Player { score: Option<ScoreMessage>, points: Vec<u64>, config: Fuiz },
    /// What the host sees: per-slide statistics and the player count.
    Host { stats: Vec<(usize, usize)>, player_count: usize, config: Fuiz, options: Options },
}

/// Game metadata replayed to a reconnecting watcher.
#[derive(Debug, Clone, Copy, PartialEq, Eq, Structural)]
pub enum MetainfoMessage {
    Host { locked: bool },
    Player { score: u64, show_answers: bool },
}

/// The two most recent leaderboards, by name.
#[derive(Debug)]
pub struct LeaderboardMessage {
    /// Cumulative standings including the latest slide.
    pub current: TruncatedVec<(String, u64)>,
    /// Cumulative standings before the latest slide.
    pub prior: TruncatedVec<(String, u64)>,
}

/// State-delta messages the game itself sends.
#[derive(Debug)]
pub enum UpdateMessage {
    /// A fresh identifier for a new connection.
    IdAssign(Id),
    /// The lobby name list, for the host's waiting screen.
    WaitingScreen(TruncatedVec<String>),
    /// The formed team names.
    TeamDisplay(TruncatedVec<String>),
    /// Prompt to choose a name.
    NameChoose,
    /// The name this watcher now goes by.
    NameAssign(String),
    /// Why a requested name was refused.
    NameError(names::Error),
    /// The leaderboard after a slide.
    Leaderboard { leaderboard: LeaderboardMessage },
    /// A player's own score after a slide.
    Score { score: Option<ScoreMessage> },
    /// The final summary.
    Summary(SummaryMessage),
    /// The team this player belongs to.
    FindTeam(String),
    /// Prompt to state team preferences.
    ChooseTeammates { max_selection: usize, available: Vec<(String, bool)> },
}

/// Full-state messages for late joiners and reconnects.
#[derive(Debug)]
pub enum SyncMessage {
    /// In the lobby.
    WaitingScreen(TruncatedVec<String>),
    /// Teams are displayed.
    TeamDisplay(TruncatedVec<String>),
    /// The leaderboard after slide `index` is displayed.
    Leaderboard { index: usize, count: usize, leaderboard: LeaderboardMessage },
    /// A player's own score after slide `index`.
    Score { index: usize, count: usize, score: Option<ScoreMessage> },
    /// Game metadata.
    Metainfo(MetainfoMessage),
    /// The final summary.
    Summary(SummaryMessage),
    /// This watcher may not see the current state.
    NotAllowed,
    /// The team this player belongs to.
    FindTeam(String),
    /// Prompt to state team preferences.
    ChooseTeammates { max_selection: usize, available: Vec<(String, bool)> },
}


/// What `heck`'s title-casing makes of a string; the result depends on the
/// characters alone.
pub uninterp spec fn title_case_of(s: Seq<char>) -> Seq<char>;

/// Relies on `heck::ToTitleCase`: the title-cased form of the characters
/// alone.
#[verifier::external_body]
fn to_title_case(s: &str) -> (r: String)
    ensures
        r@ == title_case_of(s@),
{
    heck::ToTitleCase::to_title_case(s)
}

/// Relies on `petname::petname`: two random English words joined by a
/// space, or none if the word lists are empty; nothing is promised of the
/// value.
#[verifier::external_body]
fn random_player_name() -> Option<String> {
    petname::petname(2, " ")
}

/// How many random-name draws are attempted for one joiner.
pub const RANDOM_NAME_ATTEMPTS: usize = 64;

/// Whether a message from this watcher is routed to the game machine: the
/// sender is registered, the message fits their role, and it is none of the
/// messages the dispatcher itself consumes (lock toggles, name requests,
/// teammate preferences).
pub open spec fn spec_routed(g: Game, watcher_id: Id, message: IncomingMessage) -> bool {
    &&& g.watchers.value_map().contains_key(watcher_id)
    &&& message.spec_follows(g.watchers.value_map()[watcher_id].spec_kind())
    &&& !(message matches IncomingMessage::Host(IncomingHostMessage::Lock(_)))
    &&& !(message matches IncomingMessage::Unassigned(_))
    &&& !(message matches IncomingMessage::Player(IncomingPlayerMessage::ChooseTeammates(_)))
}

/// The slide index an alarm names.
pub open spec fn spec_alarm_index(m: crate::AlarmMessage) -> usize {
    match m {
        crate::AlarmMessage::MultipleChoice(
            crate::multiple_choice::AlarmMessage::ProceedFromSlideIntoSlide { index, to: _ },
        ) => index,
        crate::AlarmMessage::TypeAnswer(
            crate::type_answer::AlarmMessage::ProceedFromSlideIntoSlide { index, to: _ },
        ) => index,
        crate::AlarmMessage::Order(
            crate::order::AlarmMessage::ProceedFromSlideIntoSlide { index, to: _ },
        ) => index,
    }
}

/// `post` extends `pre` by exactly one close order per listed watcher, in
/// order.
pub open spec fn closes_all(
    pre: Seq<crate::session::Outgoing>,
    post: Seq<crate::session::Outgoing>,
    live: Seq<Id>,
) -> bool {
    &&& post.len() == pre.len() + live.len()
    &&& (forall|i: int| 0 <= i < pre.len() ==> post[i] == (#[trigger] pre[i]))
    &&& (forall|k: int|
        0 <= k < live.len() ==> (#[trigger] post[pre.len() + k] matches crate::session::Outgoing::Close {
            to,
        } && to == live[k]))
}

/// The role a registered watcher currently holds (unregistered ids count
/// as unassigned).
pub open spec fn spec_kind_of(w: crate::watcher::Watchers, id: Id) -> crate::watcher::ValueKind {
    if w.value_map().contains_key(id) {
        w.value_map()[id].spec_kind()
    } else {
        crate::watcher::ValueKind::Unassigned
    }
}

/// `post` extends `pre` by one frame per live watcher: players learn their
/// team's name, everyone else sees the team list.
pub open spec fn team_display_broadcast_ok(
    w: crate::watcher::Watchers,
    team_manager: Option<crate::teams::TeamManager>,
    names: crate::names::Names,
    pre: Seq<crate::session::Outgoing>,
    post: Seq<crate::session::Outgoing>,
    live: Seq<Id>,
) -> bool {
    &&& post.len() == pre.len() + live.len()
    &&& (forall|i: int| 0 <= i < pre.len() ==> post[i] == (#[trigger] pre[i]))
    &&& (forall|k: int|
        0 <= k < live.len() ==> (#[trigger] post[pre.len() + k] matches crate::session::Outgoing::Update {
            to,
            message: crate::UpdateMessage::Game(m),
        } && to@ == seq![live[k]] && (if spec_kind_of(w, live[k])
            == crate::watcher::ValueKind::Player {
            m matches UpdateMessage::FindTeam(n) && (team_manager matches Some(tm)
                ==> (tm.team_map().contains_key(live[k]) && names.name_map().contains_key(
                tm.team_map()[live[k]],
            ) ==> n@ == names.name_map()[tm.team_map()[live[k]]]@))
        } else {
            m is TeamDisplay
        })))
}

/// `post` extends `pre` by one summary frame per live host or player, in
/// live order: hosts get the per-slide statistics and the scorer count,
/// players their per-slide points; the unassigned get nothing.
pub open spec fn summary_broadcast_ok(
    w: crate::watcher::Watchers,
    lb: crate::leaderboard::Leaderboard,
    options: Options,
    config: Fuiz,
    pre: Seq<crate::session::Outgoing>,
    post: Seq<crate::session::Outgoing>,
    live: Seq<Id>,
) -> bool {
    let rec = live.filter(
        |id: Id| spec_kind_of(w, id) != crate::watcher::ValueKind::Unassigned,
    );
    &&& post.len() == pre.len() + rec.len()
    &&& (forall|i: int| 0 <= i < pre.len() ==> post[i] == (#[trigger] pre[i]))
    &&& (forall|k: int|
        0 <= k < rec.len() ==> (#[trigger] post[pre.len() + k] matches crate::session::Outgoing::Update {
            to,
            message: crate::UpdateMessage::Game(UpdateMessage::Summary(sm)),
        } && to@ == seq![rec[k]] && (if spec_kind_of(w, rec[k])
            == crate::watcher::ValueKind::Host {
            sm matches SummaryMessage::Host { stats, player_count, config: c, options: o } && o
                == options && crate::fuiz::spec_fuiz_equal(c, config) && player_count
                == crate::leaderboard::scorer_count(lb.spec_summary_history()) && stats@.len()
                == lb.spec_summary_history().len()
        } else {
            sm matches SummaryMessage::Player { score: _, points, config: c }
                && crate::fuiz::spec_fuiz_equal(c, config) && points@.len()
                == lb.spec_summary_history().len()
        })))
}

/// `post` extends `pre` by one frame per live watcher: players get their own
/// score, hosts and the unassigned the two most recent leaderboards.
pub open spec fn leaderboard_broadcast_ok(
    w: crate::watcher::Watchers,
    pre: Seq<crate::session::Outgoing>,
    post: Seq<crate::session::Outgoing>,
    live: Seq<Id>,
) -> bool {
    &&& post.len() == pre.len() + live.len()
    &&& (forall|i: int| 0 <= i < pre.len() ==> post[i] == (#[trigger] pre[i]))
    &&& (forall|k: int|
        0 <= k < live.len() ==> (#[trigger] post[pre.len() + k] matches crate::session::Outgoing::Update {
            to,
            message: crate::UpdateMessage::Game(m),
        } && to@ == seq![live[k]] && (if spec_kind_of(w, live[k])
            == crate::watcher::ValueKind::Player {
            m is Score
        } else {
            m is Leaderboard
        })))
}

/// One running game session: the composed state machine over watchers,
/// names, teams, the leaderboard, and the active slide.
pub struct Game {
    /// The fuiz being played, immutable once the game starts.
    pub fuiz_config: Fuiz,
    /// Who is connected to the game, by role.
    pub watchers: crate::watcher::Watchers,
    /// The name registry.
    pub names: crate::names::Names,
    /// The score history and standings.
    pub leaderboard: crate::leaderboard::Leaderboard,
    /// The phase of the whole game.
    pub state: State,
    /// The options the host chose.
    pub options: Options,
    /// Whether new joiners are held (no name prompt, no team assignment).
    pub locked: bool,
    /// The team manager, present exactly for team games.
    pub team_manager: Option<crate::teams::TeamManager>,
    /// The runtime state of the active slide.
    pub current_slide: Option<crate::fuiz::CurrentSlide>,
}

impl Game {
    /// The game's composite validity: every part well-formed, the active
    /// slide in range with a valid engine state, and the slide list within
    /// bounds.
    pub open spec fn wf(self) -> bool {
        &&& self.watchers.wf()
        &&& self.names.wf()
        &&& self.leaderboard.wf()
        &&& (self.team_manager matches Some(tm) ==> tm.wf() && tm.spec_optimal_size() >= 1)
        &&& self.options.spec_valid()
        &&& self.fuiz_config.spec_valid()
        &&& (self.options.teams is Some <==> self.team_manager is Some)
        &&& (self.current_slide matches Some(cs) ==> cs.index < self.fuiz_config.slides@.len()
            && crate::fuiz::slide_state_wf(cs.state))
        &&& (self.state matches State::Slide(i) ==> (self.current_slide matches Some(cs)
            && cs.index == i))
        &&& (self.state matches State::Slide(i) ==> i < self.fuiz_config.slides@.len())
        &&& (self.state matches State::Leaderboard(i) ==> i < self.fuiz_config.slides@.len())
    }

    /// A fresh game in the lobby, with the host pre-registered.
    pub fn new(fuiz: Fuiz, options: Options, host_id: Id) -> (r: Game)
        requires
            fuiz.spec_valid(),
            options.spec_valid(),
        ensures
            r.wf(),
            r.state == State::WaitingScreen,
            r.locked == false,
            r.watchers.value_map().contains_key(host_id),
            spec_fuiz_equal(r.fuiz_config, fuiz),
    {
        let team_manager = match options.teams {
            Some(t) => Some(crate::teams::TeamManager::new(t.size, t.assign_random)),
            None => None,
        };
        let r = Game {
            fuiz_config: fuiz.clone_value(),
            watchers: crate::watcher::Watchers::with_host_id(host_id),
            names: crate::names::Names::new(),
            leaderboard: crate::leaderboard::Leaderboard::new(),
            state: State::WaitingScreen,
            options,
            locked: false,
            team_manager,
            current_slide: None,
        };
        proof {
            assert forall|i: int| 0 <= i < r.fuiz_config.slides@.len() implies (
            #[trigger] r.fuiz_config.slides@[i]).spec_valid() by {
                assert(spec_slide_equal(r.fuiz_config.slides@[i], fuiz.slides@[i]));
                assert(fuiz.slides@[i].spec_valid());
            }
        }
        r
    }

    /// The identifier scores are recorded under: the player's team in a
    /// team game, the player otherwise.
    pub fn leaderboard_id(&self, player_id: Id) -> (r: Id)
        requires
            self.wf(),
    {
        match &self.team_manager {
            Some(tm) => match tm.get_team(player_id) {
                Some(t) => t,
                None => player_id,
            },
            None => player_id,
        }
    }

    /// A watcher's score message, under their leaderboard identifier.
    fn score(&self, watcher_id: Id) -> (r: Option<crate::leaderboard::ScoreMessage>)
        requires
            self.wf(),
    {
        let lid = self.leaderboard_id(watcher_id);
        self.leaderboard.score(lid)
    }

    /// The lobby name list: team names once teams are displayed, player
    /// names otherwise.
    fn waiting_screen_names(&self, connected: &IdSet) -> (r: crate::TruncatedVec<String>)
        requires
            self.wf(),
            connected.wf(),
    {
        match &self.team_manager {
            Some(tm) => {
                if matches!(self.state, State::TeamDisplay) {
                    match tm.team_names() {
                        Some(names) => {
                            return names;
                        },
                        None => {},
                    }
                }
            },
            None => {},
        }
        let players = self.watchers.specific_ids_vec(crate::watcher::ValueKind::Player);
        let mut names: Vec<String> = Vec::new();
        let mut i: usize = 0;
        while i < players.len()
            invariant
                0 <= i <= players@.len(),
                self.wf(),
            decreases players@.len() - i,
        {
            match self.watchers.get_name(players[i]) {
                Some(name) => {
                    // Skip duplicates so each display name shows once.
                    let mut seen = false;
                    let mut j: usize = 0;
                    while j < names.len()
                        invariant
                            0 <= j <= names@.len(),
                        decreases names@.len() - j + if seen {
                            0int
                        } else {
                            1int
                        },
                    {
                        if !seen && names[j] == name {
                            seen = true;
                            break ;
                        }
                        j += 1;
                    }
                    if !seen {
                        names.push(name);
                    }
                },
                None => {},
            }
            i += 1;
        }
        let count = self.watchers.specific_count(crate::watcher::ValueKind::Player);
        crate::TruncatedVec::new(names, 50, count)
    }

    /// The two most recent leaderboards, with identifiers replaced by names.
    fn leaderboard_message(&self) -> (r: LeaderboardMessage)
        requires
            self.wf(),
    {
        let (current, prior) = self.leaderboard.last_two_scores_descending();
        LeaderboardMessage {
            current: self.name_scores(current),
            prior: self.name_scores(prior),
        }
    }

    /// Replace each scorer's identifier with their registered name.
    fn name_scores(&self, scores: crate::TruncatedVec<(Id, u64)>) -> (r: crate::TruncatedVec<
        (String, u64),
    >)
        requires
            self.wf(),
    {
        let items = scores.items();
        let exact = scores.exact_count();
        let mut named: Vec<(String, u64)> = Vec::new();
        let mut i: usize = 0;
        while i < items.len()
            invariant
                0 <= i <= items@.len(),
                self.wf(),
            decreases items@.len() - i,
        {
            let (id, points) = items[i];
            let name = match self.names.get_name(id) {
                Some(n) => n,
                None => String::new(),
            };
            named.push((name, points));
            i += 1;
        }
        crate::TruncatedVec::new(named, 50, exact)
    }

    /// The prompt asking one player to pick teammates.
    fn choose_teammates_message(&self, watcher: Id, connected: &IdSet) -> (r: UpdateMessage)
        requires
            self.wf(),
            connected.wf(),
    {
        let max_selection = match &self.team_manager {
            Some(tm) => tm.max_team_size(),
            None => 1,
        };
        let pref: Vec<Id> = match &self.team_manager {
            Some(tm) => match tm.get_preferences(watcher) {
                Some(p) => p,
                None => Vec::new(),
            },
            None => Vec::new(),
        };
        let players = self.watchers.specific_ids_vec(crate::watcher::ValueKind::Player);
        let mut available: Vec<(String, bool)> = Vec::new();
        let mut i: usize = 0;
        while i < players.len()
            invariant
                0 <= i <= players@.len(),
                self.wf(),
            decreases players@.len() - i,
        {
            let id = players[i];
            match self.watchers.get_name(id) {
                Some(name) => {
                    let mut chosen = false;
                    let mut j: usize = 0;
                    while j < pref.len()
                        invariant
                            0 <= j <= pref@.len(),
                        decreases pref@.len() - j + if chosen {
                            0int
                        } else {
                            1int
                        },
                    {
                        if !chosen && pref[j] == id {
                            chosen = true;
                            break ;
                        }
                        j += 1;
                    }
                    available.push((name, chosen));
                },
                None => {},
            }
            i += 1;
        }
        UpdateMessage::ChooseTeammates { max_selection, available }
    }

    /// Start the game, or advance past the team display.
    ///
    /// With no slides configured the game jumps straight to done and the
    /// summary is broadcast. In a team game the first call freezes the
    /// partition and shows the teams; the next call enters the first slide.
    #[verifier::rlimit(100)]
    pub fn play(&mut self, connected: &IdSet, eff: &mut Effects, now: u64)
        requires
            old(self).wf(),
            connected.wf(),
        ensures
            final(self).wf(),
            crate::session::extends(old(eff).outgoing@, final(eff).outgoing@),
            crate::session::extends_alarms(old(eff).alarms@, final(eff).alarms@),
            old(self).fuiz_config.slides@.len() == 0 ==> final(self).state == State::Done
                && summary_broadcast_ok(
                old(self).watchers,
                final(self).leaderboard,
                old(self).options,
                old(self).fuiz_config,
                old(eff).outgoing@,
                final(eff).outgoing@,
                old(self).watchers.ordered_ids().filter(|id: Id| connected@.contains(id)),
            ) && final(eff).alarms@ == old(eff).alarms@,
            (old(self).fuiz_config.slides@.len() > 0 && old(self).team_manager is None && old(self).state == State::WaitingScreen) ==> final(self).state == State::Slide(0),
            (old(self).fuiz_config.slides@.len() > 0 && old(self).team_manager is Some && old(self).state == State::WaitingScreen) ==> final(self).state == State::TeamDisplay
                && team_display_broadcast_ok(
                final(self).watchers,
                final(self).team_manager,
                final(self).names,
                old(eff).outgoing@,
                final(eff).outgoing@,
                final(self).watchers.ordered_ids().filter(|id: Id| connected@.contains(id)),
            ) && final(eff).alarms@ == old(eff).alarms@,
            (old(self).fuiz_config.slides@.len() > 0 && old(self).state == State::TeamDisplay)
                ==> final(self).state == State::Slide(0),
            (old(self).fuiz_config.slides@.len() > 0 && ((old(self).team_manager is None && old(self).state == State::WaitingScreen) || old(self).state == State::TeamDisplay)) ==> (
            final(self).current_slide matches Some(cs) && cs.index == 0
                && crate::fuiz::state_matches_config(
                cs.state,
                old(self).fuiz_config.slides@[0],
            ) && crate::fuiz::slide_phase_index(cs.state) >= 1) && final(eff).outgoing@.len()
                > old(eff).outgoing@.len(),
    {
        if self.fuiz_config.len() > 0 {
            let mut finalize_teams = false;
            match &self.team_manager {
                Some(_) => {
                    if matches!(self.state, State::WaitingScreen) {
                        finalize_teams = true;
                    }
                },
                None => {},
            }
            if finalize_teams {
                let mut holder: Option<crate::teams::TeamManager> = None;
                core::mem::swap(&mut holder, &mut self.team_manager);
                let mut tm = match holder {
                    Some(tm) => tm,
                    None => {
                        // Unreachable: just matched Some.
                        crate::teams::TeamManager::new(1, true)
                    },
                };
                tm.finalize(&mut self.watchers, &mut self.names, connected);
                self.team_manager = Some(tm);
                self.state = State::TeamDisplay;
                // Per role: players learn their team, others see the list.
                let live = self.watchers.live_ids_vec(connected);
                let ghost w0 = self.watchers;
                let ghost tm0 = self.team_manager;
                let ghost names0 = self.names;
                let mut i: usize = 0;
                while i < live.len()
                    invariant
                        0 <= i <= live@.len(),
                        self.wf(),
                        self.state == State::TeamDisplay,
                        connected.wf(),
                        self.watchers == w0,
                        self.team_manager == tm0,
                        self.names == names0,
                        live@ == w0.ordered_ids().filter(|id: Id| connected@.contains(id)),
                        eff.alarms@ == old(eff).alarms@,
                        team_display_broadcast_ok(
                            w0,
                            tm0,
                            names0,
                            old(eff).outgoing@,
                            eff.outgoing@,
                            live@.take(i as int),
                        ),
                    decreases live@.len() - i,
                {
                    let ghost before_out = eff.outgoing@;
                    let id = live[i];
                    let kind = match self.watchers.get_watcher_value(id) {
                        Some(v) => v.kind(),
                        None => crate::watcher::ValueKind::Unassigned,
                    };
                    match kind {
                        crate::watcher::ValueKind::Player => {
                            let team_name = match &self.team_manager {
                                Some(tm) => match tm.get_team(id) {
                                    Some(t) => match self.names.get_name(t) {
                                        Some(n) => n,
                                        None => String::new(),
                                    },
                                    None => String::new(),
                                },
                                None => String::new(),
                            };
                            eff.send(id, crate::UpdateMessage::Game(UpdateMessage::FindTeam(team_name)));
                        },
                        _ => {
                            let team_names = match &self.team_manager {
                                Some(tm) => match tm.team_names() {
                                    Some(n) => n,
                                    None => crate::TruncatedVec::new(Vec::new(), 50, 0),
                                },
                                None => crate::TruncatedVec::new(Vec::new(), 50, 0),
                            };
                            eff.send(
                                id,
                                crate::UpdateMessage::Game(UpdateMessage::TeamDisplay(team_names)),
                            );
                        },
                    }
                    proof {
                        assert(live@.take(i + 1) =~= live@.take(i as int).push(live@[i as int]));
                        assert forall|k: int|
                            0 <= k < i + 1 implies (#[trigger] eff.outgoing@[old(eff).outgoing@.len() + k] matches crate::session::Outgoing::Update {
                            to,
                            message: crate::UpdateMessage::Game(m),
                        } && to@ == seq![live@.take(i + 1)[k]] && (if spec_kind_of(
                            w0,
                            live@.take(i + 1)[k],
                        ) == crate::watcher::ValueKind::Player {
                            m matches UpdateMessage::FindTeam(n) && (tm0 matches Some(tm)
                                ==> (tm.team_map().contains_key(live@.take(i + 1)[k])
                                && names0.name_map().contains_key(
                                tm.team_map()[live@.take(i + 1)[k]],
                            ) ==> n@ == names0.name_map()[tm.team_map()[live@.take(i + 1)[k]]]@))
                        } else {
                            m is TeamDisplay
                        })) by {
                            if k < i {
                                assert(eff.outgoing@[old(eff).outgoing@.len() + k] == before_out[
                                    old(eff).outgoing@.len() + k]);
                                assert(live@.take(i + 1)[k] == live@.take(i as int)[k]);
                            } else {
                                assert(live@.take(i + 1)[k] == id);
                                assert(eff.outgoing@[old(eff).outgoing@.len() + k]
                                    == eff.outgoing@.last());
                            }
                        }
                    }
                    i += 1;
                }
                proof {
                    assert(live@.take(live@.len() as int) =~= live@);
                }
                return ;
            }
            self.state = State::Slide(0);
            let mut slide_state = self.fuiz_config.slides[0].to_state();
            proof {
                let sc = self.fuiz_config.slides@[0];
                assert(sc.spec_valid());
                match &slide_state {
                    crate::fuiz::SlideState::MultipleChoice(e) => {
                        assert(sc is MultipleChoice);
                        let c = sc->MultipleChoice_0;
                        assert(crate::multiple_choice::spec_config_equal(e.config, c));
                        assert(crate::fuiz::spec_durations_valid(
                            c.introduce_question,
                            c.time_limit,
                        ));
                        assert(crate::fuiz::spec_durations_valid(
                            e.config.introduce_question,
                            e.config.time_limit,
                        ));
                    },
                    crate::fuiz::SlideState::TypeAnswer(e) => {
                        assert(sc is TypeAnswer);
                        let c = sc->TypeAnswer_0;
                        assert(crate::type_answer::spec_config_equal(e.config, c));
                        assert(crate::fuiz::spec_durations_valid(
                            e.config.introduce_question,
                            e.config.time_limit,
                        ));
                    },
                    crate::fuiz::SlideState::Order(e) => {
                        assert(sc is Order);
                        let c = sc->Order_0;
                        assert(crate::order::spec_config_equal(e.config, c));
                        assert(crate::fuiz::spec_durations_valid(
                            e.config.introduce_question,
                            e.config.time_limit,
                        ));
                    },
                }
                assert(crate::fuiz::slide_state_wf(slide_state));
            }
            let count = self.fuiz_config.len();
            crate::fuiz::SlideState::play(
                &mut slide_state,
                self.team_manager.as_ref(),
                &self.watchers,
                connected,
                eff,
                now,
                0,
                count,
            );
            self.current_slide = Some(crate::fuiz::CurrentSlide { index: 0, state: slide_state });
        } else {
            self.announce_summary(connected, eff);
        }
    }

    /// Broadcast the final summary and mark the game done: one frame per
    /// live host or player, none to the unassigned.
    fn announce_summary(&mut self, connected: &IdSet, eff: &mut Effects)
        requires
            old(self).wf(),
            connected.wf(),
        ensures
            final(self).wf(),
            final(self).state == State::Done,
            crate::session::extends(old(eff).outgoing@, final(eff).outgoing@),
            final(eff).alarms@ == old(eff).alarms@,
            final(self).leaderboard.history() == old(self).leaderboard.history(),
            final(self).watchers == old(self).watchers,
            final(self).names == old(self).names,
            final(self).options == old(self).options,
            final(self).fuiz_config == old(self).fuiz_config,
            final(self).team_manager == old(self).team_manager,
            summary_broadcast_ok(
                old(self).watchers,
                final(self).leaderboard,
                old(self).options,
                old(self).fuiz_config,
                old(eff).outgoing@,
                final(eff).outgoing@,
                old(self).watchers.ordered_ids().filter(|id: Id| connected@.contains(id)),
            ),
    {
        proof {
            broadcast use Seq::lemma_filter_push;

        }
        self.state = State::Done;
        let show_real = !self.options.no_leaderboard;
        let live = self.watchers.live_ids_vec(connected);
        let mut i: usize = 0;
        while i < live.len()
            invariant
                0 <= i <= live@.len(),
                self.wf(),
                self.state == State::Done,
                connected.wf(),
                self.leaderboard.history() == old(self).leaderboard.history(),
                self.watchers == old(self).watchers,
                self.names == old(self).names,
                self.options == old(self).options,
                self.fuiz_config == old(self).fuiz_config,
                self.team_manager == old(self).team_manager,
                live@ == old(self).watchers.ordered_ids().filter(
                    |id: Id| connected@.contains(id),
                ),
                eff.alarms@ == old(eff).alarms@,
                live@.take(i as int).filter(
                    |id2: Id| spec_kind_of(old(self).watchers, id2)
                        != crate::watcher::ValueKind::Unassigned,
                ).len() > 0 ==> self.leaderboard.summary_captured(),
                summary_broadcast_ok(
                    old(self).watchers,
                    self.leaderboard,
                    old(self).options,
                    old(self).fuiz_config,
                    old(eff).outgoing@,
                    eff.outgoing@,
                    live@.take(i as int),
                ),
            decreases live@.len() - i,
        {
            proof {
                broadcast use Seq::lemma_filter_push;

                assert(live@.take(i + 1) =~= live@.take(i as int).push(live@[i as int]));
            }
            let ghost before_out = eff.outgoing@;
            let ghost before_lb = self.leaderboard;
            let id = live[i];
            let kind = match self.watchers.get_watcher_value(id) {
                Some(v) => v.kind(),
                None => crate::watcher::ValueKind::Unassigned,
            };
            match kind {
                crate::watcher::ValueKind::Host => {
                    let (player_count, stats) = self.leaderboard.host_summary(show_real);
                    eff.send(
                        id,
                        crate::UpdateMessage::Game(
                            UpdateMessage::Summary(
                                SummaryMessage::Host {
                                    stats,
                                    player_count,
                                    config: self.fuiz_config.clone_value(),
                                    options: self.options,
                                },
                            ),
                        ),
                    );
                },
                crate::watcher::ValueKind::Player => {
                    let score = if self.options.no_leaderboard {
                        None
                    } else {
                        self.score(id)
                    };
                    let lid = self.leaderboard_id(id);
                    let points = self.leaderboard.player_summary(lid, show_real);
                    eff.send(
                        id,
                        crate::UpdateMessage::Game(
                            UpdateMessage::Summary(
                                SummaryMessage::Player {
                                    score,
                                    points,
                                    config: self.fuiz_config.clone_value(),
                                },
                            ),
                        ),
                    );
                },
                crate::watcher::ValueKind::Unassigned => {},
            }
            proof {
                let kf = |id2: Id| spec_kind_of(old(self).watchers, id2)
                    != crate::watcher::ValueKind::Unassigned;
                let ghost rec_next = live@.take(i + 1).filter(kf);
                let ghost rec_prev = live@.take(i as int).filter(kf);
                if spec_kind_of(old(self).watchers, id) == crate::watcher::ValueKind::Unassigned {
                    assert(rec_next =~= rec_prev);
                    assert(eff.outgoing@ == before_out);
                } else {
                    assert(rec_next =~= rec_prev.push(id));
                }
                assert forall|k: int|
                    0 <= k < rec_next.len() implies (#[trigger] eff.outgoing@[old(eff).outgoing@.len() + k] matches crate::session::Outgoing::Update {
                    to,
                    message: crate::UpdateMessage::Game(UpdateMessage::Summary(sm)),
                } && to@ == seq![rec_next[k]] && (if spec_kind_of(old(self).watchers, rec_next[k])
                    == crate::watcher::ValueKind::Host {
                    sm matches SummaryMessage::Host { stats, player_count, config: c, options: o }
                        && o == old(self).options && crate::fuiz::spec_fuiz_equal(
                        c,
                        old(self).fuiz_config,
                    ) && player_count == crate::leaderboard::scorer_count(
                        self.leaderboard.spec_summary_history(),
                    ) && stats@.len() == self.leaderboard.spec_summary_history().len()
                } else {
                    sm matches SummaryMessage::Player { score: _, points, config: c }
                        && crate::fuiz::spec_fuiz_equal(c, old(self).fuiz_config) && points@.len()
                        == self.leaderboard.spec_summary_history().len()
                })) by {
                    if k < rec_prev.len() {
                        assert(eff.outgoing@[old(eff).outgoing@.len() + k] == before_out[old(eff).outgoing@.len() + k]);
                        assert(rec_next[k] == rec_prev[k]);
                        assert(before_lb.summary_captured());
                        assert(self.leaderboard.spec_summary_history()
                            == before_lb.spec_summary_history());
                    } else {
                        assert(rec_next[k] == id);
                        assert(eff.outgoing@[old(eff).outgoing@.len() + k]
                            == eff.outgoing@.last());
                    }
                }
            }
            i += 1;
        }
        proof {
            assert(live@.take(live@.len() as int) =~= live@);
        }
    }

    /// Advance past a finished slide: next slide, leaderboard screen, or
    /// the final summary.
    pub fn finish_slide(&mut self, connected: &IdSet, eff: &mut Effects, now: u64)
        requires
            old(self).wf(),
            connected.wf(),
        ensures
            final(self).wf(),
            crate::session::extends(old(eff).outgoing@, final(eff).outgoing@),
            crate::session::extends_alarms(old(eff).alarms@, final(eff).alarms@),
            (old(self).state is Slide && !old(self).options.no_leaderboard) ==> final(self).state
                == State::Leaderboard(old(self).state->Slide_0) && leaderboard_broadcast_ok(
                old(self).watchers,
                old(eff).outgoing@,
                final(eff).outgoing@,
                old(self).watchers.ordered_ids().filter(|id: Id| connected@.contains(id)),
            ) && final(eff).alarms@ == old(eff).alarms@,
            (old(self).state is Slide && old(self).options.no_leaderboard && old(self).state->Slide_0 + 1 < old(self).fuiz_config.slides@.len()) ==> final(self).state
                == State::Slide((old(self).state->Slide_0 + 1) as usize) && (final(self).current_slide matches Some(cs) && cs.index == old(self).state->Slide_0 + 1
                && crate::fuiz::state_matches_config(
                cs.state,
                old(self).fuiz_config.slides@[old(self).state->Slide_0 + 1],
            ) && crate::fuiz::slide_phase_index(cs.state) >= 1) && final(eff).outgoing@.len()
                > old(eff).outgoing@.len(),
            (old(self).state is Slide && old(self).options.no_leaderboard && old(self).state->Slide_0 + 1 >= old(self).fuiz_config.slides@.len()) ==> final(self).state
                == State::Done && summary_broadcast_ok(
                old(self).watchers,
                final(self).leaderboard,
                old(self).options,
                old(self).fuiz_config,
                old(eff).outgoing@,
                final(eff).outgoing@,
                old(self).watchers.ordered_ids().filter(|id: Id| connected@.contains(id)),
            ) && final(eff).alarms@ == old(eff).alarms@,
            !(old(self).state is Slide) ==> final(self).state == old(self).state && *final(eff)
                == *old(eff),
            final(self).leaderboard.history() == old(self).leaderboard.history(),
    {
        let index = match self.state {
            State::Slide(i) => i,
            _ => {
                return ;
            },
        };
        if self.options.no_leaderboard {
            if index + 1 < self.fuiz_config.len() {
                self.state = State::Slide(index + 1);
                let mut slide_state = self.fuiz_config.slides[index + 1].to_state();
                proof {
                    let sc = self.fuiz_config.slides@[index + 1];
                    assert(sc.spec_valid());
                    match &slide_state {
                        crate::fuiz::SlideState::MultipleChoice(e) => {
                            assert(crate::fuiz::spec_durations_valid(
                                e.config.introduce_question,
                                e.config.time_limit,
                            ));
                        },
                        crate::fuiz::SlideState::TypeAnswer(e) => {
                            assert(crate::fuiz::spec_durations_valid(
                                e.config.introduce_question,
                                e.config.time_limit,
                            ));
                        },
                        crate::fuiz::SlideState::Order(e) => {
                            assert(crate::fuiz::spec_durations_valid(
                                e.config.introduce_question,
                                e.config.time_limit,
                            ));
                        },
                    }
                    assert(crate::fuiz::slide_state_wf(slide_state));
                }
                let count = self.fuiz_config.len();
                crate::fuiz::SlideState::play(
                    &mut slide_state,
                    self.team_manager.as_ref(),
                    &self.watchers,
                    connected,
                    eff,
                    now,
                    index + 1,
                    count,
                );
                self.current_slide = Some(
                    crate::fuiz::CurrentSlide { index: index + 1, state: slide_state },
                );
            } else {
                self.announce_summary(connected, eff);
            }
        } else {
            self.state = State::Leaderboard(index);
            let live = self.watchers.live_ids_vec(connected);
            let ghost w0 = self.watchers;
            let mut i: usize = 0;
            while i < live.len()
                invariant
                    0 <= i <= live@.len(),
                    self.wf(),
                    connected.wf(),
                    self.state == State::Leaderboard(index),
                    index < self.fuiz_config.slides@.len(),
                    self.leaderboard.history() == old(self).leaderboard.history(),
                    self.watchers == w0,
                    w0 == old(self).watchers,
                    live@ == w0.ordered_ids().filter(|id: Id| connected@.contains(id)),
                    eff.alarms@ == old(eff).alarms@,
                    leaderboard_broadcast_ok(
                        w0,
                        old(eff).outgoing@,
                        eff.outgoing@,
                        live@.take(i as int),
                    ),
                decreases live@.len() - i,
            {
                let ghost before_out = eff.outgoing@;
                let id = live[i];
                let kind = match self.watchers.get_watcher_value(id) {
                    Some(v) => v.kind(),
                    None => crate::watcher::ValueKind::Unassigned,
                };
                match kind {
                    crate::watcher::ValueKind::Player => {
                        let score = self.score(id);
                        eff.send(id, crate::UpdateMessage::Game(UpdateMessage::Score { score }));
                    },
                    _ => {
                        let lb = self.leaderboard_message();
                        eff.send(
                            id,
                            crate::UpdateMessage::Game(
                                UpdateMessage::Leaderboard { leaderboard: lb },
                            ),
                        );
                    },
                }
                proof {
                    assert(live@.take(i + 1) =~= live@.take(i as int).push(live@[i as int]));
                    assert forall|k: int|
                        0 <= k < i + 1 implies (#[trigger] eff.outgoing@[old(eff).outgoing@.len() + k] matches crate::session::Outgoing::Update {
                        to,
                        message: crate::UpdateMessage::Game(m),
                    } && to@ == seq![live@.take(i + 1)[k]] && (if spec_kind_of(
                        w0,
                        live@.take(i + 1)[k],
                    ) == crate::watcher::ValueKind::Player {
                        m is Score
                    } else {
                        m is Leaderboard
                    })) by {
                        if k < i {
                            assert(eff.outgoing@[old(eff).outgoing@.len() + k] == before_out[old(eff).outgoing@.len() + k]);
                            assert(live@.take(i + 1)[k] == live@.take(i as int)[k]);
                        } else {
                            assert(live@.take(i + 1)[k] == id);
                            assert(eff.outgoing@[old(eff).outgoing@.len() + k]
                                == eff.outgoing@.last());
                        }
                    }
                }
                i += 1;
            }
            proof {
                assert(live@.take(live@.len() as int) =~= live@);
            }
        }
    }

    /// Mark the game done and order every live tunnel closed: exactly one
    /// close per connected watcher, in broadcast order.
    pub fn mark_as_done(&mut self, connected: &IdSet, eff: &mut Effects)
        requires
            old(self).wf(),
            connected.wf(),
        ensures
            final(self).wf(),
            final(self).state == State::Done,
            closes_all(
                old(eff).outgoing@,
                final(eff).outgoing@,
                old(self).watchers.ordered_ids().filter(|id: Id| connected@.contains(id)),
            ),
            final(eff).alarms@ == old(eff).alarms@,
            final(self).watchers == old(self).watchers,
            final(self).leaderboard == old(self).leaderboard,
    {
        self.state = State::Done;
        let live = self.watchers.live_ids_vec(connected);
        let mut i: usize = 0;
        while i < live.len()
            invariant
                0 <= i <= live@.len(),
                self.wf(),
                self.state == State::Done,
                live@ == old(self).watchers.ordered_ids().filter(
                    |id: Id| connected@.contains(id),
                ),
                closes_all(old(eff).outgoing@, eff.outgoing@, live@.take(i as int)),
                eff.alarms@ == old(eff).alarms@,
            decreases live@.len() - i,
        {
            let ghost before = eff.outgoing@;
            eff.close(live[i]);
            proof {
                assert(live@.take(i + 1).drop_last() =~= live@.take(i as int));
                assert forall|k: int|
                    0 <= k < i + 1 implies (#[trigger] eff.outgoing@[old(eff).outgoing@.len() + k]
                    matches crate::session::Outgoing::Close { to } && to == live@.take(i + 1)[k]) by {
                    if k < i {
                        assert(eff.outgoing@[old(eff).outgoing@.len() + k] == before[old(eff).outgoing@.len() + k]);
                    } else {
                        assert(eff.outgoing@[old(eff).outgoing@.len() + k]
                            == eff.outgoing@.last());
                    }
                }
            }
            i += 1;
        }
        proof {
            assert(live@.take(live@.len() as int) =~= live@);
        }
    }
}


impl Game {
    /// Send a player their game metadata: exactly one sync frame carrying
    /// their score and the show-answers flag.
    fn update_player_with_options(&self, watcher: Id, eff: &mut Effects)
        requires
            self.wf(),
        ensures
            crate::session::extends(old(eff).outgoing@, final(eff).outgoing@),
            final(eff).alarms@ == old(eff).alarms@,
            final(eff).outgoing@.len() == old(eff).outgoing@.len() + 1,
            final(eff).outgoing@.last() matches crate::session::Outgoing::Sync { to, message }
                && to == watcher && (message matches crate::SyncMessage::Game(
                SyncMessage::Metainfo(MetainfoMessage::Player { score: _, show_answers }),
            ) && show_answers == self.options.show_answers),
    {
        let score = match self.score(watcher) {
            Some(s) => s.points,
            None => 0,
        };
        eff.send_state(
            watcher,
            crate::SyncMessage::Game(
                SyncMessage::Metainfo(
                    MetainfoMessage::Player { score, show_answers: self.options.show_answers },
                ),
            ),
        );
    }

    /// Tell a player their new name, refresh their metadata, update the
    /// waiting screen, and synchronize their state.
    pub fn update_player_with_name(
        &self,
        watcher: Id,
        name: &String,
        connected: &IdSet,
        eff: &mut Effects,
        now: u64,
    )
        requires
            self.wf(),
            connected.wf(),
        ensures
            crate::session::extends(old(eff).outgoing@, final(eff).outgoing@),
            crate::session::extends_alarms(old(eff).alarms@, final(eff).alarms@),
    {
        eff.send(watcher, crate::UpdateMessage::Game(UpdateMessage::NameAssign(name.clone())));
        self.update_player_with_options(watcher, eff);
        if name.as_str().unicode_len() > 0 {
            if matches!(self.state, State::WaitingScreen) {
                let mut prompt_choices = false;
                match &self.team_manager {
                    Some(tm) => {
                        if !tm.is_random_assignments() {
                            prompt_choices = true;
                        }
                    },
                    None => {},
                }
                if prompt_choices {
                    let players = self.watchers.specific_ids_vec(
                        crate::watcher::ValueKind::Player,
                    );
                    let mut i: usize = 0;
                    while i < players.len()
                        invariant
                            0 <= i <= players@.len(),
                            self.wf(),
                            connected.wf(),
                            crate::session::extends(old(eff).outgoing@, eff.outgoing@),
                            crate::session::extends_alarms(old(eff).alarms@, eff.alarms@),
                        decreases players@.len() - i,
                    {
                        let id = players[i];
                        if connected.contains(id) {
                            let msg = self.choose_teammates_message(id, connected);
                            eff.send(id, crate::UpdateMessage::Game(msg));
                        }
                        i += 1;
                    }
                }
                let names = self.waiting_screen_names(connected);
                let hosts = self.watchers.specific_ids_vec(crate::watcher::ValueKind::Host);
                let mut live_hosts: Vec<Id> = Vec::new();
                let mut i: usize = 0;
                while i < hosts.len()
                    invariant
                        0 <= i <= hosts@.len(),
                    decreases hosts@.len() - i,
                {
                    if connected.contains(hosts[i]) {
                        live_hosts.push(hosts[i]);
                    }
                    i += 1;
                }
                eff.send_to(
                    live_hosts,
                    crate::UpdateMessage::Game(UpdateMessage::WaitingScreen(names)),
                );
            }
        }
        let sync = self.state_message(watcher, crate::watcher::ValueKind::Player, connected, now);
        eff.send_state(watcher, sync);
    }

    /// Bind a requested name to a watcher: on success the watcher becomes an
    /// individual player and learns their name.
    fn assign_player_name(
        &mut self,
        watcher: Id,
        name: &str,
        connected: &IdSet,
        eff: &mut Effects,
        now: u64,
    ) -> (r: Result<(), crate::names::Error>)
        requires
            old(self).wf(),
            connected.wf(),
        ensures
            final(self).wf(),
            crate::session::extends(old(eff).outgoing@, final(eff).outgoing@),
            crate::session::extends_alarms(old(eff).alarms@, final(eff).alarms@),
            final(self).state == old(self).state,
            r is Ok ==> final(self).names.name_map().contains_key(watcher),
            forall|id: Id|
                final(self).watchers.value_map().contains_key(id) <==> old(self).watchers.value_map().contains_key(id),
    {
        let assigned = match self.names.set_name(watcher, name) {
            Ok(n) => n,
            Err(e) => {
                return Err(e);
            },
        };
        self.watchers.update_watcher_value(
            watcher,
            crate::watcher::Value::Player(
                crate::watcher::PlayerValue::Individual { name: assigned.clone() },
            ),
        );
        self.update_player_with_name(watcher, &assigned, connected, eff, now);
        Ok(())
    }

    /// Start interactions with a fresh unassigned watcher: team assignment
    /// if teams are frozen, then a random name or a name prompt.
    fn handle_unassigned(&mut self, watcher: Id, connected: &IdSet, eff: &mut Effects, now: u64)
        requires
            old(self).wf(),
            connected.wf(),
        ensures
            final(self).wf(),
            crate::session::extends(old(eff).outgoing@, final(eff).outgoing@),
            crate::session::extends_alarms(old(eff).alarms@, final(eff).alarms@),
            final(self).state == old(self).state,
            forall|id: Id|
                final(self).watchers.value_map().contains_key(id) <==> old(self).watchers.value_map().contains_key(id),
    {
        let mut joined_team: Option<String> = None;
        let mut holder: Option<crate::teams::TeamManager> = None;
        core::mem::swap(&mut holder, &mut self.team_manager);
        match holder {
            Some(mut tm) => {
                joined_team = tm.add_player(watcher, &mut self.watchers);
                self.team_manager = Some(tm);
            },
            None => {
                self.team_manager = None;
            },
        }
        proof {
            assert(self.wf());
        }
        match joined_team {
            Some(team_name) => {
                self.update_player_with_name(watcher, &team_name, connected, eff, now);
            },
            None => {},
        }
        if self.options.random_names {
            let mut attempts: usize = 0;
            while attempts < RANDOM_NAME_ATTEMPTS
                invariant
                    self.wf(),
                    self.state == old(self).state,
                    connected.wf(),
                    crate::session::extends(old(eff).outgoing@, eff.outgoing@),
                    crate::session::extends_alarms(old(eff).alarms@, eff.alarms@),
                    forall|id: Id|
                        self.watchers.value_map().contains_key(id) <==> old(self).watchers.value_map().contains_key(id),
                decreases RANDOM_NAME_ATTEMPTS - attempts,
            {
                match random_player_name() {
                    Some(word) => {
                        let cased = to_title_case(word.as_str());
                        match self.assign_player_name(watcher, cased.as_str(), connected, eff, now)
                        {
                            Ok(()) => {
                                return ;
                            },
                            Err(_) => {},
                        }
                    },
                    None => {},
                }
                attempts += 1;
            }
        } else {
            eff.send(watcher, crate::UpdateMessage::Game(UpdateMessage::NameChoose));
        }
    }

    /// Register a fresh unassigned watcher; a locked game stores it inert.
    pub fn add_unassigned(
        &mut self,
        watcher: Id,
        connected: &IdSet,
        eff: &mut Effects,
        now: u64,
    ) -> (r: Result<(), crate::watcher::Error>)
        requires
            old(self).wf(),
            connected.wf(),
        ensures
            final(self).wf(),
            crate::session::extends(old(eff).outgoing@, final(eff).outgoing@),
            crate::session::extends_alarms(old(eff).alarms@, final(eff).alarms@),
            final(self).state == old(self).state,
            r is Err <==> old(self).watchers.spec_len() >= crate::watcher::MAX_PLAYERS,
            r is Ok ==> final(self).watchers.value_map().contains_key(watcher),
            (r is Ok && old(self).locked) ==> final(self).watchers.value_map()[watcher]
                == crate::watcher::Value::Unassigned && *final(eff) == *old(eff),
            r is Err ==> *final(self) == *old(self) && *final(eff) == *old(eff),
    {
        match self.watchers.add_watcher(watcher, crate::watcher::Value::Unassigned) {
            Ok(()) => {},
            Err(e) => {
                return Err(e);
            },
        }
        if !self.locked {
            self.handle_unassigned(watcher, connected, eff, now);
        }
        Ok(())
    }

    /// Handle one incoming message: role-checked, then routed to the game
    /// machine or the active slide.
    #[verifier::loop_isolation(false)]
    #[verifier::rlimit(100)]
    pub fn receive_message(
        &mut self,
        watcher_id: Id,
        message: IncomingMessage,
        connected: &IdSet,
        eff: &mut Effects,
        now: u64,
    )
        requires
            old(self).wf(),
            connected.wf(),
        ensures
            final(self).wf(),
            crate::session::extends(old(eff).outgoing@, final(eff).outgoing@),
            crate::session::extends_alarms(old(eff).alarms@, final(eff).alarms@),
            !old(self).watchers.value_map().contains_key(watcher_id) ==> *final(self) == *old(self) && *final(eff) == *old(eff),
            (old(self).watchers.value_map().contains_key(watcher_id) && !message.spec_follows(
                old(self).watchers.value_map()[watcher_id].spec_kind(),
            )) ==> *final(self) == *old(self) && *final(eff) == *old(eff),
            (message == IncomingMessage::Host(IncomingHostMessage::Lock(true)) && old(self).watchers.value_map().contains_key(watcher_id) && old(self).watchers.value_map()[watcher_id].spec_kind() == crate::watcher::ValueKind::Host)
                ==> final(self).locked == true,
            (message == IncomingMessage::Host(IncomingHostMessage::Lock(false)) && old(self).watchers.value_map().contains_key(watcher_id) && old(self).watchers.value_map()[watcher_id].spec_kind() == crate::watcher::ValueKind::Host)
                ==> final(self).locked == false,
            forall|b: bool|
                (message == IncomingMessage::Host(IncomingHostMessage::Lock(b)) && old(self).watchers.value_map().contains_key(watcher_id) && old(self).watchers.value_map()[watcher_id].spec_kind()
                    == crate::watcher::ValueKind::Host) ==> final(self).locked == b && final(self).state == old(self).state && final(self).watchers == old(self).watchers && final(self).names == old(self).names && final(self).leaderboard == old(self).leaderboard
                    && final(self).team_manager == old(self).team_manager && final(self).current_slide == old(self).current_slide && final(self).options == old(self).options && final(self).fuiz_config == old(self).fuiz_config && *final(eff)
                    == *old(eff),
            (old(self).locked && message matches IncomingMessage::Unassigned(_)) ==> *final(self)
                == *old(self) && *final(eff) == *old(eff),
            (spec_routed(*old(self), watcher_id, message) && message == IncomingMessage::Host(
                IncomingHostMessage::Next,
            ) && (old(self).state == State::WaitingScreen || old(self).state
                == State::TeamDisplay)) ==> {
                &&& (old(self).fuiz_config.slides@.len() == 0 ==> final(self).state == State::Done)
                &&& (old(self).fuiz_config.slides@.len() > 0 && old(self).team_manager is None
                    && old(self).state == State::WaitingScreen ==> final(self).state
                    == State::Slide(0))
                &&& (old(self).fuiz_config.slides@.len() > 0 && old(self).team_manager is Some
                    && old(self).state == State::WaitingScreen ==> final(self).state
                    == State::TeamDisplay)
                &&& (old(self).fuiz_config.slides@.len() > 0 && old(self).state
                    == State::TeamDisplay ==> final(self).state == State::Slide(0))
            },
            (spec_routed(*old(self), watcher_id, message) && message == IncomingMessage::Host(
                IncomingHostMessage::Next,
            ) && old(self).state is Leaderboard) ==> {
                let i = old(self).state->Leaderboard_0;
                &&& (i + 1 >= old(self).fuiz_config.slides@.len() ==> final(self).state
                    == State::Done)
                &&& (i + 1 < old(self).fuiz_config.slides@.len() ==> final(self).state
                    == State::Slide((i + 1) as usize))
            },
            (spec_routed(*old(self), watcher_id, message) && message == IncomingMessage::Host(
                IncomingHostMessage::Next,
            ) && old(self).state == State::Done) ==> final(self).state == State::Done,
            (spec_routed(*old(self), watcher_id, message) && old(self).state is Slide) ==> {
                let i = old(self).state->Slide_0;
                &&& old(self).current_slide is Some
                &&& exists|mid: crate::fuiz::SlideState, completed: bool|
                    {
                        &&& #[trigger] crate::fuiz::slide_step_ok(
                            old(self).current_slide->Some_0.state,
                            mid,
                            message,
                            watcher_id,
                            now,
                            old(self).watchers.spec_alive_players(connected@),
                            completed,
                        )
                        &&& (!completed ==> final(self).state == old(self).state
                            && (final(self).current_slide matches Some(cs2) && cs2.index == i
                                && cs2.state == mid) && final(self).leaderboard == old(self).leaderboard)
                        &&& (completed ==> {
                            &&& final(self).leaderboard.history().drop_last() == old(self).leaderboard.history()
                            &&& crate::fuiz::slide_deltas_ok(
                                old(self).current_slide->Some_0.state,
                                final(self).leaderboard.history().last(),
                                old(self).team_manager,
                                old(self).watchers.spec_alive_players(connected@),
                                now,
                            )
                            &&& (!old(self).options.no_leaderboard ==> final(self).state
                                == State::Leaderboard(i))
                            &&& (old(self).options.no_leaderboard && i + 1 < old(self).fuiz_config.slides@.len() ==> final(self).state == State::Slide(
                                (i + 1) as usize,
                            ))
                            &&& (old(self).options.no_leaderboard && i + 1 >= old(self).fuiz_config.slides@.len() ==> final(self).state == State::Done)
                        })
                    }
            },
    {
        let value = match self.watchers.get_watcher_value(watcher_id) {
            Some(v) => v,
            None => {
                return ;
            },
        };
        if !message.follows(value.kind()) {
            return ;
        }
        match message {
            IncomingMessage::Unassigned(_) if self.locked => {},
            IncomingMessage::Host(IncomingHostMessage::Lock(lock_state)) => {
                self.locked = lock_state;
            },
            IncomingMessage::Unassigned(IncomingUnassignedMessage::NameRequest(s)) => {
                if !self.options.random_names {
                    match self.assign_player_name(watcher_id, s.as_str(), connected, eff, now) {
                        Ok(()) => {},
                        Err(e) => {
                            eff.send(
                                watcher_id,
                                crate::UpdateMessage::Game(UpdateMessage::NameError(e)),
                            );
                        },
                    }
                }
            },
            IncomingMessage::Player(IncomingPlayerMessage::ChooseTeammates(preferences)) => {
                let mut ids: Vec<Id> = Vec::new();
                let mut i: usize = 0;
                while i < preferences.len()
                    invariant
                        0 <= i <= preferences@.len(),
                        self.wf(),
                    decreases preferences@.len() - i,
                {
                    match self.names.get_id(preferences[i].as_str()) {
                        Some(id) => {
                            ids.push(id);
                        },
                        None => {},
                    }
                    i += 1;
                }
                let mut holder: Option<crate::teams::TeamManager> = None;
                core::mem::swap(&mut holder, &mut self.team_manager);
                match holder {
                    Some(mut tm) => {
                        tm.set_preferences(watcher_id, ids);
                        self.team_manager = Some(tm);
                    },
                    None => {
                        self.team_manager = None;
                    },
                }
                proof {
                    assert(self.wf());
                }
            },
            message => {
                match self.state {
                    State::WaitingScreen | State::TeamDisplay => {
                        if matches!(
                            message,
                            IncomingMessage::Host(IncomingHostMessage::Next),
                        ) {
                            self.play(connected, eff, now);
                        }
                    },
                    State::Slide(index) => {
                        let mut holder: Option<crate::fuiz::CurrentSlide> = None;
                        core::mem::swap(&mut holder, &mut self.current_slide);
                        match holder {
                            Some(mut cs) => {
                                let ghost pre_state = cs.state;
                                let count = self.fuiz_config.len();
                                let finished = cs.state.receive_message(
                                    watcher_id,
                                    &message,
                                    &mut self.leaderboard,
                                    &self.watchers,
                                    self.team_manager.as_ref(),
                                    connected,
                                    eff,
                                    now,
                                    index,
                                    count,
                                );
                                self.current_slide = Some(cs);
                                proof {
                                    assert(self.wf());
                                    assert(crate::fuiz::slide_step_ok(
                                        pre_state,
                                        self.current_slide->Some_0.state,
                                        message,
                                        watcher_id,
                                        now,
                                        old(self).watchers.spec_alive_players(connected@),
                                        finished,
                                    ));
                                    if finished {
                                        match old(self).team_manager {
                                            Some(tmv) => {
                                                assert(crate::fuiz::slide_deltas_ok(
                                                    pre_state,
                                                    self.leaderboard.history().last(),
                                                    old(self).team_manager,
                                                    old(self).watchers.spec_alive_players(
                                                        connected@,
                                                    ),
                                                    now,
                                                ));
                                            },
                                            None => {
                                                assert(crate::fuiz::slide_deltas_ok(
                                                    pre_state,
                                                    self.leaderboard.history().last(),
                                                    old(self).team_manager,
                                                    old(self).watchers.spec_alive_players(
                                                        connected@,
                                                    ),
                                                    now,
                                                ));
                                            },
                                        }
                                    }
                                }
                                if finished {
                                    self.finish_slide(connected, eff, now);
                                }
                            },
                            None => {
                                self.current_slide = None;
                            },
                        }
                    },
                    State::Leaderboard(index) => {
                        if matches!(
                            message,
                            IncomingMessage::Host(IncomingHostMessage::Next),
                        ) {
                            if index >= usize::MAX - 1 || index + 1 >= self.fuiz_config.len() {
                                self.announce_summary(connected, eff);
                            } else {
                                self.state = State::Slide(index + 1);
                                let mut slide_state = self.fuiz_config.slides[index + 1].to_state();
                                proof {
                                    let sc = self.fuiz_config.slides@[index + 1];
                                    assert(sc.spec_valid());
                                    match &slide_state {
                                        crate::fuiz::SlideState::MultipleChoice(e) => {
                                            assert(crate::fuiz::spec_durations_valid(
                                                e.config.introduce_question,
                                                e.config.time_limit,
                                            ));
                                        },
                                        crate::fuiz::SlideState::TypeAnswer(e) => {
                                            assert(crate::fuiz::spec_durations_valid(
                                                e.config.introduce_question,
                                                e.config.time_limit,
                                            ));
                                        },
                                        crate::fuiz::SlideState::Order(e) => {
                                            assert(crate::fuiz::spec_durations_valid(
                                                e.config.introduce_question,
                                                e.config.time_limit,
                                            ));
                                        },
                                    }
                                }
                                let count = self.fuiz_config.len();
                                crate::fuiz::SlideState::play(
                                    &mut slide_state,
                                    self.team_manager.as_ref(),
                                    &self.watchers,
                                    connected,
                                    eff,
                                    now,
                                    index + 1,
                                    count,
                                );
                                self.current_slide = Some(
                                    crate::fuiz::CurrentSlide {
                                        index: index + 1,
                                        state: slide_state,
                                    },
                                );
                            }
                        }
                    },
                    State::Done => {
                        if matches!(
                            message,
                            IncomingMessage::Host(IncomingHostMessage::Next),
                        ) {
                            self.mark_as_done(connected, eff);
                        }
                    },
                }
            },
        }
    }

    /// Handle an alarm: route it to the active slide if its index still
    /// matches; a stale alarm (wrong index, wrong state, or a target phase
    /// already reached) changes nothing and sends nothing.
    pub fn receive_alarm(
        &mut self,
        message: &crate::AlarmMessage,
        connected: &IdSet,
        eff: &mut Effects,
        now: u64,
    )
        requires
            old(self).wf(),
            connected.wf(),
        ensures
            final(self).wf(),
            crate::session::extends(old(eff).outgoing@, final(eff).outgoing@),
            crate::session::extends_alarms(old(eff).alarms@, final(eff).alarms@),
            final(self).state == old(self).state,
            final(self).leaderboard == old(self).leaderboard,
            !(old(self).state is Slide && old(self).state->Slide_0 == spec_alarm_index(*message))
                ==> *final(self) == *old(self) && *final(eff) == *old(eff),
            (old(self).state is Slide && old(self).state->Slide_0 == spec_alarm_index(*message)
                && old(self).current_slide is Some) ==> {
                &&& final(self).current_slide is Some
                &&& crate::fuiz::slide_alarm_ok(
                    old(self).current_slide->Some_0.state,
                    final(self).current_slide->Some_0.state,
                    *message,
                    now,
                )
                &&& final(self).current_slide->Some_0.index == old(self).current_slide->Some_0.index
            },
    {
        let alarm_index = match message {
            crate::AlarmMessage::MultipleChoice(
                crate::multiple_choice::AlarmMessage::ProceedFromSlideIntoSlide {
                    index,
                    to: _,
                },
            ) => *index,
            crate::AlarmMessage::TypeAnswer(
                crate::type_answer::AlarmMessage::ProceedFromSlideIntoSlide { index, to: _ },
            ) => *index,
            crate::AlarmMessage::Order(
                crate::order::AlarmMessage::ProceedFromSlideIntoSlide { index, to: _ },
            ) => *index,
        };
        let current_index = match self.state {
            State::Slide(i) => i,
            _ => {
                return ;
            },
        };
        if current_index != alarm_index {
            return ;
        }
        let mut holder: Option<crate::fuiz::CurrentSlide> = None;
        core::mem::swap(&mut holder, &mut self.current_slide);
        match holder {
            Some(mut cs) => {
                let count = self.fuiz_config.len();
                let finished = cs.state.receive_alarm(
                    &mut self.leaderboard,
                    &self.watchers,
                    self.team_manager.as_ref(),
                    connected,
                    eff,
                    message,
                    now,
                    current_index,
                    count,
                );
                self.current_slide = Some(cs);
                proof {
                    assert(self.wf());
                }
                if finished {
                    self.finish_slide(connected, eff, now);
                }
            },
            None => {
                self.current_slide = None;
            },
        }
    }

    /// The full-state message for one watcher, reflecting the game phase.
    pub fn state_message(
        &self,
        watcher_id: Id,
        watcher_kind: crate::watcher::ValueKind,
        connected: &IdSet,
        now: u64,
    ) -> (r: crate::SyncMessage)
        requires
            self.wf(),
            connected.wf(),
        ensures
            self.state == State::WaitingScreen ==> (r matches crate::SyncMessage::Game(g) && (
            g is WaitingScreen || g is ChooseTeammates)),
            self.state == State::TeamDisplay ==> (r matches crate::SyncMessage::Game(g) && ((
            watcher_kind == crate::watcher::ValueKind::Player ==> g is FindTeam) && (watcher_kind
                != crate::watcher::ValueKind::Player ==> g is TeamDisplay))),
            self.state is Leaderboard ==> (r matches crate::SyncMessage::Game(g) && ((
            watcher_kind == crate::watcher::ValueKind::Player ==> (
            g matches SyncMessage::Score { index, count, .. } && index == self.state->Leaderboard_0
                && count == self.fuiz_config.slides@.len())) && (watcher_kind
                != crate::watcher::ValueKind::Player ==> (g matches SyncMessage::Leaderboard {
                index,
                count,
                ..
            } && index == self.state->Leaderboard_0 && count == self.fuiz_config.slides@.len())))),
            (self.state is Slide && self.current_slide is Some) ==> {
                let cs = self.current_slide->Some_0;
                &&& (cs.state is MultipleChoice ==> r is MultipleChoice)
                &&& (cs.state is TypeAnswer ==> r is TypeAnswer)
                &&& (cs.state is Order ==> r is Order)
                &&& crate::fuiz::slide_sync_ok(
                    cs.state,
                    r,
                    self.watchers,
                    connected@,
                    now,
                    self.state->Slide_0,
                    (self.fuiz_config.slides@.len() as usize),
                )
            },
            self.state == State::Done ==> {
                &&& (watcher_kind == crate::watcher::ValueKind::Host ==> (
                r matches crate::SyncMessage::Game(g) && (g matches SyncMessage::Summary(sm) && (
                sm matches SummaryMessage::Host { stats, player_count, config, options: o } && {
                    &&& o == self.options
                    &&& crate::fuiz::spec_fuiz_equal(config, self.fuiz_config)
                    &&& player_count == crate::leaderboard::scorer_count(
                        self.leaderboard.history(),
                    )
                    &&& stats@.len() == self.leaderboard.history().len()
                    &&& (forall|q: int|
                        0 <= q < stats@.len() ==> (#[trigger] stats@[q]).0
                            == crate::leaderboard::earned_count(self.leaderboard.history()[q])
                            && stats@[q].1 == self.leaderboard.history()[q].len()
                            - crate::leaderboard::earned_count(self.leaderboard.history()[q]))
                }))))
                &&& (watcher_kind == crate::watcher::ValueKind::Player ==> (
                r matches crate::SyncMessage::Game(g) && (g matches SyncMessage::Summary(sm) && (
                sm matches SummaryMessage::Player { score, points, config } && {
                    &&& crate::fuiz::spec_fuiz_equal(config, self.fuiz_config)
                    &&& points@.len() == self.leaderboard.history().len()
                    &&& (self.options.no_leaderboard ==> score is None)
                }))))
                &&& (watcher_kind == crate::watcher::ValueKind::Unassigned ==> (
                r matches crate::SyncMessage::Game(g) && g is NotAllowed))
            },
    {
        match self.state {
            State::WaitingScreen => {
                let mut choose = false;
                match &self.team_manager {
                    Some(tm) => {
                        if !tm.is_random_assignments() && matches!(
                            watcher_kind,
                            crate::watcher::ValueKind::Player,
                        ) {
                            choose = true;
                        }
                    },
                    None => {},
                }
                if choose {
                    match self.choose_teammates_message(watcher_id, connected) {
                        UpdateMessage::ChooseTeammates { max_selection, available } => {
                            crate::SyncMessage::Game(
                                SyncMessage::ChooseTeammates { max_selection, available },
                            )
                        },
                        _ => crate::SyncMessage::Game(
                            SyncMessage::WaitingScreen(self.waiting_screen_names(connected)),
                        ),
                    }
                } else {
                    crate::SyncMessage::Game(
                        SyncMessage::WaitingScreen(self.waiting_screen_names(connected)),
                    )
                }
            },
            State::TeamDisplay => {
                match watcher_kind {
                    crate::watcher::ValueKind::Player => {
                        let team_name = match &self.team_manager {
                            Some(tm) => match tm.get_team(watcher_id) {
                                Some(t) => match self.names.get_name(t) {
                                    Some(n) => n,
                                    None => String::new(),
                                },
                                None => String::new(),
                            },
                            None => String::new(),
                        };
                        crate::SyncMessage::Game(SyncMessage::FindTeam(team_name))
                    },
                    _ => {
                        let team_names = match &self.team_manager {
                            Some(tm) => match tm.team_names() {
                                Some(n) => n,
                                None => crate::TruncatedVec::new(Vec::new(), 50, 0),
                            },
                            None => crate::TruncatedVec::new(Vec::new(), 50, 0),
                        };
                        crate::SyncMessage::Game(SyncMessage::TeamDisplay(team_names))
                    },
                }
            },
            State::Leaderboard(index) => {
                let count = self.fuiz_config.len();
                match watcher_kind {
                    crate::watcher::ValueKind::Player => crate::SyncMessage::Game(
                        SyncMessage::Score { index, count, score: self.score(watcher_id) },
                    ),
                    _ => crate::SyncMessage::Game(
                        SyncMessage::Leaderboard {
                            index,
                            count,
                            leaderboard: self.leaderboard_message(),
                        },
                    ),
                }
            },
            State::Slide(index) => {
                let count = self.fuiz_config.len();
                match &self.current_slide {
                    Some(cs) => cs.state.state_message(
                        watcher_id,
                        watcher_kind,
                        self.team_manager.as_ref(),
                        &self.watchers,
                        connected,
                        now,
                        index,
                        count,
                    ),
                    None => crate::SyncMessage::Game(SyncMessage::NotAllowed),
                }
            },
            State::Done => {
                match watcher_kind {
                    crate::watcher::ValueKind::Host => {
                        let mut lb = self.clone_leaderboard_for_summary();
                        let (player_count, stats) = lb.host_summary(!self.options.no_leaderboard);
                        crate::SyncMessage::Game(
                            SyncMessage::Summary(
                                SummaryMessage::Host {
                                    stats,
                                    player_count,
                                    config: self.fuiz_config.clone_value(),
                                    options: self.options,
                                },
                            ),
                        )
                    },
                    crate::watcher::ValueKind::Player => {
                        let score = if self.options.no_leaderboard {
                            None
                        } else {
                            self.score(watcher_id)
                        };
                        let lid = self.leaderboard_id(watcher_id);
                        let mut lb = self.clone_leaderboard_for_summary();
                        let points = lb.player_summary(lid, !self.options.no_leaderboard);
                        crate::SyncMessage::Game(
                            SyncMessage::Summary(
                                SummaryMessage::Player {
                                    score,
                                    points,
                                    config: self.fuiz_config.clone_value(),
                                },
                            ),
                        )
                    },
                    crate::watcher::ValueKind::Unassigned => crate::SyncMessage::Game(
                        SyncMessage::NotAllowed,
                    ),
                }
            },
        }
    }

    /// A scratch leaderboard for summary synthesis from a shared reference:
    /// replays the same history into a fresh leaderboard, whose memoized
    /// summary can then be computed without touching the game.
    fn clone_leaderboard_for_summary(&self) -> (r: crate::leaderboard::Leaderboard)
        requires
            self.wf(),
        ensures
            r.wf(),
            r.history() == self.leaderboard.history(),
            !r.summary_captured(),
    {
        let mut lb = crate::leaderboard::Leaderboard::new();
        let n = self.leaderboard.history_len();
        let mut i: usize = 0;
        while i < n
            invariant
                0 <= i <= n,
                self.wf(),
                n == self.leaderboard.history().len(),
                lb.wf(),
                lb.history() == self.leaderboard.history().take(i as int),
                !lb.summary_captured(),
            decreases n - i,
        {
            let deltas = self.leaderboard.history_at(i);
            lb.add_scores(&deltas);
            proof {
                assert(lb.history() =~= self.leaderboard.history().take(i + 1));
            }
            i += 1;
        }
        proof {
            assert(self.leaderboard.history().take(n as int) =~= self.leaderboard.history());
        }
        lb
    }

    /// Replay identity, metadata and the current state to a reconnecting
    /// watcher: a host gets its state and the lock flag; a player gets
    /// their team (when they have one), their name, their metadata, and the
    /// current state; an unknown identifier gets nothing.
    pub fn update_session(&mut self, watcher_id: Id, connected: &IdSet, eff: &mut Effects, now: u64)
        requires
            old(self).wf(),
            connected.wf(),
        ensures
            final(self).wf(),
            crate::session::extends(old(eff).outgoing@, final(eff).outgoing@),
            crate::session::extends_alarms(old(eff).alarms@, final(eff).alarms@),
            !old(self).watchers.value_map().contains_key(watcher_id) ==> *final(self) == *old(self) && *final(eff) == *old(eff),
            (old(self).watchers.value_map().contains_key(watcher_id) && old(self).watchers.value_map()[watcher_id] == crate::watcher::Value::Host) ==> {
                let n = old(eff).outgoing@.len() as int;
                &&& *final(self) == *old(self)
                &&& final(eff).outgoing@.len() == n + 2
                &&& (final(eff).outgoing@[n] matches crate::session::Outgoing::Sync {
                    to,
                    message: _,
                } && to == watcher_id)
                &&& (final(eff).outgoing@[n + 1] matches crate::session::Outgoing::Sync {
                    to,
                    message,
                } && to == watcher_id && message == crate::SyncMessage::Game(
                    SyncMessage::Metainfo(
                        MetainfoMessage::Host { locked: old(self).locked },
                    ),
                ))
            },
            old(self).watchers.value_map().contains_key(watcher_id) ==> (old(self).watchers.value_map()[watcher_id] matches crate::watcher::Value::Player(pv) ==> {
                let n = old(eff).outgoing@.len() as int;
                let team_frames: int = if pv is Team {
                    1
                } else {
                    0
                };
                &&& *final(self) == *old(self)
                &&& final(eff).outgoing@.len() == n + team_frames + 3
                &&& (pv matches crate::watcher::PlayerValue::Team { team_name, .. } ==> (
                final(eff).outgoing@[n] matches crate::session::Outgoing::Update { to, message }
                    && to@ == seq![watcher_id] && (
                message matches crate::UpdateMessage::Game(UpdateMessage::FindTeam(t)) && t@
                    == team_name@)))
                &&& (final(eff).outgoing@[n + team_frames]
                    matches crate::session::Outgoing::Update { to, message } && to@ == seq![
                    watcher_id,
                ] && (message matches crate::UpdateMessage::Game(UpdateMessage::NameAssign(s))
                    && s@ == pv.spec_name()))
                &&& (final(eff).outgoing@[n + team_frames + 1]
                    matches crate::session::Outgoing::Sync { to, message } && to == watcher_id
                    && (message matches crate::SyncMessage::Game(
                    SyncMessage::Metainfo(MetainfoMessage::Player { score: _, show_answers }),
                ) && show_answers == old(self).options.show_answers))
                &&& (final(eff).outgoing@[n + team_frames + 2]
                    matches crate::session::Outgoing::Sync { to, message: _ } && to == watcher_id)
            }),
            (old(self).watchers.value_map().contains_key(watcher_id) && old(self).watchers.value_map()[watcher_id] == crate::watcher::Value::Unassigned) ==> {
                &&& final(self).state == old(self).state
                &&& (old(self).locked ==> *final(self) == *old(self) && *final(eff) == *old(eff))
                &&& (forall|id: Id|
                    final(self).watchers.value_map().contains_key(id) <==> old(self).watchers.value_map().contains_key(id))
            },
    {
        let value = match self.watchers.get_watcher_value(watcher_id) {
            Some(v) => v,
            None => {
                return ;
            },
        };
        match value {
            crate::watcher::Value::Host => {
                let sync = self.state_message(
                    watcher_id,
                    crate::watcher::ValueKind::Host,
                    connected,
                    now,
                );
                eff.send_state(watcher_id, sync);
                eff.send_state(
                    watcher_id,
                    crate::SyncMessage::Game(
                        SyncMessage::Metainfo(MetainfoMessage::Host { locked: self.locked }),
                    ),
                );
            },
            crate::watcher::Value::Player(pv) => {
                match &pv {
                    crate::watcher::PlayerValue::Team { team_name, .. } => {
                        eff.send(
                            watcher_id,
                            crate::UpdateMessage::Game(
                                UpdateMessage::FindTeam(team_name.clone()),
                            ),
                        );
                    },
                    _ => {},
                }
                let name = pv.name().to_string();
                eff.send(
                    watcher_id,
                    crate::UpdateMessage::Game(UpdateMessage::NameAssign(name)),
                );
                self.update_player_with_options(watcher_id, eff);
                let sync = self.state_message(
                    watcher_id,
                    crate::watcher::ValueKind::Player,
                    connected,
                    now,
                );
                eff.send_state(watcher_id, sync);
            },
            crate::watcher::Value::Unassigned => {
                if !self.locked {
                    self.handle_unassigned(watcher_id, connected, eff, now);
                }
            },
        }
    }
}

} // verus!
