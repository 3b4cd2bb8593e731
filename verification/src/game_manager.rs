//! The game manager: allocates short game identifiers, owns the running
//! games, routes incoming frames and alarms to them, and keeps the process
//! statistics. The transport layer owns the tunnels; every operation here
//! takes the live-tunnel snapshot and an effects recorder like the games do.

use vstd::prelude::*;

use crate::fuiz::Fuiz;
use crate::game::{Game, IncomingMessage, Options, State};
use crate::game_id::{GameId, MAX_GAME_ID, MIN_GAME_ID};
use crate::session::Effects;
use crate::store::IdSet;
use crate::watcher::Id;

verus! {

/// How many random draws are attempted before identifiers are scanned in
/// order.
pub const ID_ATTEMPTS: usize = 64;

/// Process-wide game counters.
#[derive(Debug, Clone, Copy, PartialEq, Eq, Structural)]
pub struct Statistics {
    /// How many games are currently running.
    pub game_count: u64,
    /// How many games were ever created.
    pub all_games: u64,
}

/// A request referenced a game that does not exist (or is already done).
#[derive(Debug, Clone, Copy, PartialEq, Eq, Structural)]
pub struct GameVanish {}

/// The game manager.
pub struct GameManager {
    games: Vec<(GameId, Game)>,
    statistics: Statistics,
}

impl GameManager {
    /// The held games, in creation order.
    pub closed spec fn game_seq(self) -> Seq<(GameId, Game)> {
        self.games@
    }

    /// The process counters.
    pub closed spec fn spec_statistics(self) -> Statistics {
        self.statistics
    }

    /// Identifiers are distinct and in the identifier space, and every held
    /// game is well-formed.
    pub closed spec fn wf(self) -> bool {
        &&& forall|i: int, j: int|
            0 <= i < j < self.games@.len() ==> (#[trigger] self.games@[i]).0 != (
            #[trigger] self.games@[j]).0
        &&& forall|i: int| 0 <= i < self.games@.len() ==> (#[trigger] self.games@[i]).0.wf()
        &&& forall|i: int| 0 <= i < self.games@.len() ==> (#[trigger] self.games@[i]).1.wf()
    }

    /// Whether some held game carries this identifier.
    pub open spec fn spec_has_game(self, game_id: GameId) -> bool {
        exists|i: int| 0 <= i < self.game_seq().len() && (#[trigger] self.game_seq()[i]).0 == game_id
    }

    /// The game held under this identifier (meaningful when it is held:
    /// identifiers are distinct under well-formedness).
    pub open spec fn spec_game_at(self, game_id: GameId) -> Game {
        self.game_seq()[choose|i: int|
            0 <= i < self.game_seq().len() && (#[trigger] self.game_seq()[i]).0 == game_id].1
    }

    /// An empty manager with the given starting counters (restored by the
    /// surrounding process from its statistics file).
    pub fn with_statistics(statistics: Statistics) -> (r: GameManager)
        ensures
            r.wf(),
            r.game_seq() == Seq::<(GameId, Game)>::empty(),
            r.spec_statistics() == statistics,
    {
        GameManager { games: Vec::new(), statistics }
    }

    /// The position of a game, if it is held.
    #[verifier::loop_isolation(false)]
    fn find(&self, game_id: GameId) -> (r: Option<usize>)
        ensures
            match r {
                Some(i) => i < self.game_seq().len() && self.game_seq()[i as int].0 == game_id,
                None => !self.spec_has_game(game_id),
            },
    {
        let mut i: usize = 0;
        while i < self.games.len()
            invariant
                0 <= i <= self.games@.len(),
                forall|j: int| 0 <= j < i ==> (#[trigger] self.games@[j]).0 != game_id,
            decreases self.games@.len() - i,
        {
            if self.games[i].0 == game_id {
                return Some(i);
            }
            i += 1;
        }
        None
    }

    /// Create a game under a fresh identifier: rejection-sample the
    /// identifier space, then scan it in order; only a full space fails.
    #[verifier::loop_isolation(false)]
    #[verifier::rlimit(60)]
    pub fn add_game(&mut self, fuiz: Fuiz, options: Options, host_id: Id) -> (r: Option<GameId>)
        requires
            old(self).wf(),
            fuiz.spec_valid(),
            options.spec_valid(),
        ensures
            final(self).wf(),
            match r {
                Some(g) => {
                    &&& g.wf()
                    &&& !old(self).spec_has_game(g)
                    &&& final(self).spec_has_game(g)
                    &&& final(self).game_seq().len() == old(self).game_seq().len() + 1
                    &&& final(self).game_seq().drop_last() == old(self).game_seq()
                    &&& final(self).game_seq().last().0 == g
                    &&& final(self).game_seq().last().1.state == State::WaitingScreen
                    &&& final(self).game_seq().last().1.locked == false
                    &&& final(self).game_seq().last().1.watchers.value_map().contains_key(host_id)
                    &&& crate::fuiz::spec_fuiz_equal(
                        final(self).game_seq().last().1.fuiz_config,
                        fuiz,
                    )
                    &&& final(self).spec_statistics().game_count == (
                    if old(self).spec_statistics().game_count < u64::MAX {
                        (old(self).spec_statistics().game_count + 1) as u64
                    } else {
                        u64::MAX
                    })
                    &&& final(self).spec_statistics().all_games == (
                    if old(self).spec_statistics().all_games < u64::MAX {
                        (old(self).spec_statistics().all_games + 1) as u64
                    } else {
                        u64::MAX
                    })
                },
                None => *final(self) == *old(self) && (forall|g2: GameId|
                    g2.wf() ==> old(self).spec_has_game(g2)),
            },
    {
        let mut chosen: Option<GameId> = None;
        let mut attempts: usize = 0;
        while attempts < ID_ATTEMPTS
            invariant
                self.wf(),
                *self == *old(self),
                (chosen matches Some(g) ==> g.wf() && !self.spec_has_game(g)),
            decreases ID_ATTEMPTS - attempts,
        {
            let candidate = GameId::new();
            match self.find(candidate) {
                Some(_) => {},
                None => {
                    chosen = Some(candidate);
                    break ;
                },
            }
            attempts += 1;
        }
        if chosen.is_none() {
            // Scan the space in order for a free identifier.
            let mut v: u16 = MIN_GAME_ID;
            while v < MAX_GAME_ID
                invariant
                    MIN_GAME_ID <= v <= MAX_GAME_ID,
                    self.wf(),
                    *self == *old(self),
                    (chosen matches Some(g) ==> g.wf() && !self.spec_has_game(g)),
                    chosen is None ==> forall|g2: GameId|
                        MIN_GAME_ID <= #[trigger] g2.spec_value() < v ==> self.spec_has_game(g2),
                decreases MAX_GAME_ID - v,
            {
                match GameId::from_value(v) {
                    Some(candidate) => {
                        match self.find(candidate) {
                            Some(_) => {
                                proof {
                                    assert forall|g2: GameId|
                                        #[trigger] g2.spec_value() == v implies self.spec_has_game(
                                        g2,
                                    ) by {
                                        GameId::lemma_value_injective(g2, candidate);
                                    }
                                }
                            },
                            None => {
                                chosen = Some(candidate);
                                break ;
                            },
                        }
                    },
                    None => {},
                }
                v += 1;
            }
        }
        proof {
            if chosen is None {
                assert forall|g2: GameId| g2.wf() implies self.spec_has_game(g2) by {
                    assert(MIN_GAME_ID <= g2.spec_value() < MAX_GAME_ID);
                }
            }
        }
        match chosen {
            Some(game_id) => {
                let game = Game::new(fuiz, options, host_id);
                let ghost before = self.games@;
                self.games.push((game_id, game));
                self.statistics = Statistics {
                    game_count: if self.statistics.game_count < u64::MAX {
                        (self.statistics.game_count + 1) as u64
                    } else {
                        u64::MAX
                    },
                    all_games: if self.statistics.all_games < u64::MAX {
                        (self.statistics.all_games + 1) as u64
                    } else {
                        u64::MAX
                    },
                };
                proof {
                    assert forall|i: int, j: int|
                        0 <= i < j < self.games@.len() implies (#[trigger] self.games@[i]).0 != (
                    #[trigger] self.games@[j]).0 by {
                        if j == self.games@.len() - 1 {
                            assert((#[trigger] before[i]).0 != game_id);
                        }
                    }
                    assert(self.games@[self.games@.len() - 1].0 == game_id);
                    assert((self.game_seq()[self.game_seq().len() - 1]).0 == game_id);
                    assert(self.spec_has_game(game_id));
                }
                Some(game_id)
            },
            None => None,
        }
    }

    /// Whether the game exists and is still progressable (not done).
    pub fn alive_check(&self, game_id: GameId) -> (r: Result<bool, GameVanish>)
        requires
            self.wf(),
        ensures
            r is Err <==> !self.spec_has_game(game_id),
            self.spec_has_game(game_id) ==> (r matches Ok(b) && b == !(self.spec_game_at(
                game_id,
            ).state is Done)),
    {
        match self.find(game_id) {
            Some(i) => {
                proof {
                    let j = choose|j: int|
                        0 <= j < self.game_seq().len() && (#[trigger] self.game_seq()[j]).0
                            == game_id;
                    assert(j == i as int);
                }
                Ok(!matches!(self.games[i].1.state, State::Done))
            },
            None => Err(GameVanish {  }),
        }
    }

    /// Whether the game exists at all.
    pub fn game_exists(&self, game_id: GameId) -> (r: Result<(), GameVanish>)
        requires
            self.wf(),
        ensures
            r is Err <==> !self.spec_has_game(game_id),
    {
        match self.find(game_id) {
            Some(_) => Ok(()),
            None => Err(GameVanish {  }),
        }
    }

    /// Whether a watcher is registered with the game.
    pub fn watcher_exists(&self, game_id: GameId, watcher_id: Id) -> (r: Result<bool, GameVanish>)
        requires
            self.wf(),
        ensures
            r is Err <==> !self.spec_has_game(game_id),
    {
        match self.find(game_id) {
            Some(i) => Ok(self.games[i].1.watchers.has_watcher(watcher_id)),
            None => Err(GameVanish {  }),
        }
    }

    /// Register a fresh unassigned watcher with a game.
    pub fn add_unassigned(
        &mut self,
        game_id: GameId,
        watcher_id: Id,
        connected: &IdSet,
        eff: &mut Effects,
        now: u64,
    ) -> (r: Result<Result<(), crate::watcher::Error>, GameVanish>)
        requires
            old(self).wf(),
            connected.wf(),
        ensures
            final(self).wf(),
            r is Err <==> !old(self).spec_has_game(game_id),
            crate::session::extends(old(eff).outgoing@, final(eff).outgoing@),
            crate::session::extends_alarms(old(eff).alarms@, final(eff).alarms@),
            r is Err ==> *final(self) == *old(self) && *final(eff) == *old(eff),
            r matches Ok(inner) ==> {
                &&& final(self).game_seq().len() == old(self).game_seq().len()
                &&& (forall|j: int|
                    0 <= j < old(self).game_seq().len() && (#[trigger] old(self).game_seq()[j]).0 != game_id ==> final(self).game_seq()[j] == old(self).game_seq()[j])
                &&& exists|i: int|
                    {
                        let pre = old(self).game_seq()[i].1;
                        let post = final(self).game_seq()[i].1;
                        &&& 0 <= i < old(self).game_seq().len()
                        &&& (#[trigger] old(self).game_seq()[i]).0 == game_id
                        &&& final(self).game_seq()[i].0 == game_id
                        &&& (inner is Err <==> pre.watchers.spec_len()
                            >= crate::watcher::MAX_PLAYERS)
                        &&& (inner is Ok ==> post.watchers.value_map().contains_key(watcher_id))
                        &&& (inner is Ok && pre.locked ==> post.watchers.value_map()[watcher_id]
                            == crate::watcher::Value::Unassigned && *final(eff) == *old(eff))
                        &&& (inner is Err ==> post == pre && *final(eff) == *old(eff))
                        &&& post.state == pre.state
                    }
            },
    {
        match self.find(game_id) {
            Some(i) => {
                let ghost before = self.games@;
                let inner = self.games[i].1.add_unassigned(watcher_id, connected, eff, now);
                proof {
                    assert(forall|j: int|
                        0 <= j < self.games@.len() && j != i ==> self.games@[j] == (
                        #[trigger] before[j]));
                    assert(self.games@[i as int].0 == before[i as int].0);
                    assert((#[trigger] old(self).game_seq()[i as int]).0 == game_id);
                }
                Ok(inner)
            },
            None => Err(GameVanish {  }),
        }
    }

    /// Route one incoming message to its game.
    pub fn receive_message(
        &mut self,
        game_id: GameId,
        watcher_id: Id,
        message: IncomingMessage,
        connected: &IdSet,
        eff: &mut Effects,
        now: u64,
    ) -> (r: Result<(), GameVanish>)
        requires
            old(self).wf(),
            connected.wf(),
        ensures
            final(self).wf(),
            r is Err <==> !old(self).spec_has_game(game_id),
            crate::session::extends(old(eff).outgoing@, final(eff).outgoing@),
            crate::session::extends_alarms(old(eff).alarms@, final(eff).alarms@),
            r is Err ==> *final(self) == *old(self) && *final(eff) == *old(eff),
            r is Ok ==> {
                &&& final(self).game_seq().len() == old(self).game_seq().len()
                &&& (forall|j: int|
                    0 <= j < old(self).game_seq().len() && (#[trigger] old(self).game_seq()[j]).0 != game_id ==> final(self).game_seq()[j] == old(self).game_seq()[j])
                &&& exists|i: int|
                    {
                        let pre = old(self).game_seq()[i].1;
                        let post = final(self).game_seq()[i].1;
                        &&& 0 <= i < old(self).game_seq().len()
                        &&& (#[trigger] old(self).game_seq()[i]).0 == game_id
                        &&& final(self).game_seq()[i].0 == game_id
                        &&& (!pre.watchers.value_map().contains_key(watcher_id) ==> post == pre
                            && *final(eff) == *old(eff))
                        &&& (forall|b: bool|
                            (message == crate::game::IncomingMessage::Host(
                                crate::game::IncomingHostMessage::Lock(b),
                            ) && pre.watchers.value_map().contains_key(watcher_id)
                                && pre.watchers.value_map()[watcher_id].spec_kind()
                                == crate::watcher::ValueKind::Host) ==> post.locked == b
                                && post.state == pre.state && post.watchers == pre.watchers
                                && post.leaderboard == pre.leaderboard && *final(eff) == *old(eff))
                        &&& ((message matches crate::game::IncomingMessage::Unassigned(_)) ==> (
                        pre.locked ==> post == pre && *final(eff) == *old(eff)))
                    }
            },
    {
        match self.find(game_id) {
            Some(i) => {
                let ghost before = self.games@;
                self.games[i].1.receive_message(watcher_id, message, connected, eff, now);
                proof {
                    assert(forall|j: int|
                        0 <= j < self.games@.len() && j != i ==> self.games@[j] == (
                        #[trigger] before[j]));
                    assert(self.games@[i as int].0 == before[i as int].0);
                    assert((#[trigger] old(self).game_seq()[i as int]).0 == game_id);
                }
                Ok(())
            },
            None => Err(GameVanish {  }),
        }
    }

    /// Route an alarm to its game.
    pub fn receive_alarm(
        &mut self,
        game_id: GameId,
        message: &crate::AlarmMessage,
        connected: &IdSet,
        eff: &mut Effects,
        now: u64,
    ) -> (r: Result<(), GameVanish>)
        requires
            old(self).wf(),
            connected.wf(),
        ensures
            final(self).wf(),
            r is Err <==> !old(self).spec_has_game(game_id),
            crate::session::extends(old(eff).outgoing@, final(eff).outgoing@),
            crate::session::extends_alarms(old(eff).alarms@, final(eff).alarms@),
            r is Err ==> *final(self) == *old(self) && *final(eff) == *old(eff),
            r is Ok ==> {
                &&& final(self).game_seq().len() == old(self).game_seq().len()
                &&& (forall|j: int|
                    0 <= j < old(self).game_seq().len() && (#[trigger] old(self).game_seq()[j]).0 != game_id ==> final(self).game_seq()[j] == old(self).game_seq()[j])
                &&& exists|i: int|
                    {
                        let pre = old(self).game_seq()[i].1;
                        let post = final(self).game_seq()[i].1;
                        &&& 0 <= i < old(self).game_seq().len()
                        &&& (#[trigger] old(self).game_seq()[i]).0 == game_id
                        &&& final(self).game_seq()[i].0 == game_id
                        &&& post.state == pre.state
                        &&& post.leaderboard == pre.leaderboard
                        &&& (!(pre.state is Slide && pre.state->Slide_0
                            == crate::game::spec_alarm_index(*message)) ==> post == pre && *final(eff) == *old(eff))
                        &&& ((pre.state is Slide && pre.state->Slide_0
                            == crate::game::spec_alarm_index(*message) && pre.current_slide
                            is Some) ==> {
                            &&& post.current_slide is Some
                            &&& crate::fuiz::slide_alarm_ok(
                                pre.current_slide->Some_0.state,
                                post.current_slide->Some_0.state,
                                *message,
                                now,
                            )
                            &&& post.current_slide->Some_0.index
                                == pre.current_slide->Some_0.index
                        })
                    }
            },
    {
        match self.find(game_id) {
            Some(i) => {
                let ghost before = self.games@;
                self.games[i].1.receive_alarm(message, connected, eff, now);
                proof {
                    assert(forall|j: int|
                        0 <= j < self.games@.len() && j != i ==> self.games@[j] == (
                        #[trigger] before[j]));
                    assert(self.games@[i as int].0 == before[i as int].0);
                    assert((#[trigger] old(self).game_seq()[i as int]).0 == game_id);
                }
                Ok(())
            },
            None => Err(GameVanish {  }),
        }
    }

    /// Replay identity, metadata and current state to a reconnecting
    /// watcher.
    pub fn update_session(
        &mut self,
        game_id: GameId,
        watcher_id: Id,
        connected: &IdSet,
        eff: &mut Effects,
        now: u64,
    ) -> (r: Result<(), GameVanish>)
        requires
            old(self).wf(),
            connected.wf(),
        ensures
            final(self).wf(),
            r is Err <==> !old(self).spec_has_game(game_id),
            crate::session::extends(old(eff).outgoing@, final(eff).outgoing@),
            crate::session::extends_alarms(old(eff).alarms@, final(eff).alarms@),
            r is Err ==> *final(self) == *old(self) && *final(eff) == *old(eff),
            r is Ok ==> {
                &&& final(self).game_seq().len() == old(self).game_seq().len()
                &&& (forall|j: int|
                    0 <= j < old(self).game_seq().len() && (#[trigger] old(self).game_seq()[j]).0 != game_id ==> final(self).game_seq()[j] == old(self).game_seq()[j])
                &&& exists|i: int|
                    {
                        let pre = old(self).game_seq()[i].1;
                        let post = final(self).game_seq()[i].1;
                        &&& 0 <= i < old(self).game_seq().len()
                        &&& (#[trigger] old(self).game_seq()[i]).0 == game_id
                        &&& final(self).game_seq()[i].0 == game_id
                        &&& (!pre.watchers.value_map().contains_key(watcher_id) ==> post == pre
                            && *final(eff) == *old(eff))
                        &&& ((pre.watchers.value_map().contains_key(watcher_id)
                            && pre.watchers.value_map()[watcher_id]
                            == crate::watcher::Value::Host) ==> {
                            let n = old(eff).outgoing@.len() as int;
                            &&& post == pre
                            &&& final(eff).outgoing@.len() == n + 2
                            &&& (final(eff).outgoing@[n + 1]
                                matches crate::session::Outgoing::Sync { to, message } && to
                                == watcher_id && message == crate::SyncMessage::Game(
                                crate::game::SyncMessage::Metainfo(
                                    crate::game::MetainfoMessage::Host { locked: pre.locked },
                                ),
                            ))
                        })
                        &&& ((pre.watchers.value_map().contains_key(watcher_id)
                            && pre.watchers.value_map()[watcher_id]
                            == crate::watcher::Value::Unassigned && pre.locked) ==> post == pre
                            && *final(eff) == *old(eff))
                    }
            },
    {
        match self.find(game_id) {
            Some(i) => {
                let ghost before = self.games@;
                self.games[i].1.update_session(watcher_id, connected, eff, now);
                proof {
                    assert(forall|j: int|
                        0 <= j < self.games@.len() && j != i ==> self.games@[j] == (
                        #[trigger] before[j]));
                    assert(self.games@[i as int].0 == before[i as int].0);
                    assert((#[trigger] old(self).game_seq()[i as int]).0 == game_id);
                }
                Ok(())
            },
            None => Err(GameVanish {  }),
        }
    }

    /// Close one watcher's tunnel; the registry entry remains so the
    /// identifier can be reclaimed on reconnect.
    pub fn remove_watcher_session(
        &mut self,
        game_id: GameId,
        watcher_id: Id,
        connected: &IdSet,
        eff: &mut Effects,
    ) -> (r: Result<(), GameVanish>)
        requires
            old(self).wf(),
            connected.wf(),
        ensures
            final(self).wf(),
            *final(self) == *old(self),
            r is Err <==> !old(self).spec_has_game(game_id),
            crate::session::extends(old(eff).outgoing@, final(eff).outgoing@),
            crate::session::extends_alarms(old(eff).alarms@, final(eff).alarms@),
    {
        match self.find(game_id) {
            Some(_) => {
                if connected.contains(watcher_id) {
                    eff.close(watcher_id);
                }
                Ok(())
            },
            None => Err(GameVanish {  }),
        }
    }

    /// Remove a game: mark it done (closing every tunnel) and release its
    /// slot and counter.
    #[verifier::loop_isolation(false)]
    pub fn remove_game(&mut self, game_id: GameId, connected: &IdSet, eff: &mut Effects)
        requires
            old(self).wf(),
            connected.wf(),
        ensures
            final(self).wf(),
            !final(self).spec_has_game(game_id),
            crate::session::extends(old(eff).outgoing@, final(eff).outgoing@),
            final(eff).alarms@ == old(eff).alarms@,
            !old(self).spec_has_game(game_id) ==> *final(self) == *old(self) && *final(eff)
                == *old(eff),
            old(self).spec_has_game(game_id) ==> {
                &&& final(self).game_seq().len() == old(self).game_seq().len() - 1
                &&& final(self).spec_statistics().all_games == old(self).spec_statistics().all_games
                &&& final(self).spec_statistics().game_count == (
                if old(self).spec_statistics().game_count > 0 {
                    (old(self).spec_statistics().game_count - 1) as u64
                } else {
                    0
                })
                &&& (forall|j: int|
                    0 <= j < final(self).game_seq().len() ==> old(self).game_seq().contains(
                        #[trigger] final(self).game_seq()[j],
                    ))
                &&& exists|i: int|
                    {
                        let pre = old(self).game_seq()[i].1;
                        &&& 0 <= i < old(self).game_seq().len()
                        &&& (#[trigger] old(self).game_seq()[i]).0 == game_id
                        &&& crate::game::closes_all(
                            old(eff).outgoing@,
                            final(eff).outgoing@,
                            pre.watchers.ordered_ids().filter(|id: Id| connected@.contains(id)),
                        )
                    }
            },
    {
        match self.find(game_id) {
            Some(i) => {
                let ghost before = self.games@;
                self.games[i].1.mark_as_done(connected, eff);
                proof {
                    assert(forall|j: int|
                        0 <= j < self.games@.len() && j != i ==> self.games@[j] == (
                        #[trigger] before[j]));
                    assert(self.games@[i as int].0 == before[i as int].0);
                }
                let ghost mid = self.games@;
                let _ = self.games.remove(i);
                self.statistics = Statistics {
                    game_count: if self.statistics.game_count > 0 {
                        (self.statistics.game_count - 1) as u64
                    } else {
                        0
                    },
                    all_games: self.statistics.all_games,
                };
                proof {
                    assert forall|j: int|
                        0 <= j < self.games@.len() implies (#[trigger] self.games@[j]).0
                        != game_id by {
                        if j < i {
                            assert(self.games@[j] == mid[j]);
                        } else {
                            assert(self.games@[j] == mid[j + 1]);
                        }
                    }
                    assert forall|j: int|
                        0 <= j < self.games@.len() implies old(self).game_seq().contains(
                        #[trigger] self.games@[j],
                    ) by {
                        if j < i {
                            assert(self.games@[j] == mid[j]);
                            assert(mid[j].0 == before[j].0 && (j != i ==> mid[j] == before[j]));
                            assert(old(self).game_seq()[j] == self.games@[j]);
                        } else {
                            assert(self.games@[j] == mid[j + 1]);
                            assert(mid[j + 1] == before[j + 1]);
                            assert(old(self).game_seq()[j + 1] == self.games@[j]);
                        }
                    }
                    assert((#[trigger] old(self).game_seq()[i as int]).0 == game_id);
                }
            },
            None => {},
        }
    }

    /// The current and all-time game counts.
    pub fn count(&self) -> (r: (u64, u64))
        ensures
            r.0 == self.spec_statistics().game_count,
            r.1 == self.spec_statistics().all_games,
    {
        (self.statistics.game_count, self.statistics.all_games)
    }

    /// Read access to one game, for state synthesis by the transport layer.
    pub fn get_game(&self, game_id: GameId) -> (r: Option<&Game>)
        requires
            self.wf(),
        ensures
            r is Some <==> self.spec_has_game(game_id),
            r matches Some(g) ==> g.wf(),
    {
        match self.find(game_id) {
            Some(i) => {
                proof {
                    assert(self.games@[i as int].1.wf());
                }
                Some(&self.games[i].1)
            },
            None => None,
        }
    }
}

} // verus!
