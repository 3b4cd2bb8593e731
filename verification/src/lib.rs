//! Server-side engine for real-time, host-moderated quiz sessions.
//!
//! A host uploads a configuration (an ordered list of slides), the engine
//! assigns a short human-readable game identifier, players join over message
//! tunnels, and the engine drives everyone through a deterministic sequence of
//! phases (lobby, optional team formation, per-slide presentation, per-slide
//! leaderboard, final summary).
//!
//! The engine itself is a pure state machine: every operation takes plain
//! values (the current time in milliseconds, a snapshot of which watchers have
//! live tunnels) and records its outbound traffic in an [`session::Effects`]
//! value instead of performing I/O. The surrounding transport layer performs
//! the sends and timer scheduling.

use vstd::prelude::*;

pub mod fuiz;
pub mod game;
pub mod game_id;
pub mod game_manager;
pub mod leaderboard;
pub mod media;
pub mod multiple_choice;
pub mod names;
pub mod order;
pub mod session;
pub mod type_answer;
pub mod store;
pub mod teams;
pub mod watcher;

verus! {

/// Any state-delta message the engine sends to a watcher.
#[derive(Debug)]
pub enum UpdateMessage {
    Game(game::UpdateMessage),
    MultipleChoice(multiple_choice::UpdateMessage),
    TypeAnswer(type_answer::UpdateMessage),
    Order(order::UpdateMessage),
}

/// Any full-state message the engine sends to a late joiner or reconnect.
#[derive(Debug)]
pub enum SyncMessage {
    Game(game::SyncMessage),
    MultipleChoice(multiple_choice::SyncMessage),
    TypeAnswer(type_answer::SyncMessage),
    Order(order::SyncMessage),
}

/// Any alarm payload the engine schedules and later receives back verbatim.
#[derive(Debug, Clone, Copy, PartialEq, Eq, Structural)]
pub enum AlarmMessage {
    MultipleChoice(multiple_choice::AlarmMessage),
    TypeAnswer(type_answer::AlarmMessage),
    Order(order::AlarmMessage),
}

/// The time left on a phase timer: the full duration minus what has
/// elapsed since the recorded start (the start defaults to now), floored at
/// zero.
pub open spec fn spec_remaining(limit: u64, start: Option<u64>, now: u64) -> u64 {
    let s = if start is Some {
        start->0
    } else {
        now
    };
    let elapsed: u64 = if now >= s {
        (now - s) as u64
    } else {
        0u64
    };
    if limit >= elapsed {
        (limit - elapsed) as u64
    } else {
        0u64
    }
}

/// A prefix of a longer list, remembering the exact length of the original.
#[derive(Debug, Clone)]
pub struct TruncatedVec<T> {
    exact_count: usize,
    items: Vec<T>,
}

impl<T> TruncatedVec<T> {
    /// How many items the full (untruncated) list held.
    pub closed spec fn spec_exact_count(self) -> usize {
        self.exact_count
    }

    /// The retained prefix.
    pub closed spec fn spec_items(self) -> Seq<T> {
        self.items@
    }

    /// Keep at most `limit` items of `list`, remembering `exact_count`.
    pub fn new(list: Vec<T>, limit: usize, exact_count: usize) -> (r: TruncatedVec<T>)
        ensures
            r.spec_exact_count() == exact_count,
            r.spec_items() == if list@.len() <= limit {
                list@
            } else {
                list@.take(limit as int)
            },
    {
        let mut items = list;
        items.truncate(limit);
        proof {
            if items@.len() <= limit {
            }
        }
        TruncatedVec { exact_count, items }
    }

    /// Read access to the retained prefix.
    pub fn items(&self) -> (r: &Vec<T>)
        ensures
            r@ == self.spec_items(),
    {
        &self.items
    }

    /// The exact length of the original list.
    pub fn exact_count(&self) -> (r: usize)
        ensures
            r == self.spec_exact_count(),
    {
        self.exact_count
    }
}

impl<T> TruncatedVec<T> {
    /// Map a function over the retained items, keeping the exact count.
    #[verifier::loop_isolation(false)]
    pub fn map<U, F: Fn(T) -> U>(self, f: F) -> (r: TruncatedVec<U>)
        requires
            forall|x: T| #[trigger] call_requires(f, (x,)),
        ensures
            r.spec_exact_count() == self.spec_exact_count(),
            r.spec_items().len() == self.spec_items().len(),
            forall|i: int|
                0 <= i < r.spec_items().len() ==> call_ensures(
                    f,
                    (self.spec_items()[i],),
                    #[trigger] r.spec_items()[i],
                ),
    {
        let ghost orig = self.items@;
        let mut source = self.items;
        let mut items: Vec<U> = Vec::new();
        while source.len() > 0
            invariant
                forall|x: T| #[trigger] call_requires(f, (x,)),
                items@.len() + source@.len() == orig.len(),
                source@ == orig.subrange(items@.len() as int, orig.len() as int),
                forall|i: int|
                    0 <= i < items@.len() ==> call_ensures(f, (orig[i],), #[trigger] items@[i]),
            decreases source@.len(),
        {
            let x = source.remove(0);
            let y = f(x);
            items.push(y);
            proof {
                assert(source@ =~= orig.subrange(items@.len() as int, orig.len() as int));
            }
        }
        TruncatedVec { exact_count: self.exact_count, items }
    }
}

} // verus!
