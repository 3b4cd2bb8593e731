//! The transport surface of the engine.
//!
//! The engine performs no I/O. Every operation that would talk to watchers
//! or schedule a timer instead records its intent in an [`Effects`] value:
//! outbound frames in order, and alarm requests. The transport layer drains
//! the effects after the call, sending each frame over the matching tunnel
//! and arranging each alarm to come back after its delay.

use vstd::prelude::*;

use crate::watcher::Id;
use crate::{AlarmMessage, SyncMessage, UpdateMessage};

verus! {

/// One outbound item: a state-delta to a list of watchers (each recipient
/// gets the same frame, in list order), a full-state message to one watcher,
/// or an order to close one watcher's tunnel.
#[derive(Debug)]
pub enum Outgoing {
    /// The same update, to each listed watcher in order.
    Update { to: Vec<Id>, message: UpdateMessage },
    /// A full-state message to one watcher.
    Sync { to: Id, message: SyncMessage },
    /// Close this watcher's tunnel.
    Close { to: Id },
}

/// A request that `alarm` come back to the game after `delay` milliseconds.
#[derive(Debug, Clone, Copy, PartialEq, Eq, Structural)]
pub struct ScheduleRequest {
    pub alarm: AlarmMessage,
    pub delay: u64,
}

/// What one engine operation wants the transport layer to do, in order.
#[derive(Debug)]
pub struct Effects {
    /// Outbound frames, oldest first.
    pub outgoing: Vec<Outgoing>,
    /// Alarm requests, oldest first.
    pub alarms: Vec<ScheduleRequest>,
}

/// `post` extends `pre` by exactly one update of `message` to `to`.
pub open spec fn appended_update(
    pre: Seq<Outgoing>,
    post: Seq<Outgoing>,
    to: Seq<Id>,
    message: UpdateMessage,
) -> bool {
    &&& post.len() == pre.len() + 1
    &&& post.take(pre.len() as int) == pre
    &&& (post.last() matches Outgoing::Update { to: t, message: m } && t@ == to && m == message)
}

/// `post` extends `pre` by exactly one sync of `message` to `to`.
pub open spec fn appended_sync(
    pre: Seq<Outgoing>,
    post: Seq<Outgoing>,
    to: Id,
    message: SyncMessage,
) -> bool {
    &&& post.len() == pre.len() + 1
    &&& post.take(pre.len() as int) == pre
    &&& (post.last() matches Outgoing::Sync { to: t, message: m } && t == to && m == message)
}

/// `post` holds `pre` as a prefix: effects are only ever appended.
pub open spec fn extends(pre: Seq<Outgoing>, post: Seq<Outgoing>) -> bool {
    &&& post.len() >= pre.len()
    &&& forall|i: int| 0 <= i < pre.len() ==> post[i] == (#[trigger] pre[i])
}

/// `post` holds `pre` as a prefix: alarm requests are only ever appended.
pub open spec fn extends_alarms(pre: Seq<ScheduleRequest>, post: Seq<ScheduleRequest>) -> bool {
    &&& post.len() >= pre.len()
    &&& forall|i: int| 0 <= i < pre.len() ==> post[i] == (#[trigger] pre[i])
}

impl Effects {
    /// No effects yet.
    pub fn new() -> (r: Effects)
        ensures
            r.outgoing@ == Seq::<Outgoing>::empty(),
            r.alarms@ == Seq::<ScheduleRequest>::empty(),
    {
        Effects { outgoing: Vec::new(), alarms: Vec::new() }
    }

    /// Send the same update to each listed watcher.
    pub fn send_to(&mut self, to: Vec<Id>, message: UpdateMessage)
        ensures
            appended_update(old(self).outgoing@, final(self).outgoing@, to@, message),
            final(self).alarms@ == old(self).alarms@,
    {
        self.outgoing.push(Outgoing::Update { to, message });
        proof {
            assert(self.outgoing@.take(old(self).outgoing@.len() as int) =~= old(self).outgoing@);
        }
    }

    /// Send an update to one watcher.
    pub fn send(&mut self, to: Id, message: UpdateMessage)
        ensures
            appended_update(old(self).outgoing@, final(self).outgoing@, seq![to], message),
            final(self).alarms@ == old(self).alarms@,
    {
        let mut tos: Vec<Id> = Vec::new();
        tos.push(to);
        proof {
            assert(tos@ =~= seq![to]);
        }
        self.send_to(tos, message);
    }

    /// Send a full-state message to one watcher.
    pub fn send_state(&mut self, to: Id, message: SyncMessage)
        ensures
            appended_sync(old(self).outgoing@, final(self).outgoing@, to, message),
            final(self).alarms@ == old(self).alarms@,
    {
        self.outgoing.push(Outgoing::Sync { to, message });
        proof {
            assert(self.outgoing@.take(old(self).outgoing@.len() as int) =~= old(self).outgoing@);
        }
    }

    /// Order one watcher's tunnel closed.
    pub fn close(&mut self, to: Id)
        ensures
            final(self).outgoing@.len() == old(self).outgoing@.len() + 1,
            final(self).outgoing@.take(old(self).outgoing@.len() as int) == old(self).outgoing@,
            final(self).outgoing@.last() matches Outgoing::Close { to: t } && t == to,
            final(self).alarms@ == old(self).alarms@,
    {
        self.outgoing.push(Outgoing::Close { to });
        proof {
            assert(self.outgoing@.take(old(self).outgoing@.len() as int) =~= old(self).outgoing@);
        }
    }

    /// Ask for `alarm` to come back after `delay` milliseconds.
    pub fn schedule(&mut self, alarm: AlarmMessage, delay: u64)
        ensures
            final(self).outgoing@ == old(self).outgoing@,
            final(self).alarms@ == old(self).alarms@.push(ScheduleRequest { alarm, delay }),
    {
        self.alarms.push(ScheduleRequest { alarm, delay });
    }
}

} // verus!
