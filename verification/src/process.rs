//! The slots that hold the tunnel processes the application manages (one for
//! the server side, one for the client side): starting a tunnel replaces the
//! process in its slot, stopping empties it, and polling forgets a process
//! that has ended.

use vstd::prelude::*;
use crate::commands::{ProcessPoll, running_status};
use crate::logs::{LogPayload, is_stop_entry, stop_report, stop_reply};

verus! {

/// A slot holding at most one running tunnel process; its view is the process, if any.
pub struct ProcessSlot<C> {
    child: Option<C>,
}

impl<C> View for ProcessSlot<C> {
    type V = Option<C>;

    closed spec fn view(&self) -> Option<C> {
        self.child
    }
}

/// The slot after a poll: a process found gone is forgotten.
pub open spec fn after_poll<C>(slot: Option<C>, poll: ProcessPoll) -> Option<C> {
    if poll == ProcessPoll::Gone {
        None
    } else {
        slot
    }
}

/// The slot after a stop: empty.
pub open spec fn after_stop<C>(slot: Option<C>) -> Option<C> {
    None
}

/// A poll that fits the slot: `Absent` exactly when the slot is empty.
pub open spec fn poll_fits<C>(slot: Option<C>, poll: ProcessPoll) -> bool {
    (poll == ProcessPoll::Absent) == (slot is None)
}

impl<C> ProcessSlot<C> {
    /// An empty slot.
    pub fn new() -> (res: ProcessSlot<C>)
        ensures
            res@ is None,
    {
        ProcessSlot { child: None }
    }

    /// Whether the slot holds a process.
    pub fn is_occupied(&self) -> (res: bool)
        ensures
            res == self@ is Some,
    {
        self.child.is_some()
    }

    /// Takes the process out of the slot (to end it before starting another
    /// tunnel, before deleting a tunnel, or on exit); the slot is then empty.
    pub fn take_child(&mut self) -> (res: Option<C>)
        ensures
            res == old(self)@,
            final(self)@ is None,
    {
        self.child.take()
    }

    /// Records a newly started process.
    pub fn install(&mut self, child: C)
        ensures
            final(self)@ == Some(child),
    {
        self.child = Some(child);
    }

    /// The process in the slot, to be polled.
    pub fn child_mut(&mut self) -> (res: Option<&mut C>)
        ensures
            res is Some == old(self)@ is Some,
            final(self)@ is Some == old(self)@ is Some,
            res matches Some(r) ==> *r == old(self)@->0 && final(self)@ == Some(*final(r)),
    {
        self.child.as_mut()
    }

    /// Records what polling the process found; whether the tunnel runs.
    pub fn record_poll(&mut self, poll: ProcessPoll) -> (running: bool)
        requires
            poll_fits(old(self)@, poll),
        ensures
            running == (poll == ProcessPoll::Running),
            final(self)@ == after_poll(old(self)@, poll),
    {
        let (running, forget) = running_status(poll);
        if forget {
            self.child = None;
        }
        running
    }

    /// Stops the tunnel of this slot (`client` tells which side it is): takes
    /// the process out to be ended, and gives the log entry and the reply.
    pub fn stop(&mut self, client: bool) -> (res: (Option<C>, Option<LogPayload>, String))
        ensures
            res.0 == old(self)@,
            final(self)@ == after_stop(old(self)@),
            is_stop_entry(res.1, old(self)@ is Some, client),
            res.2@ == stop_reply(old(self)@ is Some, client),
    {
        let child = self.child.take();
        let (entry, reply) = stop_report(child.is_some(), client);
        (child, entry, reply)
    }
}

/// A stop right after a stop finds no tunnel: it ends no process, logs
/// nothing and replies that no tunnel is running.
pub proof fn lemma_second_stop_finds_nothing<C>(slot: Option<C>, client: bool, entry: Option<LogPayload>)
    requires
        is_stop_entry(entry, after_stop(slot) is Some, client),
    ensures
        entry is None,
        after_stop(after_stop(slot)) is None,
        stop_reply(after_stop(slot) is Some, client) == (if client {
            "当前没有正在运行的客户端连接"@
        } else {
            "当前没有正在运行的服务端隧道"@
        }),
{
}

/// Once a poll finds the process gone, the slot is empty: the next poll can
/// only find it absent, reports no tunnel, and leaves the slot empty.
pub proof fn lemma_gone_stays_gone<C>(slot: Option<C>, next: ProcessPoll)
    requires
        poll_fits(after_poll(slot, ProcessPoll::Gone), next),
    ensures
        after_poll(slot, ProcessPoll::Gone) is None,
        next == ProcessPoll::Absent,
        after_poll(after_poll(slot, ProcessPoll::Gone), next) is None,
{
}

} // verus!
