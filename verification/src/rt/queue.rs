//! The queue of runnable tasks.
//!
//! A task stands in the queue as a ticket, by which its owner finds it again.
//! Tickets of the runtime's own thread go to the local queue, those of other
//! threads to the sync queue.

use std::collections::VecDeque;

use crossbeam_queue::SegQueue;
use vstd::prelude::*;

use super::sync_queue::{seg_is_empty, seg_new, seg_pop, seg_push, FixedQueue};

verus! {

broadcast use vstd::std_specs::vecdeque::group_vec_dequeue_axioms;

/// Where the queue is in its run.
#[derive(Copy, Clone, Debug, PartialEq, Eq, Structural)]
pub enum Phase {
    /// No run is under way.
    Parked,
    /// Local tickets are handed out, at most `left` more.
    Local { left: usize },
    /// Tickets of other threads are handed out, at most `left` more.
    Sync { left: usize },
}

/// The next step of a run.
#[derive(Copy, Clone, Debug, PartialEq, Eq, Structural)]
pub enum Step {
    /// Run the task with this ticket.
    Task(u64),
    /// The run is over; the flag tells whether any ticket is left.
    Finished(bool),
}

/// The state of the queue.
#[verifier::ext_equal]
pub struct QueueState {
    /// Whether the next local ticket has to wake the driver.
    pub idle: bool,
    /// How many tickets of each queue a run hands out at most.
    pub event_interval: usize,
    /// Where the queue is in its run.
    pub phase: Phase,
    /// The local tickets, the oldest one first.
    pub local: Seq<u64>,
    /// The tickets of other threads, the oldest one first.
    pub sync: Seq<u64>,
}

impl QueueState {
    /// Whether any ticket is in the queue.
    pub open spec fn has_tickets(self) -> bool {
        self.local.len() > 0 || self.sync.len() > 0
    }
}

/// The state of a new queue.
pub open spec fn new_state(event_interval: usize) -> QueueState {
    QueueState {
        idle: true,
        event_interval,
        phase: Phase::Parked,
        local: Seq::empty(),
        sync: Seq::empty(),
    }
}

/// The state after a ticket is scheduled, and whether the driver is to be woken.
pub open spec fn scheduled(state: QueueState, ticket: u64, local: bool) -> (QueueState, bool) {
    if local {
        (QueueState { idle: false, local: state.local.push(ticket), ..state }, state.idle)
    } else {
        (QueueState { sync: state.sync.push(ticket), ..state }, true)
    }
}

/// The state after a step of a run among the tickets of other threads, of which
/// at most `left` more are handed out, and the step.
pub open spec fn sync_step(state: QueueState, left: usize) -> (QueueState, Step) {
    if left > 0 && state.sync.len() > 0 {
        (
            QueueState {
                phase: Phase::Sync { left: (left - 1) as usize },
                sync: state.sync.drop_first(),
                ..state
            },
            Step::Task(state.sync[0]),
        )
    } else {
        (
            QueueState { idle: true, phase: Phase::Parked, ..state },
            Step::Finished(state.has_tickets()),
        )
    }
}

/// The state after a step of a run among the local tickets, of which at most
/// `left` more are handed out, and the step.
pub open spec fn local_step(state: QueueState, left: usize) -> (QueueState, Step) {
    if left > 0 && state.local.len() > 0 {
        (
            QueueState {
                phase: Phase::Local { left: (left - 1) as usize },
                local: state.local.drop_first(),
                ..state
            },
            Step::Task(state.local[0]),
        )
    } else {
        sync_step(state, state.event_interval)
    }
}

/// The state after a step of a run, and the step.
pub open spec fn stepped(state: QueueState) -> (QueueState, Step) {
    match state.phase {
        Phase::Parked => local_step(QueueState { idle: false, ..state }, state.event_interval),
        Phase::Local { left } => local_step(state, left),
        Phase::Sync { left } => sync_step(state, left),
    }
}

/// The state after the run under way, if any, is replaced by `phase`.
pub open spec fn moved(state: QueueState, phase: Phase) -> QueueState {
    QueueState { phase, ..state }
}

/// The queue of runnable tasks.
pub struct RunnableQueue {
    idle: bool,
    event_interval: usize,
    phase: Phase,
    local_queue: VecDeque<u64>,
    sync_fixed_queue: FixedQueue,
    sync_queue: SegQueue<u64>,
}

impl View for RunnableQueue {
    type V = QueueState;

    closed spec fn view(&self) -> QueueState {
        QueueState {
            idle: self.idle,
            event_interval: self.event_interval,
            phase: self.phase,
            local: self.local_queue@,
            sync: super::sync_queue::seg_items(self.sync_queue),
        }
    }
}

impl RunnableQueue {
    /// Nothing is ever put in the fixed queue.
    pub closed spec fn wf(&self) -> bool {
        super::sync_queue::fixed_items(self.sync_fixed_queue).len() == 0
    }

    /// Create a queue that hands out at most `event_interval` tickets of each of
    /// its queues in a run.
    pub fn new(event_interval: usize) -> (r: RunnableQueue)
        ensures
            r.wf(),
            r@ == new_state(event_interval),
    {
        RunnableQueue {
            idle: true,
            event_interval,
            phase: Phase::Parked,
            local_queue: VecDeque::new(),
            sync_fixed_queue: FixedQueue::new(),
            sync_queue: seg_new(),
        }
    }

    /// Where the queue is in its run.
    pub fn phase(&self) -> (r: Phase)
        ensures
            r == self@.phase,
    {
        self.phase
    }

    /// Put a ticket in the queue; `local` tells whether this happens on the thread
    /// of the runtime. Returns whether the driver is to be notified.
    pub fn schedule(&mut self, ticket: u64, local: bool) -> (r: bool)
        requires
            old(self).wf(),
        ensures
            final(self).wf(),
            (final(self)@, r) == scheduled(old(self)@, ticket, local),
    {
        if local {
            self.local_queue.push_back(ticket);
            if self.idle {
                self.idle = false;
                true
            } else {
                false
            }
        } else {
            seg_push(&mut self.sync_queue, ticket);
            true
        }
    }

    /// The next step of the run. The first step of a run starts it; the tasks that
    /// are run between two steps may schedule others.
    pub fn run(&mut self) -> (r: Step)
        requires
            old(self).wf(),
        ensures
            final(self).wf(),
            (final(self)@, r) == stepped(old(self)@),
            r matches Step::Finished(more) ==> (more <==> final(self)@.local.len()
                + final(self)@.sync.len() > 0),
    {
        if let Phase::Parked = self.phase {
            self.idle = false;
            self.phase = Phase::Local { left: self.event_interval };
        }
        if let Phase::Local { left } = self.phase {
            if left > 0 {
                if let Some(ticket) = self.local_queue.pop_front() {
                    self.phase = Phase::Local { left: left - 1 };
                    return Step::Task(ticket);
                }
            }
            self.phase = Phase::Sync { left: self.event_interval };
        }
        if let Phase::Sync { left } = self.phase {
            if left > 0 && !seg_is_empty(&mut self.sync_queue) {
                if let Some(ticket) = seg_pop(&mut self.sync_queue) {
                    self.phase = Phase::Sync { left: left - 1 };
                    return Step::Task(ticket);
                }
            }
        }
        self.idle = true;
        self.phase = Phase::Parked;
        let more: bool = self.local_queue.len() > 0 || !self.sync_fixed_queue.is_empty()
            || !seg_is_empty(&mut self.sync_queue);
        Step::Finished(more)
    }

    /// Set aside the run under way, if any: the next step starts a new one. A run that
    /// was abandoned, because a task of it unwound, is ended in this way; one in which
    /// another run is nested goes on with [`RunnableQueue::resume`].
    pub fn suspend(&mut self) -> (r: Phase)
        requires
            old(self).wf(),
        ensures
            final(self).wf(),
            r == old(self)@.phase,
            final(self)@ == moved(old(self)@, Phase::Parked),
    {
        let phase = self.phase;
        self.phase = Phase::Parked;
        phase
    }

    /// Go on with a run that was set aside.
    pub fn resume(&mut self, phase: Phase)
        requires
            old(self).wf(),
        ensures
            final(self).wf(),
            final(self)@ == moved(old(self)@, phase),
    {
        self.phase = phase;
    }

    /// Empty the queue. Returns the tickets that were in it, those of other threads
    /// first: their tasks are to be dropped, in this order.
    pub fn clear(&mut self) -> (r: Vec<u64>)
        requires
            old(self).wf(),
        ensures
            final(self).wf(),
            r@ == old(self)@.sync + old(self)@.local,
            final(self)@ == (QueueState { local: Seq::empty(), sync: Seq::empty(), ..old(self)@ }),
    {
        let mut dropped: Vec<u64> = Vec::new();
        loop
            invariant
                self.wf(),
                dropped@ + self@.sync == old(self)@.sync,
                self@ == (QueueState { sync: self@.sync, ..old(self)@ }),
            ensures
                self@.sync.len() == 0,
            decreases self@.sync.len(),
        {
            match seg_pop(&mut self.sync_queue) {
                Some(ticket) => dropped.push(ticket),
                None => break,
            }
        }
        assert(dropped@ == old(self)@.sync);
        loop
            invariant
                self.wf(),
                dropped@ + self@.local == old(self)@.sync + old(self)@.local,
                self@ == (QueueState { local: self@.local, sync: Seq::empty(), ..old(self)@ }),
            ensures
                self@.local.len() == 0,
            decreases self@.local.len(),
        {
            match self.local_queue.pop_front() {
                Some(ticket) => dropped.push(ticket),
                None => break,
            }
        }
        dropped
    }
}

/// A new queue is empty and idle, and no run is under way.
pub proof fn law_new_queue_is_empty(event_interval: usize)
    ensures
        new_state(event_interval).local.len() == 0,
        new_state(event_interval).sync.len() == 0,
        new_state(event_interval).idle,
        new_state(event_interval).phase is Parked,
        new_state(event_interval).event_interval == event_interval,
        !new_state(event_interval).has_tickets(),
{
}

/// The queue has tickets if and only if one of its two queues holds some.
pub proof fn law_tickets_are_in_one_of_the_queues(state: QueueState)
    ensures
        state.has_tickets() <==> state.local.len() + state.sync.len() > 0,
{
}

/// A ticket joins the end of the queue of its kind, and the other queue stays. On another
/// thread it always notifies the driver; on the thread of the runtime it does so if and
/// only if the queue is idle, which it then no longer is.
pub proof fn law_ticket_joins_its_queue(state: QueueState, ticket: u64, local: bool)
    ensures
        ({
            let (next, notify) = scheduled(state, ticket, local);
            &&& next.event_interval == state.event_interval
            &&& next.phase == state.phase
            &&& local ==> {
                &&& next.local == state.local.push(ticket)
                &&& next.sync == state.sync
                &&& !next.idle
                &&& notify <==> state.idle
            }
            &&& !local ==> {
                &&& next.sync == state.sync.push(ticket)
                &&& next.local == state.local
                &&& next.idle == state.idle
                &&& notify
            }
        }),
{
}

/// A step takes the oldest ticket of one of the two queues and hands it out, or takes
/// none and ends the run.
pub proof fn law_step_takes_the_oldest_ticket(state: QueueState)
    ensures
        ({
            let (next, step) = stepped(state);
            &&& next.event_interval == state.event_interval
            &&& step matches Step::Task(ticket) ==> {
                ||| {
                    &&& next.phase is Local
                    &&& state.local == seq![ticket] + next.local
                    &&& next.sync == state.sync
                }
                ||| {
                    &&& next.phase is Sync
                    &&& state.sync == seq![ticket] + next.sync
                    &&& next.local == state.local
                }
            }
            &&& step matches Step::Finished(more) ==> {
                &&& next.local == state.local
                &&& next.sync == state.sync
                &&& more <==> next.local.len() + next.sync.len() > 0
                &&& next.phase is Parked
                &&& next.idle
            }
        }),
{
    let (next, step) = stepped(state);
    if state.local.len() > 0 {
        assert(seq![state.local[0]] + state.local.drop_first() =~= state.local);
    }
    if state.sync.len() > 0 {
        assert(seq![state.sync[0]] + state.sync.drop_first() =~= state.sync);
    }
}

/// Local tickets come first, as long as the run may hand out any; once it has turned to
/// the tickets of other threads it does not turn back; and it ends only when it may hand
/// out none or there is none. Each ticket takes one from what the run may hand out.
pub proof fn law_step_keeps_to_the_interval(state: QueueState)
    ensures
        ({
            let (next, step) = stepped(state);
            let locals = match state.phase {
                Phase::Parked => state.event_interval as int,
                Phase::Local { left } => left as int,
                Phase::Sync { .. } => 0,
            };
            let syncs = match state.phase {
                Phase::Sync { left } => left as int,
                _ => state.event_interval as int,
            };
            &&& next.phase is Local <==> locals > 0 && state.local.len() > 0
            &&& next.phase is Sync <==> (locals == 0 || state.local.len() == 0) && syncs > 0
                && state.sync.len() > 0
            &&& next.phase is Parked <==> step is Finished
            &&& next.phase matches Phase::Local { left } ==> left + 1 == locals
            &&& next.phase matches Phase::Sync { left } ==> left + 1 == syncs
            &&& step is Task ==> (next.idle <==> state.idle && state.phase !is Parked)
        }),
{
}

/// Setting a run aside, or going on with it, touches no ticket.
pub proof fn law_moving_touches_no_ticket(state: QueueState, phase: Phase)
    ensures
        moved(state, phase).local == state.local,
        moved(state, phase).sync == state.sync,
        moved(state, phase).idle == state.idle,
        moved(state, phase).event_interval == state.event_interval,
        moved(state, phase).phase == phase,
        moved(moved(state, Phase::Parked), state.phase) == state,
{
}

} // verus!
