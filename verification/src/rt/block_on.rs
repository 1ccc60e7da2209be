//! Driving one future to its end.

use vstd::prelude::*;

use super::history::{History, QueueOp};
use super::queue::{Phase, QueueState, RunnableQueue, Step};
use crate::driver::errno::Numbers;
use crate::driver::{iour, poll, PollResult};

verus! {

/// What is to be done to drive the future.
pub enum Turn<T> {
    /// Run the task with this ticket, and ask again.
    Run(u64),
    /// Report this to the driver.
    Poll(PollResult<T>),
}

/// The state and the output after a turn, and what is to be done: a turn that starts
/// with the output in place returns it, any other turn runs the queue.
pub open spec fn turned<T>(state: QueueState, result: Option<T>) -> (
    QueueState,
    Option<T>,
    Turn<T>,
) {
    if state.phase is Parked && result is Some {
        (state, None, Turn::Poll(PollResult::Ready(result->0)))
    } else {
        let (next, step) = super::queue::stepped(state);
        let turn = match step {
            Step::Task(ticket) => Turn::Run(ticket),
            Step::Finished(more) => Turn::Poll(report(more)),
        };
        (next, result, turn)
    }
}

impl RunnableQueue {
    /// Block on the future till it completes.
    ///
    /// `result` is where the future leaves its output. A turn that starts with the
    /// output in place returns it; any other turn runs the queue.
    pub fn block_on<T>(&mut self, result: &mut Option<T>) -> (r: Turn<T>)
        requires
            old(self).wf(),
        ensures
            final(self).wf(),
            (final(self)@, *final(result), r) == turned(old(self)@, *old(result)),
            r matches Turn::Poll(PollResult::Pending) ==> final(self)@.local.len()
                + final(self)@.sync.len() == 0,
            r matches Turn::Poll(PollResult::HasTasks) ==> final(self)@.local.len()
                + final(self)@.sync.len() > 0,
    {
        if let Phase::Parked = self.phase() {
            if let Some(value) = result.take() {
                return Turn::Poll(PollResult::Ready(value));
            }
        }
        match self.run() {
            Step::Task(ticket) => Turn::Run(ticket),
            Step::Finished(more) => {
                if more {
                    Turn::Poll(PollResult::HasTasks)
                } else {
                    Turn::Poll(PollResult::Pending)
                }
            },
        }
    }
}

/// What a run that leaves tickets behind, or none, reports to the driver.
pub open spec fn report<T>(more: bool) -> PollResult<T> {
    if more {
        PollResult::HasTasks
    } else {
        PollResult::Pending
    }
}

/// When the io-uring driver blocks after a run, no task is queued, and whatever is
/// scheduled next, on whatever thread, notifies the driver.
pub proof fn law_blocked_ring_is_woken<T>(
    state: QueueState,
    more: bool,
    more_changes: bool,
    ticket: u64,
    local: bool,
    numbers: Numbers,
)
    requires
        super::queue::stepped(state).1 == Step::Finished(more),
        ({
            let apply = iour::next_stage(
                iour::Stage::<T>::Run,
                iour::StageEvent::Ran(report(more)),
                numbers,
            );
            let sync = iour::next_stage(
                apply,
                iour::StageEvent::Applied { more_changes },
                numbers,
            );
            iour::next_stage(sync, iour::StageEvent::Synced, numbers) == iour::Stage::<T>::Submit {
                wait: true,
            }
        }),
    ensures
        !super::queue::stepped(state).0.has_tickets(),
        !more_changes,
        super::queue::scheduled(super::queue::stepped(state).0, ticket, local).1,
{
}

/// When the polling driver blocks after a run, with changes to act on before that or
/// without, no task is queued, and whatever is scheduled next, on whatever thread,
/// notifies the driver.
pub proof fn law_blocked_poller_is_woken<T>(
    state: QueueState,
    more: bool,
    has_changes: bool,
    ticket: u64,
    local: bool,
)
    requires
        super::queue::stepped(state).1 == Step::Finished(more),
        ({
            let event = poll::StageEvent::Ran { result: report(more), has_changes };
            let first = poll::next_stage(poll::Stage::<T>::Run, event);
            let clear = if has_changes {
                poll::next_stage(first, poll::StageEvent::Applied { has_changes: false })
            } else {
                first
            };
            poll::next_stage(clear, poll::StageEvent::Cleared) == poll::Stage::<T>::Wait {
                block: true,
            }
        }),
    ensures
        !super::queue::stepped(state).0.has_tickets(),
        super::queue::scheduled(super::queue::stepped(state).0, ticket, local).1,
{
}

/// Something that happens while futures are driven to their ends, one after another.
pub enum CallOp<T> {
    /// A call starts: its future is scheduled under `ticket`.
    Start { ticket: u64 },
    /// The future leaves its output.
    Output(T),
    /// A turn is taken.
    Turn,
    /// A ticket is scheduled, on the thread of the runtime or on another one.
    Schedule { ticket: u64, local: bool },
}

/// The past of the calls.
pub struct Calls<T> {
    /// What happened to the queue.
    pub ops: Seq<QueueOp>,
    /// Whether a call is under way.
    pub active: bool,
    /// Whether the future of the last call left its output.
    pub completed: bool,
    /// Where the future of the last call leaves its output.
    pub result: Option<T>,
    /// How many calls were started.
    pub started: nat,
    /// The outputs, in the order in which they were left.
    pub outputs: Seq<T>,
    /// What the calls returned, in order.
    pub returned: Seq<T>,
}

impl<T> Calls<T> {
    /// The past of the queue.
    pub open spec fn queue(self, event_interval: usize) -> History {
        super::history::replay(super::history::new_history(event_interval), self.ops)
    }
}

/// Whether something can happen to the calls: one call is under way at a time, and a
/// future leaves one output.
pub open spec fn allowed<T>(past: Calls<T>, op: CallOp<T>) -> bool {
    match op {
        CallOp::Start { .. } => !past.active,
        CallOp::Output(_) => past.active && !past.completed,
        CallOp::Turn => past.active,
        CallOp::Schedule { .. } => true,
    }
}

/// The calls after one more event.
pub open spec fn extended<T>(event_interval: usize, past: Calls<T>, op: CallOp<T>) -> Calls<T> {
    match op {
        CallOp::Start { ticket } => Calls {
            ops: past.ops.push(QueueOp::Suspend).push(QueueOp::Schedule { ticket, local: true }),
            active: true,
            completed: false,
            result: None,
            started: past.started + 1,
            ..past
        },
        CallOp::Output(value) => Calls {
            completed: true,
            result: Some(value),
            outputs: past.outputs.push(value),
            ..past
        },
        CallOp::Turn => {
            let (_, result, turn) = turned(past.queue(event_interval).state, past.result);
            match turn {
                Turn::Poll(PollResult::Ready(value)) => Calls {
                    active: false,
                    result,
                    returned: past.returned.push(value),
                    ..past
                },
                _ => Calls { ops: past.ops.push(QueueOp::Run), result, ..past },
            }
        },
        CallOp::Schedule { ticket, local } => Calls {
            ops: past.ops.push(QueueOp::Schedule { ticket, local }),
            ..past
        },
    }
}

/// The calls after `ops`.
pub open spec fn replay<T>(event_interval: usize, ops: Seq<CallOp<T>>) -> Calls<T>
    decreases ops.len(),
{
    if ops.len() == 0 {
        Calls {
            ops: Seq::empty(),
            active: false,
            completed: false,
            result: None,
            started: 0,
            outputs: Seq::empty(),
            returned: Seq::empty(),
        }
    } else {
        extended(event_interval, replay(event_interval, ops.drop_last()), ops.last())
    }
}

/// Whether all of `ops` can happen, one after another.
pub open spec fn all_allowed<T>(event_interval: usize, ops: Seq<CallOp<T>>) -> bool
    decreases ops.len(),
{
    ops.len() > 0 ==> {
        &&& all_allowed(event_interval, ops.drop_last())
        &&& allowed(replay(event_interval, ops.drop_last()), ops.last())
    }
}

/// The tickets that `ops` schedule on the thread of the runtime (or, where `local`
/// is not set, on other threads), those of the futures of the calls among them.
pub open spec fn asked<T>(ops: Seq<CallOp<T>>, local: bool) -> Seq<u64>
    decreases ops.len(),
{
    if ops.len() == 0 {
        Seq::empty()
    } else {
        let before = asked(ops.drop_last(), local);
        match ops.last() {
            CallOp::Start { ticket } => if local {
                before.push(ticket)
            } else {
                before
            },
            CallOp::Schedule { ticket, local: here } => if here == local {
                before.push(ticket)
            } else {
                before
            },
            _ => before,
        }
    }
}

proof fn lemma_asked<T>(event_interval: usize, ops: Seq<CallOp<T>>, local: bool)
    ensures
        super::history::tickets(replay(event_interval, ops).ops, local) == asked(ops, local),
    decreases ops.len(),
{
    if ops.len() > 0 {
        let past = replay(event_interval, ops.drop_last()).ops;
        lemma_asked(event_interval, ops.drop_last(), local);
        assert(past.push(QueueOp::Run).drop_last() =~= past);
        match ops.last() {
            CallOp::Start { ticket } => {
                let parked = past.push(QueueOp::Suspend);
                assert(parked.drop_last() =~= past);
                assert(super::history::tickets(parked, local) == asked(ops.drop_last(), local));
                assert(parked.push(QueueOp::Schedule { ticket, local: true }).drop_last()
                    =~= parked);
            },
            CallOp::Schedule { ticket, local: here } => {
                assert(past.push(QueueOp::Schedule { ticket, local: here }).drop_last() =~= past);
            },
            _ => {},
        }
    }
}

/// Calls in a row lose no ticket: each ticket that was ever scheduled was handed out
/// once, in order, during some call, or is still queued, for the next call too.
pub proof fn law_calls_keep_tickets<T>(event_interval: usize, ops: Seq<CallOp<T>>)
    ensures
        ({
            let now = replay(event_interval, ops).queue(event_interval);
            &&& now.local_ran + now.state.local == asked(ops, true)
            &&& now.sync_ran + now.state.sync == asked(ops, false)
        }),
{
    let past = replay(event_interval, ops).ops;
    lemma_asked(event_interval, ops, true);
    lemma_asked(event_interval, ops, false);
    super::history::law_tickets_run_once_in_order(event_interval, past);
}

/// The call that returns leaves the queue as it is.
pub proof fn law_return_keeps_the_queue<T>(state: QueueState, result: Option<T>)
    requires
        turned(state, result).2 matches Turn::Poll(PollResult::Ready(_)),
    ensures
        turned(state, result).0 == state,
{
}

/// Each call returns the output of its own future, once it is there and not before:
/// the outputs are returned in order, and one that is not yet returned is that of the
/// call under way.
pub proof fn law_calls_return_their_outputs<T>(event_interval: usize, ops: Seq<CallOp<T>>)
    requires
        all_allowed(event_interval, ops),
    ensures
        ({
            let now = replay(event_interval, ops);
            &&& match now.result {
                Some(value) => now.active && now.returned.push(value) == now.outputs,
                None => now.returned == now.outputs,
            }
            &&& now.started == now.returned.len() + if now.active {
                1nat
            } else {
                0nat
            }
        }),
    decreases ops.len(),
{
    if ops.len() > 0 {
        law_calls_return_their_outputs(event_interval, ops.drop_last());
        lemma_slot(event_interval, ops.drop_last());
    }
}

proof fn lemma_slot<T>(event_interval: usize, ops: Seq<CallOp<T>>)
    requires
        all_allowed(event_interval, ops),
    ensures
        ({
            let now = replay(event_interval, ops);
            now.active ==> now.completed == (now.result is Some)
        }),
    decreases ops.len(),
{
    if ops.len() > 0 {
        lemma_slot(event_interval, ops.drop_last());
    }
}

/// When a turn ends the run, the driver is told that there are tasks if and only if the
/// queue that the turn leaves behind holds any ticket, in whatever phase it started: it
/// is told that nothing is left to run only with an empty queue.
pub proof fn law_driver_is_told_what_is_left<T>(state: QueueState, result: Option<T>)
    ensures
        ({
            let (next, _, turn) = turned(state, result);
            let queued = next.local.len() + next.sync.len();
            &&& turn matches Turn::Poll(PollResult::HasTasks) ==> queued > 0
            &&& turn matches Turn::Poll(PollResult::Pending) ==> queued == 0
        }),
{
}

/// A turn returns the output if and only if it starts with the output in place and no run
/// is under way, and then takes it; any other turn leaves the output where it is.
pub proof fn law_output_is_taken_once<T>(state: QueueState, result: Option<T>)
    ensures
        ({
            let (next, slot, turn) = turned(state, result);
            let ends = turn matches Turn::Poll(PollResult::Ready(_));
            &&& ends <==> state.phase is Parked && result is Some
            &&& turn matches Turn::Poll(PollResult::Ready(value)) ==> {
                &&& result == Some(value)
                &&& slot is None
                &&& next == state
            }
            &&& !ends ==> slot == result
        }),
{
}

/// A turn runs a task if and only if it takes its ticket, the oldest one, from one of the
/// queues; a turn that reports to the driver takes none and ends the run.
pub proof fn law_turn_runs_what_it_takes<T>(state: QueueState, result: Option<T>)
    ensures
        ({
            let (next, _, turn) = turned(state, result);
            &&& turn matches Turn::Run(ticket) ==> {
                ||| state.local == seq![ticket] + next.local && next.sync == state.sync
                ||| state.sync == seq![ticket] + next.sync && next.local == state.local
            }
            &&& turn is Poll ==> {
                &&& next.local == state.local
                &&& next.sync == state.sync
                &&& next.phase is Parked
            }
            &&& turn is Run ==> next.phase !is Parked
        }),
{
    super::queue::law_step_takes_the_oldest_ticket(state);
}

} // verus!
