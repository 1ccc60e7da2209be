//! What holds of the queue of runnable tasks over time.

use vstd::prelude::*;

use super::queue::{Phase, QueueState, Step};

verus! {

/// Something that happens to the queue.
pub enum QueueOp {
    /// A ticket is scheduled, on the thread of the runtime or on another one.
    Schedule { ticket: u64, local: bool },
    /// A step of a run is taken.
    Run,
    /// The run under way, if any, is set aside or abandoned.
    Suspend,
    /// A run that was set aside goes on.
    Resume { phase: Phase },
}

/// The past of a queue.
#[verifier::ext_equal]
pub struct History {
    /// The present state.
    pub state: QueueState,
    /// The local tickets that were handed out, in order.
    pub local_ran: Seq<u64>,
    /// The tickets of other threads that were handed out, in order.
    pub sync_ran: Seq<u64>,
    /// How many times a run came to its end, was set aside or went on.
    pub finished: nat,
    /// Whether the driver has a reason not to block since it was last told that there
    /// is no work: a run that left some tickets, a notification, or that a run was
    /// set aside or went on, which happens only while the driver is not blocked.
    pub awake: bool,
}

/// The history of a new queue.
pub open spec fn new_history(event_interval: usize) -> History {
    History {
        state: super::queue::new_state(event_interval),
        local_ran: Seq::empty(),
        sync_ran: Seq::empty(),
        finished: 0,
        awake: false,
    }
}

/// The history after one more event.
pub open spec fn extended(past: History, op: QueueOp) -> History {
    match op {
        QueueOp::Schedule { ticket, local } => {
            let (state, notify) = super::queue::scheduled(past.state, ticket, local);
            History { state, awake: past.awake || notify, ..past }
        },
        QueueOp::Run => {
            let (state, step) = super::queue::stepped(past.state);
            match step {
                Step::Task(ticket) => if state.phase is Local {
                    History { state, local_ran: past.local_ran.push(ticket), ..past }
                } else {
                    History { state, sync_ran: past.sync_ran.push(ticket), ..past }
                },
                Step::Finished(more) => History {
                    state,
                    finished: past.finished + 1,
                    awake: more,
                    ..past
                },
            }
        },
        QueueOp::Suspend => History {
            state: super::queue::moved(past.state, Phase::Parked),
            finished: past.finished + 1,
            awake: true,
            ..past
        },
        QueueOp::Resume { phase } => History {
            state: super::queue::moved(past.state, phase),
            finished: past.finished + 1,
            awake: true,
            ..past
        },
    }
}

/// The history after some more events.
pub open spec fn replay(past: History, ops: Seq<QueueOp>) -> History
    decreases ops.len(),
{
    if ops.len() == 0 {
        past
    } else {
        extended(replay(past, ops.drop_last()), ops.last())
    }
}

/// The tickets that `ops` schedule on the thread of the runtime (or, where `local`
/// is not set, on other threads), in order.
pub open spec fn tickets(ops: Seq<QueueOp>, local: bool) -> Seq<u64>
    decreases ops.len(),
{
    if ops.len() == 0 {
        Seq::empty()
    } else {
        let before = tickets(ops.drop_last(), local);
        match ops.last() {
            QueueOp::Schedule { ticket, local: here } => if here == local {
                before.push(ticket)
            } else {
                before
            },
            _ => before,
        }
    }
}

/// Every ticket is handed out once, in the order in which its queue took it in,
/// or is still in its queue: none is lost, none is handed out twice.
pub proof fn law_tickets_run_once_in_order(event_interval: usize, ops: Seq<QueueOp>)
    ensures
        ({
            let now = replay(new_history(event_interval), ops);
            &&& now.local_ran + now.state.local == tickets(ops, true)
            &&& now.sync_ran + now.state.sync == tickets(ops, false)
        }),
    decreases ops.len(),
{
    if ops.len() > 0 {
        let past = replay(new_history(event_interval), ops.drop_last());
        law_tickets_run_once_in_order(event_interval, ops.drop_last());
        match ops.last() {
            QueueOp::Schedule { ticket, local } => {
                if local {
                    assert(past.local_ran + past.state.local.push(ticket) =~= (past.local_ran
                        + past.state.local).push(ticket));
                } else {
                    assert(past.sync_ran + past.state.sync.push(ticket) =~= (past.sync_ran
                        + past.state.sync).push(ticket));
                }
            },
            QueueOp::Run => {
                let local = past.state.local;
                let sync = past.state.sync;
                if local.len() > 0 {
                    assert(past.local_ran.push(local[0]) + local.drop_first() =~= past.local_ran
                        + local);
                }
                if sync.len() > 0 {
                    assert(past.sync_ran.push(sync[0]) + sync.drop_first() =~= past.sync_ran
                        + sync);
                }
            },
            _ => {},
        }
    }
}

/// Whether the driver knows of the work that there is.
pub open spec fn is_told(now: History) -> bool {
    now.state.phase is Parked && !now.awake ==> now.state.idle && !now.state.has_tickets()
}

/// No wake-up is lost: while no run is under way and the queue holds a ticket, the
/// driver has a reason not to block.
pub proof fn law_no_wakeup_is_lost(event_interval: usize, ops: Seq<QueueOp>)
    ensures
        ({
            let now = replay(new_history(event_interval), ops);
            &&& now.state.phase is Parked && now.state.has_tickets() ==> now.awake
            &&& is_told(now)
        }),
    decreases ops.len(),
{
    if ops.len() > 0 {
        law_no_wakeup_is_lost(event_interval, ops.drop_last());
    }
}

/// Whether no run goes on while the queue is idle, as it is after a run that was
/// nested in it.
pub open spec fn resumes_busy(past: History, ops: Seq<QueueOp>) -> bool
    decreases ops.len(),
{
    ops.len() > 0 ==> {
        &&& resumes_busy(past, ops.drop_last())
        &&& ops.last() matches QueueOp::Resume { phase } ==> phase is Parked || !replay(
            past,
            ops.drop_last(),
        ).state.idle
    }
}

/// While a run is under way the queue is not idle, so that a ticket scheduled on the
/// thread of the runtime joins the local queue without a notification of the driver.
pub proof fn law_running_queue_is_not_idle(event_interval: usize, ops: Seq<QueueOp>, ticket: u64)
    requires
        resumes_busy(new_history(event_interval), ops),
    ensures
        ({
            let state = replay(new_history(event_interval), ops).state;
            state.phase !is Parked ==> {
                &&& !state.idle
                &&& super::queue::scheduled(state, ticket, true) == (
                    QueueState { local: state.local.push(ticket), ..state },
                    false,
                )
            }
        }),
    decreases ops.len(),
{
    if ops.len() > 0 {
        law_running_queue_is_not_idle(event_interval, ops.drop_last(), ticket);
    }
}

/// A run that ends leaves the queue idle, whatever it was before: the first ticket
/// that is then scheduled on the thread of the runtime notifies the driver, and the
/// second one does not.
pub proof fn law_finished_run_is_idle(state: QueueState, first: u64, second: u64)
    requires
        super::queue::stepped(state).1 is Finished,
    ensures
        ({
            let parked = super::queue::stepped(state).0;
            let (after, notify) = super::queue::scheduled(parked, first, true);
            &&& parked.idle
            &&& parked.phase is Parked
            &&& notify
            &&& !super::queue::scheduled(after, second, true).1
        }),
{
}

/// A run that starts after another one was abandoned is a new one: it hands out the
/// oldest local ticket first.
pub proof fn law_abandoned_run_is_over(state: QueueState)
    requires
        state.event_interval > 0,
        state.local.len() > 0,
    ensures
        super::queue::stepped(super::queue::moved(state, Phase::Parked)).1 == Step::Task(
            state.local[0],
        ),
{
}

/// When a run ends with nothing left, the queue is empty and whatever is scheduled
/// next, on whatever thread, notifies the driver.
pub proof fn law_pending_queue_notifies(state: QueueState, ticket: u64, local: bool)
    requires
        super::queue::stepped(state).1 == Step::Finished(false),
    ensures
        !super::queue::stepped(state).0.has_tickets(),
        super::queue::scheduled(super::queue::stepped(state).0, ticket, local).1,
{
}

/// A run tells truly whether it leaves any ticket behind.
pub proof fn law_run_reports_what_is_left(state: QueueState, more: bool)
    requires
        super::queue::stepped(state).1 == Step::Finished(more),
    ensures
        more == super::queue::stepped(state).0.has_tickets(),
        super::queue::stepped(state).0.local == state.local,
        super::queue::stepped(state).0.sync == state.sync,
{
}

/// How many local tickets the run under way may still hand out.
pub open spec fn local_budget(state: QueueState) -> int {
    match state.phase {
        Phase::Parked => state.event_interval as int,
        Phase::Local { left } => left as int,
        Phase::Sync { .. } => 0,
    }
}

/// How many tickets of other threads the run under way may still hand out.
pub open spec fn sync_budget(state: QueueState) -> int {
    match state.phase {
        Phase::Parked => state.event_interval as int,
        Phase::Local { .. } => state.event_interval as int,
        Phase::Sync { left } => left as int,
    }
}

proof fn lemma_budget(past: History, ops: Seq<QueueOp>)
    requires
        replay(past, ops).finished == past.finished,
    ensures
        ({
            let now = replay(past, ops);
            &&& now.state.event_interval == past.state.event_interval
            &&& now.local_ran.len() - past.local_ran.len() <= local_budget(past.state)
                - local_budget(now.state)
            &&& now.sync_ran.len() - past.sync_ran.len() <= sync_budget(past.state) - sync_budget(
                now.state,
            )
        }),
    decreases ops.len(),
{
    if ops.len() > 0 {
        lemma_finished_grows(past, ops.drop_last());
        lemma_budget(past, ops.drop_last());
    }
}

proof fn lemma_finished_grows(past: History, ops: Seq<QueueOp>)
    ensures
        replay(past, ops).finished >= past.finished,
    decreases ops.len(),
{
    if ops.len() > 0 {
        lemma_finished_grows(past, ops.drop_last());
    }
}

/// From its start on, a run hands out at most as many tickets of each queue as the
/// event interval says, whatever its tasks and other threads schedule meanwhile.
pub proof fn law_run_is_bounded(past: History, ops: Seq<QueueOp>)
    requires
        past.state.phase is Parked,
        replay(past, ops).finished == past.finished,
    ensures
        replay(past, ops).local_ran.len() - past.local_ran.len() <= past.state.event_interval,
        replay(past, ops).sync_ran.len() - past.sync_ran.len() <= past.state.event_interval,
{
    lemma_budget(past, ops);
}

/// The state after `n` steps with nothing in between.
pub open spec fn after_steps(state: QueueState, n: nat) -> QueueState
    decreases n,
{
    if n == 0 {
        state
    } else {
        super::queue::stepped(after_steps(state, (n - 1) as nat)).0
    }
}

/// The smaller of two numbers.
pub open spec fn least(a: nat, b: nat) -> nat {
    if a < b {
        a
    } else {
        b
    }
}

proof fn lemma_undisturbed(state: QueueState, n: nat)
    requires
        state.phase is Parked,
        n <= least(state.local.len(), state.event_interval as nat) + least(
            state.sync.len(),
            state.event_interval as nat,
        ),
    ensures
        ({
            let interval = state.event_interval;
            let locals = least(state.local.len(), interval as nat);
            let now = after_steps(state, n);
            &&& now.event_interval == interval
            &&& n == 0 ==> now == state
            &&& 0 < n <= locals ==> now.phase == (Phase::Local { left: (interval - n) as usize })
                && now.local == state.local.skip(n as int) && now.sync == state.sync
            &&& locals < n ==> now.phase == (Phase::Sync {
                left: (interval - (n - locals)) as usize,
            }) && now.local == state.local.skip(locals as int) && now.sync == state.sync.skip(
                n - locals,
            )
        }),
    decreases n,
{
    if n > 0 {
        lemma_undisturbed(state, (n - 1) as nat);
        assert(state.local.skip(0) =~= state.local);
        assert(state.sync.skip(0) =~= state.sync);
        let locals = least(state.local.len(), state.event_interval as nat);
        if n <= locals {
            assert(state.local.skip(n - 1).drop_first() =~= state.local.skip(n as int));
        } else {
            assert(state.sync.skip(n - 1 - locals).drop_first() =~= state.sync.skip(n - locals));
        }
    }
}

/// A run into which nothing is scheduled hands out the oldest local tickets, then
/// the oldest tickets of other threads, of each as many as the event interval
/// says or as there are, and then ends; the others are left as they were.
pub proof fn law_undisturbed_run(state: QueueState, n: nat)
    requires
        state.phase is Parked,
        n <= least(state.local.len(), state.event_interval as nat) + least(
            state.sync.len(),
            state.event_interval as nat,
        ),
    ensures
        ({
            let locals = least(state.local.len(), state.event_interval as nat);
            let syncs = least(state.sync.len(), state.event_interval as nat);
            let (left, step) = super::queue::stepped(after_steps(state, n));
            if n < locals {
                step == Step::Task(state.local[n as int])
            } else if n < locals + syncs {
                step == Step::Task(state.sync[n - locals])
            } else {
                &&& step == Step::Finished(
                    state.local.len() > state.event_interval || state.sync.len()
                        > state.event_interval,
                )
                &&& left.local == state.local.skip(locals as int)
                &&& left.sync == state.sync.skip(syncs as int)
                &&& left.phase is Parked
                &&& left.idle
            }
        }),
{
    lemma_undisturbed(state, n);
    assert(state.local.skip(0) =~= state.local);
    assert(state.sync.skip(0) =~= state.sync);
}

} // verus!
