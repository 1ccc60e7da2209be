//! What holds of the changes and events of the polling driver over time.

use ntex_polling::Event;
use vstd::prelude::*;

use super::{Change, Handler, Stage, StageEvent};

verus! {

/// Something that happens to the driver.
pub enum PollOp<E, B, H, T> {
    /// An operation fails or a blocking task is spawned: a task or a handler caused a
    /// change.
    Cause(Change<E, B>),
    /// The oldest change is acted on, after which the handlers are `after`.
    Act { after: Seq<H> },
    /// The wait is over and reports these events.
    Report { events: Seq<Event> },
    /// The next event of the list is forwarded, after which the handlers are `after`.
    Forward { after: Seq<H> },
    /// A stage is over; the wait ends in this way only if it fails.
    Advance(StageEvent<T>),
    /// The driver is polled again.
    Start,
}

/// The past of the driver.
pub struct PollTrace<E, B, H, T> {
    /// The present stage.
    pub stage: Stage<T>,
    /// The changes to act on, the oldest first.
    pub changes: Seq<Change<E, B>>,
    /// The changes that were ever caused, in order.
    pub caused: Seq<Change<E, B>>,
    /// The changes that were acted on, in order.
    pub acted: Seq<Change<E, B>>,
    /// The event list, to which a wait adds the events that it reports.
    pub list: Seq<Event>,
    /// How many events of the list were forwarded.
    pub forwarded: nat,
    /// The events that the waits ever reported, in order.
    pub reported: Seq<Event>,
    /// The events that were ever forwarded, in order.
    pub delivered: Seq<Event>,
    /// The handlers.
    pub handlers: Seq<H>,
}

/// The past of a driver with these handlers that is about to be polled.
pub open spec fn new_trace<E, B, H, T>(handlers: Seq<H>) -> PollTrace<E, B, H, T> {
    PollTrace {
        stage: Stage::Run,
        changes: Seq::empty(),
        caused: Seq::empty(),
        acted: Seq::empty(),
        list: Seq::empty(),
        forwarded: 0,
        reported: Seq::empty(),
        delivered: Seq::empty(),
        handlers,
    }
}

/// Whether something can happen to the driver. Tasks and handlers do not run while the
/// event list is cleared and while the driver waits. A change is acted on as
/// [`super::apply_change`] does, the events of the list are forwarded one by one as
/// [`super::forward_events`] does, all of them, and the outcome of a stage tells truly
/// whether there are changes.
pub open spec fn allowed<E, B, H: Handler<E>, T>(
    past: PollTrace<E, B, H, T>,
    op: PollOp<E, B, H, T>,
) -> bool {
    match op {
        PollOp::Cause(_) => past.stage !is Clear && past.stage !is Wait,
        PollOp::Act { after } => {
            &&& past.stage is Apply || past.stage is ApplyForwarded
            &&& past.changes.len() > 0
            &&& super::acts::<E, B, H>(past.handlers, past.changes[0], after)
        },
        PollOp::Report { .. } => past.stage is Wait,
        PollOp::Forward { after } => {
            &&& past.stage is Forward
            &&& past.forwarded < past.list.len()
            &&& super::forwards::<E, H>(past.handlers, past.list[past.forwarded as int], after)
        },
        PollOp::Advance(event) => {
            &&& super::answers(event, past.stage)
            &&& event matches StageEvent::Waited { failed } ==> failed
            &&& event is Forwarded ==> past.forwarded == past.list.len()
            &&& event matches StageEvent::Ran { has_changes, .. } ==> has_changes == (
            past.changes.len() > 0)
            &&& event matches StageEvent::Applied { has_changes } ==> has_changes == (
            past.changes.len() > 0)
        },
        PollOp::Start => past.stage is Done || past.stage is Failed,
    }
}

/// The driver after one more event.
pub open spec fn extended<E, B, H, T>(
    past: PollTrace<E, B, H, T>,
    op: PollOp<E, B, H, T>,
) -> PollTrace<E, B, H, T> {
    match op {
        PollOp::Cause(change) => PollTrace {
            changes: past.changes.push(change),
            caused: past.caused.push(change),
            ..past
        },
        PollOp::Act { after } => PollTrace {
            changes: past.changes.drop_first(),
            acted: past.acted.push(past.changes[0]),
            handlers: after,
            ..past
        },
        PollOp::Report { events } => PollTrace {
            stage: super::next_stage(past.stage, StageEvent::Waited { failed: false }),
            list: past.list + events,
            reported: past.reported + events,
            ..past
        },
        PollOp::Forward { after } => PollTrace {
            forwarded: past.forwarded + 1,
            delivered: past.delivered.push(past.list[past.forwarded as int]),
            handlers: after,
            ..past
        },
        PollOp::Advance(event) => {
            let stage = super::next_stage(past.stage, event);
            if event is Cleared {
                PollTrace { stage, list: Seq::empty(), forwarded: 0, ..past }
            } else {
                PollTrace { stage, ..past }
            }
        },
        PollOp::Start => PollTrace { stage: Stage::Run, ..past },
    }
}

/// The driver after some more events.
pub open spec fn replay<E, B, H, T>(
    past: PollTrace<E, B, H, T>,
    ops: Seq<PollOp<E, B, H, T>>,
) -> PollTrace<E, B, H, T>
    decreases ops.len(),
{
    if ops.len() == 0 {
        past
    } else {
        extended(replay(past, ops.drop_last()), ops.last())
    }
}

/// Whether all of `ops` can happen, one after another.
pub open spec fn all_allowed<E, B, H: Handler<E>, T>(
    past: PollTrace<E, B, H, T>,
    ops: Seq<PollOp<E, B, H, T>>,
) -> bool
    decreases ops.len(),
{
    ops.len() > 0 ==> {
        &&& all_allowed(past, ops.drop_last())
        &&& allowed(replay(past, ops.drop_last()), ops.last())
    }
}

/// Every change is acted on once, in the order in which the changes were caused, and
/// before the driver waits: a failed operation is reported to its handler exactly once
/// before the next wait. The handlers keep their places all the while.
pub proof fn law_changes_are_acted_on_before_the_wait<E, B, H: Handler<E>, T>(
    handlers: Seq<H>,
    ops: Seq<PollOp<E, B, H, T>>,
)
    requires
        all_allowed(new_trace::<E, B, H, T>(handlers), ops),
    ensures
        ({
            let now = replay(new_trace::<E, B, H, T>(handlers), ops);
            &&& now.acted + now.changes == now.caused
            &&& now.stage is Clear || now.stage is Wait ==> now.acted == now.caused
            &&& now.handlers.len() == handlers.len()
        }),
    decreases ops.len(),
{
    let start = new_trace::<E, B, H, T>(handlers);
    if ops.len() > 0 {
        let past = replay(start, ops.drop_last());
        law_changes_are_acted_on_before_the_wait(handlers, ops.drop_last());
        match ops.last() {
            PollOp::Cause(change) => {
                assert(past.acted + past.changes.push(change) =~= (past.acted
                    + past.changes).push(change));
            },
            PollOp::Act { .. } => {
                assert(past.acted.push(past.changes[0]) + past.changes.drop_first() =~= past.acted
                    + past.changes);
            },
            PollOp::Advance(event) => {
                if past.changes.len() == 0 {
                    assert(past.acted + past.changes =~= past.acted);
                }
            },
            _ => {},
        }
    }
}

/// The events of each wait are delivered once and in order, whichever handlers they are
/// for, and before anything else is run: outside of the forwarding, what was delivered
/// is what the waits reported. A wait starts with an empty list, so that no event of an
/// earlier one is delivered again.
pub proof fn law_events_are_delivered_once_in_order<E, B, H: Handler<E>, T>(
    handlers: Seq<H>,
    ops: Seq<PollOp<E, B, H, T>>,
)
    requires
        all_allowed(new_trace::<E, B, H, T>(handlers), ops),
    ensures
        ({
            let now = replay(new_trace::<E, B, H, T>(handlers), ops);
            &&& now.forwarded <= now.list.len()
            &&& now.delivered + now.list.skip(now.forwarded as int) == now.reported
            &&& now.stage !is Forward ==> now.delivered == now.reported
            &&& now.stage is Wait ==> now.list.len() == 0
        }),
    decreases ops.len(),
{
    let start = new_trace::<E, B, H, T>(handlers);
    if ops.len() > 0 {
        let past = replay(start, ops.drop_last());
        let now = replay(start, ops);
        law_events_are_delivered_once_in_order(handlers, ops.drop_last());
        lemma_list_is_forwarded(handlers, ops.drop_last());
        lemma_list_is_forwarded(handlers, ops);
        let rest = past.list.skip(past.forwarded as int);
        match ops.last() {
            PollOp::Report { events } => {
                assert((past.list + events).skip(past.forwarded as int) =~= rest + events);
                assert(past.delivered + (rest + events) =~= (past.delivered + rest) + events);
            },
            PollOp::Forward { .. } => {
                assert(past.delivered.push(rest[0]) + past.list.skip((past.forwarded + 1) as int)
                    =~= past.delivered + rest);
            },
            _ => {},
        }
        if now.stage !is Forward {
            assert(now.delivered + now.list.skip(now.forwarded as int) =~= now.delivered);
        }
    }
}

proof fn lemma_list_is_forwarded<E, B, H: Handler<E>, T>(
    handlers: Seq<H>,
    ops: Seq<PollOp<E, B, H, T>>,
)
    requires
        all_allowed(new_trace::<E, B, H, T>(handlers), ops),
    ensures
        ({
            let now = replay(new_trace::<E, B, H, T>(handlers), ops);
            &&& now.forwarded <= now.list.len()
            &&& now.stage !is Forward ==> now.forwarded == now.list.len()
            &&& now.stage is Wait ==> now.list.len() == 0
        }),
    decreases ops.len(),
{
    if ops.len() > 0 {
        lemma_list_is_forwarded(handlers, ops.drop_last());
    }
}

/// Acting on a failed operation reports it to the handler that asked for it, under its
/// id and with its error, and to no other one.
pub proof fn law_acting_reports_a_failure<E, B, H: Handler<E>, T>(
    past: PollTrace<E, B, H, T>,
    after: Seq<H>,
    other: int,
)
    requires
        allowed(past, PollOp::Act { after }),
        past.changes[0] is Error,
        0 <= other < past.handlers.len(),
    ensures
        ({
            let now = extended(past, PollOp::Act { after });
            past.changes[0] matches Change::Error { batch, user_data, error } && {
                &&& now.acted == past.acted.push(past.changes[0])
                &&& other == batch ==> H::on_error(
                    past.handlers[other],
                    user_data as usize,
                    error,
                    now.handlers[other],
                )
                &&& other != batch ==> now.handlers[other] == past.handlers[other]
            }
        }),
{
}

} // verus!
