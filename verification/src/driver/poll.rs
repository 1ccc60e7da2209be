//! The polling driver.

use std::collections::VecDeque;

use ntex_polling::Event;
use vstd::prelude::*;

use super::handlers::Handlers;
use super::key::{encode, encode_batch};
use super::registry::{Registration, Registry};
use super::{DriverType, PollResult};

pub mod history;
pub mod op;

verus! {

broadcast use vstd::std_specs::vecdeque::group_vec_dequeue_axioms;

/// How many changes the driver makes room for at first.
pub const CHANGES: usize = 32;

/// An interest in, or the readiness of, a descriptor.
#[verifier::external_type_specification]
#[verifier::external_body]
pub struct ExEvent(ntex_polling::Event);

/// The `key` field of an event.
pub uninterp spec fn event_key(event: Event) -> usize;

/// The event that differs from `event` in its `key` field at most, which is `key`.
pub uninterp spec fn event_with_key(event: Event, key: usize) -> Event;

/// Stores `key` in the `key` field of `Event` and leaves the rest of the event as
/// it is: the result depends on the event and the key alone.
#[verifier::external_body]
fn set_key(event: Event, key: usize) -> (r: Event)
    ensures
        r == event_with_key(event, key),
        event_key(r) == key,
{
    let mut event = event;
    event.key = key;
    event
}

/// Reads the `key` field of `Event`.
#[verifier::external_body]
pub(crate) fn get_key(event: &Event) -> (r: usize)
    ensures
        r == event_key(*event),
{
    event.key
}

/// Receives the events and errors of one handler.
///
/// The two spec functions say how an implementation changes with a call; one
/// that leaves them out may change in any way.
pub trait Handler<E>: Sized {
    /// How an event changes the handler.
    open spec fn on_event(before: Self, id: usize, event: Event, after: Self) -> bool {
        true
    }

    /// How an error changes the handler.
    open spec fn on_error(before: Self, id: usize, err: E, after: Self) -> bool {
        true
    }

    /// Submitted interest
    fn event(&mut self, id: usize, event: Event)
        ensures
            Self::on_event(*old(self), id, event, *final(self)),
    ;

    /// Operation submission has failed
    fn error(&mut self, id: usize, err: E)
        ensures
            Self::on_error(*old(self), id, err, *final(self)),
    ;
}

/// A call of a handler.
pub enum Call<E> {
    /// An event is forwarded to the handler that its key names.
    Event(Event),
    /// A failed operation is reported to handler `batch`.
    Error { batch: usize, user_data: u32, error: E },
}

/// Something that the driver has yet to act on.
pub enum Change<E, B> {
    /// An operation of handler `batch` failed.
    Error { batch: usize, user_data: u32, error: E },
    /// A blocking task is to be handed to the thread pool.
    Blocking(B),
}

/// What the driver has yet to act on, the oldest first.
pub struct Changes<E, B> {
    changes: VecDeque<Change<E, B>>,
}

impl<E, B> View for Changes<E, B> {
    type V = Seq<Change<E, B>>;

    closed spec fn view(&self) -> Seq<Change<E, B>> {
        self.changes@
    }
}

impl<E, B> Changes<E, B> {
    /// Create an empty queue.
    pub fn new() -> (r: Self)
        ensures
            r@ == Seq::<Change<E, B>>::empty(),
    {
        Changes { changes: VecDeque::with_capacity(CHANGES) }
    }

    /// Whether there is nothing to act on.
    pub fn is_empty(&self) -> (r: bool)
        ensures
            r == (self@.len() == 0),
    {
        self.changes.len() == 0
    }

    /// Hand a blocking task to the driver.
    pub fn spawn_blocking(&mut self, task: B)
        ensures
            final(self)@ == old(self)@.push(Change::Blocking(task)),
    {
        self.changes.push_back(Change::Blocking(task));
    }

    /// Take the oldest change.
    pub fn pop(&mut self) -> (r: Option<Change<E, B>>)
        ensures
            match r {
                Some(change) => {
                    &&& old(self)@.len() > 0
                    &&& change == old(self)@[0]
                    &&& final(self)@ == old(self)@.drop_first()
                },
                None => old(self)@.len() == 0 && final(self)@ == old(self)@,
            },
    {
        self.changes.pop_front()
    }
}

/// The changes after a call of the poller for operation `id` of handler `batch`
/// succeeded or failed.
pub open spec fn noted<E, B>(
    changes: Seq<Change<E, B>>,
    batch: usize,
    id: u32,
    result: Result<(), E>,
) -> Seq<Change<E, B>> {
    match result {
        Ok(_) => changes,
        Err(error) => changes.push(Change::Error { batch, user_data: id, error }),
    }
}

/// The access of one handler to the driver.
pub struct DriverApi {
    id: usize,
    batch: u64,
}

impl DriverApi {
    /// The number of the handler.
    pub closed spec fn id(self) -> usize {
        self.id
    }

    /// The handler part of the keys.
    pub closed spec fn batch(self) -> u64 {
        self.batch
    }

    #[verifier::type_invariant]
    spec fn wf(self) -> bool {
        super::key::is_batch(self.batch)
    }

    /// The key under which operation `id` is known to the poller.
    pub open spec fn key(self, id: u32) -> usize {
        super::key::op_key(self.batch(), id) as usize
    }

    /// Attach an fd to the driver.
    ///
    /// `fd` must be attached to the driver before using register/unregister
    /// methods. Returns the event to add to the poller; what comes of it goes to
    /// [`DriverApi::finish`].
    pub fn attach(&self, id: u32, event: Event) -> (r: Event)
        ensures
            r == event_with_key(event, self.key(id)),
            event_key(r) == self.key(id),
            event_key(r) == super::key::op_key(self.batch(), id) as usize,
    {
        proof {
            use_type_invariant(self);
        }
        set_key(event, encode(self.batch, id) as usize)
    }

    /// Register interest for specified file descriptor.
    ///
    /// Returns the event to set in the poller; what comes of it goes to
    /// [`DriverApi::finish`].
    pub fn modify(&self, id: u32, event: Event) -> (r: Event)
        ensures
            r == event_with_key(event, self.key(id)),
            event_key(r) == self.key(id),
            event_key(r) == super::key::op_key(self.batch(), id) as usize,
    {
        self.attach(id, event)
    }

    /// Detach an fd from the driver.
    ///
    /// `result` is what came of the removal from the poller.
    pub fn detach<E, B>(&self, changes: &mut Changes<E, B>, id: u32, result: Result<(), E>)
        ensures
            final(changes)@ == noted(old(changes)@, self.id(), id, result),
            final(changes)@ == match result {
                Ok(_) => old(changes)@,
                Err(error) => old(changes)@.push(
                    Change::Error { batch: self.id(), user_data: id, error },
                ),
            },
    {
        self.finish(changes, id, result)
    }

    /// Take note of what came of a call of the poller: an error is passed on to the
    /// handler later.
    pub fn finish<E, B>(&self, changes: &mut Changes<E, B>, id: u32, result: Result<(), E>)
        ensures
            final(changes)@ == noted(old(changes)@, self.id(), id, result),
            final(changes)@ == match result {
                Ok(_) => old(changes)@,
                Err(error) => old(changes)@.push(
                    Change::Error { batch: self.id(), user_data: id, error },
                ),
            },
    {
        if let Err(error) = result {
            self.change(changes, Change::Error { batch: self.id, user_data: id, error });
        }
    }

    fn change<E, B>(&self, changes: &mut Changes<E, B>, ev: Change<E, B>)
        ensures
            final(changes)@ == old(changes)@.push(ev),
    {
        changes.changes.push_back(ev);
    }
}

/// Low-level driver of polling.
pub struct Driver<H> {
    /// The capacity of the event list; zero stands for the default one.
    pub capacity: usize,
    /// The handlers.
    pub registry: Registry<H>,
}

impl<H> Driver<H> {
    /// Create a driver whose event list has room for `capacity` events.
    pub fn new(capacity: u32) -> (r: Self)
        ensures
            r.capacity == capacity,
            r.registry.registered() == 0,
            r.registry.is_numbered(),
    {
        Driver { capacity: capacity as usize, registry: Registry::new() }
    }

    /// Driver type
    pub fn tp(&self) -> (r: DriverType)
        ensures
            r == DriverType::Poll,
    {
        DriverType::Poll
    }

    /// The capacity to create the event list with, or none for the default one.
    pub fn events_capacity(&self) -> (r: Option<usize>)
        ensures
            self.capacity == 0 ==> r is None,
            self.capacity > 0 ==> r == Some(self.capacity),
    {
        if self.capacity == 0 {
            None
        } else {
            Some(self.capacity)
        }
    }

    /// Starts to register a handler. The handler is to be made with the access that is
    /// returned, and handed to [`Registry::close`] with the registration.
    pub fn open(&mut self) -> (r: (Registration<H>, DriverApi))
        requires
            old(self).registry.registered() < u64::MAX,
        ensures
            final(self).capacity == old(self).capacity,
            r.0.number() == old(self).registry.registered(),
            r.0.handlers() == old(self).registry.present(),
            old(self).registry.handlers() matches Some(handlers) ==> r.0.handlers() == handlers,
            r.1.batch() == super::key::batch_key(old(self).registry.registered()),
            r.1.id() == old(self).registry.registered() as usize,
            final(self).registry.handlers() is None,
            final(self).registry.registered() == old(self).registry.registered(),
    {
        let hid: u64 = self.registry.next();
        let api = DriverApi { id: hid as usize, batch: encode_batch(hid) };
        (self.registry.open(), api)
    }

    /// Register updates handler
    pub fn register<F>(&mut self, f: F) where F: FnOnce(DriverApi) -> H
        requires
            old(self).registry.registered() < u64::MAX,
            forall|api: DriverApi|
                api.batch() == super::key::batch_key(old(self).registry.registered()) && api.id()
                    == old(self).registry.registered() as usize ==> f.requires((api,)),
        ensures
            final(self).capacity == old(self).capacity,
            final(self).registry.registered() == old(self).registry.registered() + 1,
            old(self).registry.is_numbered() ==> final(self).registry.is_numbered(),
            old(self).registry.handlers() matches Some(handlers) ==> {
                &&& final(self).registry.handlers() matches Some(after)
                &&& after.len() == handlers.len() + 1
                &&& forall|i: int| 0 <= i < handlers.len() ==> #[trigger] after[i] == handlers[i]
            },
            exists|api: DriverApi, handler: H|
                {
                    &&& #[trigger] f.ensures((api,), handler)
                    &&& api.batch() == super::key::batch_key(old(self).registry.registered())
                    &&& api.id() == old(self).registry.registered() as usize
                    &&& final(self).registry.handlers() == Some(
                        old(self).registry.present().push(handler),
                    )
                },
    {
        let (registration, api) = self.open();
        let handler = f(api);
        self.registry.close(registration, handler);
    }
}

/// The number of the handler that an event is for.
pub open spec fn event_batch(event: Event) -> int {
    super::key::key_batch(event_key(event) as u64)
}

/// The handler's id of the operation that an event is for.
pub open spec fn event_id(event: Event) -> usize {
    (super::key::key_data(event_key(event) as u64) as u64) as usize
}

/// Whether `after` is what `before` becomes when one event is forwarded: the
/// handler that its key names gets the call, all others stay as they are.
pub open spec fn forwards<E, H: Handler<E>>(before: Seq<H>, event: Event, after: Seq<H>) -> bool {
    let batch = event_batch(event);
    &&& batch < before.len()
    &&& after == before.update(batch, after[batch])
    &&& H::on_event(before[batch], event_id(event), event, after[batch])
}

/// Whether `states` are the states of the handlers from before the first of the
/// events to after the last of them, when they are forwarded one by one.
pub open spec fn is_run<E, H: Handler<E>>(states: Seq<Seq<H>>, events: Seq<Event>) -> bool {
    &&& states.len() == events.len() + 1
    &&& forall|i: int|
        #![trigger events[i]]
        0 <= i < events.len() ==> forwards::<E, H>(states[i], events[i], states[i + 1])
}

/// Whether `after` is what `before` becomes when the events are forwarded one by
/// one, in order.
pub open spec fn forwards_all<E, H: Handler<E>>(
    before: Seq<H>,
    events: Seq<Event>,
    after: Seq<H>,
) -> bool {
    exists|states: Seq<Seq<H>>|
        {
            &&& #[trigger] is_run::<E, H>(states, events)
            &&& states[0] == before
            &&& states.last() == after
        }
}

/// Whether `after` is what `before` becomes when a failed operation is reported:
/// its handler gets the error, all others stay as they are.
pub open spec fn reports<E, H: Handler<E>>(
    before: Seq<H>,
    batch: usize,
    user_data: u32,
    error: E,
    after: Seq<H>,
) -> bool {
    &&& batch < before.len()
    &&& after == before.update(batch as int, after[batch as int])
    &&& H::on_error(before[batch as int], user_data as usize, error, after[batch as int])
}

/// Whether `after` is what `before` becomes when a change is acted on: a failed
/// operation is reported to its handler, a blocking task changes no handler.
pub open spec fn acts<E, B, H: Handler<E>>(
    before: Seq<H>,
    change: Change<E, B>,
    after: Seq<H>,
) -> bool {
    match change {
        Change::Error { batch, user_data, error } => reports(
            before,
            batch,
            user_data,
            error,
            after,
        ),
        Change::Blocking(_) => after == before,
    }
}

/// The calls by which events are forwarded, in order.
pub open spec fn event_calls<E>(events: Seq<Event>) -> Seq<Call<E>> {
    events.map_values(|event: Event| Call::Event(event))
}

/// Forwards the events one by one and in order to the handlers that their keys name.
pub fn forward_events<E, H: Handler<E>>(handlers: &mut Handlers<H, Call<E>>, events: &Vec<Event>)
    requires
        forall|i: int|
            0 <= i < events@.len() ==> event_batch(#[trigger] events@[i]) < old(
                handlers,
            ).items().len(),
    ensures
        final(handlers).items().len() == old(handlers).items().len(),
        forwards_all::<E, H>(old(handlers).items(), events@, final(handlers).items()),
        final(handlers).calls() == old(handlers).calls() + event_calls::<E>(events@),
{
    let ghost mut states: Seq<Seq<H>> = seq![handlers.items()];
    let mut i: usize = 0;
    while i < events.len()
        invariant
            i <= events@.len(),
            handlers.items().len() == old(handlers).items().len(),
            forall|j: int|
                0 <= j < events@.len() ==> event_batch(#[trigger] events@[j]) < old(
                    handlers,
                ).items().len(),
            states.len() == i + 1,
            states[0] == old(handlers).items(),
            states.last() == handlers.items(),
            forall|j: int|
                #![trigger events@[j]]
                0 <= j < i ==> forwards::<E, H>(states[j], events@[j], states[j + 1]),
            handlers.calls() == old(handlers).calls() + event_calls::<E>(events@.take(i as int)),
        decreases events@.len() - i,
    {
        let event: Event = events[i];
        handlers.event(event);
        proof {
            states = states.push(handlers.items());
            assert(event_calls::<E>(events@.take(i + 1)) == event_calls::<E>(
                events@.take(i as int),
            ).push(Call::Event(event)));
        }
        i = i + 1;
    }
    assert(events@.take(i as int) == events@);
    assert(is_run::<E, H>(states, events@));
}

/// Acts on one change: an error goes to its handler, a blocking task is returned,
/// to be handed to the thread pool.
pub fn apply_change<E, B, H: Handler<E>>(
    handlers: &mut Handlers<H, Call<E>>,
    change: Change<E, B>,
) -> (r: Option<B>)
    requires
        change matches Change::Error { batch, .. } ==> batch < old(handlers).items().len(),
    ensures
        final(handlers).items().len() == old(handlers).items().len(),
        acts(old(handlers).items(), change, final(handlers).items()),
        final(handlers).calls() == match change {
            Change::Error { batch, user_data, error } => old(handlers).calls().push(
                Call::Error { batch, user_data, error },
            ),
            Change::Blocking(_) => old(handlers).calls(),
        },
        r == match change {
            Change::Error { .. } => None,
            Change::Blocking(task) => Some(task),
        },
{
    match change {
        Change::Error { batch, user_data, error } => {
            handlers.error(batch, user_data, error);
            None
        },
        Change::Blocking(task) => Some(task),
    }
}

/// What the driver does next.
pub enum Stage<T> {
    /// Run one turn of the scheduler.
    Run,
    /// Act on the oldest change, before waiting.
    Apply { block: bool },
    /// Clear the event list.
    Clear { block: bool },
    /// Wait for events; without `block`, only look for them.
    Wait { block: bool },
    /// Forward the events.
    Forward,
    /// Act on the oldest change, if any, that the events led to.
    ApplyForwarded,
    /// Return the awaited value.
    Done(T),
    /// Return the error of the poller.
    Failed,
}

/// What came of a stage.
pub enum StageEvent<T> {
    /// The turn of the scheduler is over; `has_changes` tells whether there is any
    /// change to act on.
    Ran { result: PollResult<T>, has_changes: bool },
    /// The change is acted on; `has_changes` tells whether there is another one.
    Applied { has_changes: bool },
    /// The event list is clear.
    Cleared,
    /// The wait is over, with events or with an error.
    Waited { failed: bool },
    /// The events are forwarded.
    Forwarded,
}

/// Whether an event is the outcome of a stage.
pub open spec fn answers<T>(event: StageEvent<T>, stage: Stage<T>) -> bool {
    match stage {
        Stage::Run => event is Ran,
        Stage::Apply { .. } => event is Applied,
        Stage::Clear { .. } => event is Cleared,
        Stage::Wait { .. } => event is Waited,
        Stage::Forward => event is Forwarded,
        Stage::ApplyForwarded => event is Applied,
        Stage::Done(_) => false,
        Stage::Failed => false,
    }
}

/// The stage that follows.
pub open spec fn next_stage<T>(stage: Stage<T>, event: StageEvent<T>) -> Stage<T> {
    match (stage, event) {
        (Stage::Run, StageEvent::Ran { result, has_changes }) => match result {
            PollResult::Ready(value) => Stage::Done(value),
            _ => if has_changes {
                Stage::Apply { block: result is Pending }
            } else {
                Stage::Clear { block: result is Pending }
            },
        },
        (Stage::Apply { block }, StageEvent::Applied { has_changes }) => if has_changes {
            Stage::Apply { block }
        } else {
            Stage::Clear { block }
        },
        (Stage::Clear { block }, _) => Stage::Wait { block },
        (Stage::Wait { .. }, StageEvent::Waited { failed }) => if failed {
            Stage::Failed
        } else {
            Stage::Forward
        },
        (Stage::Forward, _) => Stage::ApplyForwarded,
        (Stage::ApplyForwarded, StageEvent::Applied { has_changes }) => if has_changes {
            Stage::ApplyForwarded
        } else {
            Stage::Run
        },
        (stage, _) => stage,
    }
}

impl<H> Driver<H> {
    /// Poll the driver and handle completed entries.
    ///
    /// Polling starts with [`Stage::Run`] and ends with [`Stage::Done`] or
    /// [`Stage::Failed`].
    pub fn poll<T>(&self, stage: Stage<T>, event: StageEvent<T>) -> (r: Stage<T>)
        requires
            answers(event, stage),
        ensures
            r == next_stage(stage, event),
    {
        match (stage, event) {
            (Stage::Run, StageEvent::Ran { result, has_changes }) => {
                let block: bool = match result {
                    PollResult::Pending => true,
                    PollResult::HasTasks => false,
                    PollResult::Ready(value) => return Stage::Done(value),
                };
                if has_changes {
                    Stage::Apply { block }
                } else {
                    Stage::Clear { block }
                }
            },
            (Stage::Apply { block }, StageEvent::Applied { has_changes }) => if has_changes {
                Stage::Apply { block }
            } else {
                Stage::Clear { block }
            },
            (Stage::Clear { block }, _) => Stage::Wait { block },
            (Stage::Wait { .. }, StageEvent::Waited { failed }) => if failed {
                Stage::Failed
            } else {
                Stage::Forward
            },
            (Stage::Forward, _) => Stage::ApplyForwarded,
            (Stage::ApplyForwarded, StageEvent::Applied { has_changes }) => if has_changes {
                Stage::ApplyForwarded
            } else {
                Stage::Run
            },
            (stage, _) => stage,
        }
    }
}

/// An event that was attached by handler `hid` under `id` goes to that handler,
/// under that id, wherever its key fits in a `usize`.
pub proof fn law_event_returns_to_its_handler(hid: u64, id: u32, event: Event)
    requires
        hid < super::key::batches(),
        super::key::op_key(super::key::batch_key(hid), id) <= usize::MAX,
        event_key(event) == super::key::op_key(super::key::batch_key(hid), id) as usize,
    ensures
        event_batch(event) == hid,
        event_id(event) == id,
{
    super::key::law_key_leads_back(hid, id);
}

proof fn lemma_run_is_isolated<E, H: Handler<E>>(
    states: Seq<Seq<H>>,
    events: Seq<Event>,
    other: int,
    n: int,
)
    requires
        is_run::<E, H>(states, events),
        0 <= n < states.len(),
        0 <= other < states[0].len(),
        forall|i: int| 0 <= i < events.len() ==> event_batch(#[trigger] events[i]) != other,
    ensures
        states[n].len() == states[0].len(),
        states[n][other] == states[0][other],
    decreases n,
{
    if n > 0 {
        lemma_run_is_isolated::<E, H>(states, events, other, n - 1);
        let event = events[n - 1];
        assert(forwards::<E, H>(states[n - 1], event, states[n]));
    }
}

/// A handler changes only through events whose keys name it.
pub proof fn law_forwarding_is_isolated<E, H: Handler<E>>(
    before: Seq<H>,
    events: Seq<Event>,
    after: Seq<H>,
    other: int,
)
    requires
        forwards_all::<E, H>(before, events, after),
        0 <= other < before.len(),
        forall|i: int| 0 <= i < events.len() ==> event_batch(#[trigger] events[i]) != other,
    ensures
        after[other] == before[other],
{
    let states = choose|states: Seq<Seq<H>>|
        {
            &&& #[trigger] is_run::<E, H>(states, events)
            &&& states[0] == before
            &&& states.last() == after
        };
    lemma_run_is_isolated::<E, H>(states, events, other, states.len() - 1);
}

/// A failed operation is reported to the handler that asked for it, under its id,
/// and no other handler changes.
pub proof fn law_failure_returns_to_its_handler<E, H: Handler<E>>(
    before: Seq<H>,
    api: DriverApi,
    id: u32,
    error: E,
    after: Seq<H>,
    other: int,
)
    requires
        reports(before, api.id(), id, error, after),
        0 <= other < before.len(),
    ensures
        after.len() == before.len(),
        other == api.id() ==> H::on_error(before[other], id as usize, error, after[other]),
        other != api.id() ==> after[other] == before[other],
{
}

/// After a turn of the scheduler that leaves nothing to return, the driver blocks
/// in the wait if and only if no task is queued.
pub proof fn law_blocks_only_when_idle<T>(result: PollResult<T>, has_changes: bool)
    requires
        result !is Ready,
    ensures
        ({
            let first = next_stage(Stage::Run, StageEvent::Ran { result, has_changes });
            let clear = if has_changes {
                next_stage(first, StageEvent::Applied { has_changes: false })
            } else {
                first
            };
            let wait = next_stage(clear, StageEvent::Cleared);
            wait == Stage::<T>::Wait { block: result is Pending }
        }),
{
}

/// Every wait starts with a clear event list, and events are forwarded only after a
/// wait.
pub proof fn law_events_are_forwarded_once<T>(stage: Stage<T>, event: StageEvent<T>)
    requires
        answers(event, stage),
    ensures
        next_stage(stage, event) is Wait ==> stage is Clear,
        next_stage(stage, event) is Forward ==> stage is Wait,
{
}

/// Polling ends with a value only when the scheduler has it, and with an error only
/// when the wait fails.
pub proof fn law_polling_ends<T>(stage: Stage<T>, event: StageEvent<T>)
    requires
        answers(event, stage),
    ensures
        next_stage(stage, event) is Done <==> stage is Run && event matches StageEvent::Ran {
            result: PollResult::Ready(_),
            ..
        },
        next_stage(stage, event) is Failed <==> stage is Wait && event matches StageEvent::Waited {
            failed: true,
        },
{
}

/// The key under which a handler attaches a descriptor, or modifies its interest, leads
/// back to it: an event with that key is for the handler and has exactly the id that was
/// passed, wherever the key fits in a `usize`.
pub proof fn law_attached_key_leads_back(api: DriverApi, hid: u64, id: u32, event: Event)
    requires
        hid < 0x1_0000,
        hid * 0x1_0000_0000_0000 + id <= usize::MAX,
        api.batch() == super::key::batch_key(hid),
        event_key(event) == api.key(id),
    ensures
        event_key(event) == hid * 0x1_0000_0000_0000 + id,
        event_batch(event) == hid,
        event_id(event) == id,
{
    super::key::law_key_has_the_number_above_the_id(hid, id);
    super::key::law_key_leads_back(hid, id);
}

/// No two descriptors share a key, whatever handlers they belong to, wherever their keys
/// fit in a `usize`.
pub proof fn law_attached_keys_are_distinct(
    api1: DriverApi,
    hid1: u64,
    id1: u32,
    api2: DriverApi,
    hid2: u64,
    id2: u32,
)
    requires
        hid1 < 0x1_0000,
        hid2 < 0x1_0000,
        hid1 * 0x1_0000_0000_0000 + id1 <= usize::MAX,
        hid2 * 0x1_0000_0000_0000 + id2 <= usize::MAX,
        api1.batch() == super::key::batch_key(hid1),
        api2.batch() == super::key::batch_key(hid2),
        api1.key(id1) == api2.key(id2),
    ensures
        hid1 == hid2,
        id1 == id2,
{
    super::key::law_key_has_the_number_above_the_id(hid1, id1);
    super::key::law_key_has_the_number_above_the_id(hid2, id2);
}

/// The handler and the id of an event are read from its key: the number of the handler
/// counts steps of 2^48, the id is what is beyond them.
pub proof fn law_event_is_read_from_its_key(event: Event)
    ensures
        event_batch(event) == event_key(event) as int / 0x1_0000_0000_0000,
        event_id(event) == ((event_key(event) as u64) % 0x1_0000_0000_0000u64) as usize,
{
}

/// An event is told to the handler that its key names, with the id in its key and as it
/// is; and no other handler changes.
pub proof fn law_forwarding_tells_the_event<E, H: Handler<E>>(
    before: Seq<H>,
    event: Event,
    after: Seq<H>,
    number: int,
)
    requires
        forwards::<E, H>(before, event, after),
        0 <= number < before.len(),
    ensures
        after.len() == before.len(),
        event_batch(event) < before.len(),
        number == event_batch(event) ==> H::on_event(
            before[number],
            event_id(event),
            event,
            after[number],
        ),
        number != event_batch(event) ==> after[number] == before[number],
{
}

/// Events are forwarded one by one: nothing changes without one, and the last of them is
/// forwarded to what the others made of the handlers.
pub proof fn law_events_are_forwarded_one_by_one<E, H: Handler<E>>(
    before: Seq<H>,
    events: Seq<Event>,
    after: Seq<H>,
)
    requires
        forwards_all::<E, H>(before, events, after),
    ensures
        events.len() == 0 ==> after == before,
        events.len() > 0 ==> exists|mid: Seq<H>|
            forwards_all::<E, H>(before, events.drop_last(), mid) && #[trigger] forwards::<E, H>(
                mid,
                events.last(),
                after,
            ),
{
    let states = choose|states: Seq<Seq<H>>|
        {
            &&& #[trigger] is_run::<E, H>(states, events)
            &&& states[0] == before
            &&& states.last() == after
        };
    if events.len() > 0 {
        let init = events.drop_last();
        let less = states.drop_last();
        assert forall|i: int| #![trigger init[i]] 0 <= i < init.len() implies forwards::<E, H>(
            less[i],
            init[i],
            less[i + 1],
        ) by {
            assert(init[i] == events[i]);
        }
        assert(is_run::<E, H>(less, init));
        assert(forwards_all::<E, H>(before, init, less.last()));
        assert(events[events.len() - 1] == events.last());
        assert(forwards::<E, H>(less.last(), events.last(), after));
    }
}

/// The calls by which events are forwarded are the events themselves, each at its place.
pub proof fn law_event_calls_are_the_events<E>(events: Seq<Event>, i: int)
    ensures
        event_calls::<E>(events).len() == events.len(),
        0 <= i < events.len() ==> event_calls::<E>(events)[i] == Call::<E>::Event(events[i]),
{
}

/// A failed operation is told to its handler with its id and its error, and to no other
/// one; handing out a blocking task changes no handler.
pub proof fn law_acting_tells_the_failure<E, B, H: Handler<E>>(
    before: Seq<H>,
    change: Change<E, B>,
    after: Seq<H>,
    number: int,
)
    requires
        acts(before, change, after),
        0 <= number < before.len(),
    ensures
        after.len() == before.len(),
        change matches Change::Error { batch, user_data, error } ==> {
            &&& 0 <= batch < before.len()
            &&& number == batch ==> H::on_error(
                before[number],
                user_data as usize,
                error,
                after[number],
            )
            &&& number != batch ==> after[number] == before[number]
        },
        change is Blocking ==> after[number] == before[number],
{
}

/// Each stage has its predecessor. A turn of the scheduler is run only after all changes
/// that the events led to are acted on, the events are forwarded directly after every
/// wait that does not fail, and the driver waits only directly after the event list is
/// cleared.
pub proof fn law_each_stage_has_its_predecessor<T>(stage: Stage<T>, event: StageEvent<T>)
    requires
        answers(event, stage),
    ensures
        ({
            let next = next_stage(stage, event);
            let more = event == (StageEvent::<T>::Applied { has_changes: true });
            let over = event matches StageEvent::Ran { result: PollResult::Ready(_), .. };
            &&& next is Run <==> stage is ApplyForwarded && !more
            &&& next is ApplyForwarded <==> stage is Forward || (stage is ApplyForwarded && more)
            &&& next is Forward <==> event == (StageEvent::<T>::Waited { failed: false })
            &&& next is Failed <==> event == (StageEvent::<T>::Waited { failed: true })
            &&& next is Wait <==> stage is Clear
            &&& next is Apply <==> (stage is Apply && more) || (!over && (event matches
                StageEvent::Ran { has_changes: true, .. }))
            &&& next is Clear <==> (stage is Apply && !more) || (!over && (event matches
                StageEvent::Ran { has_changes: false, .. }))
            &&& next is Done <==> over
        }),
{
}

/// The value that the polling ends with is the one that the scheduler has, and the
/// driver blocks in a wait if and only if the turn before it left no task.
pub proof fn law_outcomes_are_handed_on<T>(
    value: T,
    result: PollResult<T>,
    has_changes: bool,
    block: bool,
)
    ensures
        next_stage(
            Stage::Run,
            StageEvent::Ran { result: PollResult::Ready(value), has_changes },
        ) == Stage::Done(value),
        next_stage(Stage::Run, StageEvent::Ran { result, has_changes }) matches Stage::Apply {
            block: blocks,
        } ==> (blocks <==> result is Pending),
        next_stage(Stage::Run, StageEvent::Ran { result, has_changes }) matches Stage::Clear {
            block: blocks,
        } ==> (blocks <==> result is Pending),
        next_stage(Stage::<T>::Apply { block }, StageEvent::Applied { has_changes: true }) == (
        Stage::<T>::Apply { block }),
        next_stage(Stage::<T>::Apply { block }, StageEvent::Applied { has_changes: false }) == (
        Stage::<T>::Clear { block }),
        next_stage(Stage::<T>::Clear { block }, StageEvent::Cleared) == (Stage::<T>::Wait {
            block,
        }),
{
}

/// A failed call of the poller leaves exactly one change, behind all others, that names
/// the handler, its id and the error; one that succeeded leaves none.
pub proof fn law_failure_is_noted_once<E, B>(
    changes: Seq<Change<E, B>>,
    batch: usize,
    id: u32,
    result: Result<(), E>,
)
    ensures
        ({
            let after = noted(changes, batch, id, result);
            &&& result is Ok ==> after == changes
            &&& result matches Err(e) ==> {
                &&& after.len() == changes.len() + 1
                &&& after.drop_last() == changes
                &&& after.last() matches Change::Error { batch: b, user_data, error }
                &&& b == batch
                &&& user_data == id
                &&& error == e
            }
        }),
{
    if let Err(error) = result {
        assert(changes.push(Change::Error { batch, user_data: id, error }).drop_last() =~= changes);
    }
}

/// Each stage has outcomes: whatever comes of it is one of them.
pub proof fn law_stages_are_answered<T>(
    result: PollResult<T>,
    has_changes: bool,
    block: bool,
    failed: bool,
)
    ensures
        answers(StageEvent::Ran { result, has_changes }, Stage::Run),
        answers(StageEvent::Applied { has_changes }, Stage::<T>::Apply { block }),
        answers(StageEvent::Cleared, Stage::<T>::Clear { block }),
        answers(StageEvent::Waited { failed }, Stage::<T>::Wait { block }),
        answers(StageEvent::Forwarded, Stage::<T>::Forward),
        answers(StageEvent::Applied { has_changes }, Stage::<T>::ApplyForwarded),
{
}

} // verus!
