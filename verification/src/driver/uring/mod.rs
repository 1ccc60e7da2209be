//! The io-uring driver that submits in one go and waits with a timeout.

use std::collections::VecDeque;
use std::time::Duration;

use ntex_io_uring::squeue::Entry;
use ntex_io_uring::types::Timespec;
use vstd::prelude::*;

use super::completion::{CEntry, Completion};
use super::entry::build_cancel;
use super::errno::Numbers;
use super::handlers::Handlers;
use super::key::{decode_batch, decode_data, encode, encode_batch, CANCEL, NOTIFY};
use super::registry::{Registration, Registry};
use super::DriverType;

pub use super::completion::Handler;

pub mod op;

verus! {

broadcast use vstd::std_specs::vecdeque::group_vec_dequeue_axioms;

/// A timeout in the form of the kernel.
#[verifier::external_type_specification]
#[verifier::external_body]
pub struct ExTimespec(ntex_io_uring::types::Timespec);

/// The timeout that `Timespec::new`, `sec` and `nsec` make of seconds and
/// nanoseconds.
pub uninterp spec fn timespec_of(secs: u64, nanos: u32) -> Timespec;

/// `Timespec::new`, `sec` and `nsec` make a timeout that depends on the seconds
/// and the nanoseconds alone.
#[verifier::external_body]
fn timespec(secs: u64, nanos: u32) -> (r: Timespec)
    ensures
        r == timespec_of(secs, nanos),
{
    Timespec::new().sec(secs).nsec(nanos)
}

/// Something to be submitted.
pub enum Change {
    /// A request.
    Submit { entry: Entry },
    /// The cancellation of the request with this key.
    Cancel { op_id: u64 },
}

/// The entry by which a change is submitted.
pub open spec fn entry_of(change: Change) -> Entry {
    match change {
        Change::Submit { entry } => entry,
        Change::Cancel { op_id } => super::entry::entry_with_key(
            super::entry::cancel_request(op_id),
            CANCEL,
        ),
    }
}

/// The entries by which changes are submitted.
pub open spec fn entries_of(changes: Seq<Change>) -> Seq<Entry> {
    changes.map_values(|change: Change| entry_of(change))
}

/// What applying the changes to a ring with room for `room` entries leaves behind:
/// the entries that reach the ring and the changes that are left.
pub open spec fn applied(changes: Seq<Change>, room: nat) -> (Seq<Entry>, Seq<Change>) {
    let taken = if changes.len() < room {
        changes.len() as int
    } else {
        room as int
    };
    (entries_of(changes.take(taken)), changes.skip(taken))
}

/// What is to be submitted, the oldest first.
pub struct Changes {
    changes: VecDeque<Change>,
}

impl View for Changes {
    type V = Seq<Change>;

    closed spec fn view(&self) -> Seq<Change> {
        self.changes@
    }
}

impl Changes {
    /// Create an empty queue.
    pub fn new() -> (r: Changes)
        ensures
            r@ == Seq::<Change>::empty(),
    {
        Changes { changes: VecDeque::new() }
    }

    /// Takes the changes for which a ring with room for `room` entries has room.
    /// Returns their entries, to be pushed to the ring, and whether any change is
    /// left.
    pub fn apply_changes(&mut self, room: usize) -> (r: (Vec<Entry>, bool))
        ensures
            (r.0@, final(self)@) == applied(old(self)@, room as nat),
            r.0@.len() <= room,
            r.0@.len() == room || final(self)@.len() == 0,
            r.0@ + entries_of(final(self)@) == entries_of(old(self)@),
            r.1 == (final(self)@.len() > 0),
    {
        let mut entries: Vec<Entry> = Vec::new();
        let ghost before = self@;
        loop
            invariant
                entries@.len() <= room,
                entries@.len() <= before.len(),
                self@ == before.skip(entries@.len() as int),
                entries@ == entries_of(before.take(entries@.len() as int)),
            ensures
                entries@.len() == room || entries@.len() == before.len(),
            decreases self@.len(),
        {
            if entries.len() == room {
                break;
            }
            match self.changes.pop_front() {
                Some(change) => {
                    assert(change == before[entries@.len() as int]);
                    let entry = match change {
                        Change::Submit { entry } => entry,
                        Change::Cancel { op_id } => build_cancel(op_id).user_data(CANCEL),
                    };
                    entries.push(entry);
                },
                None => break,
            }
        }
        (entries, self.changes.len() > 0)
    }
}

/// The access of one handler to the driver.
pub struct DriverApi {
    batch: u64,
}

impl DriverApi {
    /// The handler part of the keys.
    pub closed spec fn batch(self) -> u64 {
        self.batch
    }

    #[verifier::type_invariant]
    spec fn wf(self) -> bool {
        super::key::is_batch(self.batch)
    }

    /// Submit a request under the handler's id `user_data`.
    pub fn submit(&self, changes: &mut Changes, user_data: u32, entry: Entry)
        ensures
            ({
                let key = super::key::op_key(self.batch(), user_data);
                let tagged = super::entry::entry_with_key(entry, key);
                &&& super::entry::entry_key(tagged) == key
                &&& final(changes)@ == old(changes)@.push(Change::Submit { entry: tagged })
            }),
    {
        proof {
            use_type_invariant(self);
        }
        let key: u64 = encode(self.batch, user_data);
        changes.changes.push_back(Change::Submit { entry: entry.user_data(key) });
    }

    /// Cancel the request with the handler's id `op_id`.
    pub fn cancel(&self, changes: &mut Changes, op_id: u32)
        ensures
            final(changes)@ == old(changes)@.push(
                Change::Cancel { op_id: super::key::op_key(self.batch(), op_id) },
            ),
    {
        proof {
            use_type_invariant(self);
        }
        changes.changes.push_back(Change::Cancel { op_id: encode(self.batch, op_id) });
    }
}

/// What a completion queue entry means. A failed operation reports its result as it
/// is, with its sign.
pub open spec fn routed(entry: CEntry, numbers: Numbers) -> Completion<i32> {
    let key = entry.user_data;
    let batch = super::key::key_batch(key) as usize;
    let id = (super::key::key_data(key) as u64) as usize;
    if key == CANCEL {
        Completion::Acknowledged
    } else if key == NOTIFY {
        Completion::Notified
    } else if entry.result == -numbers.canceled {
        Completion::Canceled { batch, id }
    } else if entry.result < 0 {
        Completion::Completed { batch, id, flags: entry.flags, result: Err(entry.result) }
    } else {
        Completion::Completed { batch, id, flags: entry.flags, result: Ok(entry.result) }
    }
}

/// What a range of completion queue entries means.
pub open spec fn routed_all(
    entries: Seq<CEntry>,
    numbers: Numbers,
    from: int,
    to: int,
) -> Seq<Completion<i32>> {
    entries.subrange(from, to).map_values(|entry: CEntry| routed(entry, numbers))
}

/// What a completion queue entry means.
pub fn route(entry: CEntry, numbers: Numbers) -> (r: Completion<i32>)
    ensures
        r == routed(entry, numbers),
{
    if entry.user_data == CANCEL {
        Completion::Acknowledged
    } else if entry.user_data == NOTIFY {
        Completion::Notified
    } else {
        let batch: usize = decode_batch(entry.user_data);
        let id: usize = decode_data(entry.user_data);
        if entry.result as i64 == -(numbers.canceled as i64) {
            Completion::Canceled { batch, id }
        } else {
            let result = if entry.result < 0 {
                Err(entry.result)
            } else {
                Ok(entry.result)
            };
            Completion::Completed { batch, id, flags: entry.flags, result }
        }
    }
}

/// Why a submission came to nothing.
#[derive(Copy, Clone, Debug, PartialEq, Eq, Structural)]
pub enum SubmitError {
    /// No completion came in time.
    TimedOut,
    /// The submission was interrupted.
    Interrupted,
    /// The error of the system call.
    Os,
}

/// What a submission returned.
#[derive(Copy, Clone, Debug, PartialEq, Eq, Structural)]
pub enum SubmitOutcome {
    /// It succeeded, with completions or without.
    Submitted { completions: bool },
    /// It failed, with this error number, if the error has one.
    Failed(Option<i32>),
}

/// Whether a duration is zero.
pub open spec fn is_zero(duration: Duration) -> bool {
    crate::time::whole_secs(duration) == 0 && crate::time::nanos_beyond(duration) == 0
}

/// How long to wait for a completion: as long as the timeout says or, without one,
/// until there is a completion.
pub fn wait_time(timeout: Option<Duration>) -> (r: Option<Timespec>)
    ensures
        r == match timeout {
            Some(duration) => Some(
                timespec_of(
                    crate::time::whole_secs(duration),
                    crate::time::nanos_beyond(duration),
                ),
            ),
            None => None,
        },
{
    match timeout {
        Some(duration) => Some(timespec(duration.as_secs(), duration.subsec_nanos())),
        None => None,
    }
}

/// What a submission that waited as [`wait_time`] says came to.
pub open spec fn judged(
    timeout: Option<Duration>,
    outcome: SubmitOutcome,
    numbers: Numbers,
) -> Result<(), SubmitError> {
    match outcome {
        SubmitOutcome::Submitted { completions } => if completions {
            Ok(())
        } else {
            Err(SubmitError::TimedOut)
        },
        SubmitOutcome::Failed(error) => if error == Some(numbers.timer_expired) {
            if timeout is Some && !is_zero(timeout->0) {
                Err(SubmitError::TimedOut)
            } else {
                Ok(())
            }
        } else if error == Some(numbers.busy) || error == Some(numbers.again) {
            Err(SubmitError::Interrupted)
        } else {
            Err(SubmitError::Os)
        },
    }
}

/// What a submission that waited as [`wait_time`] says came to.
pub fn submit_auto(
    timeout: Option<Duration>,
    outcome: SubmitOutcome,
    numbers: Numbers,
) -> (r: Result<(), SubmitError>)
    ensures
        r == judged(timeout, outcome, numbers),
        r == match outcome {
            SubmitOutcome::Submitted { completions: true } => Ok::<(), SubmitError>(()),
            SubmitOutcome::Submitted { completions: false } => Err(SubmitError::TimedOut),
            SubmitOutcome::Failed(error) => if error == Some(numbers.timer_expired) {
                if timeout is Some && !is_zero(timeout->0) {
                    Err(SubmitError::TimedOut)
                } else {
                    Ok(())
                }
            } else if error == Some(numbers.busy) || error == Some(numbers.again) {
                Err(SubmitError::Interrupted)
            } else {
                Err(SubmitError::Os)
            },
        },
{
    match outcome {
        SubmitOutcome::Submitted { completions } => {
            if completions {
                Ok(())
            } else {
                Err(SubmitError::TimedOut)
            }
        },
        SubmitOutcome::Failed(error) => match error {
            Some(errno) => {
                if errno == numbers.timer_expired {
                    match timeout {
                        Some(duration) => {
                            if duration.as_secs() == 0 && duration.subsec_nanos() == 0 {
                                Ok(())
                            } else {
                                Err(SubmitError::TimedOut)
                            }
                        },
                        None => Ok(()),
                    }
                } else if errno == numbers.busy || errno == numbers.again {
                    Err(SubmitError::Interrupted)
                } else {
                    Err(SubmitError::Os)
                }
            },
            None => Err(SubmitError::Os),
        },
    }
}

/// Low-level driver of io-uring.
pub struct Driver<H> {
    /// The handlers.
    pub registry: Registry<H>,
}

impl<H> Driver<H> {
    /// Create the driver, for a ring with cooperative task running and a single
    /// issuer.
    pub fn new() -> (r: Self)
        ensures
            r.registry.registered() == 0,
            r.registry.is_numbered(),
    {
        Driver { registry: Registry::new() }
    }

    /// Driver type
    pub fn tp(&self) -> (r: DriverType)
        ensures
            r == DriverType::IoUring,
    {
        DriverType::IoUring
    }

    /// Starts to register a handler. The handler is to be made with the access that is
    /// returned, and handed to [`Registry::close`] with the registration.
    pub fn open(&mut self) -> (r: (Registration<H>, DriverApi))
        requires
            old(self).registry.registered() < u64::MAX,
        ensures
            r.0.number() == old(self).registry.registered(),
            r.0.handlers() == old(self).registry.present(),
            old(self).registry.handlers() matches Some(handlers) ==> r.0.handlers() == handlers,
            r.1.batch() == super::key::batch_key(old(self).registry.registered()),
            final(self).registry.handlers() is None,
            final(self).registry.registered() == old(self).registry.registered(),
    {
        let api = DriverApi { batch: encode_batch(self.registry.next()) };
        (self.registry.open(), api)
    }

    /// Register updates handler
    pub fn register<F>(&mut self, f: F) where F: FnOnce(DriverApi) -> H
        requires
            old(self).registry.registered() < u64::MAX,
            forall|api: DriverApi|
                api.batch() == super::key::batch_key(old(self).registry.registered())
                    ==> f.requires((api,)),
        ensures
            final(self).registry.registered() == old(self).registry.registered() + 1,
            old(self).registry.is_numbered() ==> final(self).registry.is_numbered(),
            old(self).registry.handlers() matches Some(handlers) ==> {
                &&& final(self).registry.handlers() matches Some(after)
                &&& after.len() == handlers.len() + 1
                &&& forall|i: int| 0 <= i < handlers.len() ==> #[trigger] after[i] == handlers[i]
            },
            exists|api: DriverApi, handler: H|
                {
                    &&& #[trigger] f.ensures((api,), handler)
                    &&& api.batch() == super::key::batch_key(old(self).registry.registered())
                    &&& final(self).registry.handlers() == Some(
                        old(self).registry.present().push(handler),
                    )
                },
    {
        let (registration, api) = self.open();
        let handler = f(api);
        self.registry.close(registration, handler);
    }
}

impl<H: Handler<i32>> Driver<H> {
    /// Handle ring completions, forward changes to specific handler
    ///
    /// Forwards the entries from `from` on one by one and in order, up to the next one
    /// of the wake-up channel. Where there is one, returns its index: the channel is to be cleared
    /// and the entries behind it follow.
    pub fn poll_completions(
        handlers: &mut Handlers<H, Completion<i32>>,
        entries: &Vec<CEntry>,
        from: usize,
        numbers: Numbers,
    ) -> (r: Option<usize>)
        requires
            from <= entries@.len(),
            forall|i: int|
                from <= i < entries@.len() ==> routed(#[trigger] entries@[i], numbers).reaches(
                    old(handlers).items().len(),
                ),
        ensures
            final(handlers).items().len() == old(handlers).items().len(),
            match r {
                Some(at) => {
                    &&& from <= at < entries@.len()
                    &&& entries@[at as int].user_data == NOTIFY
                    &&& forall|i: int| from <= i < at ==> #[trigger] entries@[i].user_data != NOTIFY
                    &&& super::completion::forwards_all(
                        old(handlers).items(),
                        routed_all(entries@, numbers, from as int, at as int),
                        final(handlers).items(),
                    )
                    &&& final(handlers).calls() == old(handlers).calls() + routed_all(
                        entries@,
                        numbers,
                        from as int,
                        at as int,
                    )
                },
                None => {
                    &&& forall|i: int|
                        from <= i < entries@.len() ==> #[trigger] entries@[i].user_data != NOTIFY
                    &&& super::completion::forwards_all(
                        old(handlers).items(),
                        routed_all(entries@, numbers, from as int, entries@.len() as int),
                        final(handlers).items(),
                    )
                    &&& final(handlers).calls() == old(handlers).calls() + routed_all(
                        entries@,
                        numbers,
                        from as int,
                        entries@.len() as int,
                    )
                },
            },
    {
        let mut at: usize = from;
        proof {
            super::completion::lemma_forwards_none::<i32, H>(handlers.items());
            assert(routed_all(entries@, numbers, from as int, from as int) == Seq::<Completion<i32>>::empty());
        }
        while at < entries.len()
            invariant
                from <= at <= entries@.len(),
                handlers.items().len() == old(handlers).items().len(),
                forall|i: int|
                    from <= i < entries@.len() ==> routed(#[trigger] entries@[i], numbers).reaches(
                        old(handlers).items().len(),
                    ),
                forall|i: int| from <= i < at ==> #[trigger] entries@[i].user_data != NOTIFY,
                super::completion::forwards_all(
                    old(handlers).items(),
                    routed_all(entries@, numbers, from as int, at as int),
                    handlers.items(),
                ),
                handlers.calls() == old(handlers).calls() + routed_all(
                    entries@,
                    numbers,
                    from as int,
                    at as int,
                ),
            decreases entries@.len() - at,
        {
            let entry: CEntry = entries[at];
            if entry.user_data == NOTIFY {
                return Some(at);
            }
            let completion = route(entry, numbers);
            let ghost mid = handlers.items();
            handlers.forward(completion);
            proof {
                let done = routed_all(entries@, numbers, from as int, at as int);
                super::completion::lemma_forwards_more(
                    old(handlers).items(),
                    done,
                    mid,
                    completion,
                    handlers.items(),
                );
                assert(routed_all(entries@, numbers, from as int, at + 1) == done.push(completion));
            }
            at = at + 1;
        }
        None
    }
}

/// What the driver does next.
pub enum Stage {
    /// Push the changes for which there is room, and sync.
    Apply,
    /// Sync with the completion queue and forward the completions.
    Completions { has_more: bool },
    /// Submit to the kernel; with `poll`, wait for no time, else as long as the
    /// caller's timeout says.
    Submit { poll: bool },
    /// Forward the completions that the submission brought.
    Forward,
    /// Call back the caller.
    Call,
    /// Return.
    Done,
    /// Return this error.
    Failed(SubmitError),
}

/// What came of a stage.
pub enum StageEvent {
    /// The changes are pushed; `has_more` tells whether any is left.
    Applied { has_more: bool },
    /// The completions are forwarded; `found` tells whether there were any.
    Completed { found: bool },
    /// The submission is over.
    Submitted(Result<(), SubmitError>),
    /// The callback returned.
    Called,
}

/// Whether an event is the outcome of a stage.
pub open spec fn answers(event: StageEvent, stage: Stage) -> bool {
    match stage {
        Stage::Apply => event is Applied,
        Stage::Completions { .. } => event is Completed,
        Stage::Submit { .. } => event is Submitted,
        Stage::Forward => event is Completed,
        Stage::Call => event is Called,
        Stage::Done => false,
        Stage::Failed(_) => false,
    }
}

/// The stage that follows.
pub open spec fn next_stage(stage: Stage, event: StageEvent) -> Stage {
    match (stage, event) {
        (Stage::Apply, StageEvent::Applied { has_more }) => Stage::Completions { has_more },
        (Stage::Completions { has_more }, StageEvent::Completed { found }) => if found
            && !has_more {
            Stage::Call
        } else {
            Stage::Submit { poll: has_more }
        },
        (Stage::Submit { .. }, StageEvent::Submitted(Err(error))) => Stage::Failed(error),
        (Stage::Submit { .. }, _) => Stage::Forward,
        (Stage::Forward, _) => Stage::Call,
        (Stage::Call, _) => Stage::Done,
        (stage, _) => stage,
    }
}

impl<H> Driver<H> {
    /// Poll the driver and handle completed operations.
    ///
    /// Polling starts with [`Stage::Apply`] and ends with [`Stage::Done`] or
    /// [`Stage::Failed`].
    pub fn poll(&self, stage: Stage, event: StageEvent) -> (r: Stage)
        requires
            answers(event, stage),
        ensures
            r == next_stage(stage, event),
    {
        match (stage, event) {
            (Stage::Apply, StageEvent::Applied { has_more }) => Stage::Completions { has_more },
            (Stage::Completions { has_more }, StageEvent::Completed { found }) => {
                if !found || has_more {
                    Stage::Submit { poll: has_more }
                } else {
                    Stage::Call
                }
            },
            (Stage::Submit { .. }, StageEvent::Submitted(result)) => match result {
                Ok(_) => Stage::Forward,
                Err(error) => Stage::Failed(error),
            },
            (Stage::Forward, _) => Stage::Call,
            (Stage::Call, _) => Stage::Done,
            (stage, _) => stage,
        }
    }
}

/// Something that happens to the changes.
pub enum ChangeOp {
    /// A change is submitted.
    Submit(Change),
    /// The changes are applied to a ring with some room.
    Apply { room: nat },
}

/// The entries that reached the ring so far, and the changes that are left.
pub struct ChangeTrace {
    pub sent: Seq<Entry>,
    pub left: Seq<Change>,
}

/// Where the changes are after `ops`.
pub open spec fn replay(ops: Seq<ChangeOp>) -> ChangeTrace
    decreases ops.len(),
{
    if ops.len() == 0 {
        ChangeTrace { sent: Seq::empty(), left: Seq::empty() }
    } else {
        let before = replay(ops.drop_last());
        match ops.last() {
            ChangeOp::Submit(change) => ChangeTrace {
                sent: before.sent,
                left: before.left.push(change),
            },
            ChangeOp::Apply { room } => ChangeTrace {
                sent: before.sent + applied(before.left, room).0,
                left: applied(before.left, room).1,
            },
        }
    }
}

/// The changes submitted by `ops`, in order.
pub open spec fn requests(ops: Seq<ChangeOp>) -> Seq<Change>
    decreases ops.len(),
{
    if ops.len() == 0 {
        Seq::empty()
    } else {
        match ops.last() {
            ChangeOp::Submit(change) => requests(ops.drop_last()).push(change),
            ChangeOp::Apply { .. } => requests(ops.drop_last()),
        }
    }
}

/// Requests reach the ring in the order in which they were submitted, each of them
/// once, and those that did not yet reach it are left in that order.
pub proof fn law_requests_keep_their_order(ops: Seq<ChangeOp>)
    ensures
        replay(ops).sent + entries_of(replay(ops).left) == entries_of(requests(ops)),
    decreases ops.len(),
{
    if ops.len() > 0 {
        let before = replay(ops.drop_last());
        law_requests_keep_their_order(ops.drop_last());
        match ops.last() {
            ChangeOp::Submit(change) => {
                let asked = requests(ops.drop_last());
                assert(entries_of(asked.push(change)) =~= entries_of(asked).push(entry_of(change)));
                assert(before.sent + entries_of(before.left.push(change)) =~= (before.sent
                    + entries_of(before.left)).push(entry_of(change)));
            },
            ChangeOp::Apply { room } => {
                let (sent, left) = applied(before.left, room);
                assert(sent + entries_of(left) =~= entries_of(before.left));
                assert((before.sent + sent) + entries_of(left) =~= before.sent + (sent
                    + entries_of(left)));
            },
        }
    }
}

/// A completion of operation `id` goes to the handler that submitted it, under
/// that id, and as a cancellation if and only if the kernel says so.
pub proof fn law_completion_returns_to_its_handler(
    hid: u64,
    id: u32,
    result: i32,
    flags: u32,
    numbers: Numbers,
)
    requires
        hid < super::key::batches(),
    ensures
        ({
            let user_data = super::key::op_key(super::key::batch_key(hid), id);
            let completion = routed(CEntry { user_data, result, flags }, numbers);
            if result == -numbers.canceled {
                completion == Completion::<i32>::Canceled { batch: hid as usize, id: id as usize }
            } else {
                completion == Completion::<i32>::Completed {
                    batch: hid as usize,
                    id: id as usize,
                    flags,
                    result: if result < 0 {
                        Err(result)
                    } else {
                        Ok(result)
                    },
                }
            }
        }),
{
    super::key::law_key_leads_back(hid, id);
    super::key::law_keys_are_not_reserved(hid, id);
}

/// Stopping at an entry of the wake-up channel and going on behind it forwards every
/// completion once and in order, as if there had been no stop.
pub proof fn law_stop_skips_no_completion<H: Handler<i32>>(
    entries: Seq<CEntry>,
    numbers: Numbers,
    from: int,
    at: int,
    to: int,
    before: Seq<H>,
    mid: Seq<H>,
    after: Seq<H>,
)
    requires
        0 <= from <= at < to <= entries.len(),
        entries[at].user_data == NOTIFY,
        super::completion::forwards_all(before, routed_all(entries, numbers, from, at), mid),
        super::completion::forwards_all(mid, routed_all(entries, numbers, at + 1, to), after),
    ensures
        super::completion::forwards_all(before, routed_all(entries, numbers, from, to), after),
        routed_all(entries, numbers, from, at).push(Completion::<i32>::Notified) + routed_all(
            entries,
            numbers,
            at + 1,
            to,
        ) == routed_all(entries, numbers, from, to),
{
    let first = routed_all(entries, numbers, from, at);
    let stop = routed(entries[at], numbers);
    let second = routed_all(entries, numbers, at + 1, to);
    super::completion::lemma_forwards_more(before, first, mid, stop, mid);
    super::completion::lemma_forwards_join(before, first.push(stop), mid, second, after);
    assert(first.push(stop) + second =~= routed_all(entries, numbers, from, to));
}

/// The driver waits as long as the caller's timeout says only when nothing is left
/// to submit and no completion was there; with something left to submit it submits
/// without waiting.
pub proof fn law_waits_only_when_idle(has_more: bool, found: bool)
    ensures
        ({
            let completions = next_stage(Stage::Apply, StageEvent::Applied { has_more });
            let next = next_stage(completions, StageEvent::Completed { found });
            &&& next == Stage::Submit { poll: false } <==> !has_more && !found
            &&& next == Stage::Submit { poll: true } <==> has_more
        }),
{
}

/// The callback is called in every poll that does not fail, and in no other, and
/// after the completions are forwarded.
pub proof fn law_callback_is_called(stage: Stage, event: StageEvent)
    requires
        answers(event, stage),
    ensures
        next_stage(stage, event) is Done ==> stage is Call,
        next_stage(stage, event) is Call ==> stage is Completions || stage is Forward,
        next_stage(stage, event) is Failed ==> stage is Submit,
{
}

/// What an entry means is read from its key and its result: the upper 16 bits of the key
/// are the number of the handler and the others its id, and the operation is canceled
/// if and only if the result says so. The two greatest keys are for no handler.
pub proof fn law_entry_is_read_in_full(entry: CEntry, numbers: Numbers)
    ensures
        ({
            let batch = (entry.user_data / 0x1_0000_0000_0000u64) as usize;
            let id = (entry.user_data % 0x1_0000_0000_0000u64) as usize;
            let meaning = routed(entry, numbers);
            &&& entry.user_data == u64::MAX <==> meaning is Notified
            &&& entry.user_data == u64::MAX - 1 <==> meaning is Acknowledged
            &&& meaning is Canceled <==> entry.user_data < u64::MAX - 1 && entry.result
                + numbers.canceled == 0
            &&& meaning matches Completion::Canceled { batch: b, id: i } ==> b == batch && i == id
            &&& meaning matches Completion::Completed { batch: b, id: i, flags, result } ==> {
                &&& b == batch
                &&& i == id
                &&& flags == entry.flags
                &&& result is Ok <==> entry.result >= 0
                &&& result matches Ok(value) ==> value == entry.result
                &&& result matches Err(error) ==> error == entry.result
            }
        }),
{
}

/// Entries keep their order when they are read: the meaning at each place is that of the
/// entry at that place.
pub proof fn law_entries_are_read_in_order(
    entries: Seq<CEntry>,
    numbers: Numbers,
    from: int,
    to: int,
    i: int,
)
    requires
        0 <= from <= to <= entries.len(),
        0 <= i < to - from,
    ensures
        routed_all(entries, numbers, from, to).len() == to - from,
        routed_all(entries, numbers, from, to)[i] == routed(entries[from + i], numbers),
{
}

/// A request is submitted by its own entry, and a cancellation by a cancel request for
/// its target under the reserved key, the greatest but one.
pub proof fn law_changes_become_their_entries(entry: Entry, op_id: u64)
    ensures
        entry_of(Change::Submit { entry }) == entry,
        entry_of(Change::Cancel { op_id }) == super::entry::entry_with_key(
            super::entry::cancel_request(op_id),
            (u64::MAX - 1) as u64,
        ),
{
}

/// No more changes reach the ring than it has room for, and as many as it has room for,
/// unless none is left; those that reach it are the oldest.
pub proof fn law_ring_is_filled(changes: Seq<Change>, room: nat, i: int)
    ensures
        ({
            let (sent, left) = applied(changes, room);
            &&& sent.len() <= room
            &&& sent.len() == room || left.len() == 0
            &&& sent.len() + left.len() == changes.len()
            &&& 0 <= i < sent.len() ==> sent[i] == entry_of(changes[i])
            &&& sent.len() <= i < changes.len() ==> left[i - sent.len()] == changes[i]
        }),
{
}

/// Each stage has its predecessor. The completions are forwarded after the changes are
/// applied and again after every submission that does not fail, and the caller is
/// called back directly after that.
pub proof fn law_each_stage_has_its_predecessor(stage: Stage, event: StageEvent)
    requires
        answers(event, stage),
    ensures
        ({
            let next = next_stage(stage, event);
            &&& next is Completions <==> stage is Apply
            &&& next is Submit <==> stage is Completions && !(stage == (Stage::Completions {
                has_more: false,
            }) && event == (StageEvent::Completed { found: true }))
            &&& next is Forward <==> (event matches StageEvent::Submitted(Ok(_)))
            &&& next is Failed <==> (event matches StageEvent::Submitted(Err(_)))
            &&& next is Call <==> stage is Forward || (stage == (Stage::Completions {
                has_more: false,
            }) && event == (StageEvent::Completed { found: true }))
            &&& next is Done <==> stage is Call
        }),
{
}

/// The error that the polling ends with is that of the submission, and the submission
/// polls without waiting if and only if changes are left.
pub proof fn law_outcomes_are_handed_on(
    error: SubmitError,
    poll: bool,
    has_more: bool,
    found: bool,
)
    ensures
        next_stage(Stage::Submit { poll }, StageEvent::Submitted(Err(error))) == Stage::Failed(
            error,
        ),
        next_stage(Stage::Apply, StageEvent::Applied { has_more }) == (Stage::Completions {
            has_more,
        }),
        next_stage(
            Stage::Completions { has_more },
            StageEvent::Completed { found },
        ) matches Stage::Submit { poll: polls } ==> (polls <==> has_more),
{
}

/// A timeout is zero if and only if it has neither whole seconds nor nanoseconds beyond
/// them.
pub proof fn law_zero_has_no_parts(duration: Duration)
    ensures
        is_zero(duration) <==> crate::time::whole_secs(duration) + crate::time::nanos_beyond(
            duration,
        ) == 0,
{
}

/// A submission that succeeded is fine if and only if it brought completions, and else
/// timed out. One that failed because its timer expired is fine if and only if it was
/// not meant to wait; one that failed because a resource was busy or exhausted was
/// interrupted; any other failure is that of the system call.
pub proof fn law_submission_is_judged(
    timeout: Option<Duration>,
    completions: bool,
    error: Option<i32>,
    numbers: Numbers,
)
    ensures
        judged(timeout, SubmitOutcome::Submitted { completions }, numbers) is Ok <==> completions,
        judged(timeout, SubmitOutcome::Submitted { completions }, numbers) matches Err(e) ==> e
            == SubmitError::TimedOut,
        ({
            let verdict = judged(timeout, SubmitOutcome::Failed(error), numbers);
            let expired = error matches Some(errno) && errno == numbers.timer_expired;
            let exhausted = error matches Some(errno) && (errno == numbers.busy || errno
                == numbers.again);
            let waits = timeout matches Some(duration) && crate::time::whole_secs(duration)
                + crate::time::nanos_beyond(duration) > 0;
            &&& verdict is Ok <==> expired && !waits
            &&& verdict == Err::<(), SubmitError>(SubmitError::TimedOut) <==> expired && waits
            &&& verdict == Err::<(), SubmitError>(SubmitError::Interrupted) <==> !expired
                && exhausted
            &&& verdict == Err::<(), SubmitError>(SubmitError::Os) <==> !expired && !exhausted
        }),
{
}

/// Each stage has outcomes: whatever comes of it is one of them.
pub proof fn law_stages_are_answered(
    has_more: bool,
    found: bool,
    poll: bool,
    result: Result<(), SubmitError>,
)
    ensures
        answers(StageEvent::Applied { has_more }, Stage::Apply),
        answers(StageEvent::Completed { found }, Stage::Completions { has_more }),
        answers(StageEvent::Submitted(result), Stage::Submit { poll }),
        answers(StageEvent::Completed { found }, Stage::Forward),
        answers(StageEvent::Called, Stage::Call),
{
}

} // verus!
