//! The io-uring driver.

use std::collections::VecDeque;

use ntex_io_uring::squeue::Entry;
use ntex_io_uring::Probe;
use vstd::prelude::*;

use super::completion::{CEntry, Completion};
use super::entry::{build_cancel, build_poll};
use super::errno::{syscall, Numbers};
use super::handlers::Handlers;
use super::key::{decode_batch, decode_data, encode, encode_batch, CANCEL, NOTIFY};
use super::registry::{Registration, Registry};
use super::{DriverType, PollResult};

pub use super::completion::Handler;

verus! {

broadcast use vstd::std_specs::vecdeque::group_vec_dequeue_axioms;

/// The poll event of a readable descriptor.
pub const POLLIN: u32 = 1;

/// How many deferred entries the driver makes room for at first.
pub const CHANGES: usize = 32;

/// A way to set up the ring, from the most recent kernels down to the oldest.
#[derive(Copy, Clone, Debug, PartialEq, Eq, Structural)]
pub enum RingSetup {
    /// Single issuer, cooperative and deferred task running.
    DeferTaskrun,
    /// Single issuer.
    SingleIssuer,
    /// No options.
    Plain,
}

impl RingSetup {
    /// The setup to try first.
    pub fn first() -> (r: RingSetup)
        ensures
            r == RingSetup::DeferTaskrun,
    {
        RingSetup::DeferTaskrun
    }

    /// The setup to try when the kernel refuses this one; the refusal of the last
    /// one is the error of the driver.
    pub fn fallback(self) -> (r: Option<RingSetup>)
        ensures
            self is DeferTaskrun ==> r == Some(RingSetup::SingleIssuer),
            self is SingleIssuer ==> r == Some(RingSetup::Plain),
            self is Plain ==> r is None,
    {
        match self {
            RingSetup::DeferTaskrun => Some(RingSetup::SingleIssuer),
            RingSetup::SingleIssuer => Some(RingSetup::Plain),
            RingSetup::Plain => None,
        }
    }

    /// Whether the ring runs its tasks cooperatively.
    pub fn coop_taskrun(self) -> (r: bool)
        ensures
            r == (self is DeferTaskrun),
    {
        matches!(self, RingSetup::DeferTaskrun)
    }

    /// Whether one thread alone submits to the ring.
    pub fn single_issuer(self) -> (r: bool)
        ensures
            r == (self is DeferTaskrun || self is SingleIssuer),
    {
        matches!(self, RingSetup::DeferTaskrun | RingSetup::SingleIssuer)
    }

    /// Whether the ring defers its tasks until they are asked for.
    pub fn defer_taskrun(self) -> (r: bool)
        ensures
            r == (self is DeferTaskrun),
    {
        matches!(self, RingSetup::DeferTaskrun)
    }

    /// Whether this setup takes a kernel of version 6.1 or greater: the deferred
    /// running of tasks does, a single issuer alone comes with version 6.0.
    pub fn is_new(self) -> (r: bool)
        ensures
            r == (self is DeferTaskrun),
    {
        self.defer_taskrun()
    }
}

/// The next step in the creation of a driver.
#[derive(Copy, Clone, Debug, PartialEq, Eq, Structural)]
pub enum Creation {
    /// Build a ring with this setup.
    Ring(RingSetup),
    /// Ask the kernel, by the ring with this setup, what it supports.
    Support(RingSetup),
    /// Create the wake-up channel.
    Channel(RingSetup),
    /// The driver can be created with this setup.
    Ready(RingSetup),
    /// Return the error of the step that was just taken.
    Failed,
}

/// The step that follows a step that succeeded or failed.
pub open spec fn next_creation(creation: Creation, success: bool) -> Creation {
    match creation {
        Creation::Ring(setup) => if success {
            Creation::Support(setup)
        } else {
            match setup {
                RingSetup::DeferTaskrun => Creation::Ring(RingSetup::SingleIssuer),
                RingSetup::SingleIssuer => Creation::Ring(RingSetup::Plain),
                RingSetup::Plain => Creation::Failed,
            }
        },
        Creation::Support(setup) => if success {
            Creation::Channel(setup)
        } else {
            Creation::Failed
        },
        Creation::Channel(setup) => if success {
            Creation::Ready(setup)
        } else {
            Creation::Failed
        },
        Creation::Ready(_) => creation,
        Creation::Failed => creation,
    }
}

impl Creation {
    /// The first step.
    pub fn first() -> (r: Creation)
        ensures
            r == Creation::Ring(RingSetup::DeferTaskrun),
    {
        Creation::Ring(RingSetup::first())
    }

    /// The step that follows this one, which succeeded or failed.
    pub fn step(self, success: bool) -> (r: Creation)
        ensures
            r == next_creation(self, success),
    {
        match self {
            Creation::Ring(setup) => {
                if success {
                    Creation::Support(setup)
                } else {
                    match setup.fallback() {
                        Some(next) => Creation::Ring(next),
                        None => Creation::Failed,
                    }
                }
            },
            Creation::Support(setup) => {
                if success {
                    Creation::Channel(setup)
                } else {
                    Creation::Failed
                }
            },
            Creation::Channel(setup) => {
                if success {
                    Creation::Ready(setup)
                } else {
                    Creation::Failed
                }
            },
            Creation::Ready(_) => self,
            Creation::Failed => self,
        }
    }
}

/// What a submission leaves behind: the entry that goes to the ring at once, if
/// any, and the entries that wait.
pub open spec fn submitted(changes: Seq<Entry>, full: bool, entry: Entry) -> (
    Option<Entry>,
    Seq<Entry>,
) {
    if changes.len() > 0 || full {
        (None, changes.push(entry))
    } else {
        (Some(entry), changes)
    }
}

/// How many waiting entries leave the queue when the ring has room for `room`.
pub open spec fn leaving(waiting: nat, room: nat) -> nat {
    if waiting < room {
        waiting
    } else {
        room
    }
}

/// What applying the waiting entries to a ring with room for `room` entries leaves
/// behind: the entries that reach the ring and the entries that still wait.
pub open spec fn applied(changes: Seq<Entry>, room: nat) -> (Seq<Entry>, Seq<Entry>) {
    let num = leaving(changes.len(), room) as int;
    (changes.take(num), changes.skip(num))
}

/// The part of the driver that is shared with the handlers.
pub struct DriverInner {
    new: bool,
    probe: Probe,
    changes: VecDeque<Entry>,
}

impl DriverInner {
    /// Whether the kernel is known to be of version 6.1 or greater.
    pub closed spec fn new_kernel(self) -> bool {
        self.new
    }

    /// What the kernel supports.
    pub closed spec fn probed(self) -> Probe {
        self.probe
    }

    /// The entries that wait for room in the ring.
    pub closed spec fn waiting(self) -> Seq<Entry> {
        self.changes@
    }

    /// Sends `entry` to the ring, unless the ring is full or other entries wait
    /// before it. An entry that is returned is to be pushed to the ring.
    fn submit_inner(&mut self, full: bool, entry: Entry) -> (r: Option<Entry>)
        ensures
            (r, final(self).waiting()) == submitted(old(self).waiting(), full, entry),
            final(self).new_kernel() == old(self).new_kernel(),
            final(self).probed() == old(self).probed(),
    {
        if self.changes.len() > 0 || full {
            self.changes.push_back(entry);
            None
        } else {
            Some(entry)
        }
    }

    /// Takes the oldest of the waiting entries, as many as a ring of `capacity`
    /// entries, `len` of them in use, has room for. Returns them, to be pushed to the
    /// ring, and whether any entry still waits.
    pub fn apply_changes(&mut self, capacity: usize, len: usize) -> (r: (Vec<Entry>, bool))
        requires
            len <= capacity,
        ensures
            (r.0@, final(self).waiting()) == applied(
                old(self).waiting(),
                (capacity - len) as nat,
            ),
            r.0@ + final(self).waiting() == old(self).waiting(),
            r.0@.len() <= capacity - len,
            r.0@.len() == capacity - len || final(self).waiting().len() == 0,
            r.1 == (final(self).waiting().len() > 0),
            final(self).new_kernel() == old(self).new_kernel(),
            final(self).probed() == old(self).probed(),
    {
        let room: usize = capacity - len;
        let waiting: usize = self.changes.len();
        let num: usize = if waiting < room {
            waiting
        } else {
            room
        };
        let ghost before = self.changes@;
        let mut pushed: Vec<Entry> = Vec::new();
        let mut i: usize = 0;
        while i < num
            invariant
                i <= num <= before.len(),
                self.changes@ == before.skip(i as int),
                pushed@ == before.take(i as int),
                self.new == old(self).new,
                self.probe == old(self).probe,
            decreases num - i,
        {
            if let Some(entry) = self.changes.pop_front() {
                assert(entry == before[i as int]);
                pushed.push(entry);
            }
            i = i + 1;
        }
        (pushed, self.changes.len() > 0)
    }
}

/// The access of one handler to the driver.
pub struct DriverApi {
    batch: u64,
}

impl DriverApi {
    /// The handler part of the keys.
    pub closed spec fn batch(self) -> u64 {
        self.batch
    }

    #[verifier::type_invariant]
    spec fn wf(self) -> bool {
        super::key::is_batch(self.batch)
    }

    /// Check if kernel ver 6.1 or greater
    pub fn is_new(&self, inner: &DriverInner) -> (r: bool)
        ensures
            r == inner.new_kernel(),
    {
        inner.new
    }

    /// Submit request to the driver.
    ///
    /// `full` tells whether the ring is full. An entry that is returned is to be
    /// pushed to the ring.
    pub fn submit(&self, inner: &mut DriverInner, full: bool, id: u32, entry: Entry) -> (r: Option<
        Entry,
    >)
        ensures
            ({
                let key = super::key::op_key(self.batch(), id);
                let tagged = super::entry::entry_with_key(entry, key);
                &&& super::entry::entry_key(tagged) == key
                &&& (r, final(inner).waiting()) == submitted(old(inner).waiting(), full, tagged)
            }),
            final(inner).new_kernel() == old(inner).new_kernel(),
            final(inner).probed() == old(inner).probed(),
    {
        proof {
            use_type_invariant(self);
        }
        let key: u64 = encode(self.batch, id);
        inner.submit_inner(full, entry.user_data(key))
    }

    /// Submit request to the driver.
    ///
    /// `entry` is what the caller filled in; otherwise as [`DriverApi::submit`].
    pub fn submit_inline(
        &self,
        inner: &mut DriverInner,
        full: bool,
        id: u32,
        entry: Entry,
    ) -> (r: Option<Entry>)
        ensures
            ({
                let key = super::key::op_key(self.batch(), id);
                let tagged = super::entry::entry_with_key(entry, key);
                &&& super::entry::entry_key(tagged) == key
                &&& (r, final(inner).waiting()) == submitted(old(inner).waiting(), full, tagged)
            }),
            final(inner).new_kernel() == old(inner).new_kernel(),
            final(inner).probed() == old(inner).probed(),
    {
        self.submit(inner, full, id, entry)
    }

    /// Attempt to cancel an already issued request.
    ///
    /// An entry that is returned is to be pushed to the ring.
    pub fn cancel(&self, inner: &mut DriverInner, full: bool, id: u32) -> (r: Option<Entry>)
        ensures
            ({
                let request = super::entry::cancel_request(super::key::op_key(self.batch(), id));
                let tagged = super::entry::entry_with_key(request, CANCEL);
                &&& super::entry::entry_key(tagged) == CANCEL
                &&& (r, final(inner).waiting()) == submitted(old(inner).waiting(), full, tagged)
            }),
            final(inner).new_kernel() == old(inner).new_kernel(),
            final(inner).probed() == old(inner).probed(),
    {
        proof {
            use_type_invariant(self);
        }
        let key: u64 = encode(self.batch, id);
        inner.submit_inner(full, build_cancel(key).user_data(CANCEL))
    }

    /// Get whether a specific io-uring opcode is supported.
    pub fn is_supported(&self, inner: &DriverInner, opcode: u8) -> (r: bool)
        ensures
            r == super::entry::probe_opcodes(inner.probed()).contains(opcode),
    {
        inner.probe.is_supported(opcode)
    }
}

/// What a completion queue entry means.
pub open spec fn routed(entry: CEntry, numbers: Numbers) -> Completion<usize> {
    let key = entry.user_data;
    let batch = super::key::key_batch(key) as usize;
    let id = (super::key::key_data(key) as u64) as usize;
    if key == CANCEL {
        Completion::Acknowledged
    } else if key == NOTIFY {
        Completion::Notified
    } else if entry.result == -numbers.canceled {
        Completion::Canceled { batch, id }
    } else if entry.result < 0 {
        Completion::Completed { batch, id, flags: entry.flags, result: Err((-entry.result) as i32) }
    } else {
        Completion::Completed { batch, id, flags: entry.flags, result: Ok(entry.result as usize) }
    }
}

/// What a range of completion queue entries means.
pub open spec fn routed_all(
    entries: Seq<CEntry>,
    numbers: Numbers,
    from: int,
    to: int,
) -> Seq<Completion<usize>> {
    entries.subrange(from, to).map_values(|entry: CEntry| routed(entry, numbers))
}

/// Whether the result of an entry can be read: no error number is the negation of
/// the least result. The results under the reserved keys are not read.
pub open spec fn is_readable(entry: CEntry) -> bool {
    entry.user_data == CANCEL || entry.user_data == NOTIFY || entry.result > i32::MIN
}

/// What a completion queue entry means.
pub fn route(entry: CEntry, numbers: Numbers) -> (r: Completion<usize>)
    requires
        is_readable(entry),
    ensures
        r == routed(entry, numbers),
{
    if entry.user_data == CANCEL {
        Completion::Acknowledged
    } else if entry.user_data == NOTIFY {
        Completion::Notified
    } else {
        let batch: usize = decode_batch(entry.user_data);
        let id: usize = decode_data(entry.user_data);
        if entry.result as i64 == -(numbers.canceled as i64) {
            Completion::Canceled { batch, id }
        } else {
            let result = if entry.result < 0 {
                Err(-entry.result)
            } else {
                Ok(entry.result as usize)
            };
            Completion::Completed { batch, id, flags: entry.flags, result }
        }
    }
}

/// Low-level driver of io-uring.
pub struct Driver<H> {
    /// The error numbers of the system.
    pub numbers: Numbers,
    /// The handlers.
    pub registry: Registry<H>,
}

impl<H> Driver<H> {
    /// Create io-uring driver
    ///
    /// `setup` is the setup that the kernel took and `probe` what it supports.
    pub fn new(setup: RingSetup, probe: Probe, numbers: Numbers) -> (r: (
        Driver<H>,
        DriverInner,
    ))
        ensures
            r.0.numbers == numbers,
            r.0.registry.registered() == 0,
            r.0.registry.is_numbered(),
            r.1.new_kernel() == (setup is DeferTaskrun),
            r.1.probed() == probe,
            r.1.waiting() == Seq::<Entry>::empty(),
    {
        let inner = DriverInner {
            new: setup.is_new(),
            probe,
            changes: VecDeque::with_capacity(CHANGES),
        };
        (Driver { numbers, registry: Registry::new() }, inner)
    }

    /// Driver type
    pub fn tp(&self) -> (r: DriverType)
        ensures
            r == DriverType::IoUring,
    {
        DriverType::IoUring
    }

    /// Starts to register a handler. The handler is to be made with the access that is
    /// returned, and handed to [`Registry::close`] with the registration.
    pub fn open(&mut self) -> (r: (Registration<H>, DriverApi))
        requires
            old(self).registry.registered() < u64::MAX,
        ensures
            final(self).numbers == old(self).numbers,
            r.0.number() == old(self).registry.registered(),
            r.0.handlers() == old(self).registry.present(),
            old(self).registry.handlers() matches Some(handlers) ==> r.0.handlers() == handlers,
            r.1.batch() == super::key::batch_key(old(self).registry.registered()),
            final(self).registry.handlers() is None,
            final(self).registry.registered() == old(self).registry.registered(),
    {
        let api = DriverApi { batch: encode_batch(self.registry.next()) };
        (self.registry.open(), api)
    }

    /// Register updates handler
    pub fn register<F>(&mut self, f: F) where F: FnOnce(DriverApi) -> H
        requires
            old(self).registry.registered() < u64::MAX,
            forall|api: DriverApi|
                api.batch() == super::key::batch_key(old(self).registry.registered())
                    ==> f.requires((api,)),
        ensures
            final(self).numbers == old(self).numbers,
            final(self).registry.registered() == old(self).registry.registered() + 1,
            old(self).registry.is_numbered() ==> final(self).registry.is_numbered(),
            old(self).registry.handlers() matches Some(handlers) ==> {
                &&& final(self).registry.handlers() matches Some(after)
                &&& after.len() == handlers.len() + 1
                &&& forall|i: int| 0 <= i < handlers.len() ==> #[trigger] after[i] == handlers[i]
            },
            exists|api: DriverApi, handler: H|
                {
                    &&& #[trigger] f.ensures((api,), handler)
                    &&& api.batch() == super::key::batch_key(old(self).registry.registered())
                    &&& final(self).registry.handlers() == Some(
                        old(self).registry.present().push(handler),
                    )
                },
    {
        let (registration, api) = self.open();
        let handler = f(api);
        self.registry.close(registration, handler);
    }
}

/// What the driver does next.
pub enum Stage<T> {
    /// Sync with the completion queue and forward the completions.
    Completions,
    /// Run one turn of the scheduler.
    Run,
    /// Push the waiting entries for which there is room.
    Apply { more_tasks: bool },
    /// Make the pushed entries visible to the ring.
    Sync { wait: bool },
    /// Submit to the kernel; with `wait`, block until a completion is there.
    Submit { wait: bool },
    /// Return the awaited value.
    Done(T),
    /// Return the error of the submission.
    Failed,
}

/// What came of a stage.
pub enum StageEvent<T> {
    /// The completions are forwarded.
    Completed,
    /// The turn of the scheduler is over.
    Ran(PollResult<T>),
    /// The waiting entries are pushed; `more_changes` tells whether any is left.
    Applied { more_changes: bool },
    /// The submission queue is in sync.
    Synced,
    /// The submission returned, with the number of the error that it failed with,
    /// if it failed and the error has one.
    Submitted(Result<usize, Option<i32>>),
}

/// Whether a failed submission is just to be made again.
pub open spec fn is_transient(error: Option<i32>, numbers: Numbers) -> bool {
    error matches Some(errno) && {
        ||| errno == numbers.timer_expired
        ||| errno == numbers.busy
        ||| errno == numbers.again
        ||| errno == numbers.interrupted
    }
}

/// Whether an event is the outcome of a stage.
pub open spec fn answers<T>(event: StageEvent<T>, stage: Stage<T>) -> bool {
    match stage {
        Stage::Completions => event is Completed,
        Stage::Run => event is Ran,
        Stage::Apply { .. } => event is Applied,
        Stage::Sync { .. } => event is Synced,
        Stage::Submit { .. } => event is Submitted,
        Stage::Done(_) => false,
        Stage::Failed => false,
    }
}

/// The stage that follows.
pub open spec fn next_stage<T>(
    stage: Stage<T>,
    event: StageEvent<T>,
    numbers: Numbers,
) -> Stage<T> {
    match (stage, event) {
        (Stage::Completions, _) => Stage::Run,
        (Stage::Run, StageEvent::Ran(PollResult::Ready(value))) => Stage::Done(value),
        (Stage::Run, StageEvent::Ran(result)) => Stage::Apply { more_tasks: result is HasTasks },
        (Stage::Apply { more_tasks }, StageEvent::Applied { more_changes }) => Stage::Sync {
            wait: !more_tasks && !more_changes,
        },
        (Stage::Sync { wait }, _) => Stage::Submit { wait },
        (Stage::Submit { .. }, StageEvent::Submitted(Err(error))) => if is_transient(
            error,
            numbers,
        ) {
            Stage::Completions
        } else {
            Stage::Failed
        },
        (Stage::Submit { .. }, _) => Stage::Completions,
        (stage, _) => stage,
    }
}

impl<H: Handler<usize>> Driver<H> {
    /// Handle ring completions, forward changes to specific handler
    ///
    /// Forwards the entries from `from` on one by one and in order, up to the next one
    /// of the wake-up channel. Where there is one, returns its index: the channel is to be cleared
    /// and the entries behind it follow.
    pub fn poll_completions(
        handlers: &mut Handlers<H, Completion<usize>>,
        entries: &Vec<CEntry>,
        from: usize,
        numbers: Numbers,
    ) -> (r: Option<usize>)
        requires
            from <= entries@.len(),
            forall|i: int|
                from <= i < entries@.len() ==> is_readable(#[trigger] entries@[i]) && routed(
                    entries@[i],
                    numbers,
                ).reaches(old(handlers).items().len()),
        ensures
            final(handlers).items().len() == old(handlers).items().len(),
            match r {
                Some(at) => {
                    &&& from <= at < entries@.len()
                    &&& entries@[at as int].user_data == NOTIFY
                    &&& forall|i: int| from <= i < at ==> #[trigger] entries@[i].user_data != NOTIFY
                    &&& super::completion::forwards_all(
                        old(handlers).items(),
                        routed_all(entries@, numbers, from as int, at as int),
                        final(handlers).items(),
                    )
                    &&& final(handlers).calls() == old(handlers).calls() + routed_all(
                        entries@,
                        numbers,
                        from as int,
                        at as int,
                    )
                },
                None => {
                    &&& forall|i: int|
                        from <= i < entries@.len() ==> #[trigger] entries@[i].user_data != NOTIFY
                    &&& super::completion::forwards_all(
                        old(handlers).items(),
                        routed_all(entries@, numbers, from as int, entries@.len() as int),
                        final(handlers).items(),
                    )
                    &&& final(handlers).calls() == old(handlers).calls() + routed_all(
                        entries@,
                        numbers,
                        from as int,
                        entries@.len() as int,
                    )
                },
            },
    {
        let mut at: usize = from;
        proof {
            super::completion::lemma_forwards_none::<usize, H>(handlers.items());
            assert(routed_all(entries@, numbers, from as int, from as int) == Seq::<Completion<usize>>::empty());
        }
        while at < entries.len()
            invariant
                from <= at <= entries@.len(),
                handlers.items().len() == old(handlers).items().len(),
                forall|i: int|
                    from <= i < entries@.len() ==> is_readable(#[trigger] entries@[i]) && routed(
                        entries@[i],
                        numbers,
                    ).reaches(old(handlers).items().len()),
                forall|i: int| from <= i < at ==> #[trigger] entries@[i].user_data != NOTIFY,
                super::completion::forwards_all(
                    old(handlers).items(),
                    routed_all(entries@, numbers, from as int, at as int),
                    handlers.items(),
                ),
                handlers.calls() == old(handlers).calls() + routed_all(
                    entries@,
                    numbers,
                    from as int,
                    at as int,
                ),
            decreases entries@.len() - at,
        {
            let entry: CEntry = entries[at];
            if entry.user_data == NOTIFY {
                return Some(at);
            }
            let completion = route(entry, numbers);
            let ghost mid = handlers.items();
            handlers.forward(completion);
            proof {
                let done = routed_all(entries@, numbers, from as int, at as int);
                super::completion::lemma_forwards_more(
                    old(handlers).items(),
                    done,
                    mid,
                    completion,
                    handlers.items(),
                );
                assert(routed_all(entries@, numbers, from as int, at + 1) == done.push(completion));
            }
            at = at + 1;
        }
        None
    }
}

impl<H> Driver<H> {
    /// Poll the driver and handle completed operations.
    ///
    /// Polling starts with [`Stage::Completions`] and ends with [`Stage::Done`] or
    /// [`Stage::Failed`].
    pub fn poll<T>(&self, stage: Stage<T>, event: StageEvent<T>) -> (r: Stage<T>)
        requires
            answers(event, stage),
        ensures
            r == next_stage(stage, event, self.numbers),
    {
        match (stage, event) {
            (Stage::Completions, _) => Stage::Run,
            (Stage::Run, StageEvent::Ran(result)) => match result {
                PollResult::Pending => Stage::Apply { more_tasks: false },
                PollResult::HasTasks => Stage::Apply { more_tasks: true },
                PollResult::Ready(value) => Stage::Done(value),
            },
            (Stage::Apply { more_tasks }, StageEvent::Applied { more_changes }) => Stage::Sync {
                wait: !(more_changes || more_tasks),
            },
            (Stage::Sync { wait }, _) => Stage::Submit { wait },
            (Stage::Submit { .. }, StageEvent::Submitted(result)) => match result {
                Ok(_) => Stage::Completions,
                Err(error) => match error {
                    Some(errno) => if errno == self.numbers.timer_expired || errno
                        == self.numbers.busy || errno == self.numbers.again || errno
                        == self.numbers.interrupted {
                        Stage::Completions
                    } else {
                        Stage::Failed
                    },
                    None => Stage::Failed,
                },
            },
            (stage, _) => stage,
        }
    }
}

/// The entry by which the ring watches the wake-up channel `fd`.
pub fn notify_entry(fd: i32) -> (r: Entry)
    ensures
        r == super::entry::entry_with_key(super::entry::poll_request(fd, POLLIN, true), NOTIFY),
        super::entry::entry_key(r) == NOTIFY,
{
    build_poll(fd, POLLIN, true).user_data(NOTIFY)
}

/// What a read of the wake-up channel came to.
pub enum Cleared {
    /// The channel is clear, or will be the next time.
    Done,
    /// The read was interrupted and is to be made again.
    Again,
    /// The read failed with this error number.
    Failed(i32),
}

/// What a read of the wake-up channel that returned `res` and left `errno`
/// behind came to.
pub open spec fn cleared(res: isize, errno: i32, numbers: Numbers) -> Cleared {
    if res != -1 || numbers.blocks(errno) {
        Cleared::Done
    } else if errno == numbers.interrupted {
        Cleared::Again
    } else {
        Cleared::Failed(errno)
    }
}

/// What a read of the wake-up channel that returned `res` and left `errno`
/// behind came to.
pub fn clear(res: isize, errno: i32, numbers: Numbers) -> (r: Cleared)
    ensures
        r == cleared(res, errno, numbers),
        r == (if res != -1 || numbers.blocks(errno) {
            Cleared::Done
        } else if errno == numbers.interrupted {
            Cleared::Again
        } else {
            Cleared::Failed(errno)
        }),
{
    match syscall(res, errno) {
        Ok(_) => Cleared::Done,
        Err(e) => {
            if e == numbers.again || e == numbers.would_block {
                Cleared::Done
            } else if e == numbers.interrupted {
                Cleared::Again
            } else {
                Cleared::Failed(e)
            }
        },
    }
}

/// Whether a write to the wake-up channel that returned `res` and left `errno`
/// behind notified the driver.
pub fn notify(res: isize, errno: i32) -> (r: Result<(), i32>)
    ensures
        res != -1 ==> r is Ok,
        res == -1 ==> r == Err::<(), i32>(errno),
{
    match syscall(res, errno) {
        Ok(_) => Ok(()),
        Err(e) => Err(e),
    }
}

/// Something that happens to the submission queue.
pub enum RingOp {
    /// An entry is submitted, and the ring is full or is not.
    Submit { entry: Entry, full: bool },
    /// The waiting entries are applied to a ring with some room.
    Apply { room: nat },
}

/// The entries that reached the ring so far, and those that wait.
pub struct RingTrace {
    pub sent: Seq<Entry>,
    pub waiting: Seq<Entry>,
}

/// Where the entries are after `ops`.
pub open spec fn replay(ops: Seq<RingOp>) -> RingTrace
    decreases ops.len(),
{
    if ops.len() == 0 {
        RingTrace { sent: Seq::empty(), waiting: Seq::empty() }
    } else {
        let before = replay(ops.drop_last());
        match ops.last() {
            RingOp::Submit { entry, full } => match submitted(before.waiting, full, entry) {
                (Some(direct), waiting) => RingTrace { sent: before.sent.push(direct), waiting },
                (None, waiting) => RingTrace { sent: before.sent, waiting },
            },
            RingOp::Apply { room } => RingTrace {
                sent: before.sent + applied(before.waiting, room).0,
                waiting: applied(before.waiting, room).1,
            },
        }
    }
}

/// The entries submitted by `ops`, in order.
pub open spec fn requests(ops: Seq<RingOp>) -> Seq<Entry>
    decreases ops.len(),
{
    if ops.len() == 0 {
        Seq::empty()
    } else {
        match ops.last() {
            RingOp::Submit { entry, .. } => requests(ops.drop_last()).push(entry),
            RingOp::Apply { .. } => requests(ops.drop_last()),
        }
    }
}

/// Entries reach the ring in the order in which they were submitted, each of them
/// once, and those that did not yet reach it wait in that order: none is lost.
pub proof fn law_entries_keep_their_order(ops: Seq<RingOp>)
    ensures
        replay(ops).sent + replay(ops).waiting == requests(ops),
    decreases ops.len(),
{
    if ops.len() > 0 {
        let before = replay(ops.drop_last());
        law_entries_keep_their_order(ops.drop_last());
        match ops.last() {
            RingOp::Submit { entry, full } => {
                if before.waiting.len() > 0 || full {
                    assert(before.sent + before.waiting.push(entry) =~= (before.sent
                        + before.waiting).push(entry));
                } else {
                    assert(before.sent.push(entry) + before.waiting =~= (before.sent
                        + before.waiting).push(entry));
                }
            },
            RingOp::Apply { room } => {
                let (sent, waiting) = applied(before.waiting, room);
                assert(sent + waiting =~= before.waiting);
                assert((before.sent + sent) + waiting =~= before.sent + (sent + waiting));
            },
        }
    }
}

/// The ring that the search for a setup ends with, when the kernel takes each setup or
/// refuses it.
pub open spec fn searched(defer: bool, single: bool, plain: bool) -> Creation {
    let first = next_creation(Creation::Ring(RingSetup::DeferTaskrun), defer);
    let second = if defer {
        first
    } else {
        next_creation(first, single)
    };
    if defer || single {
        second
    } else {
        next_creation(second, plain)
    }
}

/// A driver is created with the first setup that the kernel takes. The creation fails
/// if and only if the kernel refuses all setups, or the probe or the wake-up channel
/// fails; and the step that it fails with is the last setup, the probe or the channel,
/// so that the refusals of the other setups are never the error.
pub proof fn law_creation_fails_with_its_last_step(
    defer: bool,
    single: bool,
    plain: bool,
    probe: bool,
    channel: bool,
)
    ensures
        ({
            let ring = searched(defer, single, plain);
            let setup = if defer {
                RingSetup::DeferTaskrun
            } else if single {
                RingSetup::SingleIssuer
            } else {
                RingSetup::Plain
            };
            let probed = next_creation(ring, probe);
            let channeled = next_creation(probed, channel);
            &&& ring == if defer || single || plain {
                Creation::Support(setup)
            } else {
                Creation::Failed
            }
            &&& channeled is Failed <==> (!defer && !single && !plain) || !probe || !channel
            &&& channeled !is Failed ==> channeled == Creation::Ready(setup)
        }),
        forall|creation: Creation, success: bool|
            creation !is Failed && (#[trigger] next_creation(creation, success)) is Failed ==> {
                &&& !success
                &&& creation == Creation::Ring(RingSetup::Plain) || creation is Support
                    || creation is Channel
            },
{
}

/// No more entries reach the ring than it has room for, and as many as it has room
/// for, unless none is left to wait.
pub proof fn law_ring_is_filled(waiting: Seq<Entry>, room: nat)
    ensures
        applied(waiting, room).0.len() <= room,
        applied(waiting, room).0.len() == room || applied(waiting, room).1.len() == 0,
        applied(waiting, room).0 + applied(waiting, room).1 == waiting,
{
    assert(applied(waiting, room).0 + applied(waiting, room).1 =~= waiting);
}

/// No entry overtakes the waiting ones: an entry goes to the ring directly if and only
/// if none waits and the ring has room; else it waits behind all others.
pub proof fn law_no_entry_overtakes(waiting: Seq<Entry>, full: bool, entry: Entry)
    ensures
        submitted(waiting, full, entry).0 is Some <==> waiting.len() == 0 && !full,
        submitted(waiting, full, entry).0 matches Some(direct) ==> direct == entry && submitted(
            waiting,
            full,
            entry,
        ).1 == waiting,
        submitted(waiting, full, entry).0 is None ==> submitted(waiting, full, entry).1
            == waiting.push(entry),
{
}

/// A completion of operation `id` goes to the handler that submitted it, under
/// that id, and as a cancellation if and only if the kernel says so.
pub proof fn law_completion_returns_to_its_handler(
    hid: u64,
    id: u32,
    result: i32,
    flags: u32,
    numbers: Numbers,
)
    requires
        hid < super::key::batches(),
    ensures
        ({
            let user_data = super::key::op_key(super::key::batch_key(hid), id);
            let completion = routed(CEntry { user_data, result, flags }, numbers);
            if result == -numbers.canceled {
                completion == Completion::<usize>::Canceled { batch: hid as usize, id: id as usize }
            } else {
                completion == Completion::<usize>::Completed {
                    batch: hid as usize,
                    id: id as usize,
                    flags,
                    result: if result < 0 {
                        Err((-result) as i32)
                    } else {
                        Ok(result as usize)
                    },
                }
            }
        }),
{
    super::key::law_key_leads_back(hid, id);
    super::key::law_keys_are_not_reserved(hid, id);
}

/// The answer to a cancel request reaches no handler, and neither does the
/// wake-up channel.
pub proof fn law_reserved_keys_reach_no_handler(result: i32, flags: u32, numbers: Numbers)
    ensures
        routed(CEntry { user_data: CANCEL, result, flags }, numbers) is Acknowledged,
        routed(CEntry { user_data: NOTIFY, result, flags }, numbers) is Notified,
{
}

/// Stopping at an entry of the wake-up channel and going on behind it forwards every
/// completion once and in order, as if there had been no stop.
pub proof fn law_stop_skips_no_completion<H: Handler<usize>>(
    entries: Seq<CEntry>,
    numbers: Numbers,
    from: int,
    at: int,
    to: int,
    before: Seq<H>,
    mid: Seq<H>,
    after: Seq<H>,
)
    requires
        0 <= from <= at < to <= entries.len(),
        entries[at].user_data == NOTIFY,
        super::completion::forwards_all(before, routed_all(entries, numbers, from, at), mid),
        super::completion::forwards_all(mid, routed_all(entries, numbers, at + 1, to), after),
    ensures
        super::completion::forwards_all(before, routed_all(entries, numbers, from, to), after),
        routed_all(entries, numbers, from, at).push(Completion::<usize>::Notified) + routed_all(
            entries,
            numbers,
            at + 1,
            to,
        ) == routed_all(entries, numbers, from, to),
{
    let first = routed_all(entries, numbers, from, at);
    let stop = routed(entries[at], numbers);
    let second = routed_all(entries, numbers, at + 1, to);
    super::completion::lemma_forwards_more(before, first, mid, stop, mid);
    super::completion::lemma_forwards_join(before, first.push(stop), mid, second, after);
    assert(first.push(stop) + second =~= routed_all(entries, numbers, from, to));
}

/// After a turn of the scheduler that leaves nothing to return, the driver blocks
/// in the submission if and only if no task is queued and no entry waits.
pub proof fn law_blocks_only_when_idle<T>(
    result: PollResult<T>,
    more_changes: bool,
    numbers: Numbers,
)
    requires
        result !is Ready,
    ensures
        ({
            let apply = next_stage(Stage::Run, StageEvent::Ran(result), numbers);
            let sync = next_stage(apply, StageEvent::Applied { more_changes }, numbers);
            let submit = next_stage(sync, StageEvent::Synced, numbers);
            submit == Stage::<T>::Submit { wait: result is Pending && !more_changes }
        }),
{
}

/// Every submission directly follows a sync, and every sync directly follows the
/// application of the waiting entries.
pub proof fn law_submits_in_sync<T>(
    stage: Stage<T>,
    event: StageEvent<T>,
    numbers: Numbers,
)
    requires
        answers(event, stage),
    ensures
        next_stage(stage, event, numbers) is Submit ==> stage is Sync,
        next_stage(stage, event, numbers) is Sync ==> stage is Apply,
{
}

/// Polling ends with a value only when the scheduler has it, and with an error
/// only when a submission fails for good.
pub proof fn law_polling_ends<T>(
    stage: Stage<T>,
    event: StageEvent<T>,
    numbers: Numbers,
)
    requires
        answers(event, stage),
    ensures
        next_stage(stage, event, numbers) is Done <==> stage is Run && event matches StageEvent::Ran(
            PollResult::Ready(_),
        ),
        next_stage(stage, event, numbers) is Failed <==> stage is Submit && (event
            matches StageEvent::Submitted(Err(error)) && !is_transient(error, numbers)),
{
}

/// What an entry means is read from its key and its result: the upper 16 bits of the key
/// are the number of the handler and the others its id, and the operation is canceled
/// if and only if the result says so. The two greatest keys are for no handler.
pub proof fn law_entry_is_read_in_full(entry: CEntry, numbers: Numbers)
    ensures
        ({
            let batch = (entry.user_data / 0x1_0000_0000_0000u64) as usize;
            let id = (entry.user_data % 0x1_0000_0000_0000u64) as usize;
            let meaning = routed(entry, numbers);
            &&& entry.user_data == u64::MAX <==> meaning is Notified
            &&& entry.user_data == u64::MAX - 1 <==> meaning is Acknowledged
            &&& meaning is Canceled <==> entry.user_data < u64::MAX - 1 && entry.result
                + numbers.canceled == 0
            &&& meaning matches Completion::Canceled { batch: b, id: i } ==> b == batch && i == id
            &&& meaning matches Completion::Completed { batch: b, id: i, flags, result } ==> {
                &&& b == batch
                &&& i == id
                &&& flags == entry.flags
                &&& result is Ok <==> entry.result >= 0
                &&& result matches Ok(value) ==> value == entry.result
                &&& result matches Err(error) ==> entry.result > i32::MIN ==> error == -entry.result
            }
        }),
{
}

/// Entries keep their order when they are read: the meaning at each place is that of the
/// entry at that place.
pub proof fn law_entries_are_read_in_order(
    entries: Seq<CEntry>,
    numbers: Numbers,
    from: int,
    to: int,
    i: int,
)
    requires
        0 <= from <= to <= entries.len(),
        0 <= i < to - from,
    ensures
        routed_all(entries, numbers, from, to).len() == to - from,
        routed_all(entries, numbers, from, to)[i] == routed(entries[from + i], numbers),
{
}

/// Each stage has its predecessor. A turn of the scheduler is run only directly after
/// the completions were forwarded, and after every submission that does not end the
/// polling, whatever it submitted, the completions are forwarded; the waiting entries
/// are applied directly after a turn, and the ring is synced directly after that.
pub proof fn law_each_stage_has_its_predecessor<T>(
    stage: Stage<T>,
    event: StageEvent<T>,
    numbers: Numbers,
)
    requires
        answers(event, stage),
    ensures
        ({
            let next = next_stage(stage, event, numbers);
            &&& next is Run <==> stage is Completions
            &&& next is Apply <==> stage is Run && !(event matches StageEvent::Ran(
                PollResult::Ready(_),
            ))
            &&& next is Sync <==> stage is Apply
            &&& next is Submit <==> stage is Sync
            &&& next is Completions || next is Failed <==> stage is Submit
            &&& next is Done <==> (event matches StageEvent::Ran(PollResult::Ready(_)))
        }),
{
}

/// A submission ends the polling if and only if it fails with an error that has no number
/// or one other than those of an expired timer, a busy or exhausted resource and an
/// interruption.
pub proof fn law_lasting_errors_end_the_polling<T>(
    wait: bool,
    result: Result<usize, Option<i32>>,
    numbers: Numbers,
)
    ensures
        ({
            let next = next_stage(
                Stage::<T>::Submit { wait },
                StageEvent::Submitted(result),
                numbers,
            );
            &&& result is Ok ==> next is Completions
            &&& result == Err::<usize, Option<i32>>(None) ==> next is Failed
            &&& result matches Err(Some(errno)) ==> (next is Completions <==> {
                ||| errno == numbers.timer_expired
                ||| errno == numbers.busy
                ||| errno == numbers.again
                ||| errno == numbers.interrupted
            })
            &&& next is Completions || next is Failed
        }),
{
}

/// The value that the polling ends with is the one that the scheduler has, and the
/// driver blocks in a submission if and only if the turn before it left no task and the
/// application of the entries left none.
pub proof fn law_outcomes_are_handed_on<T>(
    value: T,
    result: PollResult<T>,
    more_tasks: bool,
    more_changes: bool,
    wait: bool,
    numbers: Numbers,
)
    ensures
        next_stage(Stage::Run, StageEvent::Ran(PollResult::Ready(value)), numbers) == Stage::Done(
            value,
        ),
        next_stage(Stage::Run, StageEvent::Ran(result), numbers) matches Stage::Apply {
            more_tasks: tasks,
        } ==> (tasks <==> result is HasTasks),
        next_stage(
            Stage::<T>::Apply { more_tasks },
            StageEvent::Applied { more_changes },
            numbers,
        ) matches Stage::Sync { wait: blocks } && (blocks <==> !(more_tasks || more_changes)),
        next_stage(Stage::<T>::Sync { wait }, StageEvent::Synced, numbers) == (Stage::<T>::Submit {
            wait,
        }),
{
}

/// A read of the wake-up channel is to be made again if and only if it was interrupted,
/// and fails with its error number if and only if it failed for another reason than that
/// it would block.
pub proof fn law_clearing_is_told_by_its_number(res: isize, errno: i32, numbers: Numbers)
    ensures
        ({
            let outcome = cleared(res, errno, numbers);
            let blocks = errno == numbers.again || errno == numbers.would_block;
            &&& outcome is Again <==> res == -1 && !blocks && errno == numbers.interrupted
            &&& outcome is Done <==> res != -1 || blocks
            &&& outcome matches Cleared::Failed(e) ==> e == errno
        }),
{
}

/// Every result but the least one can be read.
pub proof fn law_results_can_be_read(entry: CEntry)
    ensures
        entry.result != i32::MIN ==> is_readable(entry),
        entry.user_data >= u64::MAX - 1 ==> is_readable(entry),
{
}

/// Each stage has outcomes: whatever comes of it is one of them.
pub proof fn law_stages_are_answered<T>(
    more_tasks: bool,
    wait: bool,
    result: PollResult<T>,
    more_changes: bool,
    submitted: Result<usize, Option<i32>>,
)
    ensures
        answers(StageEvent::Completed, Stage::<T>::Completions),
        answers(StageEvent::Ran(result), Stage::Run),
        answers(StageEvent::Applied { more_changes }, Stage::<T>::Apply { more_tasks }),
        answers(StageEvent::Synced, Stage::<T>::Sync { wait }),
        answers(StageEvent::Submitted(submitted), Stage::<T>::Submit { wait }),
{
}

} // verus!
