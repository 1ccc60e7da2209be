use std::cell::RefCell;
use std::rc::Rc;

use neon::driver::completion::{CEntry, Completion};
use neon::driver::errno::Numbers;
use neon::driver::handlers::Handlers;
use neon::driver::iour::{
    notify_entry, route, Creation, Driver, DriverApi, DriverInner, Handler, RingSetup, Stage,
    StageEvent,
};
use neon::driver::key::{encode, encode_batch, CANCEL, NOTIFY};
use neon::driver::{DriverType, PollResult};
use ntex_io_uring::opcode::{AsyncCancel, Nop, PollAdd};
use ntex_io_uring::squeue::Entry;
use ntex_io_uring::Probe;

#[derive(Debug, PartialEq)]
enum Call {
    Completed(usize, u32, Result<usize, i32>),
    Canceled(usize),
}

#[derive(Default)]
struct Log {
    calls: Vec<Call>,
}

impl Handler<usize> for Log {
    fn completed(&mut self, id: usize, flags: u32, result: Result<usize, i32>) {
        self.calls.push(Call::Completed(id, flags, result));
    }

    fn canceled(&mut self, id: usize) {
        self.calls.push(Call::Canceled(id));
    }
}

fn numbers() -> Numbers {
    Numbers {
        again: libc::EAGAIN,
        would_block: libc::EWOULDBLOCK,
        in_progress: libc::EINPROGRESS,
        interrupted: libc::EINTR,
        busy: libc::EBUSY,
        timer_expired: libc::ETIME,
        canceled: libc::ECANCELED,
    }
}

fn driver() -> (Driver<Log>, DriverInner) {
    Driver::new(RingSetup::DeferTaskrun, Probe::new(), numbers())
}

fn register(driver: &mut Driver<Log>) -> DriverApi {
    let mut slot: Option<DriverApi> = None;
    driver.register(|api| {
        slot = Some(api);
        Log::default()
    });
    slot.unwrap()
}

fn nop() -> Entry {
    Nop::new().build()
}

#[test]
fn ring_setups_fall_back() {
    let first = RingSetup::first();
    assert!(first.coop_taskrun() && first.single_issuer() && first.defer_taskrun());
    assert!(first.is_new());
    let second = first.fallback().unwrap();
    assert!(!second.coop_taskrun() && second.single_issuer() && !second.defer_taskrun());
    assert!(!second.is_new());
    let third = second.fallback().unwrap();
    assert!(!third.coop_taskrun() && !third.single_issuer() && !third.defer_taskrun());
    assert!(!third.is_new());
    assert_eq!(third.fallback(), None);
}

#[test]
fn new_driver_is_empty() {
    let (mut driver, mut inner) = driver();
    assert_eq!(driver.tp(), DriverType::IoUring);
    let api = register(&mut driver);
    assert!(api.is_new(&inner));
    let (pushed, more) = inner.apply_changes(8, 0);
    assert!(pushed.is_empty() && !more);

    let (mut old, inner): (Driver<Log>, DriverInner) =
        Driver::new(RingSetup::Plain, Probe::new(), numbers());
    let api = register(&mut old);
    assert!(!api.is_new(&inner));
}

#[test]
fn empty_probe_supports_nothing() {
    let (mut driver, inner) = driver();
    let api = register(&mut driver);
    assert!(!api.is_supported(&inner, Nop::CODE));
    assert!(!api.is_supported(&inner, PollAdd::CODE));
    assert!(!api.is_supported(&inner, 255));
}

#[test]
fn requests_carry_their_keys() {
    let (mut driver, mut inner) = driver();
    let first = register(&mut driver);
    let second = register(&mut driver);
    let entry = first.submit(&mut inner, false, 9, nop()).unwrap();
    assert_eq!(entry.get_user_data(), 9);
    assert_eq!(entry.get_opcode(), Nop::CODE as u32);
    let entry = second.submit_inline(&mut inner, false, 9, nop()).unwrap();
    assert_eq!(entry.get_user_data(), encode(encode_batch(1), 9));
    assert_eq!(entry.get_opcode(), Nop::CODE as u32);
}

#[test]
fn cancel_requests_carry_the_reserved_key() {
    let (mut driver, mut inner) = driver();
    let api = register(&mut driver);
    let entry = api.cancel(&mut inner, false, 9).unwrap();
    assert_eq!(entry.get_user_data(), CANCEL);
    assert_eq!(entry.get_opcode(), AsyncCancel::CODE as u32);
}

#[test]
fn wake_up_channel_is_watched() {
    let entry = notify_entry(5);
    assert_eq!(entry.get_user_data(), NOTIFY);
    assert_eq!(entry.get_opcode(), PollAdd::CODE as u32);
}

#[test]
fn entries_wait_for_a_full_ring() {
    let (mut driver, mut inner) = driver();
    let api = register(&mut driver);
    assert!(api.submit(&mut inner, true, 1, nop()).is_none());
    // the ring has room again, but no entry overtakes the waiting one
    assert!(api.submit(&mut inner, false, 2, nop()).is_none());
    assert!(api.cancel(&mut inner, false, 1).is_none());

    let (pushed, more) = inner.apply_changes(4, 2);
    let keys: Vec<u64> = pushed.iter().map(|entry| entry.get_user_data()).collect();
    assert_eq!(keys, vec![1, 2]);
    assert!(more);

    let (pushed, more) = inner.apply_changes(4, 4);
    assert!(pushed.is_empty());
    assert!(more);

    let (pushed, more) = inner.apply_changes(4, 0);
    let keys: Vec<u64> = pushed.iter().map(|entry| entry.get_user_data()).collect();
    assert_eq!(keys, vec![CANCEL]);
    assert!(!more);

    assert!(api.submit(&mut inner, false, 3, nop()).is_some());
}

#[test]
fn no_request_is_lost() {
    let (mut driver, mut inner) = driver();
    let api = register(&mut driver);
    let mut sent: Vec<u64> = Vec::new();
    let mut next: u32 = 0;
    // the backlog grows and shrinks, so that its memory wraps around
    for room in [0usize, 10, 3, 64, 1, 17, 5, 64, 30, 64, 64] {
        for _ in 0..20 {
            assert!(api.submit(&mut inner, true, next, nop()).is_none());
            next += 1;
        }
        let waiting = next as usize - sent.len();
        let (pushed, more) = inner.apply_changes(64, 64 - room);
        assert_eq!(pushed.len(), waiting.min(room));
        assert_eq!(more, waiting > room);
        sent.extend(pushed.iter().map(|entry| entry.get_user_data()));
        assert_eq!(sent, (0..sent.len() as u64).collect::<Vec<u64>>());
    }
    let (pushed, more) = inner.apply_changes(1024, 0);
    sent.extend(pushed.iter().map(|entry| entry.get_user_data()));
    assert!(!more);
    assert_eq!(sent, (0..next as u64).collect::<Vec<u64>>());
}

#[test]
fn wrapped_queue_sends_its_oldest_entries() {
    let (mut driver, mut inner) = driver();
    let api = register(&mut driver);
    for id in 0..20 {
        assert!(api.submit(&mut inner, true, id, nop()).is_none());
    }
    let (pushed, more) = inner.apply_changes(16, 6);
    assert_eq!(pushed.len(), 10);
    assert!(more);
    for id in 20..40 {
        assert!(api.submit(&mut inner, false, id, nop()).is_none());
    }
    let (pushed, more) = inner.apply_changes(64, 0);
    let keys: Vec<u64> = pushed.iter().map(|entry| entry.get_user_data()).collect();
    assert_eq!(keys, (10..40).collect::<Vec<u64>>());
    assert!(!more);
}

#[test]
fn completions_are_routed() {
    let key = encode(encode_batch(2), 7);
    let entry = |user_data, result| CEntry { user_data, result, flags: 3 };
    assert!(matches!(route(entry(CANCEL, -2), numbers()), Completion::Acknowledged));
    assert!(matches!(route(entry(CANCEL, i32::MIN), numbers()), Completion::Acknowledged));
    assert!(matches!(route(entry(NOTIFY, 1), numbers()), Completion::Notified));
    assert!(matches!(route(entry(NOTIFY, i32::MIN), numbers()), Completion::Notified));
    assert!(matches!(
        route(entry(key, -libc::ECANCELED), numbers()),
        Completion::Canceled { batch: 2, id: 7 }
    ));
    assert!(matches!(
        route(entry(key, -5), numbers()),
        Completion::Completed { batch: 2, id: 7, flags: 3, result: Err(5) }
    ));
    assert!(matches!(
        route(entry(key, 0), numbers()),
        Completion::Completed { batch: 2, id: 7, flags: 3, result: Ok(0) }
    ));
    assert!(matches!(
        route(entry(key, 4096), numbers()),
        Completion::Completed { batch: 2, id: 7, flags: 3, result: Ok(4096) }
    ));
    // a system on which another number stands for a canceled operation
    let other = Numbers { canceled: 158, ..numbers() };
    assert!(matches!(
        route(entry(key, -158), other),
        Completion::Canceled { batch: 2, id: 7 }
    ));
    assert!(matches!(
        route(entry(key, -libc::ECANCELED), other),
        Completion::Completed { batch: 2, id: 7, flags: 3, result: Err(libc::ECANCELED) }
    ));
}

#[test]
fn completions_reach_their_handlers() {
    let (mut driver, _inner) = driver();
    register(&mut driver);
    register(&mut driver);
    let mut handlers = Handlers::new(driver.registry.take());
    assert_eq!(handlers.len(), 2);
    let entries = vec![
        CEntry { user_data: encode(encode_batch(1), 4), result: 10, flags: 1 },
        CEntry { user_data: CANCEL, result: 0, flags: 0 },
        CEntry { user_data: NOTIFY, result: 1, flags: 2 },
        CEntry { user_data: encode(encode_batch(0), 5), result: -libc::ECANCELED, flags: 0 },
        CEntry { user_data: encode(encode_batch(1), 6), result: -9, flags: 0 },
    ];
    let at = Driver::poll_completions(&mut handlers, &entries, 0, numbers());
    assert_eq!(at, Some(2));
    let at = Driver::poll_completions(&mut handlers, &entries, 3, numbers());
    assert_eq!(at, None);
    assert_eq!(Driver::poll_completions(&mut handlers, &entries, 5, numbers()), None);
    let handlers = handlers.into_inner();
    assert_eq!(handlers[0].calls, vec![Call::Canceled(5)]);
    assert_eq!(
        handlers[1].calls,
        vec![Call::Completed(4, 1, Ok(10)), Call::Completed(6, 0, Err(9))]
    );
    driver.registry.set(handlers);
    assert_eq!(driver.registry.take().len(), 2);
}

struct Shared {
    number: usize,
    calls: Rc<RefCell<Vec<(usize, Call)>>>,
}

impl Handler<usize> for Shared {
    fn completed(&mut self, id: usize, flags: u32, result: Result<usize, i32>) {
        let call = Call::Completed(id, flags, result);
        self.calls.borrow_mut().push((self.number, call));
    }

    fn canceled(&mut self, id: usize) {
        self.calls.borrow_mut().push((self.number, Call::Canceled(id)));
    }
}

#[test]
fn completions_are_forwarded_in_order() {
    let calls: Rc<RefCell<Vec<(usize, Call)>>> = Rc::default();
    let mut handlers = Handlers::new(vec![
        Shared { number: 0, calls: calls.clone() },
        Shared { number: 1, calls: calls.clone() },
    ]);
    let entries = vec![
        CEntry { user_data: 0x0001_0000_0000_0007, result: 5, flags: 0 },
        CEntry { user_data: 3, result: -11, flags: 2 },
        CEntry { user_data: 4, result: -libc::ECANCELED, flags: 0 },
    ];
    let at = Driver::poll_completions(&mut handlers, &entries, 0, numbers());
    assert_eq!(at, None);
    assert_eq!(
        *calls.borrow(),
        vec![
            (1, Call::Completed(7, 0, Ok(5))),
            (0, Call::Completed(3, 2, Err(11))),
            (0, Call::Canceled(4)),
        ]
    );
}

#[test]
fn one_completion_is_forwarded() {
    let mut handlers = Handlers::new(vec![Log::default(), Log::default()]);
    handlers.forward(Completion::<usize>::Canceled { batch: 1, id: 3 });
    handlers.forward(Completion::<usize>::Acknowledged);
    let handlers = handlers.into_inner();
    assert!(handlers[0].calls.is_empty());
    assert_eq!(handlers[1].calls, vec![Call::Canceled(3)]);
}

#[test]
fn creation_fails_with_its_last_step() {
    let first = Creation::first();
    assert_eq!(first, Creation::Ring(RingSetup::DeferTaskrun));
    assert_eq!(first.step(true), Creation::Support(RingSetup::DeferTaskrun));
    let second = first.step(false);
    assert_eq!(second, Creation::Ring(RingSetup::SingleIssuer));
    assert_eq!(second.step(true), Creation::Support(RingSetup::SingleIssuer));
    let third = second.step(false);
    assert_eq!(third, Creation::Ring(RingSetup::Plain));
    assert_eq!(third.step(false), Creation::Failed);
    let support = third.step(true);
    assert_eq!(support, Creation::Support(RingSetup::Plain));
    assert_eq!(support.step(false), Creation::Failed);
    let channel = support.step(true);
    assert_eq!(channel, Creation::Channel(RingSetup::Plain));
    assert_eq!(channel.step(false), Creation::Failed);
    assert_eq!(channel.step(true), Creation::Ready(RingSetup::Plain));
}

#[test]
fn registry_without_its_handlers_starts_anew() {
    let (mut driver, _inner) = driver();
    register(&mut driver);
    register(&mut driver);
    assert_eq!(driver.registry.next(), 2);
    assert!(driver.registry.is_ready());
    let taken = driver.registry.take();
    assert_eq!(taken.len(), 2);
    assert!(!driver.registry.is_ready());
    register(&mut driver);
    assert_eq!(driver.registry.next(), 3);
    assert_eq!(driver.registry.take().len(), 1);
}

#[test]
fn registration_keeps_the_handlers() {
    let (mut driver, _inner) = driver();
    register(&mut driver);
    let (registration, _api) = driver.open();
    assert!(!driver.registry.is_ready());
    assert_eq!(driver.registry.next(), 1);
    driver.registry.close(registration, Log::default());
    assert_eq!(driver.registry.next(), 2);
    assert_eq!(driver.registry.take().len(), 2);
}

#[test]
fn ring_blocks_only_when_idle() {
    let (driver, _inner) = driver();
    for (pending, more_changes, wait) in [
        (true, false, true),
        (true, true, false),
        (false, false, false),
        (false, true, false),
    ] {
        let stage: Stage<u8> = driver.poll(Stage::Completions, StageEvent::Completed);
        assert!(matches!(stage, Stage::Run));
        let result = if pending { PollResult::Pending } else { PollResult::HasTasks };
        let stage = driver.poll(stage, StageEvent::Ran(result));
        assert!(matches!(stage, Stage::Apply { .. }));
        let stage = driver.poll(stage, StageEvent::Applied { more_changes });
        assert!(matches!(stage, Stage::Sync { .. }));
        let stage = driver.poll(stage, StageEvent::Synced);
        match &stage {
            Stage::Submit { wait: blocks } => assert_eq!(*blocks, wait),
            _ => panic!("a submission is due"),
        }
        let stage = driver.poll(stage, StageEvent::Submitted(Ok(1)));
        assert!(matches!(stage, Stage::Completions));
    }
}

#[test]
fn ring_returns_the_value() {
    let (driver, _inner) = driver();
    let stage = driver.poll(Stage::Run, StageEvent::Ran(PollResult::Ready(42)));
    assert!(matches!(stage, Stage::Done(42)));
}

#[test]
fn ring_survives_transient_errors() {
    let (driver, _inner) = driver();
    for errno in [libc::ETIME, libc::EBUSY, libc::EAGAIN, libc::EINTR] {
        let stage: Stage<u8> = driver.poll(
            Stage::Submit { wait: true },
            StageEvent::Submitted(Err(Some(errno))),
        );
        assert!(matches!(stage, Stage::Completions));
    }
    for error in [Some(libc::EINVAL), None] {
        let stage: Stage<u8> =
            driver.poll(Stage::Submit { wait: false }, StageEvent::Submitted(Err(error)));
        assert!(matches!(stage, Stage::Failed));
    }
}
