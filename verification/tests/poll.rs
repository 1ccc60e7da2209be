use std::cell::RefCell;
use std::rc::Rc;

use neon::driver::handlers::Handlers;
use neon::driver::key::{encode, encode_batch};
use neon::driver::poll::op::{close_socket, create_socket, Interest};
use neon::driver::poll::{
    apply_change, forward_events, Change, Changes, Driver, DriverApi, Handler, Stage, StageEvent,
};
use neon::driver::socket::{RawResult, SocketError};
use neon::driver::{DriverType, PollResult};
use ntex_polling::Event;

#[derive(Debug, PartialEq)]
enum Call {
    Event(usize, Event),
    Error(usize, &'static str),
}

#[derive(Default)]
struct Log {
    calls: Vec<Call>,
}

impl Handler<&'static str> for Log {
    fn event(&mut self, id: usize, event: Event) {
        self.calls.push(Call::Event(id, event));
    }

    fn error(&mut self, id: usize, err: &'static str) {
        self.calls.push(Call::Error(id, err));
    }
}

fn register(driver: &mut Driver<Log>) -> DriverApi {
    let mut slot: Option<DriverApi> = None;
    driver.register(|api| {
        slot = Some(api);
        Log::default()
    });
    slot.unwrap()
}

#[test]
fn poll_driver_knows_its_capacity() {
    let driver: Driver<Log> = Driver::new(0);
    assert_eq!(driver.tp(), DriverType::Poll);
    assert_eq!(driver.events_capacity(), None);
    let driver: Driver<Log> = Driver::new(1024);
    assert_eq!(driver.events_capacity(), Some(1024));
}

#[test]
fn events_carry_their_keys() {
    let mut driver: Driver<Log> = Driver::new(16);
    let first = register(&mut driver);
    let second = register(&mut driver);
    let event = first.attach(7, Event::readable(99));
    assert_eq!(event.key, 7);
    assert!(event.readable && !event.writable);
    let event = second.modify(7, Event::writable(99).with_interrupt());
    assert_eq!(event.key as u64, encode(encode_batch(1), 7));
    assert!(!event.readable && event.writable);
    assert!(event.is_interrupt());
}

#[test]
fn events_reach_their_handlers() {
    let mut driver: Driver<Log> = Driver::new(16);
    let first = register(&mut driver);
    let second = register(&mut driver);
    let mut handlers = Handlers::new(driver.registry.take());
    let events = vec![
        second.attach(5, Event::readable(0)),
        first.attach(6, Event::all(0)),
        second.attach(7, Event::writable(0)),
    ];
    forward_events(&mut handlers, &events);
    let handlers = handlers.into_inner();
    assert_eq!(handlers[0].calls, vec![Call::Event(6, events[1])]);
    assert_eq!(
        handlers[1].calls,
        vec![Call::Event(5, events[0]), Call::Event(7, events[2])]
    );
}

struct Shared {
    number: usize,
    calls: Rc<RefCell<Vec<(usize, Call)>>>,
}

impl Handler<&'static str> for Shared {
    fn event(&mut self, id: usize, event: Event) {
        self.calls.borrow_mut().push((self.number, Call::Event(id, event)));
    }

    fn error(&mut self, id: usize, err: &'static str) {
        self.calls.borrow_mut().push((self.number, Call::Error(id, err)));
    }
}

#[test]
fn events_are_forwarded_in_order() {
    let calls: Rc<RefCell<Vec<(usize, Call)>>> = Rc::default();
    let mut handlers = Handlers::new(vec![
        Shared { number: 0, calls: calls.clone() },
        Shared { number: 1, calls: calls.clone() },
    ]);
    let key = |hid: u64, id: u32| encode(encode_batch(hid), id) as usize;
    let events = vec![
        Event::readable(key(1, 5)),
        Event::writable(key(0, 6)),
        Event::all(key(1, 7)),
    ];
    forward_events(&mut handlers, &events);
    assert_eq!(
        *calls.borrow(),
        vec![
            (1, Call::Event(5, events[0])),
            (0, Call::Event(6, events[1])),
            (1, Call::Event(7, events[2])),
        ]
    );
}

#[test]
fn failures_are_reported_to_their_handlers() {
    let mut driver: Driver<Log> = Driver::new(16);
    let first = register(&mut driver);
    let second = register(&mut driver);
    let mut changes: Changes<&'static str, u8> = Changes::new();
    assert!(changes.is_empty());
    second.finish(&mut changes, 3, Ok(()));
    second.detach(&mut changes, 3, Ok(()));
    assert!(changes.is_empty());
    second.finish(&mut changes, 3, Err("attach"));
    changes.spawn_blocking(42);
    first.detach(&mut changes, 4, Err("detach"));
    assert!(!changes.is_empty());

    let mut handlers = Handlers::new(driver.registry.take());
    let mut tasks = Vec::new();
    while let Some(change) = changes.pop() {
        tasks.push(apply_change(&mut handlers, change));
    }
    assert_eq!(tasks, vec![None, Some(42), None]);
    let handlers = handlers.into_inner();
    assert_eq!(handlers[0].calls, vec![Call::Error(4, "detach")]);
    assert_eq!(handlers[1].calls, vec![Call::Error(3, "attach")]);
    assert!(changes.is_empty());
}

#[test]
fn changes_are_kept_in_order() {
    let mut changes: Changes<&'static str, u8> = Changes::new();
    changes.spawn_blocking(1);
    changes.spawn_blocking(2);
    assert!(matches!(changes.pop(), Some(Change::Blocking(1))));
    assert!(matches!(changes.pop(), Some(Change::Blocking(2))));
    assert!(changes.pop().is_none());
}

#[test]
fn failures_are_reported_before_the_wait() {
    let mut driver: Driver<Log> = Driver::new(16);
    let api = register(&mut driver);
    let mut changes: Changes<&'static str, u8> = Changes::new();
    api.finish(&mut changes, 1, Err("first"));
    let mut handlers = Handlers::new(driver.registry.take());
    let mut stage: Stage<u8> = driver.poll(
        Stage::Run,
        StageEvent::Ran { result: PollResult::Pending, has_changes: !changes.is_empty() },
    );
    let mut late = true;
    while let Stage::Apply { .. } = stage {
        if let Some(change) = changes.pop() {
            apply_change(&mut handlers, change);
        }
        if late {
            // the handler asks for something that fails again
            late = false;
            api.detach(&mut changes, 2, Err("second"));
        }
        stage = driver.poll(stage, StageEvent::Applied { has_changes: !changes.is_empty() });
    }
    assert!(matches!(stage, Stage::Clear { block: true }));
    let handlers = handlers.into_inner();
    assert_eq!(
        handlers[0].calls,
        vec![Call::Error(1, "first"), Call::Error(2, "second")]
    );
}

#[test]
fn poller_blocks_only_when_idle() {
    let driver: Driver<Log> = Driver::new(16);
    for (pending, has_changes) in [(true, false), (true, true), (false, false), (false, true)] {
        let result = if pending { PollResult::Pending } else { PollResult::HasTasks };
        let mut stage: Stage<u8> =
            driver.poll(Stage::Run, StageEvent::Ran { result, has_changes });
        if has_changes {
            assert!(matches!(stage, Stage::Apply { .. }));
            stage = driver.poll(stage, StageEvent::Applied { has_changes: true });
            assert!(matches!(stage, Stage::Apply { .. }));
            stage = driver.poll(stage, StageEvent::Applied { has_changes: false });
        }
        assert!(matches!(stage, Stage::Clear { .. }));
        let stage = driver.poll(stage, StageEvent::Cleared);
        match &stage {
            Stage::Wait { block } => assert_eq!(*block, pending),
            _ => panic!("a wait is due"),
        }
        let stage = driver.poll(stage, StageEvent::Waited { failed: false });
        assert!(matches!(stage, Stage::Forward));
        let stage = driver.poll(stage, StageEvent::Forwarded);
        assert!(matches!(stage, Stage::ApplyForwarded));
        let stage = driver.poll(stage, StageEvent::Applied { has_changes: true });
        assert!(matches!(stage, Stage::ApplyForwarded));
        let stage = driver.poll(stage, StageEvent::Applied { has_changes: false });
        assert!(matches!(stage, Stage::Run));
    }
}

#[test]
fn poller_ends() {
    let driver: Driver<Log> = Driver::new(16);
    let stage = driver.poll(
        Stage::Run,
        StageEvent::Ran { result: PollResult::Ready(42), has_changes: true },
    );
    assert!(matches!(stage, Stage::Done(42)));
    let stage: Stage<u8> =
        driver.poll(Stage::Wait { block: true }, StageEvent::Waited { failed: true });
    assert!(matches!(stage, Stage::Failed));
}

#[test]
fn sockets_are_settled() {
    let done = |res, errno| -> Result<Result<RawResult, ()>, &'static str> {
        Ok(Ok(RawResult { res, errno }))
    };
    assert!(matches!(create_socket(done(5, 0)), Ok(5)));
    assert!(matches!(
        create_socket(done(-1, libc::EMFILE)),
        Err(SocketError::Os(libc::EMFILE))
    ));
    assert!(matches!(close_socket(done(0, 0)), Ok(0)));
    let canceled: Result<Result<RawResult, ()>, &'static str> = Err("gone");
    assert!(matches!(close_socket(canceled), Err(SocketError::Canceled("gone"))));
}

#[test]
fn interests_differ() {
    assert_eq!(Interest::Readable, Interest::Readable);
    assert_ne!(Interest::Readable, Interest::Writable);
}
