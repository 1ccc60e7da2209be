use std::time::Duration;

use neon::driver::completion::{CEntry, Completion};
use neon::driver::errno::Numbers;
use neon::driver::handlers::Handlers;
use neon::driver::key::{encode, encode_batch, CANCEL, NOTIFY};
use neon::driver::socket::{RawResult, SocketError};
use neon::driver::uring::op::create_socket;
use neon::driver::uring::{
    route, submit_auto, wait_time, Changes, Driver, DriverApi, Handler, Stage, StageEvent,
    SubmitError, SubmitOutcome,
};
use neon::driver::DriverType;
use ntex_io_uring::opcode::{AsyncCancel, Nop};
use ntex_io_uring::types::Timespec;

#[derive(Default)]
struct Log {
    completed: Vec<(usize, u32, Result<i32, i32>)>,
    canceled: Vec<usize>,
}

impl Handler<i32> for Log {
    fn completed(&mut self, id: usize, flags: u32, result: Result<i32, i32>) {
        self.completed.push((id, flags, result));
    }

    fn canceled(&mut self, id: usize) {
        self.canceled.push(id);
    }
}

fn numbers() -> Numbers {
    Numbers {
        again: libc::EAGAIN,
        would_block: libc::EWOULDBLOCK,
        in_progress: libc::EINPROGRESS,
        interrupted: libc::EINTR,
        busy: libc::EBUSY,
        timer_expired: libc::ETIME,
        canceled: libc::ECANCELED,
    }
}

fn register(driver: &mut Driver<Log>) -> DriverApi {
    let mut slot: Option<DriverApi> = None;
    driver.register(|api| {
        slot = Some(api);
        Log::default()
    });
    slot.unwrap()
}

#[test]
fn changes_are_applied_as_far_as_there_is_room() {
    let mut driver: Driver<Log> = Driver::new();
    assert_eq!(driver.tp(), DriverType::IoUring);
    register(&mut driver);
    let api = register(&mut driver);
    let mut changes = Changes::new();
    api.submit(&mut changes, 1, Nop::new().build());
    api.cancel(&mut changes, 1);
    api.submit(&mut changes, 2, Nop::new().build());

    let (entries, more) = changes.apply_changes(0);
    assert!(entries.is_empty() && more);
    let (entries, more) = changes.apply_changes(2);
    assert!(more);
    assert_eq!(entries.len(), 2);
    assert_eq!(entries[0].get_user_data(), encode(encode_batch(1), 1));
    assert_eq!(entries[0].get_opcode(), Nop::CODE as u32);
    assert_eq!(entries[1].get_user_data(), CANCEL);
    assert_eq!(entries[1].get_opcode(), AsyncCancel::CODE as u32);
    let (entries, more) = changes.apply_changes(8);
    assert!(!more);
    assert_eq!(entries.len(), 1);
    assert_eq!(entries[0].get_user_data(), encode(encode_batch(1), 2));
    let (entries, more) = changes.apply_changes(8);
    assert!(entries.is_empty() && !more);
}

#[test]
fn results_keep_their_sign() {
    let user_data = encode(encode_batch(0), 7);
    let entry = |user_data, result| CEntry { user_data, result, flags: 1 };
    assert!(matches!(
        route(entry(user_data, -5), numbers()),
        Completion::Completed { batch: 0, id: 7, flags: 1, result: Err(-5) }
    ));
    assert!(matches!(
        route(entry(user_data, 5), numbers()),
        Completion::Completed { batch: 0, id: 7, flags: 1, result: Ok(5) }
    ));
    assert!(matches!(
        route(entry(user_data, -libc::ECANCELED), numbers()),
        Completion::Canceled { batch: 0, id: 7 }
    ));
    assert!(matches!(route(entry(CANCEL, 0), numbers()), Completion::Acknowledged));
    assert!(matches!(route(entry(NOTIFY, 0), numbers()), Completion::Notified));
}

#[test]
fn uring_completions_reach_their_handlers() {
    let mut driver: Driver<Log> = Driver::new();
    register(&mut driver);
    register(&mut driver);
    let mut handlers = Handlers::new(driver.registry.take());
    let entries = vec![
        CEntry { user_data: encode(encode_batch(1), 4), result: -9, flags: 1 },
        CEntry { user_data: NOTIFY, result: 1, flags: 2 },
        CEntry { user_data: encode(encode_batch(0), 5), result: -libc::ECANCELED, flags: 0 },
    ];
    assert_eq!(Driver::poll_completions(&mut handlers, &entries, 0, numbers()), Some(1));
    assert_eq!(Driver::poll_completions(&mut handlers, &entries, 2, numbers()), None);
    let handlers = handlers.into_inner();
    assert_eq!(handlers[1].completed, vec![(4, 1, Err(-9))]);
    assert_eq!(handlers[0].canceled, vec![5]);
    assert!(handlers[0].completed.is_empty() && handlers[1].canceled.is_empty());
}

#[test]
fn timeouts_become_timespecs() {
    assert!(wait_time(None).is_none());
    let timespec = wait_time(Some(Duration::new(3, 500))).unwrap();
    let expected = Timespec::new().sec(3).nsec(500);
    assert_eq!(format!("{:?}", timespec), format!("{:?}", expected));
    assert_ne!(format!("{:?}", timespec), format!("{:?}", Timespec::new()));
}

#[test]
fn submissions_are_judged() {
    let second = Some(Duration::from_secs(1));
    let zero = Some(Duration::ZERO);
    let nano = Some(Duration::from_nanos(1));
    let with = SubmitOutcome::Submitted { completions: true };
    let without = SubmitOutcome::Submitted { completions: false };
    let failed = |errno| SubmitOutcome::Failed(Some(errno));
    assert_eq!(submit_auto(second, with, numbers()), Ok(()));
    assert_eq!(submit_auto(None, without, numbers()), Err(SubmitError::TimedOut));
    assert_eq!(submit_auto(second, failed(libc::ETIME), numbers()), Err(SubmitError::TimedOut));
    assert_eq!(submit_auto(nano, failed(libc::ETIME), numbers()), Err(SubmitError::TimedOut));
    assert_eq!(submit_auto(zero, failed(libc::ETIME), numbers()), Ok(()));
    assert_eq!(submit_auto(None, failed(libc::ETIME), numbers()), Ok(()));
    assert_eq!(submit_auto(second, failed(libc::EBUSY), numbers()), Err(SubmitError::Interrupted));
    assert_eq!(submit_auto(second, failed(libc::EAGAIN), numbers()), Err(SubmitError::Interrupted));
    assert_eq!(submit_auto(second, failed(libc::EINTR), numbers()), Err(SubmitError::Os));
    assert_eq!(submit_auto(second, SubmitOutcome::Failed(None), numbers()), Err(SubmitError::Os));
}

#[test]
fn uring_poll_takes_its_stages() {
    let driver: Driver<Log> = Driver::new();
    // completions are there and nothing is left to submit
    let stage = driver.poll(Stage::Apply, StageEvent::Applied { has_more: false });
    let stage = driver.poll(stage, StageEvent::Completed { found: true });
    assert!(matches!(stage, Stage::Call));
    let stage = driver.poll(stage, StageEvent::Called);
    assert!(matches!(stage, Stage::Done));
    // nothing is there
    let stage = driver.poll(Stage::Apply, StageEvent::Applied { has_more: false });
    let stage = driver.poll(stage, StageEvent::Completed { found: false });
    assert!(matches!(stage, Stage::Submit { poll: false }));
    let stage = driver.poll(stage, StageEvent::Submitted(Ok(())));
    assert!(matches!(stage, Stage::Forward));
    let stage = driver.poll(stage, StageEvent::Completed { found: true });
    assert!(matches!(stage, Stage::Call));
    // something is left to submit
    for found in [false, true] {
        let stage = driver.poll(Stage::Apply, StageEvent::Applied { has_more: true });
        let stage = driver.poll(stage, StageEvent::Completed { found });
        assert!(matches!(stage, Stage::Submit { poll: true }));
        let stage = driver.poll(stage, StageEvent::Submitted(Err(SubmitError::TimedOut)));
        assert!(matches!(stage, Stage::Failed(SubmitError::TimedOut)));
    }
}

#[test]
fn uring_sockets_are_settled() {
    let done: Result<Result<RawResult, ()>, ()> = Ok(Ok(RawResult { res: 3, errno: 0 }));
    assert!(matches!(create_socket(done), Ok(3)));
    let failed: Result<Result<RawResult, ()>, ()> =
        Ok(Ok(RawResult { res: -1, errno: libc::EACCES }));
    assert!(matches!(create_socket(failed), Err(SocketError::Os(libc::EACCES))));
}
