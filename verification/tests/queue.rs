use neon::driver::PollResult;
use neon::rt::block_on::Turn;
use neon::rt::queue::{Phase, RunnableQueue, Step};

fn run_all(queue: &mut RunnableQueue) -> (Vec<u64>, bool) {
    let mut tasks = Vec::new();
    loop {
        match queue.run() {
            Step::Task(ticket) => tasks.push(ticket),
            Step::Finished(more) => return (tasks, more),
        }
    }
}

#[test]
fn new_queue_has_nothing_to_run() {
    let mut queue = RunnableQueue::new(61);
    assert_eq!(queue.phase(), Phase::Parked);
    assert_eq!(run_all(&mut queue), (vec![], false));
    assert!(queue.clear().is_empty());
}

#[test]
fn first_local_ticket_notifies() {
    let mut queue = RunnableQueue::new(61);
    assert!(queue.schedule(1, true));
    assert!(!queue.schedule(2, true));
    assert_eq!(run_all(&mut queue), (vec![1, 2], false));
    assert!(queue.schedule(3, true));
}

#[test]
fn remote_tickets_always_notify() {
    let mut queue = RunnableQueue::new(61);
    assert!(queue.schedule(1, false));
    assert!(queue.schedule(2, false));
    assert!(queue.schedule(3, true));
    assert!(queue.schedule(4, false));
    assert_eq!(run_all(&mut queue), (vec![3, 1, 2, 4], false));
}

#[test]
fn tickets_run_once_in_order() {
    let mut queue = RunnableQueue::new(100);
    for ticket in 0..40 {
        queue.schedule(ticket, true);
        queue.schedule(100 + ticket, false);
    }
    let (tasks, more) = run_all(&mut queue);
    let expected: Vec<u64> = (0..40).chain(100..140).collect();
    assert_eq!(tasks, expected);
    assert!(!more);
    assert_eq!(run_all(&mut queue), (vec![], false));
}

#[test]
fn runs_are_bounded() {
    let mut queue = RunnableQueue::new(2);
    for ticket in 0..5 {
        queue.schedule(ticket, true);
        queue.schedule(10 + ticket, false);
    }
    assert_eq!(run_all(&mut queue), (vec![0, 1, 10, 11], true));
    assert_eq!(run_all(&mut queue), (vec![2, 3, 12, 13], true));
    assert_eq!(run_all(&mut queue), (vec![4, 14], false));
}

#[test]
fn zero_interval_runs_nothing() {
    let mut queue = RunnableQueue::new(0);
    queue.schedule(1, true);
    assert_eq!(run_all(&mut queue), (vec![], true));
    queue.schedule(2, false);
    assert_eq!(run_all(&mut queue), (vec![], true));
}

#[test]
fn tasks_may_schedule_while_they_run() {
    let mut queue = RunnableQueue::new(2);
    queue.schedule(1, true);
    assert_eq!(queue.run(), Step::Task(1));
    assert_eq!(queue.phase(), Phase::Local { left: 1 });
    // the run is under way, so the driver need not be woken
    assert!(!queue.schedule(2, true));
    assert!(!queue.schedule(3, true));
    assert_eq!(queue.run(), Step::Task(2));
    assert!(queue.schedule(4, false));
    assert_eq!(queue.run(), Step::Task(4));
    assert_eq!(queue.phase(), Phase::Sync { left: 1 });
    assert!(!queue.schedule(5, true));
    assert_eq!(queue.run(), Step::Finished(true));
    assert_eq!(run_all(&mut queue), (vec![3, 5], false));
}

#[test]
fn no_wake_up_is_lost() {
    let mut queue = RunnableQueue::new(4);
    assert_eq!(queue.run(), Step::Finished(false));
    assert!(queue.schedule(1, true));
    let mut queue = RunnableQueue::new(4);
    assert_eq!(queue.run(), Step::Finished(false));
    assert!(queue.schedule(1, false));
}

#[test]
fn cleared_queue_gives_up_its_tickets() {
    let mut queue = RunnableQueue::new(4);
    queue.schedule(1, true);
    queue.schedule(2, false);
    queue.schedule(3, true);
    queue.schedule(4, false);
    assert_eq!(queue.clear(), vec![2, 4, 1, 3]);
    assert!(queue.clear().is_empty());
    assert_eq!(run_all(&mut queue), (vec![], false));
}

#[test]
fn blocking_runs_the_queue_first() {
    let mut queue = RunnableQueue::new(1);
    let mut result: Option<u8> = None;
    queue.schedule(1, true);
    queue.schedule(2, true);
    assert!(matches!(queue.block_on(&mut result), Turn::Run(1)));
    // an output that arrives within a turn is returned by the next one
    result = Some(42);
    assert!(matches!(queue.block_on(&mut result), Turn::Poll(PollResult::HasTasks)));
    assert_eq!(result, Some(42));
    assert!(matches!(queue.block_on(&mut result), Turn::Poll(PollResult::Ready(42))));
    assert_eq!(result, None);
    assert!(matches!(queue.block_on(&mut result), Turn::Run(2)));
    assert!(matches!(queue.block_on(&mut result), Turn::Poll(PollResult::Pending)));
}

#[test]
fn abandoned_run_is_over() {
    let mut queue = RunnableQueue::new(2);
    queue.schedule(9, false);
    queue.schedule(8, false);
    assert_eq!(queue.run(), Step::Task(9));
    // the task unwinds
    assert_eq!(queue.suspend(), Phase::Sync { left: 1 });
    assert_eq!(queue.phase(), Phase::Parked);
    assert!(!queue.schedule(5, true));
    assert_eq!(run_all(&mut queue), (vec![5, 8], false));
}

#[test]
fn nested_run_leaves_the_outer_one() {
    let mut queue = RunnableQueue::new(2);
    for ticket in 0..5 {
        queue.schedule(ticket, true);
    }
    assert_eq!(queue.run(), Step::Task(0));
    let outer = queue.suspend();
    assert_eq!(run_all(&mut queue), (vec![1, 2], true));
    queue.resume(outer);
    assert_eq!(run_all(&mut queue), (vec![3], true));
    assert_eq!(run_all(&mut queue), (vec![4], false));
}

#[test]
fn running_queue_is_not_idle() {
    let mut queue = RunnableQueue::new(3);
    assert!(queue.schedule(1, true));
    assert_eq!(queue.run(), Step::Task(1));
    assert!(!queue.schedule(2, true));
    assert_eq!(run_all(&mut queue), (vec![2], false));
    assert!(queue.schedule(3, true));
    assert!(!queue.schedule(4, true));
}

#[test]
fn calls_in_a_row_keep_tickets() {
    let mut queue = RunnableQueue::new(2);
    let mut result: Option<u8> = None;
    queue.suspend();
    queue.schedule(1, true);
    queue.schedule(2, true);
    queue.schedule(3, true);
    queue.schedule(4, false);
    assert!(matches!(queue.block_on(&mut result), Turn::Run(1)));
    result = Some(10);
    assert!(matches!(queue.block_on(&mut result), Turn::Run(2)));
    assert!(matches!(queue.block_on(&mut result), Turn::Run(4)));
    assert!(matches!(queue.block_on(&mut result), Turn::Poll(PollResult::HasTasks)));
    assert!(matches!(queue.block_on(&mut result), Turn::Poll(PollResult::Ready(10))));

    let mut result: Option<u8> = None;
    queue.suspend();
    queue.schedule(5, true);
    assert!(matches!(queue.block_on(&mut result), Turn::Run(3)));
    assert!(matches!(queue.block_on(&mut result), Turn::Run(5)));
    result = Some(20);
    assert!(matches!(queue.block_on(&mut result), Turn::Poll(PollResult::Pending)));
    assert!(matches!(queue.block_on(&mut result), Turn::Poll(PollResult::Ready(20))));
}
