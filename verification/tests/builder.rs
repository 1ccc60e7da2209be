use std::time::Duration;

use fxhash::FxBuildHasher;
use neon::rt::queue::Step;
use neon::rt::values::Values;
use neon::RuntimeBuilder;

#[test]
fn builder_has_defaults() {
    for builder in [RuntimeBuilder::new(), RuntimeBuilder::default()] {
        let parts = builder.build();
        assert_eq!(parts.io_queue_capacity, 1024);
        assert_eq!(parts.pool_limit, 256);
        assert_eq!(parts.pool_recv_timeout, Duration::from_secs(60));
    }
}

#[test]
fn default_event_interval_bounds_a_run() {
    let mut queue = RuntimeBuilder::new().build().queue;
    for ticket in 0..62 {
        queue.schedule(ticket, true);
    }
    let mut ran = 0;
    while let Step::Task(_) = queue.run() {
        ran += 1;
    }
    assert_eq!(ran, 61);
}

#[test]
fn builder_is_set() {
    let mut builder = RuntimeBuilder::new();
    builder
        .event_interval(1)
        .io_queue_capacity(2)
        .thread_pool_limit(3)
        .thread_pool_recv_timeout(Duration::from_millis(4));
    let copy = builder.clone();
    builder.thread_pool_limit(5);
    let parts = copy.build();
    assert_eq!(parts.io_queue_capacity, 2);
    assert_eq!(parts.pool_limit, 3);
    assert_eq!(parts.pool_recv_timeout, Duration::from_millis(4));
    assert_eq!(builder.build().pool_limit, 5);
    let mut queue = parts.queue;
    queue.schedule(1, true);
    queue.schedule(2, true);
    assert_eq!(queue.run(), Step::Task(1));
    assert_eq!(queue.run(), Step::Finished(true));
}

#[test]
fn values_are_kept() {
    let mut values: Values<u64, String, FxBuildHasher> = Values::new();
    assert_eq!(values.value(&1), None);
    values.insert(1, "one".to_string());
    values.insert(2, "two".to_string());
    assert_eq!(values.value(&1), Some(&"one".to_string()));
    assert_eq!(values.value(&2), Some(&"two".to_string()));
    values.insert(1, "uno".to_string());
    assert_eq!(values.value(&1), Some(&"uno".to_string()));
    assert_eq!(values.value(&2), Some(&"two".to_string()));
    assert_eq!(values.value(&3), None);
}
