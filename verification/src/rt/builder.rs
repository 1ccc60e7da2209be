//! The configuration of a runtime.

use std::time::Duration;

use vstd::prelude::*;

use super::queue::RunnableQueue;

verus! {

/// Builder for a runtime.
#[derive(Debug)]
pub struct RuntimeBuilder {
    event_interval: usize,
    pool_limit: usize,
    pool_recv_timeout: Duration,
    io_queue_capacity: u32,
}

/// What a builder is set to.
pub struct Config {
    /// The number of scheduler ticks between two polls of the driver.
    pub event_interval: usize,
    /// The limit of the thread pool.
    pub pool_limit: usize,
    /// How long a thread of the pool waits for work.
    pub pool_recv_timeout: Duration,
    /// The capacity of the event queue or submission queue.
    pub io_queue_capacity: u32,
}

/// What a runtime starts with.
pub struct Parts {
    /// The queue of runnable tasks.
    pub queue: RunnableQueue,
    /// The capacity to create the driver with.
    pub io_queue_capacity: u32,
    /// The limit to create the thread pool with.
    pub pool_limit: usize,
    /// The waiting timeout to create the thread pool with.
    pub pool_recv_timeout: Duration,
}

impl View for RuntimeBuilder {
    type V = Config;

    closed spec fn view(&self) -> Config {
        Config {
            event_interval: self.event_interval,
            pool_limit: self.pool_limit,
            pool_recv_timeout: self.pool_recv_timeout,
            io_queue_capacity: self.io_queue_capacity,
        }
    }
}

/// Whether `config` is the default configuration.
pub open spec fn is_default(config: Config) -> bool {
    &&& config.event_interval == 61
    &&& config.pool_limit == 256
    &&& crate::time::whole_secs(config.pool_recv_timeout) == 60
    &&& crate::time::nanos_beyond(config.pool_recv_timeout) == 0
    &&& config.io_queue_capacity == 1024
}

impl Clone for RuntimeBuilder {
    fn clone(&self) -> (r: Self)
        ensures
            r@ == self@,
    {
        Self {
            event_interval: self.event_interval,
            pool_limit: self.pool_limit,
            pool_recv_timeout: self.pool_recv_timeout,
            io_queue_capacity: self.io_queue_capacity,
        }
    }
}

impl Default for RuntimeBuilder {
    fn default() -> (r: Self)
        ensures
            is_default(r@),
    {
        Self::new()
    }
}

impl RuntimeBuilder {
    /// Create the builder with default config.
    pub fn new() -> (r: Self)
        ensures
            is_default(r@),
    {
        Self {
            event_interval: 61,
            pool_limit: 256,
            pool_recv_timeout: Duration::from_secs(60),
            io_queue_capacity: 1024,
        }
    }

    /// Sets the number of scheduler ticks after which the scheduler will poll
    /// for external events (timers, I/O, and so on).
    ///
    /// A scheduler "tick" roughly corresponds to one poll invocation on a task.
    pub fn event_interval(&mut self, val: usize) -> (r: &mut Self)
        ensures
            r@ == (Config { event_interval: val, ..old(self)@ }),
            *final(self) == *final(r),
    {
        self.event_interval = val;
        self
    }

    /// Set the capacity of the inner event queue or submission queue, if
    /// exists. The default value is 1024.
    pub fn io_queue_capacity(&mut self, capacity: u32) -> (r: &mut Self)
        ensures
            r@ == (Config { io_queue_capacity: capacity, ..old(self)@ }),
            *final(self) == *final(r),
    {
        self.io_queue_capacity = capacity;
        self
    }

    /// Set the thread number limit of the inner thread pool, if exists. The
    /// default value is 256.
    pub fn thread_pool_limit(&mut self, value: usize) -> (r: &mut Self)
        ensures
            r@ == (Config { pool_limit: value, ..old(self)@ }),
            *final(self) == *final(r),
    {
        self.pool_limit = value;
        self
    }

    /// Set the waiting timeout of the inner thread, if exists. The default is
    /// 60 seconds.
    pub fn thread_pool_recv_timeout(&mut self, timeout: Duration) -> (r: &mut Self)
        ensures
            r@ == (Config { pool_recv_timeout: timeout, ..old(self)@ }),
            *final(self) == *final(r),
    {
        self.pool_recv_timeout = timeout;
        self
    }

    /// Build what the runtime starts with.
    pub fn build(&self) -> (r: Parts)
        ensures
            r.queue.wf(),
            r.queue@ == super::queue::new_state(self@.event_interval),
            r.io_queue_capacity == self@.io_queue_capacity,
            r.pool_limit == self@.pool_limit,
            r.pool_recv_timeout == self@.pool_recv_timeout,
    {
        Parts {
            queue: RunnableQueue::new(self.event_interval),
            io_queue_capacity: self.io_queue_capacity,
            pool_limit: self.pool_limit,
            pool_recv_timeout: self.pool_recv_timeout,
        }
    }
}

/// By default a run hands out 61 tickets of each queue, the pool has 256 threads, which
/// wait a minute for work, and the driver has room for 1024 entries or events.
pub proof fn law_default_configuration(config: Config)
    requires
        is_default(config),
    ensures
        config.event_interval == 61,
        config.pool_limit == 256,
        crate::time::whole_secs(config.pool_recv_timeout) == 60,
        crate::time::nanos_beyond(config.pool_recv_timeout) == 0,
        config.io_queue_capacity == 1024,
{
}

} // verus!
