//! The runtime.

pub mod block_on;
pub mod builder;
pub mod history;
pub mod queue;
pub mod sync_queue;
pub mod values;
