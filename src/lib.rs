//! Core of a thread-per-core runtime: the per-tier task queues and their
//! scheduling policy, the wake bridge's counter, the close-once shared
//! descriptor, the cancellation handshake for in-flight operations, the
//! driver's table that dispatches completions to waiting tasks, and a
//! latency histogram used to validate the wake path.

pub mod cancel;
pub mod driver;
pub mod latency;
pub mod scheduler;
pub mod shared_fd;
pub mod task_queue;
pub mod wake;
