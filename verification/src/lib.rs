//! An in-memory message queue service: queues are created, listed and
//! deleted; messages are sent, received under a lease, deleted under the
//! receipt handle of their lease, and purged.
//!
//! A message that was received stays in its queue, hidden for the
//! visibility timeout. It leaves the queue only when it is deleted under its
//! receipt handle or the queue is purged; a lease that runs out makes it
//! available again. Whether a message is available is read from its time
//! of visibility whenever a receive passes over the queue: no timer runs.
//!
//! - [`text`]: prefix test, decimal numerals.
//! - [`attributes`]: maps from attribute names to values.
//! - [`error`]: the failures of the operations.
//! - [`message`]: a message and its delivery state.
//! - [`state`]: a queue and what a send, a receive, a deletion and a purge
//!   do to it.
//! - [`store`]: the queues of a service, kept in a `DashMap`.
//! - [`queue`]: the operations of the service on requests.
//! - [`action`]: the names under which requests ask for operations.
//! - [`laws`]: what holds of the operations taken together.
//! - [`trusted`]: the clock, the random identifiers and the digest.
//!
//! Times are milliseconds since the Unix epoch; timeouts, delays and wait
//! times are seconds.

pub mod action;
pub mod attributes;
pub mod error;
pub mod laws;
pub mod message;
pub mod queue;
pub mod state;
pub mod store;
pub mod text;
pub mod trusted;
