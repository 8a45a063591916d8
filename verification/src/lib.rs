//! Request orchestration for a database-backed network server.
//!
//! Three parts work together: per-client accounting that admits or rejects
//! work before it is queued, a single-writer executor that gives all
//! mutations one total order, and a master/replica protocol that carries the
//! committed log to followers.
//!
//! The library decides; it performs no input or output. The storage engine,
//! the network and the clock are the caller's: the caller reports what
//! happened, and is told what to do next.
//!
//! - [`usage`], [`dos`], [`accounting`]: counters, the record of one client,
//!   and the accounting over all clients; [`table`] holds the records.
//! - [`dispatch`]: where an incoming request goes.
//! - [`executor`]: the single writer as a state machine.
//! - [`log`], [`codec`], [`replica`]: the transaction log, the serialised
//!   form of its entries, and the follower's side of replication.
//! - [`role`], [`settings`], [`recovery`]: what is fixed at startup.

pub mod usage;
pub mod dos;
pub mod table;
pub mod accounting;
pub mod role;
pub mod dispatch;
pub mod executor;
pub mod codec;
pub mod log;
pub mod recovery;
pub mod replica;
pub mod settings;
