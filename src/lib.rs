//! A networked key-value store with primary/backup replication and
//! automatic failover.
//!
//! - `store`: the map from keys to values.
//! - `text`: splitting command lines into words and joining them back.
//! - `replication`: roles, replicated operations and their text form, and
//!   the replication state of a node with its heartbeat and failover rules.
//! - `network`: the line protocol, one command at a time, on a node's state.
//! - `client`: reading the replies of a node.
//! - `error`: the errors of the crate.
//!
//! Sockets, timers and threads stay with the caller: a node's state is
//! changed by plain calls, which hand back the messages to send to peers.

use vstd::prelude::*;

pub mod client;
pub mod error;
pub mod network;
pub mod replication;
pub mod store;
pub mod text;

verus! {

} // verus!
