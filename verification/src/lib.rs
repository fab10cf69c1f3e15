//! An in-memory key/value store behind a textual, CRLF-terminated frame
//! protocol: the frames and their wire form, the per-connection buffer, the
//! command layer, the sharded store and the decisions of the server loops.

pub mod buffer;
pub mod codec;
pub mod command;
pub mod conn;
pub mod frame;
pub mod server;
pub mod store;

pub use command::{Command, CommandError};
pub use conn::{ConnError, Connection, Progress};
pub use frame::{encode, RespFrame};
pub use server::{execute, process, rejection, serve, AcceptEvent, AcceptFailure, ServeAction};
pub use store::{hash, pick_shard, Shard, ShardedDB};
