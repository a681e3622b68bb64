//! A verified core for an HTTP server that runs user-supplied script
//! functions as request handlers.
//!
//! The script engine is confined to one worker thread; requests reach it as
//! queued commands and come back over single-use reply channels.  This crate
//! holds the logic of that arrangement: the routing table that maps an HTTP
//! method and path to a loaded handler, the worker's command processing and
//! response capture rules, the correlation registry that ties asynchronous
//! completions to waiting callers, and the database host operation's
//! parameter and result handling.  The connection acceptor, the engine itself
//! and the database driver stay outside; they talk to this crate in plain
//! values.

pub mod annotation;
pub mod body;
pub mod correlation;
pub mod db;
pub mod dispatch;
pub mod entry;
pub mod jsontext;
pub mod jsonval;
pub mod manager;
pub mod query;
pub mod reply;
pub mod router;
pub mod worker;
pub mod strmap;
pub mod strutil;
pub mod text;

pub use worker::ExecutionResult;
