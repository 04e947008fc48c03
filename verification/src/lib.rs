//! The verified core of a line-based chat bot: the wire protocol codec,
//! the command registry and argument matcher, the handler binding and
//! dispatch decisions, the template engine with its startup verification,
//! and the hot-reload watcher's debounce rules.  The binary around it
//! owns the sockets, files and timers and calls in here for every
//! decision.

pub mod text;
pub mod kv;
pub mod codec;
pub mod arguments;
pub mod templates;
pub mod response;
pub mod commands;
pub mod reply;
pub mod watch;
pub mod system;
pub mod message;
pub mod bind;
pub mod conn;
pub mod fmt;
pub mod spotify;
pub mod env;
pub mod rng;
pub mod helix;
pub mod github;
pub mod modules;
