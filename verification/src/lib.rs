//! A small IRC server, as a library without input or output.
//!
//! `parser` reads a line of the protocol into a command and `wire` writes
//! one; `registry` is the state that all connections share; `connection`
//! is the worker of one connection, which takes a command, changes the
//! registry and hands back the lines to write, built by `replies` and
//! `motd`; `server` takes in new connections. `laws` holds what is proved
//! of all of them together.

pub mod addr;
pub mod connection;
pub mod laws;
pub mod motd;
pub mod parser;
pub mod registry;
pub mod replies;
pub mod server;
pub mod table;
pub mod text;
pub mod usage;
pub mod wire;

pub use server::IrcServer;
