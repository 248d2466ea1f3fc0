//! herdr's web bridge and fleet switching.
//!
//! - `web`: the decisions of `herdr web`, a bridge between a terminal in the
//!   browser and a herdr client: the command line, the guards on starting and on
//!   WebSocket upgrades, static files, and the course of a session.
//! - `peers`: what the servers of a fleet tell each other, and how a client leaps
//!   from one to another.
//!
//! What happens outside this process (sockets, terminals, other commands, clocks)
//! is left to the caller, who performs what is decided here and hands back what
//! came of it.

pub mod command;
pub mod peers;
pub mod text;
pub mod web;
