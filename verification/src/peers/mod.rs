//! The fleet: its hosts, their summaries, and leaps between them.

pub mod host;
pub mod model;
pub mod summary;
pub mod switch;
