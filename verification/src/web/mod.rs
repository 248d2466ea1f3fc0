//! `herdr web`: a bridge from a terminal in the browser to a herdr client.

pub mod args;
pub mod asset;
pub mod funnel;
pub mod origin;
pub mod session;
pub mod startup;
