//! Verified core of a terminal scalar-chart viewer.
//!
//! The library turns a decoded stream of training-log records into a
//! catalog of scalar tags, extracts one tag's (step, value) series,
//! computes axis bounds, and drives the interactive render loop as a
//! state machine. Reading the log file and painting the terminal are
//! left to an unverified shell around this crate; everything that
//! decides or computes lives here, with a contract.

pub mod bounds;
pub mod catalog;
pub mod cli;
pub mod events;
pub mod laws;
pub mod order;
pub mod series;
pub mod session;
