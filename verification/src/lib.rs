//! A periodic configuration backup agent, as a verified library.
//!
//! The library holds the agent's decisions and computations: the denylist
//! filter over relative paths, the plan of which files a mirror pass copies,
//! the timestamped names used when rotating an old backup aside, and the
//! state machine that drives the version-control reconciliation. The
//! filesystem walking, copying and subprocess handling live outside the
//! library and only act on what it decides.

pub mod cycle;
pub mod denylist;
pub mod mirror;
pub mod reconcile;
pub mod rotate;
pub mod text;
pub mod timestamp;
