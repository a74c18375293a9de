//! Reachability monitoring of registered endpoints.
//!
//! Each tick compares the probed reachability of every target with the state
//! the catalog recorded (`detect`), batches the resulting transitions by
//! group (`batch`, `message`), and plans the catalog writes and deliveries
//! that a loop then carries out with failures isolated (`tick`). The
//! conversation that manages servers and groups is decided in `dialogue` and
//! worded in `replies`.

use vstd::prelude::*;

pub mod batch;
pub mod config;
pub mod detect;
pub mod dialogue;
pub mod message;
pub mod model;
pub mod replies;
pub mod schedule;
pub mod text;
pub mod tick;

verus! {

} // verus!
