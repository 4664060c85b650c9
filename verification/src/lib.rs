//! The decision logic of a replicated-log node: its consensus agent, its
//! durable state, its configuration, and what it shows of itself.

pub mod audit;
pub mod backup;
pub mod config_file;
pub mod daemon;
pub mod node;
pub mod obs;
pub mod preflight;
pub mod read_round;
pub mod recovery;
pub mod text;

use vstd::prelude::*;

verus! {

} // verus!
