//! Verified core of the Moonshot pipeline: the text formats and the
//! decisions that sit around the floating-point filters.
use vstd::prelude::*;

pub mod text;
pub mod trace;
pub mod macro_input;
pub mod tasks;
pub mod spec;
pub mod ticks;
pub mod loader;

verus! {

} // verus!
