//! Dimension newtypes of the model dictionary.
use vstd::prelude::*;

verus! {

/// Number of components of a model's state vector.
#[derive(Debug, Clone, Copy, PartialEq, Eq, Structural)]
pub struct StateDim(pub usize);

/// Number of components of a model's observation vector.
#[derive(Debug, Clone, Copy, PartialEq, Eq, Structural)]
pub struct MeasDim(pub usize);

} // verus!
