// A dense-matrix engine with shape-checked, overflow-checked integer
// arithmetic, the batch schedule of gradient descent, and the shape checks
// and weight layout of the learners built on them.
use vstd::prelude::*;

pub mod cost;
pub mod error;
pub mod gd;
pub mod laws;
pub mod learner;
pub mod tensor;

verus! {

} // verus!
