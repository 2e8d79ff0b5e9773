//! An exact integer kernel for homogeneous vectors, square matrices and
//! ray-sphere hit testing.
//!
//! Scalars are integers (a caller working in fixed point scales its lengths
//! to a common unit), so every operation is exact and its contract states the
//! mathematical result. Operations whose result could leave the machine
//! integer range ask for that range in their preconditions.
use vstd::prelude::*;

pub mod vector;
pub mod matrix;
pub mod sphere;
pub mod identities;

verus! {

} // verus!
