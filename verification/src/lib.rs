//! A composable library for finite element computations: element assembly,
//! assembler composition and closest-element lookup.
use vstd::prelude::*;

pub mod assembly;
pub mod connectivity;
pub mod geometry;
pub mod interpolate;
pub mod mesh;
pub mod space;

verus! {

/// Whether an assembled operator is known to be symmetric.
#[derive(Copy, Clone, Debug, PartialEq, Eq, Structural)]
pub enum Symmetry {
    NonSymmetric,
    Symmetric,
}

} // verus!
