//! Connectivity of a single mesh cell.
use vstd::prelude::*;

verus! {

/// The vertices that one cell of a mesh connects.
pub trait Connectivity {
    /// Indices of the cell's vertices, in the cell's local order.
    open spec fn spec_vertex_indices(&self) -> Seq<usize> {
        arbitrary()
    }

    fn vertex_indices(&self) -> (indices: &[usize])
        ensures
            indices@ == self.spec_vertex_indices(),
    ;
}

/// A cell given by the plain list of its vertices.
impl Connectivity for Vec<usize> {
    open spec fn spec_vertex_indices(&self) -> Seq<usize> {
        self@
    }

    fn vertex_indices(&self) -> (indices: &[usize]) {
        self.as_slice()
    }
}

} // verus!
