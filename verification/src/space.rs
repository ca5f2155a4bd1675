//! Finite element spaces: what the closest-element lookup asks of them.
use crate::assembly::local::element_nodes_in_range;
use crate::geometry::{coordinates_in_range, AxisAlignedBoundingBox};
use vstd::prelude::*;

verus! {

/// Connectivity of the elements of a finite element space: how many elements
/// and nodes there are, and which nodes each element touches.
pub trait FiniteElementConnectivity {
    /// The space's own validity condition. Every element-indexed operation
    /// requires it. An implementor that states none is never valid.
    open spec fn space_wf(&self) -> bool {
        false
    }

    /// Number of elements.
    open spec fn spec_num_elements(&self) -> nat {
        arbitrary()
    }

    /// Number of nodes.
    open spec fn spec_num_nodes(&self) -> nat {
        arbitrary()
    }

    /// Number of nodes of one element.
    open spec fn spec_element_node_count(&self, element_index: int) -> nat {
        arbitrary()
    }

    /// `nodes` are the node indices of one element, in local order, as the
    /// space may give them.
    open spec fn is_element_nodes(&self, element_index: int, nodes: Seq<usize>) -> bool {
        true
    }

    fn num_elements(&self) -> (count: usize)
        ensures
            count == self.spec_num_elements(),
    ;

    fn num_nodes(&self) -> (count: usize)
        ensures
            count == self.spec_num_nodes(),
    ;

    fn element_node_count(&self, element_index: usize) -> (count: usize)
        requires
            self.space_wf(),
            element_index < self.spec_num_elements(),
        ensures
            count == self.spec_element_node_count(element_index as int),
    ;

    /// Fills `nodes`, which has room for exactly the nodes of the element,
    /// with the element's node indices. Every index lies in the space's node
    /// space.
    fn populate_element_nodes(&self, nodes: &mut [usize], element_index: usize)
        requires
            self.space_wf(),
            element_index < self.spec_num_elements(),
            old(nodes)@.len() == self.spec_element_node_count(element_index as int),
        ensures
            final(nodes)@.len() == old(nodes)@.len(),
            self.is_element_nodes(element_index as int, final(nodes)@),
            element_nodes_in_range(final(nodes)@, self.spec_num_nodes()),
    ;
}

/// A finite element space whose elements have a place in `D`-dimensional
/// space: each has a bounding box, and a point can be expressed in the
/// reference coordinates of an element.
pub trait GeometricFiniteElementSpace<const D: usize>: FiniteElementConnectivity {
    /// Coordinates in the reference element.
    type ReferenceCoords;

    /// Bounding box of one element.
    open spec fn spec_bounding_box(&self, element_index: int) -> AxisAlignedBoundingBox<D> {
        arbitrary()
    }

    /// `coords` are reference coordinates that the space may give for `point`
    /// in the element `element_index`.
    open spec fn is_reference_coords(
        &self,
        element_index: int,
        point: Seq<i64>,
        coords: Self::ReferenceCoords,
    ) -> bool {
        true
    }

    fn bounding_box(&self, element_index: usize) -> (bounding_box: AxisAlignedBoundingBox<D>)
        requires
            self.space_wf(),
            element_index < self.spec_num_elements(),
        ensures
            bounding_box == self.spec_bounding_box(element_index as int),
    ;

    /// Inverts the element's map from reference to physical coordinates at
    /// `point`.
    fn reference_coords(&self, element_index: usize, point: &[i64; D]) -> (coords:
        Self::ReferenceCoords)
        requires
            self.space_wf(),
            element_index < self.spec_num_elements(),
            coordinates_in_range(point@),
        ensures
            self.is_reference_coords(element_index as int, point@, coords),
    ;
}

} // verus!
