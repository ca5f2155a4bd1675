//! Meshes: vertices and the cells that connect them.
use crate::connectivity::Connectivity;
use vstd::prelude::*;

verus! {

/// A mesh: a list of vertices and a list of cells, each of which names the
/// vertices that it connects.
#[derive(Debug, Clone)]
pub struct Mesh<Vertex, C> {
    vertices: Vec<Vertex>,
    connectivity: Vec<C>,
}

impl<Vertex, C> Mesh<Vertex, C> where C: Connectivity {
    /// The vertices of the mesh.
    pub closed spec fn spec_vertices(&self) -> Seq<Vertex> {
        self.vertices@
    }

    /// The cells of the mesh.
    pub closed spec fn spec_connectivity(&self) -> Seq<C> {
        self.connectivity@
    }

    /// Every cell names only vertices that the mesh has.
    pub open spec fn cells_in_range(&self) -> bool {
        forall|cell: int, i: int|
            0 <= cell < self.spec_connectivity().len() && 0 <= i
                < self.spec_connectivity()[cell].spec_vertex_indices().len() ==> (
            #[trigger] self.spec_connectivity()[cell].spec_vertex_indices()[i])
                < self.spec_vertices().len()
    }

    /// Puts vertices and cells together, unchecked.
    pub fn from_vertices_and_connectivity(vertices: Vec<Vertex>, connectivity: Vec<C>) -> (mesh:
        Self)
        ensures
            mesh.spec_vertices() == vertices@,
            mesh.spec_connectivity() == connectivity@,
    {
        Self { vertices, connectivity }
    }

    pub fn vertices(&self) -> (vertices: &[Vertex])
        ensures
            vertices@ == self.spec_vertices(),
    {
        self.vertices.as_slice()
    }

    pub fn connectivity(&self) -> (connectivity: &[C])
        ensures
            connectivity@ == self.spec_connectivity(),
    {
        self.connectivity.as_slice()
    }

    /// Whether every cell names only vertices that the mesh has.
    pub fn has_cells_in_range(&self) -> (in_range: bool)
        ensures
            in_range == self.cells_in_range(),
    {
        let num_vertices: usize = self.vertices.len();
        let mut cell: usize = 0;
        while cell < self.connectivity.len()
            invariant
                cell <= self.connectivity@.len(),
                num_vertices == self.vertices@.len(),
                forall|c: int, i: int|
                    0 <= c < cell && 0 <= i < self.connectivity@[c].spec_vertex_indices().len()
                        ==> (#[trigger] self.connectivity@[c].spec_vertex_indices()[i])
                        < num_vertices,
            decreases self.connectivity@.len() - cell,
        {
            let indices: &[usize] = self.connectivity[cell].vertex_indices();
            let mut i: usize = 0;
            while i < indices.len()
                invariant
                    i <= indices@.len(),
                    cell < self.connectivity@.len(),
                    indices@ == self.connectivity@[cell as int].spec_vertex_indices(),
                    num_vertices == self.vertices@.len(),
                    forall|j: int| 0 <= j < i ==> (#[trigger] indices@[j]) < num_vertices,
                decreases indices@.len() - i,
            {
                if indices[i] >= num_vertices {
                    assert(self.spec_connectivity()[cell as int].spec_vertex_indices()[i as int]
                        >= self.spec_vertices().len());
                    return false;
                }
                i += 1;
            }
            cell += 1;
        }
        true
    }
}

} // verus!
