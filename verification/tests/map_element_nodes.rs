use fenris::assembly::local::{
    AggregateElementAssembler, ElementConnectivityAssembler, ElementScalarAssembler,
};
use fenris::connectivity::Connectivity;
use fenris::mesh::Mesh;
use fenris::Symmetry;

fn two_triangles() -> Mesh<(i32, i32), Vec<usize>> {
    let vertices = vec![(0, 0), (1, 0), (1, 1), (0, 1)];
    Mesh::from_vertices_and_connectivity(vertices, vec![vec![0, 1, 2], vec![0, 2, 3]])
}

/// One scalar per element of a mesh: the number of the element's nodes.
struct NodeCounts(Mesh<(i32, i32), Vec<usize>>);

impl ElementConnectivityAssembler for NodeCounts {
    fn solution_dim(&self) -> usize {
        self.0.solution_dim()
    }

    fn num_elements(&self) -> usize {
        self.0.num_elements()
    }

    fn num_nodes(&self) -> usize {
        self.0.num_nodes()
    }

    fn element_node_count(&self, element_index: usize) -> usize {
        self.0.element_node_count(element_index)
    }

    fn populate_element_nodes(&self, output: &mut [usize], element_index: usize) {
        self.0.populate_element_nodes(output, element_index)
    }
}

impl ElementScalarAssembler<usize> for NodeCounts {
    fn assemble_element_scalar(&self, element_index: usize) -> eyre::Result<usize> {
        Ok(self.0.element_node_count(element_index))
    }
}

#[test]
fn mesh_is_an_assembler_of_a_scalar_field() {
    let mesh = two_triangles();
    assert!(mesh.has_cells_in_range());
    assert_eq!(mesh.solution_dim(), 1);
    assert_eq!(mesh.num_elements(), 2);
    assert_eq!(mesh.num_nodes(), 4);
    assert_eq!(mesh.element_node_count(1), 3);
    let mut nodes = [0usize; 3];
    mesh.populate_element_nodes(&mut nodes, 1);
    assert_eq!(nodes, [0, 2, 3]);
    assert_eq!(mesh.vertices(), &[(0, 0), (1, 0), (1, 1), (0, 1)]);
    assert_eq!(mesh.connectivity()[0].vertex_indices(), &[0, 1, 2]);
}

#[test]
fn mesh_with_a_cell_out_of_range_is_noticed() {
    let mesh = Mesh::from_vertices_and_connectivity(vec![0u8; 3], vec![vec![0, 1, 2], vec![1, 2, 3]]);
    assert!(!mesh.has_cells_in_range());
    let empty: Mesh<u8, Vec<usize>> = Mesh::from_vertices_and_connectivity(vec![], vec![]);
    assert!(empty.has_cells_in_range());
    let no_vertices = Mesh::from_vertices_and_connectivity(Vec::<u8>::new(), vec![vec![0usize]]);
    assert!(!no_vertices.has_cells_in_range());
}

#[test]
fn identity_map_changes_only_the_node_count() {
    let mesh = two_triangles();
    let mapped = two_triangles().map_element_nodes(17, |node| node);
    assert_eq!(mapped.num_nodes(), 17);
    assert_eq!(mapped.solution_dim(), mesh.solution_dim());
    assert_eq!(mapped.num_elements(), mesh.num_elements());
    for element in 0..mesh.num_elements() {
        assert_eq!(mapped.element_node_count(element), mesh.element_node_count(element));
        let mut expected = [0usize; 3];
        mesh.populate_element_nodes(&mut expected, element);
        let mut nodes = [usize::MAX; 3];
        mapped.populate_element_nodes(&mut nodes, element);
        assert_eq!(nodes, expected);
    }
}

#[test]
fn map_offsets_every_node_index() {
    let mapped = two_triangles().map_element_nodes(104, |node| node + 100);
    assert_eq!(mapped.num_nodes(), 104);
    assert_eq!(mapped.num_elements(), 2);
    let mut nodes = [0usize; 3];
    mapped.populate_element_nodes(&mut nodes, 0);
    assert_eq!(nodes, [100, 101, 102]);
    mapped.populate_element_nodes(&mut nodes, 1);
    assert_eq!(nodes, [100, 102, 103]);
}

#[test]
fn map_of_a_map_applies_both_functions() {
    let mapped = two_triangles()
        .map_element_nodes(8, |node| 2 * node)
        .map_element_nodes(9, |node| node + 1);
    assert_eq!(mapped.num_nodes(), 9);
    let mut nodes = [0usize; 3];
    mapped.populate_element_nodes(&mut nodes, 1);
    assert_eq!(nodes, [1, 5, 7]);
}

#[test]
fn map_leaves_assembly_to_the_mapped_assembler() {
    let mapped = NodeCounts(two_triangles()).map_element_nodes(50, |node| node + 10);
    assert_eq!(mapped.assemble_element_scalar(0).unwrap(), 3);
    assert_eq!(mapped.assemble_element_scalar(1).unwrap(), 3);
}

#[test]
fn bodies_are_embedded_into_one_index_space() {
    // Two bodies of four vertices each, side by side in a space of eight nodes.
    let bodies = vec![
        two_triangles().map_element_nodes(8, Box::new(|node| node) as Box<dyn Fn(usize) -> usize>),
        two_triangles().map_element_nodes(8, Box::new(|node| node + 4)),
    ];
    let aggregate = AggregateElementAssembler::from_assemblers(&bodies).unwrap();
    assert_eq!(aggregate.num_elements(), 4);
    assert_eq!(aggregate.num_nodes(), 8);
    let mut nodes = [0usize; 3];
    aggregate.populate_element_nodes(&mut nodes, 1);
    assert_eq!(nodes, [0, 2, 3]);
    aggregate.populate_element_nodes(&mut nodes, 2);
    assert_eq!(nodes, [4, 5, 6]);
    aggregate.populate_element_nodes(&mut nodes, 3);
    assert_eq!(nodes, [4, 6, 7]);
}

#[test]
fn symmetry_compares_by_variant() {
    assert_eq!(Symmetry::Symmetric, Symmetry::Symmetric);
    assert_ne!(Symmetry::Symmetric, Symmetry::NonSymmetric);
}
