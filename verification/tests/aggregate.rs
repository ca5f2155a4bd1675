use fenris::assembly::local::{
    AggregateElementAssembler, AggregateError, ElementConnectivityAssembler,
    ElementMatrixAssembler, ElementScalarAssembler, ElementVectorAssembler,
};
use fenris::assembly::offsets::last_offset_at_most;
use fenris::mesh::Mesh;

/// A mesh of `cells` two-node cells over `vertices` vertices: cell `c` connects
/// the vertices `first + c` and `first + c + 1`.
fn chain(vertices: usize, cells: usize, first: usize) -> Mesh<u8, Vec<usize>> {
    let connectivity = (0..cells).map(|c| vec![first + c, first + c + 1]).collect();
    Mesh::from_vertices_and_connectivity(vec![0u8; vertices], connectivity)
}

/// An assembler written outside the library: `elements` one-node elements,
/// element `e` on node `e`. Its scalar for element `e` is `base + e`, its
/// vector and matrix are filled with that value, and element 1 fails.
struct Counting {
    elements: usize,
    nodes: usize,
    dim: usize,
    base: u32,
}

impl Counting {
    fn value(&self, element_index: usize) -> eyre::Result<u32> {
        if element_index == 1 {
            Err(eyre::Report::msg("element 1 is degenerate"))
        } else {
            Ok(self.base + element_index as u32)
        }
    }
}

impl ElementConnectivityAssembler for Counting {
    fn solution_dim(&self) -> usize {
        self.dim
    }

    fn num_elements(&self) -> usize {
        self.elements
    }

    fn num_nodes(&self) -> usize {
        self.nodes
    }

    fn element_node_count(&self, _element_index: usize) -> usize {
        1
    }

    fn populate_element_nodes(&self, output: &mut [usize], element_index: usize) {
        output[0] = element_index;
    }
}

impl ElementScalarAssembler<u32> for Counting {
    fn assemble_element_scalar(&self, element_index: usize) -> eyre::Result<u32> {
        self.value(element_index)
    }
}

impl ElementVectorAssembler<u32> for Counting {
    fn assemble_element_vector_into(
        &self,
        element_index: usize,
        output: &mut [u32],
    ) -> eyre::Result<()> {
        let value = self.value(element_index)?;
        output.fill(value);
        Ok(())
    }
}

impl ElementMatrixAssembler<u32> for Counting {
    fn assemble_element_matrix_into(
        &self,
        element_index: usize,
        output: &mut [u32],
    ) -> eyre::Result<()> {
        let value = self.value(element_index)?;
        output.fill(2 * value);
        Ok(())
    }
}

fn counting(elements: usize, nodes: usize, dim: usize, base: u32) -> Counting {
    Counting { elements, nodes, dim, base }
}

#[test]
fn aggregate_index_three_is_first_element_of_second_assembler() {
    let assemblers = vec![chain(10, 3, 0), chain(10, 2, 5)];
    let aggregate = AggregateElementAssembler::from_assemblers(&assemblers).unwrap();
    assert_eq!(aggregate.num_elements(), 5);
    assert_eq!(aggregate.solution_dim(), 1);
    assert_eq!(aggregate.num_nodes(), 10);
    let (owner, offset) = aggregate.find_assembler_and_offset_for_element_index(3);
    assert_eq!(offset, 3);
    assert!(std::ptr::eq(owner, &assemblers[1]));
    let mut nodes = [0usize; 2];
    aggregate.populate_element_nodes(&mut nodes, 3);
    assert_eq!(nodes, [5, 6]);
}

#[test]
fn aggregate_counts_the_elements_of_all_constituents() {
    let counts = [4usize, 1, 7, 2];
    let assemblers: Vec<Counting> = counts.iter().map(|&n| counting(n, 20, 3, 0)).collect();
    let aggregate = AggregateElementAssembler::from_assemblers(&assemblers).unwrap();
    assert_eq!(aggregate.num_elements(), 14);
    assert_eq!(aggregate.solution_dim(), 3);
    assert_eq!(aggregate.num_nodes(), 20);
}

#[test]
fn every_aggregate_index_has_exactly_one_owner() {
    let counts = [4usize, 1, 7, 2];
    let assemblers: Vec<Counting> = counts.iter().map(|&n| counting(n, 20, 1, 0)).collect();
    let aggregate = AggregateElementAssembler::from_assemblers(&assemblers).unwrap();
    let offsets = [0usize, 4, 5, 12];
    for index in 0..aggregate.num_elements() {
        let owners: Vec<usize> = (0..counts.len())
            .filter(|&k| offsets[k] <= index && index < offsets[k] + counts[k])
            .collect();
        assert_eq!(owners.len(), 1);
        let (owner, offset) = aggregate.find_assembler_and_offset_for_element_index(index);
        assert_eq!(offset, offsets[owners[0]]);
        assert!(std::ptr::eq(owner, &assemblers[owners[0]]));
        let mut nodes = [usize::MAX];
        aggregate.populate_element_nodes(&mut nodes, index);
        assert_eq!(nodes, [index - offset]);
        assert_eq!(aggregate.element_node_count(index), 1);
    }
}

#[test]
fn aggregate_of_a_single_assembler_is_that_assembler() {
    let assemblers = vec![chain(6, 5, 0)];
    let aggregate = AggregateElementAssembler::from_assemblers(&assemblers).unwrap();
    assert_eq!(aggregate.num_elements(), 5);
    for index in 0..5 {
        let (owner, offset) = aggregate.find_assembler_and_offset_for_element_index(index);
        assert_eq!(offset, 0);
        assert!(std::ptr::eq(owner, &assemblers[0]));
        let mut nodes = [0usize; 2];
        aggregate.populate_element_nodes(&mut nodes, index);
        assert_eq!(nodes, [index, index + 1]);
    }
}

#[test]
fn constituent_without_elements_owns_nothing() {
    let assemblers =
        vec![counting(2, 9, 1, 0), counting(0, 9, 1, 0), counting(0, 9, 1, 0), counting(3, 9, 1, 0)];
    let aggregate = AggregateElementAssembler::from_assemblers(&assemblers).unwrap();
    assert_eq!(aggregate.num_elements(), 5);
    let expected = [(0usize, 0usize), (0, 0), (3, 2), (3, 2), (3, 2)];
    for (index, (owner_index, owner_offset)) in expected.iter().enumerate() {
        let (owner, offset) = aggregate.find_assembler_and_offset_for_element_index(index);
        assert_eq!(offset, *owner_offset);
        assert!(std::ptr::eq(owner, &assemblers[*owner_index]));
    }
}

#[test]
fn aggregate_of_nothing_is_refused() {
    let assemblers: Vec<Mesh<u8, Vec<usize>>> = Vec::new();
    let result = AggregateElementAssembler::from_assemblers(&assemblers);
    assert_eq!(result.err(), Some(AggregateError::NoAssemblers));
}

#[test]
fn aggregate_of_mismatched_solution_dims_is_refused() {
    let assemblers = vec![counting(3, 4, 1, 0), counting(2, 4, 1, 0), counting(2, 4, 2, 0)];
    let result = AggregateElementAssembler::from_assemblers(&assemblers);
    assert_eq!(result.err(), Some(AggregateError::SolutionDimMismatch { assembler_index: 2 }));
}

#[test]
fn aggregate_of_mismatched_node_counts_is_refused() {
    let assemblers = vec![chain(10, 3, 0), chain(11, 2, 5)];
    let result = AggregateElementAssembler::from_assemblers(&assemblers);
    assert_eq!(result.err(), Some(AggregateError::NumNodesMismatch { assembler_index: 1 }));
}

#[test]
fn solution_dim_is_checked_before_node_count() {
    let assemblers = vec![counting(3, 4, 1, 0), counting(2, 5, 1, 0), counting(2, 4, 2, 0)];
    let result = AggregateElementAssembler::from_assemblers(&assemblers);
    assert_eq!(result.err(), Some(AggregateError::SolutionDimMismatch { assembler_index: 2 }));
}

#[test]
fn aggregate_with_too_many_elements_is_refused() {
    let assemblers = vec![counting(usize::MAX, 4, 1, 0), counting(1, 4, 1, 0)];
    let result = AggregateElementAssembler::from_assemblers(&assemblers);
    assert_eq!(result.err(), Some(AggregateError::TooManyElements));
    let assemblers = vec![counting(usize::MAX - 1, 4, 1, 0), counting(1, 4, 1, 0)];
    let aggregate = AggregateElementAssembler::from_assemblers(&assemblers).unwrap();
    assert_eq!(aggregate.num_elements(), usize::MAX);
}

#[test]
fn aggregate_scalar_comes_from_the_owner() {
    let assemblers = vec![counting(3, 4, 1, 100), counting(2, 4, 1, 200)];
    let aggregate = AggregateElementAssembler::from_assemblers(&assemblers).unwrap();
    assert_eq!(aggregate.assemble_element_scalar(0).unwrap(), 100);
    assert_eq!(aggregate.assemble_element_scalar(2).unwrap(), 102);
    assert_eq!(aggregate.assemble_element_scalar(3).unwrap(), 200);
}

#[test]
fn failure_of_one_element_leaves_the_others_alone() {
    let assemblers = vec![counting(3, 4, 1, 100), counting(2, 4, 1, 200)];
    let aggregate = AggregateElementAssembler::from_assemblers(&assemblers).unwrap();
    // Local element 1 fails in each constituent: aggregate elements 1 and 4.
    let outcomes: Vec<Option<u32>> =
        (0..5).map(|index| aggregate.assemble_element_scalar(index).ok()).collect();
    assert_eq!(outcomes, vec![Some(100), None, Some(102), Some(200), None]);
    let error = aggregate.assemble_element_scalar(4).unwrap_err();
    assert_eq!(error.to_string(), "element 1 is degenerate");
}

#[test]
fn aggregate_vector_and_matrix_come_from_the_owner() {
    let assemblers = vec![counting(3, 4, 2, 100), counting(2, 4, 2, 200)];
    let aggregate = AggregateElementAssembler::from_assemblers(&assemblers).unwrap();
    let mut vector = [0u32; 2];
    aggregate.assemble_element_vector_into(3, &mut vector).unwrap();
    assert_eq!(vector, [200, 200]);
    let mut matrix = [0u32; 4];
    aggregate.assemble_element_matrix_into(2, &mut matrix).unwrap();
    assert_eq!(matrix, [204, 204, 204, 204]);
    let mut untouched = [7u32; 2];
    assert!(aggregate.assemble_element_vector_into(4, &mut untouched).is_err());
    assert_eq!(untouched, [7, 7]);
}

#[test]
fn last_offset_at_most_picks_the_last_of_equal_offsets() {
    assert_eq!(last_offset_at_most(&[0, 2, 2, 5], 2), 2);
    assert_eq!(last_offset_at_most(&[0, 2, 2, 5], 1), 0);
    assert_eq!(last_offset_at_most(&[0, 2, 2, 5], 4), 2);
    assert_eq!(last_offset_at_most(&[0, 2, 2, 5], 5), 3);
    assert_eq!(last_offset_at_most(&[0, 2, 2, 5], 9), 3);
    assert_eq!(last_offset_at_most(&[0], 0), 0);
    assert_eq!(last_offset_at_most(&[0], usize::MAX), 0);
}
