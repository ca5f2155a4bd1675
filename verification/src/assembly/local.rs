//! Element assemblers indexed by connectivity, and the combinators that
//! compose them.
use crate::assembly::offsets::{
    element_offset, is_offset_table, last_offset_at_most, lemma_last_offset_is_owner,
    lemma_offsets_monotonic, lemma_partition, owner_of, owns_element, total_elements,
};
use crate::connectivity::Connectivity;
use crate::mesh::Mesh;
use vstd::prelude::*;

verus! {

/// Every node index in `nodes` lies in a node space of `num_nodes` nodes.
pub open spec fn element_nodes_in_range(nodes: Seq<usize>, num_nodes: nat) -> bool {
    forall|i: int| 0 <= i < nodes.len() ==> (#[trigger] nodes[i]) < num_nodes
}

/// Connectivity of a collection of elements: how many elements and nodes there
/// are, and which global nodes each element touches.
///
/// The specification functions are the mathematical model of an assembler; each
/// executable method returns what the model says.
pub trait ElementConnectivityAssembler {
    /// The assembler's own validity condition. Every element-indexed operation
    /// requires it. An implementor that states none is never valid.
    open spec fn wf(&self) -> bool {
        false
    }

    /// Number of scalar unknowns per node.
    open spec fn spec_solution_dim(&self) -> nat {
        arbitrary()
    }

    /// Number of elements.
    open spec fn spec_num_elements(&self) -> nat {
        arbitrary()
    }

    /// Number of nodes in the global index space.
    open spec fn spec_num_nodes(&self) -> nat {
        arbitrary()
    }

    /// Number of nodes of one element.
    open spec fn spec_element_node_count(&self, element_index: int) -> nat {
        arbitrary()
    }

    /// `nodes` are the global node indices of one element, in local order, as
    /// the assembler may give them.
    open spec fn is_element_nodes(&self, element_index: int, nodes: Seq<usize>) -> bool {
        true
    }

    fn solution_dim(&self) -> (dim: usize)
        ensures
            dim == self.spec_solution_dim(),
    ;

    fn num_elements(&self) -> (count: usize)
        ensures
            count == self.spec_num_elements(),
    ;

    fn num_nodes(&self) -> (count: usize)
        ensures
            count == self.spec_num_nodes(),
    ;

    fn element_node_count(&self, element_index: usize) -> (count: usize)
        requires
            self.wf(),
            element_index < self.spec_num_elements(),
        ensures
            count == self.spec_element_node_count(element_index as int),
    ;

    /// Fills `output`, which has room for exactly the nodes of the element,
    /// with the element's global node indices. Every index lies in the
    /// assembler's node space.
    fn populate_element_nodes(&self, output: &mut [usize], element_index: usize)
        requires
            self.wf(),
            element_index < self.spec_num_elements(),
            old(output)@.len() == self.spec_element_node_count(element_index as int),
        ensures
            final(output)@.len() == old(output)@.len(),
            self.is_element_nodes(element_index as int, final(output)@),
            element_nodes_in_range(final(output)@, self.spec_num_nodes()),
    ;

    /// Returns an adapter that passes each node index of this assembler
    /// through `f` and reports `new_num_nodes` as its node count.
    ///
    /// This serves to embed an assembler into a larger index space, for
    /// example by offsetting its indices. The adapter checks nothing: it is
    /// valid, and can be asked for nodes, only if `f` accepts every node index
    /// of this assembler and maps it below `new_num_nodes`.
    fn map_element_nodes<F>(self, new_num_nodes: usize, f: F) -> (adapter: MapElementNodes<
        Self,
        F,
    >) where Self: Sized
        ensures
            adapter.mapped() == self,
            adapter.function() == f,
            adapter.num_nodes_override() == new_num_nodes,
    {
        MapElementNodes { mapped: self, function: f, num_nodes: new_num_nodes }
    }
}

/// A mesh is the assembler of a scalar field on its vertices: its elements are
/// its cells and its nodes are its vertices.
impl<Vertex, C> ElementConnectivityAssembler for Mesh<Vertex, C> where C: Connectivity {
    /// Every cell names only vertices that the mesh has.
    open spec fn wf(&self) -> bool {
        self.cells_in_range()
    }

    open spec fn spec_solution_dim(&self) -> nat {
        1
    }

    open spec fn spec_num_elements(&self) -> nat {
        self.spec_connectivity().len()
    }

    open spec fn spec_num_nodes(&self) -> nat {
        self.spec_vertices().len()
    }

    open spec fn spec_element_node_count(&self, element_index: int) -> nat {
        self.spec_connectivity()[element_index].spec_vertex_indices().len()
    }

    open spec fn is_element_nodes(&self, element_index: int, nodes: Seq<usize>) -> bool {
        nodes == self.spec_connectivity()[element_index].spec_vertex_indices()
    }

    fn solution_dim(&self) -> (dim: usize) {
        1
    }

    fn num_elements(&self) -> (count: usize) {
        self.connectivity().len()
    }

    fn num_nodes(&self) -> (count: usize) {
        self.vertices().len()
    }

    fn element_node_count(&self, element_index: usize) -> (count: usize) {
        self.connectivity()[element_index].vertex_indices().len()
    }

    fn populate_element_nodes(&self, output: &mut [usize], element_index: usize) {
        let indices: &[usize] = self.connectivity()[element_index].vertex_indices();
        let count: usize = indices.len();
        let mut i: usize = 0;
        while i < count
            invariant
                i <= count,
                count == indices@.len(),
                output@.len() == count,
                forall|j: int| 0 <= j < i ==> #[trigger] output@[j] == indices@[j],
            decreases count - i,
        {
            output[i] = indices[i];
            i += 1;
        }
        assert(output@ =~= indices@);
    }
}

/// `eyre::Report`, the error with which an element assembler reports a
/// numerical failure. Nothing is claimed of it: it is handed on unread.
#[verifier::external_type_specification]
#[verifier::external_body]
pub struct ExReport(eyre::Report);

/// Number of entries of the local vector of an element with `node_count`
/// nodes and `solution_dim` unknowns per node.
pub open spec fn element_vector_len(node_count: nat, solution_dim: nat) -> nat {
    node_count * solution_dim
}

/// Number of entries of the local matrix of such an element, which is square.
pub open spec fn element_matrix_len(node_count: nat, solution_dim: nat) -> nat {
    (node_count * solution_dim) * (node_count * solution_dim)
}

/// An assembler that computes one dense square matrix per element.
pub trait ElementMatrixAssembler<T>: ElementConnectivityAssembler {
    /// `result` and the entries `after` are a possible outcome of assembling
    /// the matrix of an element into storage that held `before`.
    open spec fn element_matrix_assembled(
        &self,
        element_index: int,
        before: Seq<T>,
        after: Seq<T>,
        result: Result<(), eyre::Report>,
    ) -> bool {
        true
    }

    /// Writes the local matrix of one element into `output`, which the caller
    /// owns and which has one entry per pair of local unknowns. A numerical
    /// failure is reported as an error.
    fn assemble_element_matrix_into(&self, element_index: usize, output: &mut [T]) -> (result:
        Result<(), eyre::Report>)
        requires
            self.wf(),
            element_index < self.spec_num_elements(),
            old(output)@.len() == element_matrix_len(
                self.spec_element_node_count(element_index as int),
                self.spec_solution_dim(),
            ),
        ensures
            final(output)@.len() == old(output)@.len(),
            self.element_matrix_assembled(
                element_index as int,
                old(output)@,
                final(output)@,
                result,
            ),
    ;
}

/// An assembler that computes one dense vector per element.
pub trait ElementVectorAssembler<T>: ElementConnectivityAssembler {
    /// `result` and the entries `after` are a possible outcome of assembling
    /// the vector of an element into storage that held `before`.
    open spec fn element_vector_assembled(
        &self,
        element_index: int,
        before: Seq<T>,
        after: Seq<T>,
        result: Result<(), eyre::Report>,
    ) -> bool {
        true
    }

    /// Writes the local vector of one element into `output`, which the caller
    /// owns and which has one entry per local unknown. A numerical failure is
    /// reported as an error.
    fn assemble_element_vector_into(&self, element_index: usize, output: &mut [T]) -> (result:
        Result<(), eyre::Report>)
        requires
            self.wf(),
            element_index < self.spec_num_elements(),
            old(output)@.len() == element_vector_len(
                self.spec_element_node_count(element_index as int),
                self.spec_solution_dim(),
            ),
        ensures
            final(output)@.len() == old(output)@.len(),
            self.element_vector_assembled(
                element_index as int,
                old(output)@,
                final(output)@,
                result,
            ),
    ;
}

/// An assembler that computes one scalar per element.
pub trait ElementScalarAssembler<T>: ElementConnectivityAssembler {
    /// `result` is a possible outcome of assembling the scalar of an element.
    open spec fn element_scalar_assembled(
        &self,
        element_index: int,
        result: Result<T, eyre::Report>,
    ) -> bool {
        true
    }

    /// The scalar contribution of one element. A numerical failure is reported
    /// as an error.
    fn assemble_element_scalar(&self, element_index: usize) -> (result: Result<T, eyre::Report>)
        requires
            self.wf(),
            element_index < self.spec_num_elements(),
        ensures
            self.element_scalar_assembled(element_index as int, result),
    ;
}

/// `f` is a map of node indices from a space of `domain` nodes into a space of
/// `codomain` nodes: it accepts every index below `domain`, and whatever it
/// returns for one lies below `codomain`.
pub open spec fn is_node_map<F: Fn(usize) -> usize>(f: F, domain: nat, codomain: nat) -> bool {
    forall|node: usize|
        node < domain ==> {
            &&& #[trigger] call_requires(f, (node,))
            &&& forall|image: usize| #[trigger]
                call_ensures(f, (node,), image) ==> image < codomain
        }
}

/// `f` returns each node index below `domain` unchanged.
pub open spec fn is_identity_on<F: Fn(usize) -> usize>(f: F, domain: nat) -> bool {
    forall|node: usize, image: usize|
        node < domain && #[trigger] call_ensures(f, (node,), image) ==> image == node
}

/// `images` are what `f` may return for the node indices `nodes`, one by one.
pub open spec fn is_remapped<F: Fn(usize) -> usize>(f: F, nodes: Seq<usize>, images: Seq<usize>) -> bool {
    &&& images.len() == nodes.len()
    &&& forall|i: int| 0 <= i < nodes.len() ==> call_ensures(f, (nodes[i],), #[trigger] images[i])
}

/// An assembler whose node indices are those of another assembler passed
/// through a function, within a node space of another size.
#[derive(Debug, Clone)]
pub struct MapElementNodes<Mapped, F> {
    mapped: Mapped,
    function: F,
    num_nodes: usize,
}

impl<Mapped, F> MapElementNodes<Mapped, F> {
    /// The assembler whose nodes are mapped.
    pub closed spec fn mapped(&self) -> Mapped {
        self.mapped
    }

    /// The function that maps the node indices.
    pub closed spec fn function(&self) -> F {
        self.function
    }

    /// The node count that the adapter reports.
    pub closed spec fn num_nodes_override(&self) -> usize {
        self.num_nodes
    }
}

impl<Assembler, F> ElementConnectivityAssembler for MapElementNodes<Assembler, F> where
    Assembler: ElementConnectivityAssembler,
    F: Fn(usize) -> usize,
 {
    /// The mapped assembler is valid and the function maps its node space into
    /// the adapter's.
    open spec fn wf(&self) -> bool {
        &&& self.mapped().wf()
        &&& is_node_map(
            self.function(),
            self.mapped().spec_num_nodes(),
            self.num_nodes_override() as nat,
        )
    }

    open spec fn spec_solution_dim(&self) -> nat {
        self.mapped().spec_solution_dim()
    }

    open spec fn spec_num_elements(&self) -> nat {
        self.mapped().spec_num_elements()
    }

    open spec fn spec_num_nodes(&self) -> nat {
        self.num_nodes_override() as nat
    }

    open spec fn spec_element_node_count(&self, element_index: int) -> nat {
        self.mapped().spec_element_node_count(element_index)
    }

    /// The nodes are what the function may return for nodes that the mapped
    /// assembler may give, which lie in its node space.
    open spec fn is_element_nodes(&self, element_index: int, nodes: Seq<usize>) -> bool {
        exists|inner: Seq<usize>|
            {
                &&& #[trigger] self.mapped().is_element_nodes(element_index, inner)
                &&& element_nodes_in_range(inner, self.mapped().spec_num_nodes())
                &&& is_remapped(self.function(), inner, nodes)
            }
    }

    fn solution_dim(&self) -> (dim: usize) {
        self.mapped.solution_dim()
    }

    fn num_elements(&self) -> (count: usize) {
        self.mapped.num_elements()
    }

    fn num_nodes(&self) -> (count: usize) {
        self.num_nodes
    }

    fn element_node_count(&self, element_index: usize) -> (count: usize) {
        self.mapped.element_node_count(element_index)
    }

    fn populate_element_nodes(&self, output: &mut [usize], element_index: usize) {
        self.mapped.populate_element_nodes(output, element_index);
        let ghost inner = output@;
        let count: usize = output.len();
        let mut i: usize = 0;
        while i < count
            invariant
                i <= count,
                count == inner.len(),
                output@.len() == count,
                is_node_map(
                    self.function,
                    self.mapped.spec_num_nodes(),
                    self.num_nodes as nat,
                ),
                element_nodes_in_range(inner, self.mapped.spec_num_nodes()),
                forall|j: int|
                    0 <= j < i ==> call_ensures(self.function, (inner[j],), #[trigger] output@[j])
                        && output@[j] < self.num_nodes,
                forall|j: int| i <= j < count ==> #[trigger] output@[j] == inner[j],
            decreases count - i,
        {
            let node: usize = output[i];
            assert(node == inner[i as int]);
            assert(call_requires(self.function, (node,)));
            let image: usize = (self.function)(node);
            output[i] = image;
            i += 1;
        }
        assert(is_remapped(self.function(), inner, output@));
    }
}

impl<T, Assembler, F> ElementScalarAssembler<T> for MapElementNodes<Assembler, F> where
    Assembler: ElementScalarAssembler<T>,
    F: Fn(usize) -> usize,
 {
    /// The outcomes are those of the mapped assembler.
    open spec fn element_scalar_assembled(
        &self,
        element_index: int,
        result: Result<T, eyre::Report>,
    ) -> bool {
        self.mapped().element_scalar_assembled(element_index, result)
    }

    fn assemble_element_scalar(&self, element_index: usize) -> (result: Result<T, eyre::Report>) {
        self.mapped.assemble_element_scalar(element_index)
    }
}

impl<T, Assembler, F> ElementVectorAssembler<T> for MapElementNodes<Assembler, F> where
    Assembler: ElementVectorAssembler<T>,
    F: Fn(usize) -> usize,
 {
    /// The outcomes are those of the mapped assembler.
    open spec fn element_vector_assembled(
        &self,
        element_index: int,
        before: Seq<T>,
        after: Seq<T>,
        result: Result<(), eyre::Report>,
    ) -> bool {
        self.mapped().element_vector_assembled(element_index, before, after, result)
    }

    fn assemble_element_vector_into(&self, element_index: usize, output: &mut [T]) -> (result:
        Result<(), eyre::Report>) {
        self.mapped.assemble_element_vector_into(element_index, output)
    }
}

impl<T, Assembler, F> ElementMatrixAssembler<T> for MapElementNodes<Assembler, F> where
    Assembler: ElementMatrixAssembler<T>,
    F: Fn(usize) -> usize,
 {
    /// The outcomes are those of the mapped assembler.
    open spec fn element_matrix_assembled(
        &self,
        element_index: int,
        before: Seq<T>,
        after: Seq<T>,
        result: Result<(), eyre::Report>,
    ) -> bool {
        self.mapped().element_matrix_assembled(element_index, before, after, result)
    }

    fn assemble_element_matrix_into(&self, element_index: usize, output: &mut [T]) -> (result:
        Result<(), eyre::Report>) {
        self.mapped.assemble_element_matrix_into(element_index, output)
    }
}

/// Mapping the nodes of an assembler through the identity changes nothing but
/// the node count, which is the one given to the adapter: solution dimension,
/// element count and the node count of every element are those of the mapped
/// assembler, and whatever nodes the adapter gives for an element, the mapped
/// assembler gives too.
pub proof fn lemma_identity_map_preserves_connectivity<Assembler, F>(
    adapter: MapElementNodes<Assembler, F>,
    element_index: int,
    nodes: Seq<usize>,
) where Assembler: ElementConnectivityAssembler, F: Fn(usize) -> usize
    requires
        is_identity_on(adapter.function(), adapter.mapped().spec_num_nodes()),
    ensures
        adapter.spec_solution_dim() == adapter.mapped().spec_solution_dim(),
        adapter.spec_num_elements() == adapter.mapped().spec_num_elements(),
        adapter.spec_element_node_count(element_index) == adapter.mapped().spec_element_node_count(
            element_index,
        ),
        adapter.spec_num_nodes() == adapter.num_nodes_override(),
        adapter.is_element_nodes(element_index, nodes) ==> adapter.mapped().is_element_nodes(
            element_index,
            nodes,
        ),
{
    if adapter.is_element_nodes(element_index, nodes) {
        let inner = choose|inner: Seq<usize>|
            {
                &&& #[trigger] adapter.mapped().is_element_nodes(element_index, inner)
                &&& element_nodes_in_range(inner, adapter.mapped().spec_num_nodes())
                &&& is_remapped(adapter.function(), inner, nodes)
            };
        assert forall|i: int| 0 <= i < inner.len() implies nodes[i] == inner[i] by {
            assert(call_ensures(adapter.function(), (inner[i],), nodes[i]));
        }
        assert(nodes =~= inner);
    }
}

/// Whatever function maps the nodes, the matrix, vector and scalar that the
/// adapter assembles for an element are those of the mapped assembler.
pub proof fn lemma_map_preserves_assembly<T, Assembler, F>(
    adapter: MapElementNodes<Assembler, F>,
    element_index: int,
) where
    Assembler: ElementMatrixAssembler<T> + ElementVectorAssembler<T> + ElementScalarAssembler<T>,
    F: Fn(usize) -> usize,

    ensures
        forall|before: Seq<T>, after: Seq<T>, result: Result<(), eyre::Report>|
            adapter.element_matrix_assembled(element_index, before, after, result)
                == adapter.mapped().element_matrix_assembled(element_index, before, after, result),
        forall|before: Seq<T>, after: Seq<T>, result: Result<(), eyre::Report>|
            adapter.element_vector_assembled(element_index, before, after, result)
                == adapter.mapped().element_vector_assembled(element_index, before, after, result),
        forall|result: Result<T, eyre::Report>|
            adapter.element_scalar_assembled(element_index, result)
                == adapter.mapped().element_scalar_assembled(element_index, result),
{
}

/// The element count of each assembler, in order.
pub open spec fn element_counts<A: ElementConnectivityAssembler>(assemblers: Seq<A>) -> Seq<nat> {
    Seq::new(assemblers.len(), |k: int| assemblers[k].spec_num_elements())
}

/// All assemblers have the solution dimension of the first.
pub open spec fn uniform_solution_dim<A: ElementConnectivityAssembler>(assemblers: Seq<A>) -> bool {
    forall|k: int|
        0 <= k < assemblers.len() ==> (#[trigger] assemblers[k]).spec_solution_dim()
            == assemblers[0].spec_solution_dim()
}

/// All assemblers index into a node space of the size of the first.
pub open spec fn uniform_num_nodes<A: ElementConnectivityAssembler>(assemblers: Seq<A>) -> bool {
    forall|k: int|
        0 <= k < assemblers.len() ==> (#[trigger] assemblers[k]).spec_num_nodes()
            == assemblers[0].spec_num_nodes()
}

/// Assembler `k` is the first whose solution dimension differs from that of
/// the first assembler.
pub open spec fn first_solution_dim_mismatch<A: ElementConnectivityAssembler>(
    assemblers: Seq<A>,
    k: int,
) -> bool {
    &&& 0 < k < assemblers.len()
    &&& assemblers[k].spec_solution_dim() != assemblers[0].spec_solution_dim()
    &&& uniform_solution_dim(assemblers.take(k))
}

/// Assembler `k` is the first whose node count differs from that of the first
/// assembler.
pub open spec fn first_num_nodes_mismatch<A: ElementConnectivityAssembler>(
    assemblers: Seq<A>,
    k: int,
) -> bool {
    &&& 0 < k < assemblers.len()
    &&& assemblers[k].spec_num_nodes() != assemblers[0].spec_num_nodes()
    &&& uniform_num_nodes(assemblers.take(k))
}

/// Why a sequence of assemblers cannot be aggregated.
#[derive(Copy, Clone, Debug, PartialEq, Eq, Structural)]
pub enum AggregateError {
    /// There is no assembler at all.
    NoAssemblers,
    /// The assembler at this position has another solution dimension than the
    /// first one.
    SolutionDimMismatch { assembler_index: usize },
    /// The assembler at this position has another node count than the first
    /// one.
    NumNodesMismatch { assembler_index: usize },
    /// The element counts do not add up to a representable number.
    TooManyElements,
}

/// Several assemblers over one node index space, presented as a single
/// assembler whose elements are those of the constituents, one constituent
/// after the other.
#[derive(Debug, Clone)]
pub struct AggregateElementAssembler<'a, ElementAssembler> {
    assemblers: &'a [ElementAssembler],
    solution_dim: usize,
    num_elements: usize,
    num_nodes: usize,
    element_offsets: Vec<usize>,
}

impl<'a, ElementAssembler> AggregateElementAssembler<'a, ElementAssembler> where
    ElementAssembler: ElementConnectivityAssembler,
 {
    /// The aggregated assemblers, in order.
    pub closed spec fn constituents(&self) -> Seq<ElementAssembler> {
        self.assemblers@
    }

    /// The invariant of the aggregate: it is not empty, its constituents agree
    /// on solution dimension and node count, and its stored offsets and totals
    /// are those of the constituents' element counts.
    pub closed spec fn well_formed(&self) -> bool {
        &&& self.assemblers@.len() > 0
        &&& uniform_solution_dim(self.assemblers@)
        &&& uniform_num_nodes(self.assemblers@)
        &&& self.solution_dim == self.assemblers@[0].spec_solution_dim()
        &&& self.num_nodes == self.assemblers@[0].spec_num_nodes()
        &&& is_offset_table(self.element_offsets@, element_counts(self.assemblers@))
        &&& self.num_elements == total_elements(element_counts(self.assemblers@))
    }

    /// Aggregates `assemblers`, or says why they cannot be aggregated. The
    /// checks are made in the order of the error's variants, and nothing is
    /// built unless all of them pass.
    pub fn from_assemblers(assemblers: &'a [ElementAssembler]) -> (result: Result<
        Self,
        AggregateError,
    >)
        ensures
            match result {
                Ok(aggregate) => {
                    &&& aggregate.well_formed()
                    &&& aggregate.constituents() == assemblers@
                    &&& aggregate.spec_num_elements() == total_elements(element_counts(assemblers@))
                    &&& aggregate.spec_solution_dim() == assemblers@[0].spec_solution_dim()
                    &&& aggregate.spec_num_nodes() == assemblers@[0].spec_num_nodes()
                    &&& assemblers@.len() > 0
                    &&& uniform_solution_dim(assemblers@)
                    &&& uniform_num_nodes(assemblers@)
                    &&& total_elements(element_counts(assemblers@)) <= usize::MAX
                },
                Err(AggregateError::NoAssemblers) => assemblers@.len() == 0,
                Err(AggregateError::SolutionDimMismatch { assembler_index }) => {
                    first_solution_dim_mismatch(assemblers@, assembler_index as int)
                },
                Err(AggregateError::NumNodesMismatch { assembler_index }) => {
                    &&& uniform_solution_dim(assemblers@)
                    &&& first_num_nodes_mismatch(assemblers@, assembler_index as int)
                },
                Err(AggregateError::TooManyElements) => {
                    &&& assemblers@.len() > 0
                    &&& uniform_solution_dim(assemblers@)
                    &&& uniform_num_nodes(assemblers@)
                    &&& total_elements(element_counts(assemblers@)) > usize::MAX
                },
            },
    {
        let count: usize = assemblers.len();
        if count == 0 {
            return Err(AggregateError::NoAssemblers);
        }
        let solution_dim: usize = assemblers[0].solution_dim();
        let num_nodes: usize = assemblers[0].num_nodes();

        let mut k: usize = 1;
        while k < count
            invariant
                1 <= k <= count,
                count == assemblers@.len(),
                solution_dim == assemblers@[0].spec_solution_dim(),
                uniform_solution_dim(assemblers@.take(k as int)),
            decreases count - k,
        {
            if assemblers[k].solution_dim() != solution_dim {
                return Err(AggregateError::SolutionDimMismatch { assembler_index: k });
            }
            proof {
                let longer = assemblers@.take(k + 1);
                assert forall|j: int| 0 <= j < longer.len() implies (
                #[trigger] longer[j]).spec_solution_dim() == longer[0].spec_solution_dim() by {
                    if j < k {
                        assert(assemblers@.take(k as int)[j] == longer[j]);
                    }
                }
            }
            k += 1;
        }
        assert(assemblers@.take(count as int) =~= assemblers@);

        let mut k: usize = 1;
        while k < count
            invariant
                1 <= k <= count,
                count == assemblers@.len(),
                num_nodes == assemblers@[0].spec_num_nodes(),
                uniform_solution_dim(assemblers@),
                uniform_num_nodes(assemblers@.take(k as int)),
            decreases count - k,
        {
            if assemblers[k].num_nodes() != num_nodes {
                return Err(AggregateError::NumNodesMismatch { assembler_index: k });
            }
            proof {
                let longer = assemblers@.take(k + 1);
                assert forall|j: int| 0 <= j < longer.len() implies (
                #[trigger] longer[j]).spec_num_nodes() == longer[0].spec_num_nodes() by {
                    if j < k {
                        assert(assemblers@.take(k as int)[j] == longer[j]);
                    }
                }
            }
            k += 1;
        }
        assert(assemblers@.take(count as int) =~= assemblers@);

        let ghost counts = element_counts(assemblers@);
        let mut num_total_elements: usize = 0;
        let mut element_offsets: Vec<usize> = Vec::with_capacity(count);
        let mut k: usize = 0;
        while k < count
            invariant
                k <= count,
                count == assemblers@.len(),
                counts == element_counts(assemblers@),
                uniform_solution_dim(assemblers@),
                uniform_num_nodes(assemblers@),
                element_offsets@.len() == k,
                num_total_elements == element_offset(counts, k as int),
                forall|j: int|
                    0 <= j < k ==> #[trigger] element_offsets@[j] == element_offset(counts, j),
            decreases count - k,
        {
            let elements: usize = assemblers[k].num_elements();
            assert(element_offset(counts, k + 1) == element_offset(counts, k as int)
                + counts[k as int]);
            if elements > usize::MAX - num_total_elements {
                proof {
                    lemma_offsets_monotonic(counts, k + 1, count as int);
                }
                return Err(AggregateError::TooManyElements);
            }
            element_offsets.push(num_total_elements);
            num_total_elements += elements;
            k += 1;
        }

        Ok(
            Self {
                assemblers,
                solution_dim,
                element_offsets,
                num_elements: num_total_elements,
                num_nodes,
            },
        )
    }

    /// The constituent that owns the aggregate element `element_index`,
    /// together with the aggregate index of that constituent's first element.
    pub fn find_assembler_and_offset_for_element_index(&self, element_index: usize) -> (found: (
        &ElementAssembler,
        usize,
    ))
        requires
            self.well_formed(),
            element_index < total_elements(element_counts(self.constituents())),
        ensures
            ({
                let counts = element_counts(self.constituents());
                let k = owner_of(counts, element_index as int);
                &&& owns_element(counts, k, element_index as int)
                &&& *found.0 == self.constituents()[k]
                &&& found.1 == element_offset(counts, k)
            }),
    {
        let ghost counts = element_counts(self.assemblers@);
        proof {
            assert forall|i: int, j: int|
                0 <= i <= j < self.element_offsets@.len() implies self.element_offsets@[i]
                <= self.element_offsets@[j] by {
                lemma_offsets_monotonic(counts, i, j);
            }
        }
        let assembler_idx: usize = last_offset_at_most(
            self.element_offsets.as_slice(),
            element_index,
        );
        proof {
            lemma_last_offset_is_owner(
                self.element_offsets@,
                counts,
                assembler_idx as int,
                element_index as int,
            );
        }
        (&self.assemblers[assembler_idx], self.element_offsets[assembler_idx])
    }
}

impl<'a, ElementAssembler> AggregateElementAssembler<'a, ElementAssembler> where
    ElementAssembler: ElementConnectivityAssembler,
 {
    /// The constituent that owns the aggregate element `element_index`.
    pub open spec fn owner(&self, element_index: int) -> ElementAssembler {
        self.constituents()[owner_of(element_counts(self.constituents()), element_index)]
    }

    /// The index that the aggregate element `element_index` has within the
    /// constituent that owns it.
    pub open spec fn local_index(&self, element_index: int) -> int {
        let counts = element_counts(self.constituents());
        element_index - element_offset(counts, owner_of(counts, element_index))
    }

    /// What a well-formed aggregate reports: the sum of its constituents'
    /// element counts, and the solution dimension and node count that they
    /// share. Every element of the aggregate is an element of its owner.
    pub proof fn lemma_model(&self)
        requires
            self.well_formed(),
        ensures
            self.constituents().len() > 0,
            uniform_solution_dim(self.constituents()),
            uniform_num_nodes(self.constituents()),
            self.spec_num_elements() == total_elements(element_counts(self.constituents())),
            self.spec_solution_dim() == self.constituents()[0].spec_solution_dim(),
            self.spec_num_nodes() == self.constituents()[0].spec_num_nodes(),
            forall|i: int|
                0 <= i < self.spec_num_elements() ==> 0 <= #[trigger] self.local_index(i)
                    < self.owner(i).spec_num_elements(),
    {
        let counts = element_counts(self.constituents());
        assert forall|i: int| 0 <= i < self.spec_num_elements() implies 0
            <= #[trigger] self.local_index(i) < self.owner(i).spec_num_elements() by {
            lemma_partition(counts, i);
        }
    }
}

impl<'a, ElementAssembler> ElementConnectivityAssembler for AggregateElementAssembler<
    'a,
    ElementAssembler,
> where ElementAssembler: ElementConnectivityAssembler {
    /// The aggregate is well formed and so is every constituent.
    open spec fn wf(&self) -> bool {
        &&& self.well_formed()
        &&& forall|k: int|
            0 <= k < self.constituents().len() ==> (#[trigger] self.constituents()[k]).wf()
    }

    closed spec fn spec_solution_dim(&self) -> nat {
        self.solution_dim as nat
    }

    closed spec fn spec_num_elements(&self) -> nat {
        self.num_elements as nat
    }

    closed spec fn spec_num_nodes(&self) -> nat {
        self.num_nodes as nat
    }

    open spec fn spec_element_node_count(&self, element_index: int) -> nat {
        self.owner(element_index).spec_element_node_count(self.local_index(element_index))
    }

    /// The nodes of an aggregate element are those that its owner gives for
    /// the element's local index.
    open spec fn is_element_nodes(&self, element_index: int, nodes: Seq<usize>) -> bool {
        self.owner(element_index).is_element_nodes(self.local_index(element_index), nodes)
    }

    fn solution_dim(&self) -> (dim: usize) {
        self.solution_dim
    }

    fn num_elements(&self) -> (count: usize) {
        self.num_elements
    }

    fn num_nodes(&self) -> (count: usize) {
        self.num_nodes
    }

    fn element_node_count(&self, aggregate_element_index: usize) -> (count: usize) {
        let (assembler, element_offset) = self.find_assembler_and_offset_for_element_index(
            aggregate_element_index,
        );
        assembler.element_node_count(aggregate_element_index - element_offset)
    }

    fn populate_element_nodes(&self, output: &mut [usize], aggregate_element_index: usize) {
        let (assembler, element_offset) = self.find_assembler_and_offset_for_element_index(
            aggregate_element_index,
        );
        assembler.populate_element_nodes(output, aggregate_element_index - element_offset)
    }
}

impl<'a, T, ElementAssembler> ElementScalarAssembler<T> for AggregateElementAssembler<
    'a,
    ElementAssembler,
> where ElementAssembler: ElementScalarAssembler<T> {
    /// The outcomes for an aggregate element are those of its owner for the
    /// element's local index.
    open spec fn element_scalar_assembled(
        &self,
        element_index: int,
        result: Result<T, eyre::Report>,
    ) -> bool {
        self.owner(element_index).element_scalar_assembled(self.local_index(element_index), result)
    }

    fn assemble_element_scalar(&self, aggregate_element_index: usize) -> (result: Result<
        T,
        eyre::Report,
    >) {
        let (assembler, element_offset) = self.find_assembler_and_offset_for_element_index(
            aggregate_element_index,
        );
        assembler.assemble_element_scalar(aggregate_element_index - element_offset)
    }
}

impl<'a, T, ElementAssembler> ElementVectorAssembler<T> for AggregateElementAssembler<
    'a,
    ElementAssembler,
> where ElementAssembler: ElementVectorAssembler<T> {
    /// The outcomes for an aggregate element are those of its owner for the
    /// element's local index.
    open spec fn element_vector_assembled(
        &self,
        element_index: int,
        before: Seq<T>,
        after: Seq<T>,
        result: Result<(), eyre::Report>,
    ) -> bool {
        self.owner(element_index).element_vector_assembled(
            self.local_index(element_index),
            before,
            after,
            result,
        )
    }

    fn assemble_element_vector_into(&self, aggregate_element_index: usize, output: &mut [T]) -> (result:
        Result<(), eyre::Report>) {
        let (assembler, element_offset) = self.find_assembler_and_offset_for_element_index(
            aggregate_element_index,
        );
        assembler.assemble_element_vector_into(aggregate_element_index - element_offset, output)
    }
}

impl<'a, T, ElementAssembler> ElementMatrixAssembler<T> for AggregateElementAssembler<
    'a,
    ElementAssembler,
> where ElementAssembler: ElementMatrixAssembler<T> {
    /// The outcomes for an aggregate element are those of its owner for the
    /// element's local index.
    open spec fn element_matrix_assembled(
        &self,
        element_index: int,
        before: Seq<T>,
        after: Seq<T>,
        result: Result<(), eyre::Report>,
    ) -> bool {
        self.owner(element_index).element_matrix_assembled(
            self.local_index(element_index),
            before,
            after,
            result,
        )
    }

    fn assemble_element_matrix_into(&self, aggregate_element_index: usize, output: &mut [T]) -> (result:
        Result<(), eyre::Report>) {
        let (assembler, element_offset) = self.find_assembler_and_offset_for_element_index(
            aggregate_element_index,
        );
        assembler.assemble_element_matrix_into(aggregate_element_index - element_offset, output)
    }
}

} // verus!
