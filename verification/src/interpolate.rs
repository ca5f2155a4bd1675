//! Closest-element lookup: a spatial index over the bounding boxes of the
//! elements of a space, and the queries that it answers.
use crate::geometry::{
    axis_distance_2, box_distance_2, box_distance_2_along, clamped, coordinate_in_range,
    coordinates_in_range, AxisAlignedBoundingBox, COORDINATE_LIMIT,
};
use crate::space::{FiniteElementConnectivity, GeometricFiniteElementSpace};
use rstar::primitives::{GeomWithData, Rectangle};
use rstar::RTree;
use vstd::prelude::*;

verus! {

/// An r-tree of three-dimensional boxes, each with the index of the element
/// that it bounds. The tree is an `rstar::RTree` and is opaque here: nothing
/// is proved of it, and the library knows of it what `tree_items` names.
#[verifier::external_body]
pub struct BoxTree {
    tree: RTree<GeomWithData<Rectangle<[i64; 3]>, usize>>,
}

/// The boxes that a tree holds: lower corner, upper corner and element index
/// of each.
pub uninterp spec fn tree_items(tree: BoxTree) -> Set<(Seq<i64>, Seq<i64>, usize)>;

/// A box as plain values: lower corner, upper corner, element index.
pub open spec fn item_view(item: ([i64; 3], [i64; 3], usize)) -> (Seq<i64>, Seq<i64>, usize) {
    (item.0@, item.1@, item.2)
}

/// The set of the boxes in a list.
pub open spec fn items_of(items: Seq<([i64; 3], [i64; 3], usize)>) -> Set<
    (Seq<i64>, Seq<i64>, usize),
> {
    Set::new(
        |item: (Seq<i64>, Seq<i64>, usize)|
            exists|k: int| 0 <= k < items.len() && item == item_view(#[trigger] items[k]),
    )
}

/// Every box in the list has its lower corner below its upper corner along
/// every axis.
pub open spec fn corners_ordered(items: Seq<([i64; 3], [i64; 3], usize)>) -> bool {
    forall|k: int, axis: int|
        0 <= k < items.len() && 0 <= axis < 3 ==> (#[trigger] items[k].0@[axis])
            <= items[k].1@[axis]
}

/// Every coordinate of every box in the set lies on the supported part of the
/// grid.
pub open spec fn items_in_range(items: Set<(Seq<i64>, Seq<i64>, usize)>) -> bool {
    forall|item: (Seq<i64>, Seq<i64>, usize)| #[trigger]
        items.contains(item) ==> coordinates_in_range(item.0) && coordinates_in_range(item.1)
}

/// `nearest` is a box of the set, and no box of the set is nearer to `point`.
pub open spec fn is_nearest_item(
    items: Set<(Seq<i64>, Seq<i64>, usize)>,
    point: Seq<i64>,
    nearest: (Seq<i64>, Seq<i64>, usize),
) -> bool {
    &&& items.contains(nearest)
    &&& forall|item: (Seq<i64>, Seq<i64>, usize)| #[trigger]
        items.contains(item) ==> box_distance_2(nearest.0, nearest.1, point) <= box_distance_2(
            item.0,
            item.1,
            point,
        )
}

/// `RTree::bulk_load` on rectangles made by `Rectangle::from_corners` and
/// tagged by `GeomWithData::new`. The tree holds the given boxes and no
/// others. Loading compares coordinates and computes nothing from them.
#[verifier::external_body]
fn bulk_load(items: Vec<([i64; 3], [i64; 3], usize)>) -> (tree: BoxTree)
    requires
        corners_ordered(items@),
    ensures
        tree_items(tree) == items_of(items@),
{
    let geometries = items.into_iter().map(
        |(lower, upper, data)| GeomWithData::new(Rectangle::from_corners(lower, upper), data),
    ).collect();
    BoxTree { tree: RTree::bulk_load(geometries) }
}

/// The boxes of the set that are nearest to `point`.
pub open spec fn nearest_items(items: Set<(Seq<i64>, Seq<i64>, usize)>, point: Seq<i64>) -> Set<
    (Seq<i64>, Seq<i64>, usize),
> {
    Set::new(|item: (Seq<i64>, Seq<i64>, usize)| is_nearest_item(items, point, item))
}

/// `RTree::nearest_neighbors`: all the boxes of the tree whose squared
/// distance to the point, as `Rectangle::distance_2` computes it, is the
/// smallest; an empty list for an empty tree and for no other. The order of
/// the list is left open. Each box is read back through `GeomWithData::geom`,
/// `Rectangle::lower` and `Rectangle::upper`. The search squares and adds
/// coordinate differences, so all coordinates must lie on the supported part
/// of the grid.
#[verifier::external_body]
fn nearest_neighbors(tree: &BoxTree, point: &[i64; 3]) -> (found: Vec<([i64; 3], [i64; 3], usize)>)
    requires
        coordinates_in_range(point@),
        items_in_range(tree_items(*tree)),
    ensures
        items_of(found@) == nearest_items(tree_items(*tree), point@),
        found@.len() == 0 <==> tree_items(*tree) == Set::<(Seq<i64>, Seq<i64>, usize)>::empty(),
{
    tree.tree.nearest_neighbors(point).into_iter().map(
        |found| (found.geom().lower(), found.geom().upper(), found.data),
    ).collect()
}

/// A point of two or three dimensions as a point of three: a planar point
/// lies in the plane where the third coordinate is zero.
pub open spec fn embedded(point: Seq<i64>) -> Seq<i64> {
    Seq::new(
        3,
        |axis: int|
            if axis < point.len() {
                point[axis]
            } else {
                0i64
            },
    )
}

/// What the tree holds for box `k` of a list of boxes.
pub open spec fn indexed_item<const D: usize>(boxes: Seq<AxisAlignedBoundingBox<D>>, k: int) -> (
    Seq<i64>,
    Seq<i64>,
    usize,
) {
    (embedded(boxes[k].spec_min()), embedded(boxes[k].spec_max()), k as usize)
}

/// What the tree holds for a list of boxes.
pub open spec fn indexed_items<const D: usize>(boxes: Seq<AxisAlignedBoundingBox<D>>) -> Set<
    (Seq<i64>, Seq<i64>, usize),
> {
    Set::new(
        |item: (Seq<i64>, Seq<i64>, usize)|
            exists|k: int| 0 <= k < boxes.len() && item == #[trigger] indexed_item(boxes, k),
    )
}

/// Embedding a box and a point of two or three dimensions into three
/// dimensions keeps their distance.
pub proof fn lemma_embedding_keeps_distance(lower: Seq<i64>, upper: Seq<i64>, point: Seq<i64>)
    requires
        point.len() == 2 || point.len() == 3,
        lower.len() == point.len(),
        upper.len() == point.len(),
    ensures
        box_distance_2(embedded(lower), embedded(upper), embedded(point)) == box_distance_2(
            lower,
            upper,
            point,
        ),
{
    let l = embedded(lower);
    let u = embedded(upper);
    let p = embedded(point);
    reveal_with_fuel(box_distance_2_along, 4);
    assert(axis_distance_2(l, u, p, 0) == axis_distance_2(lower, upper, point, 0));
    assert(axis_distance_2(l, u, p, 1) == axis_distance_2(lower, upper, point, 1));
    if point.len() == 3 {
        assert(axis_distance_2(l, u, p, 2) == axis_distance_2(lower, upper, point, 2));
    } else {
        assert(l[2] == 0 && u[2] == 0 && p[2] == 0);
        let offset = clamped(p[2] as int, l[2] as int, u[2] as int) - p[2];
        assert(offset == 0);
        assert(offset * offset == 0) by (nonlinear_arith)
            requires
                offset == 0,
        ;
        assert(axis_distance_2(l, u, p, 2) == 0);
    }
}

fn embed<const D: usize>(point: &[i64; D]) -> (lifted: [i64; 3])
    requires
        D == 2 || D == 3,
    ensures
        lifted@ == embedded(point@),
{
    let third: i64 = if D == 3 {
        point[2]
    } else {
        0
    };
    let lifted: [i64; 3] = [point[0], point[1], third];
    assert(lifted@ =~= embedded(point@));
    lifted
}

/// Box `k` is the closest to `point`: no box of the list is nearer to the
/// point, and of the boxes that are as near, it comes first.
pub open spec fn is_closest_box<const D: usize>(
    boxes: Seq<AxisAlignedBoundingBox<D>>,
    point: Seq<i64>,
    k: int,
) -> bool {
    &&& 0 <= k < boxes.len()
    &&& forall|other: int|
        0 <= other < boxes.len() ==> boxes[k].distance_2(point) <= (#[trigger] boxes[other]).distance_2(
            point,
        )
    &&& forall|other: int|
        0 <= other < k ==> boxes[k].distance_2(point) < (#[trigger] boxes[other]).distance_2(point)
}

/// Why an interpolator could not be built or a query was refused.
#[derive(Copy, Clone, Debug, PartialEq, Eq, Structural)]
pub enum InterpolationError {
    /// Spaces of this dimension cannot be indexed: only two and three are
    /// supported.
    UnsupportedDimension { dimension: usize },
    /// A batch of this many points came with room for that many results.
    LengthMismatch { points: usize, results: usize },
    /// The point at this position of a batch lies off the supported part of
    /// the grid.
    PointOutOfRange { point_index: usize },
}

/// A spatial index over the bounding boxes of the elements of a space of two
/// or three dimensions. It is built once and answers, for a point, which
/// element's box is nearest. Each box is known by its position in the list
/// that the index was built from.
pub struct RTreeAccelerationStructure<const D: usize> {
    tree: BoxTree,
    boxes: Ghost<Seq<AxisAlignedBoundingBox<D>>>,
}

impl<const D: usize> RTreeAccelerationStructure<D> {
    /// The boxes that the index was built from, in order.
    pub closed spec fn boxes(&self) -> Seq<AxisAlignedBoundingBox<D>> {
        self.boxes@
    }

    #[verifier::type_invariant]
    closed spec fn inv(&self) -> bool {
        &&& D == 2 || D == 3
        &&& self.boxes@.len() <= usize::MAX
        &&& forall|k: int| 0 <= k < self.boxes@.len() ==> (#[trigger] self.boxes@[k]).is_valid()
        &&& tree_items(self.tree) == indexed_items(self.boxes@)
    }

    /// Builds the index over `boxes` in one bulk load. Only boxes of two and
    /// three dimensions can be indexed; for any other dimension nothing is
    /// built.
    pub fn from_bounding_boxes(boxes: &[AxisAlignedBoundingBox<D>]) -> (made: Result<
        Self,
        InterpolationError,
    >)
        ensures
            match made {
                Ok(index) => {
                    &&& D == 2 || D == 3
                    &&& index.boxes() == boxes@
                },
                Err(error) => {
                    &&& D != 2 && D != 3
                    &&& error == (InterpolationError::UnsupportedDimension { dimension: D })
                },
            },
    {
        if D != 2 && D != 3 {
            return Err(InterpolationError::UnsupportedDimension { dimension: D });
        }
        let count: usize = boxes.len();
        let mut items: Vec<([i64; 3], [i64; 3], usize)> = Vec::with_capacity(count);
        let mut k: usize = 0;
        while k < count
            invariant
                D == 2 || D == 3,
                k <= count,
                count == boxes@.len(),
                items@.len() == k,
                forall|j: int| 0 <= j < k ==> (#[trigger] boxes@[j]).is_valid(),
                forall|j: int|
                    0 <= j < k ==> item_view(#[trigger] items@[j]) == indexed_item(boxes@, j),
            decreases count - k,
        {
            let lower: [i64; 3] = embed(&boxes[k].min());
            let upper: [i64; 3] = embed(&boxes[k].max());
            items.push((lower, upper, k));
            k += 1;
        }
        let ghost loaded = items@;
        proof {
            assert forall|j: int, axis: int|
                0 <= j < loaded.len() && 0 <= axis < 3 implies (#[trigger] loaded[j].0@[axis])
                <= loaded[j].1@[axis] by {
                assert(item_view(loaded[j]) == indexed_item(boxes@, j));
                assert(boxes@[j].is_valid());
            }
            assert forall|item: (Seq<i64>, Seq<i64>, usize)|
                items_of(loaded).contains(item) == indexed_items(boxes@).contains(item) by {
                if items_of(loaded).contains(item) {
                    let j = choose|j: int|
                        0 <= j < loaded.len() && item == item_view(#[trigger] loaded[j]);
                    assert(item_view(loaded[j]) == indexed_item(boxes@, j));
                }
                if indexed_items(boxes@).contains(item) {
                    let j = choose|j: int|
                        0 <= j < boxes@.len() && item == #[trigger] indexed_item(boxes@, j);
                    assert(item_view(loaded[j]) == indexed_item(boxes@, j));
                }
            }
            assert(items_of(loaded) =~= indexed_items(boxes@));
        }
        let tree = bulk_load(items);
        Ok(Self { tree, boxes: Ghost(boxes@) })
    }

    /// Element `element_index` is the closest to `point`: no element's box is
    /// nearer to the point, and of the elements whose boxes are as near, it
    /// has the lowest index.
    pub open spec fn is_closest(&self, point: Seq<i64>, element_index: int) -> bool {
        is_closest_box(self.boxes(), point, element_index)
    }

    /// The element closest to `point`. An index without boxes has no such
    /// element.
    pub fn closest(&self, point: &[i64; D]) -> (found: Option<usize>)
        requires
            coordinates_in_range(point@),
        ensures
            match found {
                Some(element) => self.is_closest(point@, element as int),
                None => self.boxes().len() == 0,
            },
    {
        proof {
            use_type_invariant(self);
        }
        let ghost boxes = self.boxes@;
        let lifted: [i64; 3] = embed(point);
        proof {
            assert(coordinates_in_range(lifted@));
            assert forall|item: (Seq<i64>, Seq<i64>, usize)| #[trigger]
                tree_items(self.tree).contains(item) implies coordinates_in_range(item.0)
                && coordinates_in_range(item.1) by {
                let k = choose|k: int| 0 <= k < boxes.len() && item == #[trigger] indexed_item(boxes, k);
                assert(boxes[k].is_valid());
            }
        }
        let candidates = nearest_neighbors(&self.tree, &lifted);
        let ghost nearest = nearest_items(tree_items(self.tree), lifted@);
        if candidates.len() == 0 {
            proof {
                if boxes.len() > 0 {
                    assert(indexed_items(boxes).contains(indexed_item(boxes, 0)));
                }
            }
            return None;
        }
        let mut best: usize = candidates[0].2;
        let ghost mut witness: int = 0;
        let mut i: usize = 1;
        while i < candidates.len()
            invariant
                1 <= i <= candidates@.len(),
                0 <= witness < i,
                best == candidates@[witness].2,
                forall|j: int| 0 <= j < i ==> best <= (#[trigger] candidates@[j]).2,
            decreases candidates@.len() - i,
        {
            if candidates[i].2 < best {
                best = candidates[i].2;
                proof {
                    witness = i as int;
                }
            }
            i += 1;
        }
        proof {
            // The best candidate is a box of the index, and a nearest one.
            let item = item_view(candidates@[witness]);
            assert(items_of(candidates@).contains(item));
            assert(nearest.contains(item));
            let k = choose|k: int| 0 <= k < boxes.len() && item == #[trigger] indexed_item(boxes, k);
            assert(k == best);
            assert(boxes[k].is_valid());
            lemma_embedding_keeps_distance(boxes[k].spec_min(), boxes[k].spec_max(), point@);
            assert forall|other: int| 0 <= other < boxes.len() implies {
                &&& boxes[k].distance_2(point@) <= (#[trigger] boxes[other]).distance_2(point@)
                &&& other < k ==> boxes[k].distance_2(point@) < boxes[other].distance_2(point@)
            } by {
                let rival = indexed_item(boxes, other);
                assert(boxes[other].is_valid());
                assert(tree_items(self.tree).contains(rival));
                lemma_embedding_keeps_distance(
                    boxes[other].spec_min(),
                    boxes[other].spec_max(),
                    point@,
                );
                if other < k && boxes[other].distance_2(point@) <= boxes[k].distance_2(point@) {
                    // Then the rival is a nearest box too, so it is a candidate
                    // with a lower index than the best: a contradiction.
                    assert forall|any: (Seq<i64>, Seq<i64>, usize)| #[trigger]
                        tree_items(self.tree).contains(any) implies box_distance_2(
                        rival.0,
                        rival.1,
                        lifted@,
                    ) <= box_distance_2(any.0, any.1, lifted@) by {
                        assert(is_nearest_item(tree_items(self.tree), lifted@, item));
                    }
                    assert(is_nearest_item(tree_items(self.tree), lifted@, rival));
                    assert(nearest.contains(rival));
                    assert(items_of(candidates@).contains(rival));
                    let j = choose|j: int|
                        0 <= j < candidates@.len() && rival == item_view(#[trigger] candidates@[j]);
                    assert(best <= candidates@[j].2);
                }
            }
        }
        Some(best)
    }
}

/// Position `k` holds the first point of the batch that lies off the
/// supported part of the grid.
pub open spec fn first_point_out_of_range<const D: usize>(points: Seq<[i64; D]>, k: int) -> bool {
    &&& 0 <= k < points.len()
    &&& !coordinates_in_range(points[k]@)
    &&& forall|j: int| 0 <= j < k ==> coordinates_in_range((#[trigger] points[j])@)
}

/// Every point of the batch lies on the supported part of the grid.
pub open spec fn points_in_range<const D: usize>(points: Seq<[i64; D]>) -> bool {
    forall|j: int| 0 <= j < points.len() ==> coordinates_in_range((#[trigger] points[j])@)
}

/// A space in which the element closest to a point can be found, together
/// with the point's reference coordinates in that element.
pub trait InterpolateFiniteElementSpace<const D: usize> {
    /// Coordinates in the reference element.
    type ReferenceCoords: Default;

    /// The validity condition under which queries can be made. An implementor
    /// that states none is never valid.
    open spec fn interpolation_wf(&self) -> bool {
        false
    }

    /// Whether the space has any element at all.
    open spec fn has_elements(&self) -> bool {
        arbitrary()
    }

    /// `found` names an element closest to `point` and the reference
    /// coordinates of the point in that element.
    open spec fn is_closest_element_and_reference_coords(
        &self,
        point: Seq<i64>,
        found: (usize, Self::ReferenceCoords),
    ) -> bool {
        true
    }

    /// Finds for each point the closest element and the point's reference
    /// coordinates in it, and writes them to the same position of `result`.
    /// Where the space has no element, `result` is left as it was.
    ///
    /// The batch is first checked as a whole: it is refused, and `result` is
    /// left as it was, if `result` has another length than `points` or if a
    /// point lies off the supported part of the grid. An empty batch does
    /// nothing.
    fn populate_closest_element_and_reference_coords(
        &self,
        points: &[[i64; D]],
        result: &mut [(usize, Self::ReferenceCoords)],
    ) -> (outcome: Result<(), InterpolationError>)
        requires
            self.interpolation_wf(),
        ensures
            final(result)@.len() == old(result)@.len(),
            match outcome {
                Ok(()) => {
                    &&& points@.len() == old(result)@.len()
                    &&& points_in_range(points@)
                    &&& self.has_elements() ==> forall|i: int|
                        0 <= i < points@.len()
                            ==> self.is_closest_element_and_reference_coords(
                            points@[i]@,
                            #[trigger] final(result)@[i],
                        )
                    &&& !self.has_elements() ==> final(result)@ == old(result)@
                },
                Err(InterpolationError::LengthMismatch { points: given, results: room }) => {
                    &&& given == points@.len()
                    &&& room == old(result)@.len()
                    &&& given != room
                    &&& final(result)@ == old(result)@
                },
                Err(InterpolationError::PointOutOfRange { point_index }) => {
                    &&& points@.len() == old(result)@.len()
                    &&& first_point_out_of_range(points@, point_index as int)
                    &&& final(result)@ == old(result)@
                },
                Err(InterpolationError::UnsupportedDimension { .. }) => false,
            },
            points@.len() == 0 && old(result)@.len() == 0 ==> outcome is Ok && final(result)@
                == old(result)@,
    ;

    /// Finds the element closest to `point` and the point's reference
    /// coordinates in it. This is the batch query on the single point: the
    /// answer is what a batch of this one point leaves in a result that held
    /// the element index `usize::MAX` before, and it still holds that index
    /// if the point lies off the supported part of the grid.
    fn find_closest_element_and_reference_coords(&self, point: &[i64; D]) -> (found: (
        usize,
        Self::ReferenceCoords,
    ))
        requires
            self.interpolation_wf(),
        ensures
            coordinates_in_range(point@) && self.has_elements()
                ==> self.is_closest_element_and_reference_coords(point@, found),
            !(coordinates_in_range(point@) && self.has_elements()) ==> found.0 == usize::MAX,
    {
        let mut points: Vec<[i64; D]> = Vec::with_capacity(1);
        points.push(*point);
        let mut result: Vec<(usize, Self::ReferenceCoords)> = Vec::with_capacity(1);
        result.push((usize::MAX, Self::ReferenceCoords::default()));
        let ghost before = result@;
        let outcome = self.populate_closest_element_and_reference_coords(
            points.as_slice(),
            result.as_mut_slice(),
        );
        proof {
            assert(points@[0]@ == point@);
            assert(before[0].0 == usize::MAX);
            match outcome {
                Ok(()) => {
                    assert(coordinates_in_range(points@[0]@));
                    if self.has_elements() {
                        assert(self.is_closest_element_and_reference_coords(
                            points@[0]@,
                            result@[0],
                        ));
                    }
                },
                Err(_) => {
                    assert(result@ == before);
                },
            }
        }
        match result.pop() {
            Some(found) => found,
            None => (usize::MAX, Self::ReferenceCoords::default()),
        }
    }
}

/// Whether every coordinate of the point lies on the supported part of the
/// grid.
pub fn point_in_range<const D: usize>(point: &[i64; D]) -> (in_range: bool)
    ensures
        in_range == coordinates_in_range(point@),
{
    let mut axis: usize = 0;
    while axis < D
        invariant
            axis <= D,
            point@.len() == D,
            forall|i: int| 0 <= i < axis ==> coordinate_in_range(#[trigger] point@[i] as int),
        decreases D - axis,
    {
        let coordinate: i64 = point[axis];
        if coordinate < -COORDINATE_LIMIT || coordinate > COORDINATE_LIMIT {
            return false;
        }
        axis += 1;
    }
    true
}

/// A finite element space together with a spatial index over the bounding
/// boxes of its elements. The index is built once, when the interpolator is
/// made, and the space cannot be changed afterwards.
pub struct Interpolator<Space, const D: usize> {
    space: Space,
    index: RTreeAccelerationStructure<D>,
}

impl<Space, const D: usize> Interpolator<Space, D> where Space: GeometricFiniteElementSpace<D> {
    /// The space that the interpolator wraps.
    pub closed spec fn spec_space(&self) -> Space {
        self.space
    }

    /// The wrapped space is valid and the index holds the bounding box of
    /// each of its elements, in the order of the elements.
    pub closed spec fn well_formed(&self) -> bool {
        &&& self.space.space_wf()
        &&& self.index.boxes().len() == self.space.spec_num_elements()
        &&& forall|k: int|
            0 <= k < self.index.boxes().len() ==> #[trigger] self.index.boxes()[k]
                == self.space.spec_bounding_box(k)
    }

    /// The bounding boxes of the elements of the wrapped space, in the order
    /// of the elements.
    pub open spec fn bounding_boxes(&self) -> Seq<AxisAlignedBoundingBox<D>> {
        Seq::new(
            self.spec_space().spec_num_elements(),
            |k: int| self.spec_space().spec_bounding_box(k),
        )
    }

    /// Element `element_index` is the closest to `point`: no element's
    /// bounding box is nearer to the point, and of the elements whose boxes
    /// are as near, it has the lowest index.
    pub open spec fn is_closest_element(&self, point: Seq<i64>, element_index: int) -> bool {
        is_closest_box(self.bounding_boxes(), point, element_index)
    }

    /// Wraps `space` and indexes the bounding boxes of its elements. Only
    /// spaces of two and three dimensions can be indexed; for any other
    /// dimension nothing is built.
    pub fn from_space(space: Space) -> (made: Result<Self, InterpolationError>)
        requires
            space.space_wf(),
        ensures
            match made {
                Ok(interpolator) => {
                    &&& D == 2 || D == 3
                    &&& interpolator.well_formed()
                    &&& interpolator.spec_space() == space
                },
                Err(error) => {
                    &&& D != 2 && D != 3
                    &&& error == (InterpolationError::UnsupportedDimension { dimension: D })
                },
            },
    {
        if D != 2 && D != 3 {
            return Err(InterpolationError::UnsupportedDimension { dimension: D });
        }
        let count: usize = space.num_elements();
        let mut bounding_boxes: Vec<AxisAlignedBoundingBox<D>> = Vec::with_capacity(count);
        let mut i: usize = 0;
        while i < count
            invariant
                i <= count,
                count == space.spec_num_elements(),
                space.space_wf(),
                bounding_boxes@.len() == i,
                forall|k: int|
                    0 <= k < i ==> #[trigger] bounding_boxes@[k] == space.spec_bounding_box(k),
            decreases count - i,
        {
            bounding_boxes.push(space.bounding_box(i));
            i += 1;
        }
        match RTreeAccelerationStructure::from_bounding_boxes(bounding_boxes.as_slice()) {
            Ok(index) => Ok(Self { space, index }),
            Err(error) => Err(error),
        }
    }

    /// The wrapped space, to which all questions about connectivity and basis
    /// functions go.
    pub fn space(&self) -> (space: &Space)
        ensures
            *space == self.spec_space(),
    {
        &self.space
    }
}

impl<Space, const D: usize> InterpolateFiniteElementSpace<D> for Interpolator<Space, D> where
    Space: GeometricFiniteElementSpace<D>,
    Space::ReferenceCoords: Default,
 {
    type ReferenceCoords = Space::ReferenceCoords;

    open spec fn interpolation_wf(&self) -> bool {
        self.well_formed()
    }

    open spec fn has_elements(&self) -> bool {
        self.spec_space().spec_num_elements() > 0
    }

    /// The element is one whose bounding box is nearest to the point, and the
    /// coordinates are those that the space gives for the point in it.
    open spec fn is_closest_element_and_reference_coords(
        &self,
        point: Seq<i64>,
        found: (usize, Self::ReferenceCoords),
    ) -> bool {
        &&& self.is_closest_element(point, found.0 as int)
        &&& self.spec_space().is_reference_coords(found.0 as int, point, found.1)
    }

    fn populate_closest_element_and_reference_coords(
        &self,
        points: &[[i64; D]],
        result: &mut [(usize, Self::ReferenceCoords)],
    ) -> (outcome: Result<(), InterpolationError>) {
        let count: usize = points.len();
        if count != result.len() {
            return Err(InterpolationError::LengthMismatch { points: count, results: result.len() });
        }
        let ghost before = result@;
        let mut i: usize = 0;
        while i < count
            invariant
                i <= count,
                count == points@.len(),
                result@ == before,
                before.len() == count,
                forall|j: int| 0 <= j < i ==> coordinates_in_range((#[trigger] points@[j])@),
            decreases count - i,
        {
            if !point_in_range(&points[i]) {
                return Err(InterpolationError::PointOutOfRange { point_index: i });
            }
            i += 1;
        }
        let mut i: usize = 0;
        while i < count
            invariant
                i <= count,
                count == points@.len(),
                result@.len() == count,
                before.len() == count,
                self.well_formed(),
                points_in_range(points@),
                forall|j: int|
                    0 <= j < i && self.has_elements()
                        ==> self.is_closest_element_and_reference_coords(
                        points@[j]@,
                        #[trigger] result@[j],
                    ),
                forall|j: int| 0 <= j < i && !self.has_elements() ==> #[trigger] result@[j] == before[j],
                forall|j: int| i <= j < count ==> #[trigger] result@[j] == before[j],
            decreases count - i,
        {
            let ghost point = points@[i as int]@;
            assert(coordinates_in_range(point));
            match self.index.closest(&points[i]) {
                Some(element) => {
                    assert(self.index.boxes() =~= self.bounding_boxes());
                    let coords = self.space.reference_coords(element, &points[i]);
                    result[i] = (element, coords);
                },
                None => {},
            }
            i += 1;
        }
        assert(!self.has_elements() ==> result@ =~= before);
        Ok(())
    }
}

/// An interpolator has the connectivity of the space that it wraps.
impl<Space, const D: usize> FiniteElementConnectivity for Interpolator<Space, D> where
    Space: GeometricFiniteElementSpace<D>,
 {
    open spec fn space_wf(&self) -> bool {
        self.spec_space().space_wf()
    }

    open spec fn spec_num_elements(&self) -> nat {
        self.spec_space().spec_num_elements()
    }

    open spec fn spec_num_nodes(&self) -> nat {
        self.spec_space().spec_num_nodes()
    }

    open spec fn spec_element_node_count(&self, element_index: int) -> nat {
        self.spec_space().spec_element_node_count(element_index)
    }

    open spec fn is_element_nodes(&self, element_index: int, nodes: Seq<usize>) -> bool {
        self.spec_space().is_element_nodes(element_index, nodes)
    }

    fn num_elements(&self) -> (count: usize) {
        self.space.num_elements()
    }

    fn num_nodes(&self) -> (count: usize) {
        self.space.num_nodes()
    }

    fn element_node_count(&self, element_index: usize) -> (count: usize) {
        self.space.element_node_count(element_index)
    }

    fn populate_element_nodes(&self, nodes: &mut [usize], element_index: usize) {
        self.space.populate_element_nodes(nodes, element_index)
    }
}

/// An interpolator is itself the space that it wraps.
impl<Space, const D: usize> GeometricFiniteElementSpace<D> for Interpolator<Space, D> where
    Space: GeometricFiniteElementSpace<D>,
 {
    type ReferenceCoords = Space::ReferenceCoords;

    open spec fn spec_bounding_box(&self, element_index: int) -> AxisAlignedBoundingBox<D> {
        self.spec_space().spec_bounding_box(element_index)
    }

    open spec fn is_reference_coords(
        &self,
        element_index: int,
        point: Seq<i64>,
        coords: Self::ReferenceCoords,
    ) -> bool {
        self.spec_space().is_reference_coords(element_index, point, coords)
    }

    fn bounding_box(&self, element_index: usize) -> (bounding_box: AxisAlignedBoundingBox<D>) {
        self.space.bounding_box(element_index)
    }

    fn reference_coords(&self, element_index: usize, point: &[i64; D]) -> (coords:
        Self::ReferenceCoords) {
        self.space.reference_coords(element_index, point)
    }
}

} // verus!
