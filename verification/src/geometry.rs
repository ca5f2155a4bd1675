//! Axis-aligned bounding boxes on an integer grid, and distances to them.
use vstd::prelude::*;

verus! {

/// Largest magnitude of a grid coordinate. With coordinates in this range the
/// squared distance between any two points of up to three dimensions fits a
/// 64-bit integer.
pub const COORDINATE_LIMIT: i64 = 536_870_912;

/// The coordinate lies on the supported part of the grid.
pub open spec fn coordinate_in_range(coordinate: int) -> bool {
    -COORDINATE_LIMIT <= coordinate <= COORDINATE_LIMIT
}

/// Every coordinate of the point lies on the supported part of the grid.
pub open spec fn coordinates_in_range(point: Seq<i64>) -> bool {
    forall|i: int| 0 <= i < point.len() ==> coordinate_in_range(#[trigger] point[i] as int)
}

/// The value in the interval from `low` to `high` that is nearest to `x`.
pub open spec fn clamped(x: int, low: int, high: int) -> int {
    let raised = if x < low {
        low
    } else {
        x
    };
    if raised > high {
        high
    } else {
        raised
    }
}

/// Squared distance along axis `axis` from `point` to the box with corners
/// `lower` and `upper`.
pub open spec fn axis_distance_2(lower: Seq<i64>, upper: Seq<i64>, point: Seq<i64>, axis: int) -> int {
    let offset = clamped(point[axis] as int, lower[axis] as int, upper[axis] as int) - point[axis];
    offset * offset
}

/// Squared distance from `point` to the box, counting the first `axes` axes
/// only.
pub open spec fn box_distance_2_along(
    lower: Seq<i64>,
    upper: Seq<i64>,
    point: Seq<i64>,
    axes: int,
) -> int
    decreases axes,
{
    if axes <= 0 {
        0
    } else {
        box_distance_2_along(lower, upper, point, axes - 1) + axis_distance_2(
            lower,
            upper,
            point,
            axes - 1,
        )
    }
}

/// Squared Euclidean distance from `point` to the nearest point of the box
/// with corners `lower` and `upper`; zero for a point in the box.
pub open spec fn box_distance_2(lower: Seq<i64>, upper: Seq<i64>, point: Seq<i64>) -> int {
    box_distance_2_along(lower, upper, point, point.len() as int)
}

/// An axis-aligned box in `D` dimensions, given by its corners with the
/// smallest and the largest coordinates.
#[derive(Debug, Clone, Copy)]
pub struct AxisAlignedBoundingBox<const D: usize> {
    min: [i64; D],
    max: [i64; D],
}

impl<const D: usize> AxisAlignedBoundingBox<D> {
    /// The corner with the smallest coordinates.
    pub closed spec fn spec_min(&self) -> Seq<i64> {
        self.min@
    }

    /// The corner with the largest coordinates.
    pub closed spec fn spec_max(&self) -> Seq<i64> {
        self.max@
    }

    /// The corners are ordered along every axis and lie on the supported part
    /// of the grid.
    pub open spec fn is_valid(&self) -> bool {
        &&& self.spec_min().len() == D
        &&& self.spec_max().len() == D
        &&& coordinates_in_range(self.spec_min())
        &&& coordinates_in_range(self.spec_max())
        &&& forall|i: int| 0 <= i < D ==> self.spec_min()[i] <= self.spec_max()[i]
    }

    #[verifier::type_invariant]
    closed spec fn inv(&self) -> bool {
        self.is_valid()
    }

    /// Squared distance from `point` to the box.
    pub open spec fn distance_2(&self, point: Seq<i64>) -> int {
        box_distance_2(self.spec_min(), self.spec_max(), point)
    }

    /// The box with the given corners, if they are ordered along every axis
    /// and lie on the supported part of the grid.
    pub fn new(min: [i64; D], max: [i64; D]) -> (made: Option<Self>)
        ensures
            made is Some <==> {
                &&& coordinates_in_range(min@)
                &&& coordinates_in_range(max@)
                &&& forall|i: int| 0 <= i < D ==> min@[i] <= max@[i]
            },
            made matches Some(bounding_box) ==> {
                &&& bounding_box.is_valid()
                &&& bounding_box.spec_min() == min@
                &&& bounding_box.spec_max() == max@
            },
    {
        let mut i: usize = 0;
        while i < D
            invariant
                i <= D,
                min@.len() == D,
                max@.len() == D,
                forall|j: int| 0 <= j < i ==> coordinate_in_range(#[trigger] min@[j] as int),
                forall|j: int| 0 <= j < i ==> coordinate_in_range(#[trigger] max@[j] as int),
                forall|j: int| 0 <= j < i ==> min@[j] <= max@[j],
            decreases D - i,
        {
            let low: i64 = min[i];
            let high: i64 = max[i];
            if low < -COORDINATE_LIMIT || low > COORDINATE_LIMIT || high < -COORDINATE_LIMIT || high
                > COORDINATE_LIMIT || low > high {
                return None;
            }
            i += 1;
        }
        Some(Self { min, max })
    }

    pub fn min(&self) -> (corner: [i64; D])
        ensures
            corner@ == self.spec_min(),
            self.is_valid(),
    {
        proof {
            use_type_invariant(self);
        }
        self.min
    }

    pub fn max(&self) -> (corner: [i64; D])
        ensures
            corner@ == self.spec_max(),
            self.is_valid(),
    {
        proof {
            use_type_invariant(self);
        }
        self.max
    }
}

} // verus!
