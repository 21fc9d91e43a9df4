//! Integer grid positions.

use vstd::prelude::*;

verus! {

/// A position on the grid, or an offset between two positions. `x` counts
/// rows (axis 0) and `y` counts columns (axis 1).
#[derive(Debug, Clone, Copy, PartialEq, Eq, Structural)]
pub struct Coordinate {
    pub x: i32,
    pub y: i32,
}

impl Coordinate {
    /// The component-wise sum. It is meant for coordinates that
    /// [`can_add`](Coordinate::can_add).
    pub open spec fn sum(self, other: Self) -> Coordinate {
        Coordinate { x: (self.x + other.x) as i32, y: (self.y + other.y) as i32 }
    }

    /// The component-wise sum stays within `i32`.
    pub open spec fn can_add(self, other: Self) -> bool {
        &&& i32::MIN <= self.x + other.x <= i32::MAX
        &&& i32::MIN <= self.y + other.y <= i32::MAX
    }

    /// The sum of the absolute differences of the two components.
    pub open spec fn spec_manhatten_distance(self, other: Self) -> int {
        abs_diff(self.x as int, other.x as int) + abs_diff(self.y as int, other.y as int)
    }

    /// The Manhattan distance between `self` and `other`, exact for every
    /// pair of coordinates.
    pub fn manhatten_distance(self, other: Self) -> (d: u64)
        ensures
            d == self.spec_manhatten_distance(other),
    {
        let dx: i64 = self.x as i64 - other.x as i64;
        let dy: i64 = self.y as i64 - other.y as i64;
        let ax: i64 = if dx < 0 { -dx } else { dx };
        let ay: i64 = if dy < 0 { -dy } else { dy };
        (ax + ay) as u64
    }

    /// The square of the straight-line distance: the sum of the squares of
    /// the differences of the two components.
    pub open spec fn spec_euclidean_distance_squared(self, other: Self) -> int {
        (self.x - other.x) * (self.x - other.x) + (self.y - other.y) * (self.y - other.y)
    }

    /// The square of the Euclidean distance between `self` and `other`,
    /// exact for every pair of coordinates. The distance itself is the
    /// square root of it.
    pub fn euclidean_distance_squared(self, other: Self) -> (d: u128)
        ensures
            d == self.spec_euclidean_distance_squared(other),
    {
        let dx: i128 = self.x as i128 - other.x as i128;
        let dy: i128 = self.y as i128 - other.y as i128;
        assert(0 <= dx * dx <= 0x1_0000_0000_0000_0000) by (nonlinear_arith)
            requires
                -0x1_0000_0000 <= dx <= 0x1_0000_0000,
        ;
        assert(0 <= dy * dy <= 0x1_0000_0000_0000_0000) by (nonlinear_arith)
            requires
                -0x1_0000_0000 <= dy <= 0x1_0000_0000,
        ;
        (dx * dx + dy * dy) as u128
    }
}

/// The distance between two integers on the number line.
pub open spec fn abs_diff(a: int, b: int) -> int {
    if a >= b { a - b } else { b - a }
}

/// `a + b` is the component-wise sum of two coordinates. Both components
/// of the sum have to fit in `i32`: see [`Coordinate::can_add`].
impl core::ops::Add for Coordinate {
    type Output = Coordinate;

    fn add(self, other: Coordinate) -> (sum: Coordinate) {
        Coordinate { x: self.x + other.x, y: self.y + other.y }
    }
}

impl vstd::std_specs::ops::AddSpecImpl for Coordinate {
    open spec fn obeys_add_spec() -> bool {
        true
    }

    open spec fn add_req(self, other: Coordinate) -> bool {
        self.can_add(other)
    }

    open spec fn add_spec(self, other: Coordinate) -> Coordinate {
        self.sum(other)
    }
}

} // verus!
