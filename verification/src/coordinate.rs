//! Points on the plane with whole-number coordinates.

use crate::direction::Direction;
use std::ops::{Add, AddAssign};
use vstd::prelude::*;
use vstd::std_specs::convert::FromSpecImpl;
use vstd::std_specs::ops::AddSpecImpl;

verus! {

/// A point: `x` grows to the east, `y` to the north.
#[derive(Clone, Copy, Debug, PartialEq, Eq, Structural)]
pub struct Coordinate {
    pub x: i32,
    pub y: i32,
}

/// The smaller of two numbers.
pub open spec fn lower(a: i32, b: i32) -> i32 {
    if a <= b {
        a
    } else {
        b
    }
}

/// The larger of two numbers.
pub open spec fn upper(a: i32, b: i32) -> i32 {
    if a >= b {
        a
    } else {
        b
    }
}

impl Coordinate {
    pub fn new(x: i32, y: i32) -> (point: Coordinate)
        ensures
            point == (Coordinate { x, y }),
    {
        Coordinate { x, y }
    }

    /// True when the point lies in the rectangle with corners `v1` and `v2`,
    /// its edges counted, whichever two opposite corners they are.
    pub open spec fn spec_is_within(&self, v1: &Coordinate, v2: &Coordinate) -> bool {
        &&& lower(v1.x, v2.x) <= self.x <= upper(v1.x, v2.x)
        &&& lower(v1.y, v2.y) <= self.y <= upper(v1.y, v2.y)
    }

    /// True when the point lies in the rectangle with corners `v1` and `v2`,
    /// its edges counted, whichever two opposite corners they are.
    #[verifier::when_used_as_spec(spec_is_within)]
    pub fn is_within(&self, v1: &Coordinate, v2: &Coordinate) -> (within: bool)
        ensures
            within == self.spec_is_within(v1, v2),
    {
        let left = if v1.x <= v2.x { v1.x } else { v2.x };
        let right = if v1.x >= v2.x { v1.x } else { v2.x };
        let bottom = if v1.y <= v2.y { v1.y } else { v2.y };
        let top = if v1.y >= v2.y { v1.y } else { v2.y };
        self.x >= left && self.x <= right && self.y >= bottom && self.y <= top
    }

    /// The point `rhs` away, where both coordinates of it fit.
    pub open spec fn moved(self, rhs: Direction) -> Coordinate {
        Coordinate { x: (self.x + rhs.x) as i32, y: (self.y + rhs.y) as i32 }
    }

    /// True when the point `rhs` away has coordinates that fit.
    pub open spec fn can_move(self, rhs: Direction) -> bool {
        &&& i32::MIN <= self.x + rhs.x <= i32::MAX
        &&& i32::MIN <= self.y + rhs.y <= i32::MAX
    }
}

impl Default for Coordinate {
    fn default() -> (origin: Coordinate)
        ensures
            origin == (Coordinate { x: 0, y: 0 }),
    {
        Coordinate { x: 0, y: 0 }
    }
}

impl Add for Coordinate {
    type Output = Coordinate;

    fn add(self, rhs: Coordinate) -> (sum: Coordinate) {
        Coordinate { x: self.x + rhs.x, y: self.y + rhs.y }
    }
}

impl AddSpecImpl for Coordinate {
    open spec fn obeys_add_spec() -> bool {
        true
    }

    open spec fn add_req(self, rhs: Coordinate) -> bool {
        &&& i32::MIN <= self.x + rhs.x <= i32::MAX
        &&& i32::MIN <= self.y + rhs.y <= i32::MAX
    }

    open spec fn add_spec(self, rhs: Coordinate) -> Coordinate {
        Coordinate { x: (self.x + rhs.x) as i32, y: (self.y + rhs.y) as i32 }
    }
}

impl Add<Direction> for Coordinate {
    type Output = Coordinate;

    fn add(self, rhs: Direction) -> (sum: Coordinate) {
        Coordinate { x: self.x + rhs.x, y: self.y + rhs.y }
    }
}

impl AddSpecImpl<Direction> for Coordinate {
    open spec fn obeys_add_spec() -> bool {
        true
    }

    open spec fn add_req(self, rhs: Direction) -> bool {
        self.can_move(rhs)
    }

    open spec fn add_spec(self, rhs: Direction) -> Coordinate {
        self.moved(rhs)
    }
}

impl AddAssign<Direction> for Coordinate {
    fn add_assign(&mut self, rhs: Direction)
        requires
            old(self).can_move(rhs),
        ensures
            *final(self) == old(self).moved(rhs),
    {
        *self = Coordinate { x: self.x + rhs.x, y: self.y + rhs.y }
    }
}

impl From<Direction> for Coordinate {
    fn from(dir: Direction) -> (point: Coordinate) {
        Coordinate { x: dir.x, y: dir.y }
    }
}

impl FromSpecImpl<Direction> for Coordinate {
    open spec fn obeys_from_spec() -> bool {
        true
    }

    open spec fn from_spec(dir: Direction) -> Coordinate {
        Coordinate { x: dir.x, y: dir.y }
    }
}

} // verus!
