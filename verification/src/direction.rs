//! Steps on the plane: a direction is a pair of signed offsets.

use std::ops::Mul;
use vstd::prelude::*;
use vstd::std_specs::convert::FromSpecImpl;
use vstd::std_specs::ops::MulSpecImpl;

verus! {

/// A step of `x` to the east and `y` to the north.
#[derive(Clone, Copy, Debug, PartialEq, Eq, Structural)]
pub struct Direction {
    pub x: i32,
    pub y: i32,
}

/// The four directions of the compass.
#[derive(Clone, Copy, Debug, PartialEq, Eq, Structural)]
pub enum CardinalDirection {
    North,
    East,
    South,
    West,
}

impl CardinalDirection {
    /// The unit step in this direction: north is up, east is right.
    pub open spec fn step(self) -> Direction {
        match self {
            CardinalDirection::North => Direction { x: 0, y: 1 },
            CardinalDirection::East => Direction { x: 1, y: 0 },
            CardinalDirection::South => Direction { x: 0, y: -1i32 },
            CardinalDirection::West => Direction { x: -1i32, y: 0 },
        }
    }
}

impl From<CardinalDirection> for Direction {
    fn from(dir: CardinalDirection) -> (step: Direction) {
        match dir {
            CardinalDirection::North => Direction { x: 0, y: 1 },
            CardinalDirection::East => Direction { x: 1, y: 0 },
            CardinalDirection::South => Direction { x: 0, y: -1 },
            CardinalDirection::West => Direction { x: -1, y: 0 },
        }
    }
}

impl FromSpecImpl<CardinalDirection> for Direction {
    open spec fn obeys_from_spec() -> bool {
        true
    }

    open spec fn from_spec(dir: CardinalDirection) -> Direction {
        dir.step()
    }
}

impl Mul<i32> for Direction {
    type Output = Direction;

    fn mul(self, scalar: i32) -> (scaled: Direction) {
        Direction { x: self.x * scalar, y: self.y * scalar }
    }
}

impl MulSpecImpl<i32> for Direction {
    open spec fn obeys_mul_spec() -> bool {
        true
    }

    open spec fn mul_req(self, scalar: i32) -> bool {
        &&& i32::MIN <= self.x * scalar <= i32::MAX
        &&& i32::MIN <= self.y * scalar <= i32::MAX
    }

    open spec fn mul_spec(self, scalar: i32) -> Direction {
        Direction { x: (self.x * scalar) as i32, y: (self.y * scalar) as i32 }
    }
}

} // verus!
