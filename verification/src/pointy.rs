//! Points with coordinates of any one type.

use vstd::prelude::*;

verus! {

/// The first element of a list that has one.
pub fn first<T>(points: &[T]) -> (head: &T)
    requires
        points@.len() > 0,
    ensures
        *head == points@[0],
{
    &points[0]
}

/// A point with two coordinates of the same type.
pub struct Point<T> {
    pub x: T,
    pub y: T,
}

impl<T> Point<T> {
    pub fn new(x: T, y: T) -> (point: Point<T>)
        ensures
            point.x == x,
            point.y == y,
    {
        Point { x, y }
    }
}

} // verus!
