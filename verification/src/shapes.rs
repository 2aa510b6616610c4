//! Rectangles with an exactly specified area.

use vstd::prelude::*;

verus! {

/// An axis-aligned rectangle, stored as `(width, height)`.
#[derive(Debug, Copy, Clone, PartialEq, Eq, Structural)]
pub struct Rectangle(pub i32, pub i32);

impl Rectangle {
    pub fn new(width: i32, height: i32) -> (r: Rectangle)
        ensures
            r == (Rectangle(width, height)),
    {
        Rectangle(width, height)
    }

    /// The product of the sides; the caller guarantees that it fits in `i32`.
    pub fn area(&self) -> (a: i32)
        requires
            i32::MIN <= self.0 * self.1 <= i32::MAX,
        ensures
            a == self.0 * self.1,
    {
        self.0 * self.1
    }
}

impl Default for Rectangle {
    fn default() -> (r: Rectangle)
        ensures
            r == (Rectangle(0, 0)),
    {
        Rectangle(0, 0)
    }
}

} // verus!
