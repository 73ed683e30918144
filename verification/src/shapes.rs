//! Rectangles with whole-number sides.

use vstd::prelude::*;

verus! {

/// A rectangle, given by its two sides.
#[derive(Debug)]
pub struct Rectangle {
    pub width: u32,
    pub height: u32,
}

impl Rectangle {
    /// The area as a mathematical integer.
    pub open spec fn spec_area(&self) -> int {
        self.width * self.height
    }

    /// The area, for a rectangle whose area fits in `u32`.
    pub fn area(&self) -> (area: u32)
        requires
            self.spec_area() <= u32::MAX,
        ensures
            area == self.spec_area(),
    {
        self.width * self.height
    }

    /// Whether `other` fits inside with room to spare on both sides.
    pub fn can_hold(&self, other: &Rectangle) -> (holds: bool)
        ensures
            holds == (self.width > other.width && self.height > other.height),
    {
        self.width > other.width && self.height > other.height
    }

    /// The square with sides of `size`.
    pub fn square(size: u32) -> (square: Rectangle)
        ensures
            square.width == size,
            square.height == size,
    {
        Rectangle { width: size, height: size }
    }
}

/// The area of a rectangle with the sides `width` and `length`, where it
/// fits in `u32`.
pub fn area(width: u32, length: u32) -> (area: u32)
    requires
        width * length <= u32::MAX,
    ensures
        area == width * length,
{
    width * length
}

/// The area of a rectangle given as a pair of sides, where it fits in `u32`.
pub fn area1(dimensions: (u32, u32)) -> (area: u32)
    requires
        dimensions.0 * dimensions.1 <= u32::MAX,
    ensures
        area == dimensions.0 * dimensions.1,
{
    dimensions.0 * dimensions.1
}

/// The area of `rectangle`, where it fits in `u32`.
pub fn area2(rectangle: &Rectangle) -> (area: u32)
    requires
        rectangle.spec_area() <= u32::MAX,
    ensures
        area == rectangle.spec_area(),
{
    rectangle.width * rectangle.height
}

/// A rectangle never holds itself, and of two rectangles at most one holds
/// the other.
pub proof fn law_can_hold_is_strict(a: Rectangle, b: Rectangle)
    ensures
        !(a.width > a.width && a.height > a.height),
        !((a.width > b.width && a.height > b.height) && (b.width > a.width && b.height
            > a.height)),
{
}

} // verus!
