//! Pairs of values: of one type, of two types, and with a rule for which of
//! the two is shown.

use std::cmp::Ordering;
use vstd::prelude::*;
use vstd::std_specs::cmp::PartialOrdSpec;

verus! {

/// A point whose coordinates are of one type.
pub struct Point<T> {
    pub x: T,
    pub y: T,
}

impl<T> Point<T> {
    /// The first coordinate.
    pub fn x(&self) -> (x: &T)
        ensures
            *x == self.x,
    {
        &self.x
    }
}

/// A point whose coordinates may be of two types.
pub struct Point2<T, U> {
    pub x: T,
    pub y: U,
}

impl<T, U> Point2<T, U> {
    /// The point with the first coordinate of `self` and the second of
    /// `other`.
    pub fn mixup<V, W>(self, other: Point2<V, W>) -> (mixed: Point2<T, W>)
        ensures
            mixed.x == self.x,
            mixed.y == other.y,
    {
        Point2 { x: self.x, y: other.y }
    }
}

/// Two values of one type, named `x` and `y`.
pub struct Pair<T> {
    x: T,
    y: T,
}

impl<T> Pair<T> {
    /// The member `x`, as contracts see it.
    pub closed spec fn spec_x(&self) -> T {
        self.x
    }

    /// The member `y`, as contracts see it.
    pub closed spec fn spec_y(&self) -> T {
        self.y
    }

    /// The pair of `x` and `y`.
    pub fn new(x: T, y: T) -> (pair: Self)
        ensures
            pair.spec_x() == x,
            pair.spec_y() == y,
    {
        Self { x, y }
    }
}

impl<T: PartialOrd> Pair<T> {
    /// Whether `x` is shown as the largest member: it compares greater than
    /// `y` or equal to it.
    pub open spec fn shows_x(&self) -> bool {
        self.spec_x().partial_cmp_spec(&self.spec_y()) matches Some(
            Ordering::Greater
            | Ordering::Equal,
        )
    }

    /// The largest member with its name: `x` where it compares greater than
    /// `y` or equal to it, else `y`. For a type whose comparison is not
    /// specified it is one of the two, under its own name.
    pub fn cmp_display(&self) -> (shown: (&'static str, &T))
        ensures
            (shown.0@ == "x"@ && *shown.1 == self.spec_x()) || (shown.0@ == "y"@ && *shown.1
                == self.spec_y()),
            T::obeys_partial_cmp_spec() ==> (shown.0@ == "x"@ <==> self.shows_x()),
    {
        proof {
            reveal_strlit("x");
            reveal_strlit("y");
            assert("x"@[0] == 'x' && "y"@[0] == 'y');
        }
        if self.x >= self.y {
            ("x", &self.x)
        } else {
            ("y", &self.y)
        }
    }
}

} // verus!
