//! The largest element of a slice, for two element types and for any type
//! whose values can be compared.

use std::cmp::Ordering;
use vstd::prelude::*;
use vstd::std_specs::cmp::PartialOrdSpec;

verus! {

/// `value` occurs in `list` and no element of `list` is larger.
pub open spec fn is_largest_i32(list: Seq<i32>, value: i32) -> bool {
    &&& list.contains(value)
    &&& forall|i: int| 0 <= i < list.len() ==> list[i] <= value
}

/// The largest number of a list that is not empty.
pub fn largest_i32(list: &[i32]) -> (largest: i32)
    requires
        list@.len() > 0,
    ensures
        is_largest_i32(list@, largest),
{
    let mut largest = list[0];
    let mut at: usize = 1;
    while at < list.len()
        invariant
            1 <= at <= list@.len(),
            exists|i: int| 0 <= i < at && list@[i] == largest,
            forall|i: int| 0 <= i < at ==> list@[i] <= largest,
        decreases list@.len() - at,
    {
        let item = list[at];
        if item > largest {
            largest = item;
        }
        at += 1;
    }
    largest
}

/// `value` occurs in `list` and no element of `list` comes after it in the
/// order of characters.
pub open spec fn is_largest_char(list: Seq<char>, value: char) -> bool {
    &&& list.contains(value)
    &&& forall|i: int| 0 <= i < list.len() ==> list[i] <= value
}

/// The largest character of a list that is not empty.
pub fn largest_char(list: &[char]) -> (largest: char)
    requires
        list@.len() > 0,
    ensures
        is_largest_char(list@, largest),
{
    let mut largest = list[0];
    let mut at: usize = 1;
    while at < list.len()
        invariant
            1 <= at <= list@.len(),
            exists|i: int| 0 <= i < at && list@[i] == largest,
            forall|i: int| 0 <= i < at ==> list@[i] <= largest,
        decreases list@.len() - at,
    {
        let item = list[at];
        if item > largest {
            largest = item;
        }
        at += 1;
    }
    largest
}

/// The first `len` elements of `list`.
pub open spec fn first_elements<T>(list: Seq<T>, len: usize) -> Seq<T> {
    list.subrange(0, len as int)
}

/// What a scan from the left arrives at that starts with the first element
/// and moves on to each element that compares greater than the one it
/// holds.
pub open spec fn scan_largest<T: PartialOrd>(list: Seq<T>) -> T
    decreases list.len(),
{
    if list.len() <= 1 {
        list[0]
    } else {
        let held = scan_largest(list.drop_last());
        if list.last().partial_cmp_spec(&held) == Some(Ordering::Greater) {
            list.last()
        } else {
            held
        }
    }
}

/// The largest element of a list that is not empty: an element of the list,
/// and, for a type whose comparison is specified, the one that a scan from
/// the left arrives at. Of two elements that compare equal it is the earlier
/// one.
pub fn largest<T: PartialOrd + Copy>(list: &[T]) -> (largest: T)
    requires
        list@.len() > 0,
    ensures
        list@.contains(largest),
        T::obeys_partial_cmp_spec() ==> largest == scan_largest(list@),
{
    let mut largest = list[0];
    let mut at: usize = 1;
    proof {
        assert(first_elements(list@, at).len() == 1);
        assert(first_elements(list@, at)[0] == list@[0]);
    }
    while at < list.len()
        invariant
            1 <= at <= list@.len(),
            exists|i: int| 0 <= i < at && list@[i] == largest,
            T::obeys_partial_cmp_spec() ==> largest == scan_largest(first_elements(list@, at)),
        decreases list@.len() - at,
    {
        let item = list[at];
        let ghost seen = at;
        if item > largest {
            largest = item;
        }
        at += 1;
        proof {
            let longer = first_elements(list@, at);
            assert(longer.drop_last() =~= first_elements(list@, seen));
            assert(longer.last() == item);
        }
    }
    proof {
        assert(first_elements(list@, at) =~= list@);
    }
    largest
}

} // verus!
