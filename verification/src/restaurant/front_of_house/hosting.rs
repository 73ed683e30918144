//! Seating.

use vstd::prelude::*;

verus! {

/// Puts a guest on the waiting list. The list is not kept: nothing changes.
pub fn add_to_waitlist() {
}

} // verus!
