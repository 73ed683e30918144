//! Serving at the table.

use vstd::prelude::*;

verus! {

/// Takes an order. Orders are not kept: nothing changes.
pub fn take_order() {
}

/// Serves an order. Nothing changes.
pub fn serve_order() {
}

/// Takes a payment. Nothing changes.
pub fn take_payment() {
}

} // verus!
