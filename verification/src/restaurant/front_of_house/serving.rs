//! Serving customers.

use vstd::prelude::*;

verus! {

/// Takes an order.
pub(crate) fn take_order() {
}

/// Serves an order.
pub(crate) fn serve_order() {
}

/// Takes the payment.
pub(crate) fn take_payment() {
}

} // verus!
