//! Receiving customers.

use vstd::prelude::*;

verus! {

/// Puts a customer on the waitlist.
pub fn add_to_waitlist() {
}

/// Seats a customer at a table.
pub(crate) fn seat_at_a_table() {
}

} // verus!
