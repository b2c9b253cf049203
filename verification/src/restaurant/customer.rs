//! The customer's side of the house.

use vstd::prelude::*;

verus! {

/// Eats without being put on a waitlist.
pub fn eat_at_restaruant() {
}

} // verus!
