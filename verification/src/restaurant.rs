//! A restaurant: the front of the house, the back of the house, and what a
//! customer may order.

pub mod back_of_house;
pub mod customer;
pub mod front_of_house;

use crate::restaurant::back_of_house::{Appetizer, Breakfast};
use crate::restaurant::front_of_house::hosting;
use vstd::prelude::*;

verus! {

/// Brings an order to the table.
pub(crate) fn deliver_order() {
}

/// Puts the customer on the waitlist, twice.
pub fn eat_at_restaurant() {
    crate::restaurant::front_of_house::hosting::add_to_waitlist();
    hosting::add_to_waitlist();
}

/// Orders a summer breakfast with rye toast, then changes the toast to
/// wheat: the meal as it is served.
pub fn eat_at_restaurant_2() -> (meal: Breakfast)
    ensures
        meal.bread() == "Wheat"@,
        meal.fruit() == "peaches"@,
{
    let mut meal = Breakfast::summer("Rye");
    meal.change_toast("Wheat");
    meal
}

/// Orders both appetizers: first the soup, then the salad.
pub fn eat_at_restaurant_3() -> (orders: (Appetizer, Appetizer))
    ensures
        orders.0 == Appetizer::Soup,
        orders.1 == Appetizer::Salad,
{
    let order1 = Appetizer::Soup;
    let order2 = Appetizer::Salad;
    (order1, order2)
}

/// Names the waitlist without putting anyone on it.
pub fn eat_at_restaurant_4() {
}

} // verus!
