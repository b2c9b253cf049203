//! The kitchen: what it cooks, and what it lets a customer choose.

use vstd::prelude::*;
use vstd::string::StringExecFns;

verus! {

/// A breakfast. The customer chooses the toast; the fruit is the chef's
/// choice by season.
pub struct Breakfast {
    pub toast: String,
    seasonal_fruit: String,
}

/// What comes before the meal.
#[derive(Clone, Copy, Debug, PartialEq, Eq, Structural)]
pub enum Appetizer {
    Soup,
    Salad,
}

impl Breakfast {
    /// The toast that was asked for.
    pub closed spec fn bread(&self) -> Seq<char> {
        self.toast@
    }

    /// The fruit that comes with the breakfast.
    pub closed spec fn fruit(&self) -> Seq<char> {
        self.seasonal_fruit@
    }

    /// A summer breakfast with the toast asked for; in summer the fruit is
    /// peaches.
    pub fn summer(toast: &str) -> (meal: Breakfast)
        ensures
            meal.bread() == toast@,
            meal.fruit() == "peaches"@,
    {
        Breakfast { toast: String::from_str(toast), seasonal_fruit: String::from_str("peaches") }
    }

    /// Changes the toast; the fruit stays the chef's choice.
    pub fn change_toast(&mut self, toast: &str)
        ensures
            final(self).bread() == toast@,
            final(self).fruit() == old(self).fruit(),
    {
        self.toast = String::from_str(toast);
    }

    /// The toast that was asked for.
    pub fn toast(&self) -> (toast: &str)
        ensures
            toast@ == self.bread(),
    {
        self.toast.as_str()
    }

    /// The fruit that comes with the breakfast.
    pub fn seasonal_fruit(&self) -> (fruit: &str)
        ensures
            fruit@ == self.fruit(),
    {
        self.seasonal_fruit.as_str()
    }
}

/// Cooks an order anew and has it delivered.
pub(crate) fn fix_incorrect_order() {
    cook_order();
    crate::restaurant::deliver_order();
}

/// Cooks an order.
pub(crate) fn cook_order() {
}

} // verus!
