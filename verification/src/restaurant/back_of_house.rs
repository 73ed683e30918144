//! The kitchen, and what it sends out.

use vstd::prelude::*;
use vstd::string::*;

verus! {

/// Cooks an order again and has it served.
pub fn fix_incorrect_order() {
    cook_order();
    super::front_of_house::serving::serve_order();
}

/// Cooks an order. Nothing changes.
pub fn cook_order() {
}

/// A breakfast: the guest chooses the toast, the kitchen the fruit.
pub struct Breakfast {
    pub toast: String,
    seasonal_fruit: String,
}

impl Breakfast {
    /// The toast asked for, as contracts see it.
    pub closed spec fn spec_toast(&self) -> Seq<char> {
        self.toast@
    }

    /// The fruit that comes with the breakfast, as contracts see it.
    pub closed spec fn spec_seasonal_fruit(&self) -> Seq<char> {
        self.seasonal_fruit@
    }

    /// A summer breakfast: the toast asked for, with peaches.
    pub fn summer(toast: &str) -> (meal: Breakfast)
        ensures
            meal.spec_toast() == toast@,
            meal.spec_seasonal_fruit() == "peaches"@,
    {
        Breakfast {
            toast: String::from_str(toast),
            seasonal_fruit: String::from_str("peaches"),
        }
    }

    /// Changes the toast to `toast` and leaves the fruit as it is.
    pub fn change_toast(&mut self, toast: &str)
        ensures
            final(self).spec_toast() == toast@,
            final(self).spec_seasonal_fruit() == old(self).spec_seasonal_fruit(),
    {
        self.toast = String::from_str(toast);
    }

    /// The toast asked for.
    pub fn toast(&self) -> (toast: &str)
        ensures
            toast@ == self.spec_toast(),
    {
        self.toast.as_str()
    }

    /// The fruit that comes with the breakfast.
    pub fn seasonal_fruit(&self) -> (fruit: &str)
        ensures
            fruit@ == self.spec_seasonal_fruit(),
    {
        self.seasonal_fruit.as_str()
    }
}

/// What is served before the meal.
#[derive(Debug, PartialEq, Eq, Structural, Clone, Copy)]
pub enum Appetizer {
    Soup,
    Salad,
}

} // verus!
