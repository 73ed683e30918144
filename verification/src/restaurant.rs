//! A restaurant: the front of the house, the back of the house, and a guest
//! who orders breakfast.

pub mod back_of_house;
pub mod front_of_house;

use vstd::prelude::*;
use vstd::string::*;

verus! {

/// A guest is put on the waiting list twice, orders a summer breakfast with
/// rye toast and changes the toast to wheat: the sentence of the order.
pub fn eat_at_restaurant() -> (order: String)
    ensures
        order@ == "I'd like "@ + "wheat"@ + " toast please"@,
{
    front_of_house::hosting::add_to_waitlist();
    front_of_house::hosting::add_to_waitlist();
    let mut meal = back_of_house::Breakfast::summer("rye");
    meal.change_toast("wheat");
    let order = String::from_str("I'd like ").concat(meal.toast()).concat(" toast please");
    path_scope_ex();
    order
}

/// Puts three guests on the waiting list and names the two appetizers.
/// Neither the list nor the names are kept: nothing changes.
pub fn path_scope_ex() {
    front_of_house::hosting::add_to_waitlist();
    front_of_house::hosting::add_to_waitlist();
    front_of_house::hosting::add_to_waitlist();
    let _order1 = back_of_house::Appetizer::Soup;
    let _order2 = back_of_house::Appetizer::Salad;
}

} // verus!
