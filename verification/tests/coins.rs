use workbook::coins::{plus_one, quarter_example, value_in_cents, Coin, UsState};
use workbook::inventory::{Inventory, ShirtColor};

#[test]
fn each_coin_has_its_value() {
    assert_eq!(1, value_in_cents(Coin::Penny));
    assert_eq!(5, value_in_cents(Coin::Nickel));
    assert_eq!(10, value_in_cents(Coin::Dime));
    assert_eq!(25, value_in_cents(Coin::Quarter(UsState::Alaska)));
    assert_eq!(25, value_in_cents(Coin::Quarter(UsState::Wyoming)));
}

#[test]
fn only_a_quarter_names_a_state() {
    assert_eq!(None, quarter_example(Coin::Nickel));
    assert_eq!(None, quarter_example(Coin::Penny));
    assert_eq!(None, quarter_example(Coin::Dime));
    assert_eq!(
        Some(UsState::Pennsylvania),
        quarter_example(Coin::Quarter(UsState::Pennsylvania))
    );
}

#[test]
fn plus_one_keeps_absence() {
    assert_eq!(Some(6), plus_one(Some(5)));
    assert_eq!(None, plus_one(None));
    assert_eq!(Some(0), plus_one(Some(-1)));
    assert_eq!(Some(i32::MAX), plus_one(Some(i32::MAX - 1)));
    assert_eq!(Some(i32::MIN + 1), plus_one(Some(i32::MIN)));
}

#[test]
fn giveaway_follows_the_preference() {
    let store = Inventory {
        shirts: vec![ShirtColor::Blue, ShirtColor::Red, ShirtColor::Blue],
    };
    assert_eq!(ShirtColor::Red, store.giveaway(Some(ShirtColor::Red)));
    assert_eq!(ShirtColor::Blue, store.giveaway(Some(ShirtColor::Blue)));
    assert_eq!(ShirtColor::Blue, store.giveaway(None));
}

#[test]
fn most_stocked_is_red_only_with_more_red() {
    let more_blue = Inventory {
        shirts: vec![ShirtColor::Blue, ShirtColor::Red, ShirtColor::Blue],
    };
    assert_eq!(ShirtColor::Blue, more_blue.most_stocked());
    let more_red = Inventory {
        shirts: vec![ShirtColor::Red, ShirtColor::Red, ShirtColor::Blue],
    };
    assert_eq!(ShirtColor::Red, more_red.most_stocked());
    assert_eq!(ShirtColor::Red, more_red.giveaway(None));
    let even = Inventory {
        shirts: vec![ShirtColor::Red, ShirtColor::Blue],
    };
    assert_eq!(ShirtColor::Blue, even.most_stocked());
    let empty = Inventory { shirts: vec![] };
    assert_eq!(ShirtColor::Blue, empty.most_stocked());
}
