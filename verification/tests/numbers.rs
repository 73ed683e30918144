use workbook::guess::Guess;
use workbook::numbers::{five, nth_fibonacci, plus_one};
use workbook::shapes::{area, area1, area2, Rectangle};
use workbook::statistics::{calc_mode, count_occurrences};
use workbook::users::build_user;

#[test]
fn five_and_plus_one() {
    assert_eq!(5, five());
    assert_eq!(6, plus_one(5));
    assert_eq!(0, plus_one(-1));
    assert_eq!(i32::MAX, plus_one(i32::MAX - 1));
}

#[test]
fn fibonacci_numbers() {
    assert_eq!(13, nth_fibonacci(7));
    assert_eq!(1, nth_fibonacci(1));
    assert_eq!(1, nth_fibonacci(2));
    assert_eq!(2, nth_fibonacci(3));
    assert_eq!(55, nth_fibonacci(10));
    assert_eq!(1836311903, nth_fibonacci(46));
}

#[test]
fn fibonacci_below_one_is_one() {
    assert_eq!(1, nth_fibonacci(0));
    assert_eq!(1, nth_fibonacci(-5));
    assert_eq!(1, nth_fibonacci(i32::MIN));
}

#[test]
fn areas_multiply_the_sides() {
    assert_eq!(1500, area(30, 50));
    assert_eq!(1500, area1((30, 50)));
    let rect = Rectangle {
        width: 30,
        height: 50,
    };
    assert_eq!(1500, area2(&rect));
    assert_eq!(1500, rect.area());
    assert_eq!(0, area(0, u32::MAX));
    assert_eq!(u32::MAX, area(1, u32::MAX));
    assert_eq!(4294836225, area(65535, 65535));
}

#[test]
fn square_has_equal_sides() {
    let sq = Rectangle::square(3);
    assert_eq!(3, sq.width);
    assert_eq!(3, sq.height);
    assert_eq!(9, sq.area());
}

#[test]
fn rectangles_hold_smaller_ones() {
    let rect1 = Rectangle {
        width: 30,
        height: 50,
    };
    let rect2 = Rectangle {
        width: 10,
        height: 40,
    };
    let rect3 = Rectangle {
        width: 60,
        height: 45,
    };
    assert!(rect1.can_hold(&rect2));
    assert!(!rect1.can_hold(&rect3));
}

#[test]
fn guess_keeps_a_number_in_range() {
    assert_eq!(1, Guess::new(1).value());
    assert_eq!(100, Guess::new(100).value());
    assert_eq!(42, Guess::new(42).value());
}

#[test]
fn checked_guess_rejects_what_is_out_of_range() {
    assert!(Guess::checked(0).is_none());
    assert!(Guess::checked(101).is_none());
    assert!(Guess::checked(200).is_none());
    assert!(Guess::checked(-7).is_none());
    assert_eq!(Some(1), Guess::checked(1).map(|g| g.value()));
    assert_eq!(Some(100), Guess::checked(100).map(|g| g.value()));
}

#[test]
fn mode_is_the_most_frequent_number() {
    let list = vec![1, 3, 3, 4, 6, 8, 9, 12, 15, 25, 25, 25, 30, 32];
    assert_eq!(25, calc_mode(&list));
    assert_eq!(7, calc_mode(&vec![7]));
    assert_eq!(-2, calc_mode(&vec![-2, 5, -2]));
    let tied = calc_mode(&vec![1, 2, 2, 1]);
    assert!(tied == 1 || tied == 2);
}

#[test]
fn occurrences_are_counted_per_number() {
    let counts = count_occurrences(&vec![3, 1, 3, 3, 2, 1]);
    assert_eq!(3, counts.len());
    assert_eq!(Some(&3), counts.get(&3));
    assert_eq!(Some(&2), counts.get(&1));
    assert_eq!(Some(&1), counts.get(&2));
    assert_eq!(None, counts.get(&4));
    assert!(count_occurrences(&vec![]).is_empty());
}

#[test]
fn new_user_is_active_and_has_signed_in_once() {
    let user = build_user(
        String::from("an_email@email.com"),
        String::from("some_user"),
    );
    assert_eq!("an_email@email.com", user.email);
    assert_eq!("some_user", user.username);
    assert!(user.active);
    assert_eq!(1, user.sign_in_count);
}
