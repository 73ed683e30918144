use workbook::largest::{largest, largest_char, largest_i32};
use workbook::points::{Pair, Point, Point2};

#[test]
fn largest_number_of_a_list() {
    assert_eq!(100, largest_i32(&[34, 50, 25, 100, 65]));
    assert_eq!(8954, largest_i32(&[102, 34, 6000, 8954, 2, 43, 8]));
    assert_eq!(-1, largest_i32(&[-5, -1, -3]));
    assert_eq!(7, largest_i32(&[7]));
    assert_eq!(i32::MAX, largest_i32(&[i32::MIN, i32::MAX, 0]));
}

#[test]
fn largest_character_of_a_list() {
    assert_eq!('t', largest_char(&['a', 's', 'q', 't', 'b', 'n']));
    assert_eq!('y', largest_char(&['y', 'm', 'a', 'q']));
    assert_eq!('a', largest_char(&['a']));
    assert_eq!('\u{e9}', largest_char(&['z', '\u{e9}', 'A']));
}

#[test]
fn largest_of_any_ordered_type() {
    assert_eq!(100, largest(&[34, 50, 25, 100, 65]));
    assert_eq!('y', largest(&['y', 'm', 'a', 'q']));
    assert_eq!("pear", largest(&["apple", "pear", "fig"]));
    assert_eq!(2u8, largest(&[2u8]));
    assert_eq!((2, 1), largest(&[(1, 9), (2, 1), (2, 0)]));
}

#[test]
fn point_hands_out_its_first_coordinate() {
    let p = Point { x: 5, y: 10 };
    assert_eq!(&5, p.x());
    let q = Point { x: "left", y: "right" };
    assert_eq!(&"left", q.x());
}

#[test]
fn mixup_takes_x_from_one_and_y_from_the_other() {
    let p1 = Point2 { x: 5, y: "ten" };
    let p2 = Point2 { x: "Hello", y: 'c' };
    let p3 = p1.mixup(p2);
    assert_eq!(5, p3.x);
    assert_eq!('c', p3.y);
}

#[test]
fn pair_shows_its_largest_member() {
    assert_eq!(("y", &9), Pair::new(5, 9).cmp_display());
    assert_eq!(("x", &9), Pair::new(9, 5).cmp_display());
    assert_eq!(("x", &7), Pair::new(7, 7).cmp_display());
    assert_eq!(("x", &"b"), Pair::new("b", "a").cmp_display());
}
