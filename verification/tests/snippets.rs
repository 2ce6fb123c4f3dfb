//! The classic struct, slice and word helpers.

use guessing_game::rect::Rectangle;
use guessing_game::tuples::Color;
use guessing_game::tuples::Point;
use guessing_game::user::build_user;
use guessing_game::user::update_email;
use guessing_game::words::first_word_index;
use guessing_game::words::first_word_slice;

#[test]
fn build_user_uses_shorthand() {
    let u = build_user("a@b.com".into(), "tom".into());
    assert!(u.active);
    assert_eq!(u.username, "tom");
    assert_eq!(u.email, "a@b.com");
    assert_eq!(u.sign_in_count, 1);
}

#[test]
fn update_uses_base_fields() {
    let base = build_user("a@b.com".into(), "base".into());
    let upd = update_email(&base, "c@d.com");
    assert_eq!(upd.username, base.username);
    assert_eq!(upd.sign_in_count, base.sign_in_count);
    assert_eq!(upd.email, "c@d.com");
}

#[test]
fn tuple_structs_are_distinct_types() {
    let c = Color(0, 0, 0);
    let p = Point(0, 0, 0);
    let _same_color: Color = c;
    let _same_point: Point = p;
    assert_eq!(c, Color(0, 0, 0));
    assert_eq!(p, Point(0, 0, 0));
}

#[test]
fn area_and_predicates() {
    let r = Rectangle { width: 3, height: 4 };
    assert_eq!(r.area(), 12);
    assert!(r.has_nonzero_width());
}

#[test]
fn can_hold_logic() {
    let big = Rectangle { width: 8, height: 7 };
    let small = Rectangle { width: 5, height: 5 };
    assert!(big.can_hold(&small));
    assert!(!small.can_hold(&big));
}

#[test]
fn square_constructor() {
    let s = Rectangle::square(10);
    assert_eq!(s.width, 10);
    assert_eq!(s.height, 10);
    assert_eq!(s.area(), 100);
}

#[test]
fn index_finds_space_or_len() {
    let s = String::from("hello world");
    assert_eq!(first_word_index(&s), 5);
    let s2 = String::from("single");
    assert_eq!(first_word_index(&s2), s2.len());
}

#[test]
fn slice_returns_first_word() {
    assert_eq!(first_word_slice("hello world"), "hello");
    assert_eq!(first_word_slice("single"), "single");
    let s = String::from("hi rustaceans");
    assert_eq!(first_word_slice(&s), "hi");
}

#[test]
fn array_slicing_demo() {
    let a = [1, 2, 3, 4, 5];
    let sl = &a[1..3];
    assert_eq!(sl, &[2, 3]);
}
