use rust_learn::borrowing::{add_suffix, calculate_length, change};
use rust_learn::ownership::{gives_ownership, takes_and_gives_back};
use rust_learn::structs::{Color, Rectangle, User};

#[test]
fn a_new_user_is_active_and_has_signed_in_once() {
    let user = User::new(String::from("user2"), String::from("user2@example.com"));
    assert!(user.active);
    assert_eq!(user.username, "user2");
    assert_eq!(user.email, "user2@example.com");
    assert_eq!(user.sign_in_count, 1);
}

#[test]
fn describe_gives_the_account_in_one_line() {
    let mut user = User {
        email: String::from("someone@example.com"),
        username: String::from("someusername123"),
        active: true,
        sign_in_count: 1,
    };
    assert_eq!(
        user.describe(),
        "User: someusername123, Email: someone@example.com, Active: true, Sign-ins: 1"
    );
    user.active = false;
    user.sign_in_count = 1205;
    assert_eq!(
        user.describe(),
        "User: someusername123, Email: someone@example.com, Active: false, Sign-ins: 1205"
    );
}

#[test]
fn increment_sign_in_count_counts_one_more() {
    let mut user = User::new(String::from("a"), String::from("b"));
    user.increment_sign_in_count();
    assert_eq!(user.sign_in_count, 2);
    assert_eq!(user.username, "a");
    assert_eq!(user.email, "b");
    assert!(user.active);
    user.sign_in_count = u64::MAX - 1;
    user.increment_sign_in_count();
    assert_eq!(user.sign_in_count, u64::MAX);
}

#[test]
fn a_colour_has_three_parts() {
    let black = Color(0, 0, 0);
    assert_eq!((black.0, black.1, black.2), (0, 0, 0));
}

#[test]
fn a_rectangle_is_written_with_width_and_height() {
    let rect = Rectangle { width: 30, height: 50 };
    assert_eq!(rect.to_string(), "Rectangle (width: 30, height: 50)");
    assert_eq!(
        Rectangle { width: 0, height: u32::MAX }.to_string(),
        "Rectangle (width: 0, height: 4294967295)"
    );
}

#[test]
fn area_is_width_times_height() {
    assert_eq!(Rectangle { width: 30, height: 50 }.area(), 1500);
    assert_eq!(Rectangle { width: 0, height: 50 }.area(), 0);
    assert_eq!(Rectangle { width: 65535, height: 65537 }.area(), u32::MAX);
}

#[test]
fn can_hold_asks_for_both_sides() {
    let big = Rectangle { width: 30, height: 50 };
    assert!(big.can_hold(Rectangle { width: 10, height: 40 }));
    assert!(big.can_hold(Rectangle { width: 30, height: 50 }));
    assert!(!big.can_hold(Rectangle { width: 31, height: 10 }));
    assert!(!big.can_hold(Rectangle { width: 10, height: 51 }));
    assert!(!big.can_hold(Rectangle { width: 50, height: 30 }));
}

#[test]
fn square_has_equal_sides() {
    assert_eq!(Rectangle::square(7), Rectangle { width: 7, height: 7 });
}

#[test]
fn gives_ownership_gives_yours() {
    assert_eq!(gives_ownership(), "yours");
}

#[test]
fn takes_and_gives_back_the_same() {
    assert_eq!(takes_and_gives_back(String::from("take and give back")), "take and give back");
}

#[test]
fn calculate_length_counts_bytes() {
    assert_eq!(calculate_length(&String::from("hello")), 5);
    assert_eq!(calculate_length(&String::new()), 0);
    assert_eq!(calculate_length(&String::from("Здравствуйте")), 24);
}

#[test]
fn change_adds_world() {
    let mut text = String::from("hello");
    change(&mut text);
    assert_eq!(text, "hello, world");
}

#[test]
fn add_suffix_adds_an_exclamation_mark() {
    let mut text = String::from("Hello");
    {
        let same = add_suffix(&mut text);
        assert_eq!(same, "Hello!");
    }
    assert_eq!(text, "Hello!");
    add_suffix(&mut text);
    assert_eq!(text, "Hello!!");
}
