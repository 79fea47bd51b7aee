use rust_learn::numerals::{append_decimal, append_signed_decimal};
use rust_learn::sorting::sorted_copy;
use rust_learn::text::{str_eq, str_le};

fn texts(list: &[&str]) -> Vec<String> {
    list.iter().map(|s| s.to_string()).collect()
}

#[test]
fn str_le_orders_by_the_first_difference() {
    assert!(str_le("Amir", "Bob"));
    assert!(!str_le("Bob", "Amir"));
    assert!(str_le("abc", "abd"));
    assert!(!str_le("abd", "abc"));
    assert!(str_le("Zed", "amir"));
}

#[test]
fn str_le_puts_a_prefix_first() {
    assert!(str_le("", ""));
    assert!(str_le("", "a"));
    assert!(!str_le("a", ""));
    assert!(str_le("Bo", "Bob"));
    assert!(!str_le("Bob", "Bo"));
    assert!(str_le("Bob", "Bob"));
}

#[test]
fn str_le_agrees_with_the_standard_order_beyond_ascii() {
    let samples = ["", "a", "z", "é", "日本", "日", "\u{10FFFF}", "\u{FFFD}", "zz", "~", "\u{7f}"];
    for a in samples.iter() {
        for b in samples.iter() {
            assert_eq!(str_le(a, b), a <= b, "{:?} against {:?}", a, b);
        }
    }
}

#[test]
fn str_eq_tells_same_from_different() {
    assert!(str_eq("", ""));
    assert!(str_eq("List", "List"));
    assert!(!str_eq("List", "list"));
    assert!(!str_eq("List", "Lis"));
    assert!(!str_eq("Lis", "List"));
    assert!(!str_eq("", "a"));
    assert!(str_eq("日本", "日本"));
}

#[test]
fn sorted_copy_sorts_and_keeps_duplicates() {
    let items = texts(&["pear", "apple", "fig", "apple", "Apple", ""]);
    assert_eq!(sorted_copy(&items), texts(&["", "Apple", "apple", "apple", "fig", "pear"]));
    assert_eq!(items, texts(&["pear", "apple", "fig", "apple", "Apple", ""]));
}

#[test]
fn sorted_copy_of_nothing_and_of_one() {
    assert_eq!(sorted_copy(&Vec::new()), Vec::<String>::new());
    assert_eq!(sorted_copy(&texts(&["only"])), texts(&["only"]));
}

#[test]
fn sorted_copy_agrees_with_the_standard_sort() {
    let mut items = Vec::new();
    let mut seed: u32 = 12345;
    for _ in 0..200 {
        seed = seed.wrapping_mul(1103515245).wrapping_add(12345);
        let length = (seed >> 16) % 4;
        let mut text = String::new();
        for k in 0..length {
            let code = (seed >> (4 * k)) % 6;
            text.push(['a', 'b', 'B', 'é', 'z', ' '][code as usize]);
        }
        items.push(text);
    }
    let mut expected = items.clone();
    expected.sort();
    assert_eq!(sorted_copy(&items), expected);
}

#[test]
fn append_decimal_writes_numbers_without_leading_zeros() {
    let mut out = String::from("n=");
    append_decimal(&mut out, 0);
    assert_eq!(out, "n=0");
    let mut out = String::new();
    append_decimal(&mut out, 7);
    append_decimal(&mut out, 10);
    append_decimal(&mut out, 1205);
    assert_eq!(out, "7101205");
    let mut out = String::new();
    append_decimal(&mut out, u64::MAX);
    assert_eq!(out, "18446744073709551615");
}

#[test]
fn append_signed_decimal_writes_the_sign_of_negative_numbers() {
    let mut out = String::new();
    append_signed_decimal(&mut out, -5);
    assert_eq!(out, "-5");
    let mut out = String::new();
    append_signed_decimal(&mut out, 0);
    assert_eq!(out, "0");
    let mut out = String::new();
    append_signed_decimal(&mut out, 42);
    assert_eq!(out, "42");
    let mut out = String::new();
    append_signed_decimal(&mut out, i64::MIN);
    assert_eq!(out, "-9223372036854775808");
    let mut out = String::new();
    append_signed_decimal(&mut out, i64::MAX);
    assert_eq!(out, "9223372036854775807");
}
