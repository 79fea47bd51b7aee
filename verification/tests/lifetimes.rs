use rust_learn::lifetimes::{longest, longest_with_an_announcement, ImportantExcerpt, Text};

#[test]
fn longest_gives_the_longer_text() {
    assert_eq!(longest("abcd", "xyz"), "abcd");
    assert_eq!(longest("xyz", "abcd"), "abcd");
    assert_eq!(longest("long string is long", "xyz"), "long string is long");
}

#[test]
fn longest_gives_the_second_of_two_equally_long() {
    assert_eq!(longest("abc", "xyz"), "xyz");
    assert_eq!(longest("", ""), "");
}

#[test]
fn longest_counts_bytes_not_characters() {
    assert_eq!(longest("日本", "abcde"), "日本");
    assert_eq!(longest("é", "ab"), "ab");
}

#[test]
fn longest_with_an_announcement_gives_both() {
    let (line, text) = longest_with_an_announcement("abcd", "xyz", "Today's longest string");
    assert_eq!(line, "Announcement! Today's longest string");
    assert_eq!(text, "abcd");
}

#[test]
fn an_excerpt_is_announced_and_returned() {
    let novel = String::from("Call me Ishmael. Some years ago...");
    let excerpt = ImportantExcerpt { part: novel.split('.').next().unwrap() };
    let (line, part) = excerpt.announce_and_return_part("listen");
    assert_eq!(line, "Attention please: listen");
    assert_eq!(part, "Call me Ishmael");
}

#[test]
fn first_word_ends_at_the_first_space() {
    assert_eq!(Text { content: "hello world of rust" }.first_word(), "hello");
    assert_eq!(Text { content: "hello" }.first_word(), "hello");
    assert_eq!(Text { content: "" }.first_word(), "");
    assert_eq!(Text { content: " hello" }.first_word(), "");
    assert_eq!(Text { content: "a  b" }.first_word(), "a");
}

#[test]
fn first_word_takes_only_the_space_for_an_end() {
    assert_eq!(Text { content: "tab\tstays here" }.first_word(), "tab\tstays");
    assert_eq!(Text { content: "日本語 テキスト" }.first_word(), "日本語");
    assert_eq!(Text { content: "wide\u{3000}space kept" }.first_word(), "wide\u{3000}space");
}
