use rust_learn::flow_control::{christmas_lyrics, christmas_verse, fibonacci_sequence};

#[test]
fn fibonacci_sequence_of_ten() {
    assert_eq!(fibonacci_sequence(10), vec![0, 1, 1, 2, 3, 5, 8, 13, 21, 34]);
}

#[test]
fn fibonacci_sequence_of_none_one_and_two() {
    assert_eq!(fibonacci_sequence(0), Vec::<i32>::new());
    assert_eq!(fibonacci_sequence(1), vec![0]);
    assert_eq!(fibonacci_sequence(2), vec![0, 1]);
}

#[test]
fn fibonacci_sequence_up_to_its_limit() {
    let numbers = fibonacci_sequence(45);
    assert_eq!(numbers.len(), 45);
    assert_eq!(numbers[44], 701408733);
    for i in 2..45 {
        assert_eq!(numbers[i], numbers[i - 1] + numbers[i - 2]);
    }
}

#[test]
fn the_first_verse_has_one_gift_and_no_and() {
    let expected: Vec<String> = [
        "",
        "[Verse 1]",
        "On the first day of Christmas,",
        "My true love sent to me",
        "A partridge in a pear tree",
    ]
    .iter()
    .map(|s| s.to_string())
    .collect();
    assert_eq!(christmas_verse(0), expected);
}

#[test]
fn the_third_verse_counts_the_gifts_down() {
    let expected: Vec<String> = [
        "",
        "[Verse 3]",
        "On the third day of Christmas,",
        "My true love sent to me",
        "Three French hens",
        "Two turtle doves",
        "And A partridge in a pear tree",
    ]
    .iter()
    .map(|s| s.to_string())
    .collect();
    assert_eq!(christmas_verse(2), expected);
}

#[test]
fn the_last_verse_has_all_twelve_gifts() {
    let verse = christmas_verse(11);
    assert_eq!(verse.len(), 16);
    assert_eq!(verse[1], "[Verse 12]");
    assert_eq!(verse[2], "On the twelfth day of Christmas,");
    assert_eq!(verse[4], "Twelve drummers drumming");
    assert_eq!(verse[5], "Eleven pipers piping");
    assert_eq!(verse[6], "Ten lords a-leaping");
    assert_eq!(verse[7], "Nine ladies dancing");
    assert_eq!(verse[8], "Eight maids a-milking");
    assert_eq!(verse[9], "Seven swans a-swimming");
    assert_eq!(verse[10], "Six geese a-laying");
    assert_eq!(verse[11], "Five golden rings");
    assert_eq!(verse[12], "Four calling birds");
    assert_eq!(verse[15], "And A partridge in a pear tree");
}

#[test]
fn the_song_has_a_title_and_twelve_verses() {
    let lines = christmas_lyrics();
    assert_eq!(lines[0], "--- The Twelve Days of Christmas ---");
    assert_eq!(lines.len(), 1 + 12 * 4 + (1..=12).sum::<usize>());
    let mut expected = vec!["--- The Twelve Days of Christmas ---".to_string()];
    for day in 0..12 {
        expected.extend(christmas_verse(day));
    }
    assert_eq!(lines, expected);
    let days = [
        "first", "second", "third", "fourth", "fifth", "sixth", "seventh", "eighth", "ninth",
        "tenth", "eleventh", "twelfth",
    ];
    for (i, day) in days.iter().enumerate() {
        assert!(lines.contains(&format!("[Verse {}]", i + 1)));
        assert!(lines.contains(&format!("On the {} day of Christmas,", day)));
    }
}
