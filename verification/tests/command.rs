use rust_learn::command::{is_separator, parse_line, parse_tokens, tokenize, Command};

fn words(list: &[&str]) -> Vec<String> {
    list.iter().map(|s| s.to_string()).collect()
}

#[test]
fn tokenize_cuts_at_white_space() {
    assert_eq!(tokenize("Add Sally to Engineering"), words(&["Add", "Sally", "to", "Engineering"]));
    assert_eq!(tokenize("Quit"), words(&["Quit"]));
}

#[test]
fn tokenize_ignores_white_space_at_the_ends_and_runs_of_it() {
    assert_eq!(tokenize("  List \t  All \r\n"), words(&["List", "All"]));
    assert_eq!(tokenize("\tQuit\n"), words(&["Quit"]));
    assert_eq!(tokenize("a\u{3000}b\u{a0}c\u{2003}d\u{85}e"), words(&["a", "b", "c", "d", "e"]));
}

#[test]
fn tokenize_finds_no_word_in_an_empty_or_blank_line() {
    assert_eq!(tokenize(""), Vec::<String>::new());
    assert_eq!(tokenize("   \t \n"), Vec::<String>::new());
}

#[test]
fn tokenize_keeps_characters_that_are_no_white_space() {
    assert_eq!(tokenize("Add José to 研究部"), words(&["Add", "José", "to", "研究部"]));
    assert_eq!(tokenize("a\u{200b}b"), words(&["a\u{200b}b"]));
    assert_eq!(tokenize("x\u{1c}y"), words(&["x\u{1c}y"]));
}

#[test]
fn tokenize_agrees_with_the_standard_split() {
    let lines = [
        "",
        " ",
        "Add  Sally   to Engineering ",
        "\u{2028}List\u{2029}All\u{202f}",
        "one\u{1680}two\u{205f}three\u{2000}four\u{200a}five",
        "tab\there\u{b}and\u{c}there",
        "\u{feff}bom kept",
        "List All Quit",
    ];
    for line in lines.iter() {
        let expected: Vec<String> = line.trim().split_whitespace().map(|w| w.to_string()).collect();
        assert_eq!(tokenize(line), expected, "{:?}", line);
    }
}

#[test]
fn is_separator_agrees_with_the_standard_library_on_every_character() {
    let mut code: u32 = 0;
    while code <= 0x10FFFF {
        if let Some(c) = char::from_u32(code) {
            assert_eq!(is_separator(c), c.is_whitespace(), "U+{:04X}", code);
        }
        code += 1;
    }
}

#[test]
fn parse_tokens_reads_each_of_the_four_commands() {
    assert_eq!(
        parse_tokens(words(&["Add", "Sally", "to", "Engineering"])),
        Command::Add { employee: "Sally".to_string(), department: "Engineering".to_string() }
    );
    assert_eq!(parse_tokens(words(&["List", "All"])), Command::ListAll);
    assert_eq!(
        parse_tokens(words(&["List", "Sales"])),
        Command::ListOne { department: "Sales".to_string() }
    );
    assert_eq!(parse_tokens(words(&["Quit"])), Command::Quit);
}

#[test]
fn parse_tokens_keeps_the_words_of_what_it_does_not_understand() {
    assert_eq!(parse_tokens(Vec::new()), Command::Invalid { raw_tokens: Vec::new() });
    for bad in [
        vec!["Add", "Sally", "Engineering"],
        vec!["Add", "Sally", "to"],
        vec!["Add", "Sally", "into", "Engineering"],
        vec!["add", "Sally", "to", "Engineering"],
        vec!["Add", "Sally", "To", "Engineering"],
        vec!["Add", "Sally", "Ann", "to", "Engineering"],
        vec!["List"],
        vec!["List", "Sales", "now"],
        vec!["list", "Sales"],
        vec!["Quit", "now"],
        vec!["quit"],
        vec!["QUIT"],
        vec!["Remove", "Sally"],
    ] {
        assert_eq!(parse_tokens(words(&bad)), Command::Invalid { raw_tokens: words(&bad) });
    }
}

#[test]
fn parse_tokens_takes_list_all_for_the_whole_roster_only_when_spelled_so() {
    assert_eq!(parse_tokens(words(&["List", "All"])), Command::ListAll);
    assert_eq!(
        parse_tokens(words(&["List", "all"])),
        Command::ListOne { department: "all".to_string() }
    );
    assert_eq!(
        parse_tokens(words(&["List", "ALL"])),
        Command::ListOne { department: "ALL".to_string() }
    );
}

#[test]
fn parse_tokens_takes_keywords_as_names_where_names_stand() {
    assert_eq!(
        parse_tokens(words(&["Add", "to", "to", "to"])),
        Command::Add { employee: "to".to_string(), department: "to".to_string() }
    );
    assert_eq!(
        parse_tokens(words(&["Add", "Quit", "to", "All"])),
        Command::Add { employee: "Quit".to_string(), department: "All".to_string() }
    );
    assert_eq!(
        parse_tokens(words(&["List", "Quit"])),
        Command::ListOne { department: "Quit".to_string() }
    );
}

#[test]
fn parse_line_reads_commands_from_lines() {
    assert_eq!(
        parse_line("Add Amir to Sales\n"),
        Command::Add { employee: "Amir".to_string(), department: "Sales".to_string() }
    );
    assert_eq!(parse_line("   List    All  "), Command::ListAll);
    assert_eq!(parse_line("List Sales"), Command::ListOne { department: "Sales".to_string() });
    assert_eq!(parse_line("Quit\r\n"), Command::Quit);
    assert_eq!(parse_line(""), Command::Invalid { raw_tokens: Vec::new() });
    assert_eq!(
        parse_line("Hello there"),
        Command::Invalid { raw_tokens: words(&["Hello", "there"]) }
    );
}
