//! Commands: what a line of input asks for.
//!
//! A line is cut into words at whitespace, and the words are held against the
//! four shapes that the roster understands. Whatever fits none of them is an
//! invalid command and keeps its words.
use crate::text::str_eq;
use vstd::prelude::*;
use vstd::std_specs::iter::IteratorSpec;
use vstd::string::{StrSliceExecFns, StringExecFns};

verus! {

broadcast use vstd::string::group_string_axioms;

/// Whether `c` separates words: the characters that Unicode lists as white space.
pub open spec fn is_whitespace(c: char) -> bool {
    ||| '\u{9}' <= c <= '\u{d}'
    ||| c == ' '
    ||| c == '\u{85}'
    ||| c == '\u{a0}'
    ||| c == '\u{1680}'
    ||| '\u{2000}' <= c <= '\u{200a}'
    ||| c == '\u{2028}'
    ||| c == '\u{2029}'
    ||| c == '\u{202f}'
    ||| c == '\u{205f}'
    ||| c == '\u{3000}'
}

/// `word`, if it is one: a word has at least one character.
pub open spec fn finished(word: Seq<char>) -> Seq<Seq<char>> {
    if word.len() > 0 {
        seq![word]
    } else {
        Seq::empty()
    }
}

/// The words of `word` followed by `rest`, where `word` is the beginning of a
/// word, read so far, that `rest` may continue.
pub open spec fn words_from(word: Seq<char>, rest: Seq<char>) -> Seq<Seq<char>>
    decreases rest.len(),
{
    if rest.len() == 0 {
        finished(word)
    } else if is_whitespace(rest[0]) {
        finished(word) + words_from(Seq::empty(), rest.drop_first())
    } else {
        words_from(word.push(rest[0]), rest.drop_first())
    }
}

/// The words of `line`: its longest runs of characters that are not white
/// space, from left to right. White space at either end makes no word.
pub open spec fn split_words(line: Seq<char>) -> Seq<Seq<char>> {
    words_from(Seq::empty(), line)
}

/// Whether `text` has no white space in it.
pub open spec fn unbroken(text: Seq<char>) -> bool {
    forall|i: int| 0 <= i < text.len() ==> !is_whitespace(#[trigger] text[i])
}

/// What `words_from` gives, where the word read so far has no white space
/// in it, are words: none is empty, and none has white space in it.
proof fn lemma_words_from_are_words(word: Seq<char>, rest: Seq<char>)
    requires
        unbroken(word),
    ensures
        forall|k: int|
            0 <= k < words_from(word, rest).len() ==> {
                &&& (#[trigger] words_from(word, rest)[k]).len() > 0
                &&& unbroken(words_from(word, rest)[k])
            },
    decreases rest.len(),
{
    let words = words_from(word, rest);
    if rest.len() > 0 {
        if is_whitespace(rest[0]) {
            let later = words_from(Seq::empty(), rest.drop_first());
            lemma_words_from_are_words(Seq::empty(), rest.drop_first());
            assert forall|k: int| 0 <= k < words.len() implies (#[trigger] words[k]).len() > 0
                && unbroken(words[k]) by {
                if k < finished(word).len() {
                    assert(words[k] == word);
                } else {
                    assert(words[k] == later[k - finished(word).len()]);
                }
            }
        } else {
            let longer = word.push(rest[0]);
            assert forall|i: int| 0 <= i < longer.len() implies !is_whitespace(
                #[trigger] longer[i],
            ) by {
                if i < word.len() {
                    assert(longer[i] == word[i]);
                }
            }
            lemma_words_from_are_words(longer, rest.drop_first());
            assert(words == words_from(longer, rest.drop_first()));
        }
    } else {
        assert forall|k: int| 0 <= k < words.len() implies (#[trigger] words[k]).len() > 0
            && unbroken(words[k]) by {
            assert(words[k] == word);
        }
    }
}

/// The words of a line are words: none is empty, and none has white space in it.
pub proof fn lemma_words_are_unbroken(line: Seq<char>)
    ensures
        forall|k: int|
            0 <= k < split_words(line).len() ==> {
                &&& (#[trigger] split_words(line)[k]).len() > 0
                &&& unbroken(split_words(line)[k])
            },
{
    lemma_words_from_are_words(Seq::empty(), line);
}

/// Text without white space continues the word that was begun before it.
proof fn lemma_words_from_unbroken(word: Seq<char>, rest: Seq<char>)
    requires
        unbroken(rest),
    ensures
        words_from(word, rest) == finished(word + rest),
    decreases rest.len(),
{
    if rest.len() == 0 {
        assert(word + rest =~= word);
    } else {
        let tail = rest.drop_first();
        assert forall|i: int| 0 <= i < tail.len() implies !is_whitespace(#[trigger] tail[i]) by {
            assert(tail[i] == rest[i + 1]);
        }
        lemma_words_from_unbroken(word.push(rest[0]), tail);
        assert(word.push(rest[0]) + tail =~= word + rest);
    }
}

/// A text that is not empty and has no white space in it is one word.
pub proof fn lemma_unbroken_text_is_one_word(text: Seq<char>)
    requires
        text.len() > 0,
        unbroken(text),
    ensures
        split_words(text) == seq![text],
{
    lemma_words_from_unbroken(Seq::empty(), text);
    assert(Seq::<char>::empty() + text =~= text);
}

/// White space ends the word before it, and what follows is read afresh.
proof fn lemma_words_from_cut(word: Seq<char>, left: Seq<char>, c: char, right: Seq<char>)
    requires
        is_whitespace(c),
    ensures
        words_from(word, left + seq![c] + right) == words_from(word, left) + split_words(right),
    decreases left.len(),
{
    let line = left + seq![c] + right;
    if left.len() == 0 {
        assert(line.drop_first() =~= right);
        assert(line[0] == c);
    } else {
        assert(line[0] == left[0]);
        assert(line.drop_first() =~= left.drop_first() + seq![c] + right);
        if is_whitespace(left[0]) {
            lemma_words_from_cut(Seq::empty(), left.drop_first(), c, right);
            let middle = words_from(Seq::empty(), left.drop_first());
            assert(finished(word) + (middle + split_words(right)) =~= (finished(word) + middle)
                + split_words(right));
        } else {
            lemma_words_from_cut(word.push(left[0]), left.drop_first(), c, right);
        }
    }
}

/// A line with white space in it has the words of what stands before the
/// white space, and then the words of what stands after it.
pub proof fn lemma_words_split_at_white_space(left: Seq<char>, c: char, right: Seq<char>)
    requires
        is_whitespace(c),
    ensures
        split_words(left + seq![c] + right) == split_words(left) + split_words(right),
{
    lemma_words_from_cut(Seq::empty(), left, c, right);
}

/// Whether `c` separates words.
pub fn is_separator(c: char) -> (r: bool)
    ensures
        r == is_whitespace(c),
{
    ('\u{9}' <= c && c <= '\u{d}') || c == ' ' || c == '\u{85}' || c == '\u{a0}' || c == '\u{1680}'
        || ('\u{2000}' <= c && c <= '\u{200a}') || c == '\u{2028}' || c == '\u{2029}' || c
        == '\u{202f}' || c == '\u{205f}' || c == '\u{3000}'
}

/// Cuts `line` into its words.
pub fn tokenize(line: &str) -> (tokens: Vec<String>)
    ensures
        tokens.deep_view() == split_words(line@),
{
    let length = line.unicode_len();
    let mut tokens: Vec<String> = Vec::new();
    let mut rest = line.chars();
    let mut start: usize = 0;
    let mut at: usize = 0;
    assert(tokens.deep_view() =~= Seq::empty());
    assert(line@.skip(0) =~= line@);
    assert(line@.subrange(0, 0) =~= Seq::empty());
    loop
        invariant
            length == line@.len(),
            start <= at <= length,
            rest.remaining() == line@.skip(at as int),
            split_words(line@) == tokens.deep_view() + words_from(
                line@.subrange(start as int, at as int),
                line@.skip(at as int),
            ),
            rest.decrease() is Some,
        decreases rest.decrease()->0,
    {
        let ghost word = line@.subrange(start as int, at as int);
        let ghost before = tokens.deep_view();
        match rest.next() {
            None => {
                if start < at {
                    tokens.push(String::from_str(line.substring_char(start, at)));
                    assert(tokens.deep_view() =~= before + seq![word]);
                }
                assert(tokens.deep_view() =~= before + finished(word));
                return tokens;
            },
            Some(c) => {
                assert(line@.skip(at as int).drop_first() =~= line@.skip(at + 1));
                if is_separator(c) {
                    if start < at {
                        tokens.push(String::from_str(line.substring_char(start, at)));
                        assert(tokens.deep_view() =~= before + seq![word]);
                    }
                    assert(tokens.deep_view() =~= before + finished(word));
                    start = at + 1;
                    assert(line@.subrange(start as int, at + 1) =~= Seq::empty());
                } else {
                    assert(line@.subrange(start as int, at + 1) =~= word.push(c));
                }
                at = at + 1;
            },
        }
    }
}

/// One command of the roster's user.
#[derive(Debug, Clone, PartialEq, Eq)]
pub enum Command {
    /// `Add <employee> to <department>`
    Add { employee: String, department: String },
    /// `List <department>`
    ListOne { department: String },
    /// `List All`
    ListAll,
    /// `Quit`
    Quit,
    /// Anything else, with the words that were given.
    Invalid { raw_tokens: Vec<String> },
}

/// A command, with its texts as sequences of characters.
pub ghost enum CommandModel {
    Add { employee: Seq<char>, department: Seq<char> },
    ListOne { department: Seq<char> },
    ListAll,
    Quit,
    Invalid { raw_tokens: Seq<Seq<char>> },
}

impl View for Command {
    type V = CommandModel;

    open spec fn view(&self) -> CommandModel {
        match self {
            Command::Add { employee, department } => CommandModel::Add {
                employee: employee@,
                department: department@,
            },
            Command::ListOne { department } => CommandModel::ListOne { department: department@ },
            Command::ListAll => CommandModel::ListAll,
            Command::Quit => CommandModel::Quit,
            Command::Invalid { raw_tokens } => CommandModel::Invalid {
                raw_tokens: raw_tokens.deep_view(),
            },
        }
    }
}

/// The command that `words` spell. Keywords must be written exactly; `List All`
/// asks for every department, so no department can be listed under the name `All`.
pub open spec fn parse_words(words: Seq<Seq<char>>) -> CommandModel {
    if words.len() == 4 && words[0] == "Add"@ && words[2] == "to"@ {
        CommandModel::Add { employee: words[1], department: words[3] }
    } else if words.len() == 2 && words[0] == "List"@ && words[1] == "All"@ {
        CommandModel::ListAll
    } else if words.len() == 2 && words[0] == "List"@ {
        CommandModel::ListOne { department: words[1] }
    } else if words.len() == 1 && words[0] == "Quit"@ {
        CommandModel::Quit
    } else {
        CommandModel::Invalid { raw_tokens: words }
    }
}

/// Reads a command from the words of a line.
pub fn parse_tokens(tokens: Vec<String>) -> (command: Command)
    ensures
        command@ == parse_words(tokens.deep_view()),
{
    let mut tokens = tokens;
    let ghost words = tokens.deep_view();
    let count = tokens.len();
    if count == 4 && str_eq(tokens[0].as_str(), "Add") && str_eq(tokens[2].as_str(), "to") {
        let department = tokens.pop().unwrap();
        tokens.pop();
        let employee = tokens.pop().unwrap();
        assert(department@ == words[3] && employee@ == words[1]);
        Command::Add { employee, department }
    } else if count == 2 && str_eq(tokens[0].as_str(), "List") {
        if str_eq(tokens[1].as_str(), "All") {
            Command::ListAll
        } else {
            let department = tokens.pop().unwrap();
            assert(department@ == words[1]);
            Command::ListOne { department }
        }
    } else if count == 1 && str_eq(tokens[0].as_str(), "Quit") {
        Command::Quit
    } else {
        Command::Invalid { raw_tokens: tokens }
    }
}

/// Reads a command from a line of input.
pub fn parse_line(line: &str) -> (command: Command)
    ensures
        command@ == parse_words(split_words(line@)),
{
    parse_tokens(tokenize(line))
}

} // verus!
