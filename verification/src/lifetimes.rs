//! Borrowed text: choosing between two texts, and taking the first word of one.
use vstd::prelude::*;
use vstd::std_specs::iter::IteratorSpec;
use vstd::string::{StrSliceExecFns, StringExecFns};
use vstd::utf8::encode_utf8;

verus! {

broadcast use vstd::string::group_string_axioms;

/// The length of a text as Rust counts it: in bytes of its UTF-8 encoding.
pub open spec fn byte_length(text: Seq<char>) -> nat {
    encode_utf8(text).len()
}

/// The longer of two texts, by their length in bytes: the second unless the first is longer.
pub open spec fn longer(x: Seq<char>, y: Seq<char>) -> Seq<char> {
    if byte_length(x) > byte_length(y) {
        x
    } else {
        y
    }
}

/// The longer of `x` and `y`; `y` if they are equally long.
pub fn longest<'a>(x: &'a str, y: &'a str) -> (longest: &'a str)
    ensures
        longest@ == longer(x@, y@),
{
    if x.as_bytes().len() > y.as_bytes().len() {
        x
    } else {
        y
    }
}

/// The longer of `x` and `y`, together with the line that announces `ann`.
pub fn longest_with_an_announcement<'a>(x: &'a str, y: &'a str, ann: &str) -> (result: (
    String,
    &'a str,
))
    ensures
        result.0@ == "Announcement! "@ + ann@,
        result.1@ == longer(x@, y@),
{
    let mut line = String::from_str("Announcement! ");
    line.append(ann);
    (line, longest(x, y))
}

/// A part of a text that was found worth keeping.
#[derive(Debug, Clone, Copy, PartialEq, Eq)]
pub struct ImportantExcerpt<'a> {
    pub part: &'a str,
}

impl<'a> ImportantExcerpt<'a> {
    /// The excerpt, together with the line that asks for attention to `announcement`.
    pub fn announce_and_return_part(&self, announcement: &str) -> (result: (String, &str))
        ensures
            result.0@ == "Attention please: "@ + announcement@,
            result.1@ == self.part@,
    {
        let mut line = String::from_str("Attention please: ");
        line.append(announcement);
        (line, self.part)
    }
}

/// How many characters of `text` stand before its first space: all of them if it has none.
pub open spec fn first_space(text: Seq<char>) -> nat
    decreases text.len(),
{
    if text.len() == 0 || text[0] == ' ' {
        0
    } else {
        1 + first_space(text.drop_first())
    }
}

/// The first word of `text`: what stands before its first space.
pub open spec fn first_word_of(text: Seq<char>) -> Seq<char> {
    text.take(first_space(text) as int)
}

/// The first word has no space in it, and in the text a space follows it or nothing.
pub proof fn lemma_first_word_ends_at_first_space(text: Seq<char>)
    ensures
        first_space(text) <= text.len(),
        forall|i: int| 0 <= i < first_space(text) ==> text[i] != ' ',
        first_space(text) < text.len() ==> text[first_space(text) as int] == ' ',
    decreases text.len(),
{
    if text.len() > 0 && text[0] != ' ' {
        let rest = text.drop_first();
        lemma_first_word_ends_at_first_space(rest);
        assert forall|i: int| 0 <= i < first_space(text) implies text[i] != ' ' by {
            if i > 0 {
                assert(text[i] == rest[i - 1]);
            }
        }
    }
}

/// If the first `count` characters of `text` are no spaces, and a space or
/// nothing follows them, then they are the first word.
proof fn lemma_first_space_found(text: Seq<char>, count: nat)
    requires
        count <= text.len(),
        forall|i: int| 0 <= i < count ==> text[i] != ' ',
        count < text.len() ==> text[count as int] == ' ',
    ensures
        first_space(text) == count,
    decreases count,
{
    if count > 0 {
        let rest = text.drop_first();
        assert forall|i: int| 0 <= i < count - 1 implies rest[i] != ' ' by {
            assert(rest[i] == text[i + 1]);
        }
        lemma_first_space_found(rest, (count - 1) as nat);
    }
}

/// A text that is borrowed from somewhere.
#[derive(Debug, Clone, Copy, PartialEq, Eq)]
pub struct Text<'a> {
    pub content: &'a str,
}

impl<'a> Text<'a> {
    /// The first word of the text: what stands before its first space, or
    /// the whole text if it has no space.
    pub fn first_word(&self) -> (word: &'a str)
        ensures
            word@ == first_word_of(self.content@),
    {
        let length = self.content.unicode_len();
        let mut rest = self.content.chars();
        let mut at: usize = 0;
        loop
            invariant
                length == self.content@.len(),
                at <= length,
                rest.remaining() == self.content@.skip(at as int),
                forall|i: int| 0 <= i < at ==> self.content@[i] != ' ',
                rest.decrease() is Some,
            decreases rest.decrease()->0,
        {
            match rest.next() {
                None => {
                    proof {
                        lemma_first_space_found(self.content@, at as nat);
                    }
                    return self.content;
                },
                Some(c) => {
                    if c == ' ' {
                        proof {
                            lemma_first_space_found(self.content@, at as nat);
                        }
                        return self.content.substring_char(0, at);
                    }
                    at = at + 1;
                },
            }
        }
    }
}

} // verus!
