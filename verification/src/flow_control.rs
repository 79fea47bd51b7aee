//! Loops: the Fibonacci numbers, and a song that grows with each verse.
use crate::numerals::{append_decimal, decimal};
use vstd::prelude::*;
use vstd::string::StringExecFns;

verus! {

/// The Fibonacci numbers: 0, 1, and from there on the sum of the two before.
pub open spec fn fibonacci(i: nat) -> nat
    decreases i,
{
    if i < 2 {
        i
    } else {
        fibonacci((i - 1) as nat) + fibonacci((i - 2) as nat)
    }
}

/// The Fibonacci numbers never fall.
pub proof fn lemma_fibonacci_grows(i: nat, j: nat)
    requires
        i <= j,
    ensures
        fibonacci(i) <= fibonacci(j),
    decreases j,
{
    if i < j {
        lemma_fibonacci_grows(i, (j - 1) as nat);
        if j >= 2 {
            assert(fibonacci(j) == fibonacci((j - 1) as nat) + fibonacci((j - 2) as nat));
        }
    }
}

/// The last Fibonacci number that the sequence below ever computes, reached step by step.
proof fn lemma_fibonacci_46()
    ensures
        fibonacci(46) == 1836311903,
{
    assert(fibonacci(0) == 0);
    assert(fibonacci(1) == 1);
    assert(fibonacci(2) == 1);
    assert(fibonacci(3) == 2);
    assert(fibonacci(4) == 3);
    assert(fibonacci(5) == 5);
    assert(fibonacci(6) == 8);
    assert(fibonacci(7) == 13);
    assert(fibonacci(8) == 21);
    assert(fibonacci(9) == 34);
    assert(fibonacci(10) == 55);
    assert(fibonacci(11) == 89);
    assert(fibonacci(12) == 144);
    assert(fibonacci(13) == 233);
    assert(fibonacci(14) == 377);
    assert(fibonacci(15) == 610);
    assert(fibonacci(16) == 987);
    assert(fibonacci(17) == 1597);
    assert(fibonacci(18) == 2584);
    assert(fibonacci(19) == 4181);
    assert(fibonacci(20) == 6765);
    assert(fibonacci(21) == 10946);
    assert(fibonacci(22) == 17711);
    assert(fibonacci(23) == 28657);
    assert(fibonacci(24) == 46368);
    assert(fibonacci(25) == 75025);
    assert(fibonacci(26) == 121393);
    assert(fibonacci(27) == 196418);
    assert(fibonacci(28) == 317811);
    assert(fibonacci(29) == 514229);
    assert(fibonacci(30) == 832040);
    assert(fibonacci(31) == 1346269);
    assert(fibonacci(32) == 2178309);
    assert(fibonacci(33) == 3524578);
    assert(fibonacci(34) == 5702887);
    assert(fibonacci(35) == 9227465);
    assert(fibonacci(36) == 14930352);
    assert(fibonacci(37) == 24157817);
    assert(fibonacci(38) == 39088169);
    assert(fibonacci(39) == 63245986);
    assert(fibonacci(40) == 102334155);
    assert(fibonacci(41) == 165580141);
    assert(fibonacci(42) == 267914296);
    assert(fibonacci(43) == 433494437);
    assert(fibonacci(44) == 701408733);
    assert(fibonacci(45) == 1134903170);
    assert(fibonacci(46) == 1836311903);
}

/// The first `n` Fibonacci numbers.
///
/// The numbers are kept in 32 bits, and the number after the last one asked
/// for is computed along with it: that number fits for `n` up to 45.
pub fn fibonacci_sequence(n: u32) -> (numbers: Vec<i32>)
    requires
        n <= 45,
    ensures
        numbers.len() == n,
        forall|i: int| 0 <= i < n ==> numbers[i] == fibonacci(i as nat),
{
    let mut numbers: Vec<i32> = Vec::new();
    let mut a: i32 = 0;
    let mut b: i32 = 1;
    for i in 0..n
        invariant
            n <= 45,
            numbers.len() == i,
            a == fibonacci(i as nat),
            b == fibonacci((i + 1) as nat),
            forall|k: int| 0 <= k < i ==> numbers[k] == fibonacci(k as nat),
    {
        numbers.push(a);
        proof {
            lemma_fibonacci_46();
            lemma_fibonacci_grows((i + 2) as nat, 46);
        }
        let next = a + b;
        a = b;
        b = next;
    }
    numbers
}

/// The gift that is new on day `i`, counting the days from 0.
pub open spec fn gift_text(i: int) -> Seq<char> {
    if i == 0 {
        "A partridge in a pear tree"@
    } else if i == 1 {
        "Two turtle doves"@
    } else if i == 2 {
        "Three French hens"@
    } else if i == 3 {
        "Four calling birds"@
    } else if i == 4 {
        "Five golden rings"@
    } else if i == 5 {
        "Six geese a-laying"@
    } else if i == 6 {
        "Seven swans a-swimming"@
    } else if i == 7 {
        "Eight maids a-milking"@
    } else if i == 8 {
        "Nine ladies dancing"@
    } else if i == 9 {
        "Ten lords a-leaping"@
    } else if i == 10 {
        "Eleven pipers piping"@
    } else {
        "Twelve drummers drumming"@
    }
}

/// How the song calls day `i`, counting the days from 0.
pub open spec fn day_text(i: int) -> Seq<char> {
    if i == 0 {
        "first"@
    } else if i == 1 {
        "second"@
    } else if i == 2 {
        "third"@
    } else if i == 3 {
        "fourth"@
    } else if i == 4 {
        "fifth"@
    } else if i == 5 {
        "sixth"@
    } else if i == 6 {
        "seventh"@
    } else if i == 7 {
        "eighth"@
    } else if i == 8 {
        "ninth"@
    } else if i == 9 {
        "tenth"@
    } else if i == 10 {
        "eleventh"@
    } else {
        "twelfth"@
    }
}

/// The line for a gift in the verse of day `day`: from the second day on,
/// the last gift of a verse, which is the first day's, is joined on with `And`.
pub open spec fn gift_line(day: int, gift: int) -> Seq<char> {
    if day > 0 && gift == 0 {
        "And "@ + gift_text(0)
    } else {
        gift_text(gift)
    }
}

/// The lines of the verse of day `day`: an empty line, the number of the
/// verse, the two opening lines, then the gifts from that day's back to the
/// first day's.
pub open spec fn verse(day: int) -> Seq<Seq<char>> {
    seq![
        ""@,
        "[Verse "@ + decimal((day + 1) as nat) + "]"@,
        "On the "@ + day_text(day) + " day of Christmas,"@,
        "My true love sent to me"@,
    ] + Seq::new((day + 1) as nat, |k: int| gift_line(day, day - k))
}

/// The lines of the first `count` verses.
pub open spec fn verses(count: int) -> Seq<Seq<char>>
    decreases count,
{
    if count <= 0 {
        Seq::empty()
    } else {
        verses(count - 1) + verse(count - 1)
    }
}

/// The whole song: its title and its twelve verses.
pub open spec fn lyrics() -> Seq<Seq<char>> {
    seq!["--- The Twelve Days of Christmas ---"@] + verses(12)
}

/// The gift that is new on day `i`.
fn gift(i: usize) -> (text: &'static str)
    requires
        i < 12,
    ensures
        text@ == gift_text(i as int),
{
    if i == 0 {
        "A partridge in a pear tree"
    } else if i == 1 {
        "Two turtle doves"
    } else if i == 2 {
        "Three French hens"
    } else if i == 3 {
        "Four calling birds"
    } else if i == 4 {
        "Five golden rings"
    } else if i == 5 {
        "Six geese a-laying"
    } else if i == 6 {
        "Seven swans a-swimming"
    } else if i == 7 {
        "Eight maids a-milking"
    } else if i == 8 {
        "Nine ladies dancing"
    } else if i == 9 {
        "Ten lords a-leaping"
    } else if i == 10 {
        "Eleven pipers piping"
    } else {
        "Twelve drummers drumming"
    }
}

/// How the song calls day `i`.
fn day_name(i: usize) -> (text: &'static str)
    requires
        i < 12,
    ensures
        text@ == day_text(i as int),
{
    if i == 0 {
        "first"
    } else if i == 1 {
        "second"
    } else if i == 2 {
        "third"
    } else if i == 3 {
        "fourth"
    } else if i == 4 {
        "fifth"
    } else if i == 5 {
        "sixth"
    } else if i == 6 {
        "seventh"
    } else if i == 7 {
        "eighth"
    } else if i == 8 {
        "ninth"
    } else if i == 9 {
        "tenth"
    } else if i == 10 {
        "eleventh"
    } else {
        "twelfth"
    }
}

/// The lines of the verse of day `day_index`, counting the days from 0.
pub fn christmas_verse(day_index: usize) -> (lines: Vec<String>)
    requires
        day_index < 12,
    ensures
        lines.deep_view() == verse(day_index as int),
{
    let mut number = String::from_str("[Verse ");
    append_decimal(&mut number, (day_index + 1) as u64);
    number.append("]");
    let mut opening = String::from_str("On the ");
    opening.append(day_name(day_index));
    opening.append(" day of Christmas,");
    let mut lines: Vec<String> = Vec::new();
    lines.push(String::from_str(""));
    lines.push(number);
    lines.push(opening);
    lines.push(String::from_str("My true love sent to me"));
    let ghost head = lines.deep_view();
    let mut left: usize = day_index + 1;
    while left > 0
        invariant
            day_index < 12,
            left <= day_index + 1,
            lines.deep_view() == head + Seq::new(
                (day_index + 1 - left) as nat,
                |k: int| gift_line(day_index as int, day_index - k),
            ),
        decreases left,
    {
        let ghost before = lines.deep_view();
        left = left - 1;
        let mut line = String::from_str("");
        if day_index > 0 && left == 0 {
            line = String::from_str("And ");
        }
        line.append(gift(left));
        proof {
            reveal_strlit("");
        }
        lines.push(line);
        assert(lines.deep_view() =~= before.push(gift_line(day_index as int, left as int)));
    }
    lines
}

/// The lines of the whole song.
pub fn christmas_lyrics() -> (lines: Vec<String>)
    ensures
        lines.deep_view() == lyrics(),
{
    let mut lines: Vec<String> = Vec::new();
    lines.push(String::from_str("--- The Twelve Days of Christmas ---"));
    let ghost title = lines.deep_view();
    for day_index in 0..12usize
        invariant
            lines.deep_view() == title + verses(day_index as int),
    {
        let ghost before = lines.deep_view();
        let mut verse_lines = christmas_verse(day_index);
        let ghost added = verse_lines.deep_view();
        lines.append(&mut verse_lines);
        assert(lines.deep_view() =~= before + added);
    }
    lines
}

} // verus!
