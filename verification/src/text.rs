//! Small operations on text that the rest of the crate shares.

use vstd::prelude::*;
use vstd::string::*;

verus! {

/// `head` followed by `tail`.
pub(crate) fn concat(head: &str, tail: &str) -> (r: String)
    ensures
        r@ == head@ + tail@,
{
    let mut out = head.to_owned();
    out.append(tail);
    out
}

/// Whether two texts are the same.
pub(crate) fn same_text(a: &str, b: &str) -> (r: bool)
    ensures
        r == (a@ == b@),
{
    a.to_owned() == b.to_owned()
}

/// The text of an optional string.
pub open spec fn optional_text(s: Option<String>) -> Option<Seq<char>> {
    match s {
        Some(s) => Some(s@),
        None => None,
    }
}

/// The hexadecimal digit for a number below sixteen, in small or in capital
/// letters.
pub open spec fn hex_digit(n: int, capital: bool) -> char {
    if n == 0 {
        '0'
    } else if n == 1 {
        '1'
    } else if n == 2 {
        '2'
    } else if n == 3 {
        '3'
    } else if n == 4 {
        '4'
    } else if n == 5 {
        '5'
    } else if n == 6 {
        '6'
    } else if n == 7 {
        '7'
    } else if n == 8 {
        '8'
    } else if n == 9 {
        '9'
    } else if n == 10 {
        if capital { 'A' } else { 'a' }
    } else if n == 11 {
        if capital { 'B' } else { 'b' }
    } else if n == 12 {
        if capital { 'C' } else { 'c' }
    } else if n == 13 {
        if capital { 'D' } else { 'd' }
    } else if n == 14 {
        if capital { 'E' } else { 'e' }
    } else {
        if capital { 'F' } else { 'f' }
    }
}

/// The digit for a number below sixteen, as a text of one character.
pub(crate) fn digit(n: u8, capital: bool) -> (r: &'static str)
    requires
        n < 16,
    ensures
        r@ == seq![hex_digit(n as int, capital)],
{
    proof {
        reveal_strlit("0");
        reveal_strlit("1");
        reveal_strlit("2");
        reveal_strlit("3");
        reveal_strlit("4");
        reveal_strlit("5");
        reveal_strlit("6");
        reveal_strlit("7");
        reveal_strlit("8");
        reveal_strlit("9");
        reveal_strlit("a");
        reveal_strlit("b");
        reveal_strlit("c");
        reveal_strlit("d");
        reveal_strlit("e");
        reveal_strlit("f");
        reveal_strlit("A");
        reveal_strlit("B");
        reveal_strlit("C");
        reveal_strlit("D");
        reveal_strlit("E");
        reveal_strlit("F");
    }
    let r = match n {
        0 => "0",
        1 => "1",
        2 => "2",
        3 => "3",
        4 => "4",
        5 => "5",
        6 => "6",
        7 => "7",
        8 => "8",
        9 => "9",
        10 => if capital { "A" } else { "a" },
        11 => if capital { "B" } else { "b" },
        12 => if capital { "C" } else { "c" },
        13 => if capital { "D" } else { "d" },
        14 => if capital { "E" } else { "e" },
        _ => if capital { "F" } else { "f" },
    };
    assert(r@ =~= seq![hex_digit(n as int, capital)]);
    r
}

} // verus!
