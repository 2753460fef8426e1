//! The Caesar cipher on lines of text: every letter of the English alphabet
//! moves a fixed number of places along the alphabet, round its end, and
//! keeps its case; every other character stays.

use crate::text::{chars_of, text_of};
use vstd::prelude::*;

verus! {

/// The number of places that letters move when none is given.
pub const DEFAULT_SHIFT: i32 = 5;

/// The number of letters of the alphabet.
pub const ALPHABET_SIZE: i32 = 26;

/// The remainder that Rust's `%` gives: it has the sign of `a`.
pub open spec fn remainder(a: int, b: int) -> int {
    if a >= 0 {
        a % b
    } else {
        -((-a) % b)
    }
}

/// The number of places, brought into the range from 1 to 51.
pub open spec fn places(shift_by: i32) -> int {
    remainder(shift_by as int, 26) + 26
}

/// The character that `c` becomes when letters move `shift_by` places.
pub open spec fn shift_char(c: char, shift_by: i32) -> char {
    if 'A' <= c && c <= 'Z' {
        ((c as int - 65 + places(shift_by)) % 26 + 65) as u8 as char
    } else if 'a' <= c && c <= 'z' {
        ((c as int - 97 + places(shift_by)) % 26 + 97) as u8 as char
    } else {
        c
    }
}

/// The line that `line` becomes when letters move `shift_by` places.
pub open spec fn shift_line(line: Seq<char>, shift_by: i32) -> Seq<char> {
    line.map_values(|c: char| shift_char(c, shift_by))
}

/// The place of a letter in the alphabet, counted from zero.
pub open spec fn place_of(c: char) -> int {
    if 'A' <= c && c <= 'Z' {
        c as int - 65
    } else {
        c as int - 97
    }
}

/// A shifted letter stands `shift_by` places further along the alphabet,
/// counted round its end, and has the case of the letter it came from.
pub proof fn lemma_shift_is_rotation(c: char, shift_by: i32)
    requires
        ('A' <= c && c <= 'Z') || ('a' <= c && c <= 'z'),
    ensures
        place_of(shift_char(c, shift_by)) == (place_of(c) + shift_by) % 26,
        ('A' <= c && c <= 'Z') == ('A' <= shift_char(c, shift_by) && shift_char(c, shift_by) <= 'Z'),
{
    let p = place_of(c);
    let k = shift_by as int;
    assert((p + remainder(k, 26) + 26) % 26 == (p + k) % 26) by (nonlinear_arith)
        requires
            0 <= p < 26,
            remainder(k, 26) == if k >= 0 {
                k % 26
            } else {
                -((-k) % 26)
            },
    ;
    let moved = (p + places(shift_by)) % 26;
    assert(0 <= moved < 26);
}

/// The absolute value of the remainder of `a` by `b`.
pub fn abs_modulo(a: i32, b: i32) -> (r: i32)
    requires
        b > 0,
    ensures
        r == if remainder(a as int, b as int) < 0 {
            -remainder(a as int, b as int)
        } else {
            remainder(a as int, b as int)
        },
        0 <= r < b,
{
    let r = a % b;
    if r < 0 {
        -r
    } else {
        r
    }
}

/// The character with the given ASCII code.
pub fn to_ascii(i: i32) -> (c: char)
    requires
        0 <= i < 128,
    ensures
        c as int == i,
{
    (i as u8) as char
}

/// Moves the letters of one line.
pub fn shift(shift_by: i32, line: String) -> (shifted: String)
    ensures
        shifted@ == shift_line(line@, shift_by),
{
    let chars = chars_of(line.as_str());
    let mut result: Vec<char> = Vec::new();
    let by = shift_by % ALPHABET_SIZE + ALPHABET_SIZE;
    let mut i: usize = 0;
    while i < chars.len()
        invariant
            i <= chars@.len(),
            by == places(shift_by),
            result@ == shift_line(chars@.take(i as int), shift_by),
        decreases chars@.len() - i,
    {
        let c = chars[i];
        let ascii = c as u32;
        let moved = if 'A' <= c && c <= 'Z' {
            to_ascii(abs_modulo((ascii as i32 - 65) + by, ALPHABET_SIZE) + 65)
        } else if 'a' <= c && c <= 'z' {
            to_ascii(abs_modulo((ascii as i32 - 97) + by, ALPHABET_SIZE) + 97)
        } else {
            c
        };
        proof {
            assert(moved == shift_char(c, shift_by));
            assert(chars@.take(i + 1) == chars@.take(i as int).push(c));
            assert(shift_line(chars@.take(i as int).push(c), shift_by) == shift_line(
                chars@.take(i as int),
                shift_by,
            ).push(shift_char(c, shift_by)));
        }
        result.push(moved);
        i += 1;
    }
    proof {
        assert(chars@.take(chars@.len() as int) == chars@);
    }
    text_of(&result)
}

/// Moves the letters of every line by `shift_by` places, by
/// [`DEFAULT_SHIFT`] where none is given.
pub fn caesar_shift(shift_by: Option<i32>, lines: Vec<String>) -> (shifted: Vec<String>)
    ensures
        shifted@.len() == lines@.len(),
        forall|i: int|
            0 <= i < lines@.len() ==> (#[trigger] shifted@[i])@ == shift_line(
                lines@[i]@,
                match shift_by {
                    Some(places) => places,
                    None => DEFAULT_SHIFT,
                },
            ),
{
    let shift_number = match shift_by {
        Some(places) => places,
        None => DEFAULT_SHIFT,
    };
    let mut shifted: Vec<String> = Vec::new();
    let mut i: usize = 0;
    while i < lines.len()
        invariant
            i <= lines@.len(),
            shifted@.len() == i,
            forall|j: int|
                0 <= j < i ==> (#[trigger] shifted@[j])@ == shift_line(lines@[j]@, shift_number),
        decreases lines@.len() - i,
    {
        shifted.push(shift(shift_number, lines[i].clone()));
        i += 1;
    }
    shifted
}

} // verus!
