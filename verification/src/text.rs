//! Text as a list of characters, and back.

use vstd::prelude::*;

verus! {

/// `String::push`: puts one character at the end of the text.
pub assume_specification[ String::push ](text: &mut String, c: char)
    ensures
        final(text)@ == old(text)@.push(c),
;

/// The characters of a piece of text, one by one.
pub fn chars_of(text: &str) -> (chars: Vec<char>)
    ensures
        chars@ == text@,
{
    let mut chars: Vec<char> = Vec::new();
    for c in it: text.chars()
        invariant
            chars@ == it.seq().take(it.index() as int),
            it.seq() == text@,
    {
        chars.push(c);
    }
    chars
}

/// The text that a list of characters spells.
pub fn text_of(chars: &Vec<char>) -> (text: String)
    ensures
        text@ == chars@,
{
    let mut text = String::new();
    let mut i: usize = 0;
    while i < chars.len()
        invariant
            i <= chars@.len(),
            text@ == chars@.take(i as int),
        decreases chars@.len() - i,
    {
        text.push(chars[i]);
        proof {
            assert(chars@.take(i + 1) == chars@.take(i as int).push(chars@[i as int]));
        }
        i += 1;
    }
    proof {
        assert(chars@.take(chars@.len() as int) == chars@);
    }
    text
}

/// `String::pop`: takes the last character off the text, if it has one.
pub assume_specification[ String::pop ](text: &mut String) -> (last: Option<char>)
    ensures
        old(text)@.len() > 0 ==> last == Some(old(text)@.last()) && final(text)@ == old(
            text,
        )@.drop_last(),
        old(text)@.len() == 0 ==> last is None && final(text)@ == old(text)@,
;

/// True for the characters that Unicode calls white space: tab to carriage
/// return, the space, next line, the no-break space, the ogham space mark,
/// the spaces from en quad to hair space, line and paragraph separator,
/// the narrow no-break space, the medium mathematical space and the
/// ideographic space.
pub open spec fn is_white(c: char) -> bool {
    ||| '\u{9}' <= c && c <= '\u{D}'
    ||| c == ' '
    ||| c == '\u{85}'
    ||| c == '\u{A0}'
    ||| c == '\u{1680}'
    ||| '\u{2000}' <= c && c <= '\u{200A}'
    ||| c == '\u{2028}'
    ||| c == '\u{2029}'
    ||| c == '\u{202F}'
    ||| c == '\u{205F}'
    ||| c == '\u{3000}'
}

/// `char::is_whitespace`. The contract claims that it answers yes exactly
/// for the characters with Unicode's white space property.
#[verifier::external_body]
pub(crate) fn is_whitespace(c: char) -> (white: bool)
    ensures
        white == is_white(c),
{
    c.is_whitespace()
}

/// True when `pattern` stands in `text` at place `at`.
pub open spec fn occurs_at(text: Seq<char>, pattern: Seq<char>, at: int) -> bool {
    0 <= at && at + pattern.len() <= text.len() && text.subrange(at, at + pattern.len())
        == pattern
}

/// True when `pattern` stands somewhere in `text`.
pub open spec fn occurs_in(text: Seq<char>, pattern: Seq<char>) -> bool {
    exists|at: int| occurs_at(text, pattern, at)
}

/// True when `pattern` stands somewhere in `text`.
pub fn contains(text: &Vec<char>, pattern: &Vec<char>) -> (found: bool)
    ensures
        found == occurs_in(text@, pattern@),
{
    if pattern.len() > text.len() {
        proof {
            assert forall|at: int| !occurs_at(text@, pattern@, at) by {}
        }
        return false;
    }
    let last = text.len() - pattern.len();
    let mut at: usize = 0;
    while at <= last
        invariant
            text@.len() <= usize::MAX,
            last + pattern@.len() == text@.len(),
            at <= last + 1,
            forall|k: int| 0 <= k < at ==> !occurs_at(text@, pattern@, k),
        decreases last + 1 - at,
    {
        let mut i: usize = 0;
        while i < pattern.len() && text[at + i] == pattern[i]
            invariant
                text@.len() <= usize::MAX,
                at + pattern@.len() <= text@.len(),
                i <= pattern@.len(),
                forall|k: int| 0 <= k < i ==> text@[at + k] == pattern@[k],
            decreases pattern@.len() - i,
        {
            i += 1;
        }
        if i == pattern.len() {
            proof {
                assert(text@.subrange(at as int, at + pattern@.len()) =~= pattern@);
                assert(occurs_at(text@, pattern@, at as int));
            }
            return true;
        }
        proof {
            assert(text@.subrange(at as int, at + pattern@.len())[i as int] == text@[at + i]);
        }
        at += 1;
    }
    proof {
        assert forall|k: int| !occurs_at(text@, pattern@, k) by {}
    }
    false
}

/// The line that stands between `from` and `end`: without the carriage
/// return before a line feed at `end`.
pub open spec fn line_between(text: Seq<char>, from: int, end: int) -> Seq<char> {
    if end < text.len() && from < end && text[end - 1] == '\r' {
        text.subrange(from, end - 1)
    } else {
        text.subrange(from, end)
    }
}

/// The lines of the text from place `at` on, where the line that `at`
/// stands in began at `start`. A line ends at a line feed, or at a carriage
/// return followed by a line feed, which are no part of it; the last line
/// needs no ending.
pub open spec fn lines_from(text: Seq<char>, start: int, at: int) -> Seq<Seq<char>>
    decreases text.len() - at,
{
    if at < 0 || at >= text.len() {
        if 0 <= start < text.len() {
            seq![text.subrange(start, text.len() as int)]
        } else {
            Seq::empty()
        }
    } else if text[at] == '\n' {
        seq![line_between(text, start, at)] + lines_from(text, at + 1, at + 1)
    } else {
        lines_from(text, start, at + 1)
    }
}

/// The lines of the text.
pub open spec fn lines_of(text: Seq<char>) -> Seq<Seq<char>> {
    lines_from(text, 0, 0)
}

/// The characters from `from` up to `to`.
pub fn slice(text: &Vec<char>, from: usize, to: usize) -> (part: Vec<char>)
    requires
        from <= to <= text@.len(),
    ensures
        part@ == text@.subrange(from as int, to as int),
{
    let mut part: Vec<char> = Vec::new();
    let mut i: usize = from;
    while i < to
        invariant
            from <= i <= to <= text@.len(),
            part@ == text@.subrange(from as int, i as int),
        decreases to - i,
    {
        part.push(text[i]);
        proof {
            assert(text@.subrange(from as int, i + 1) == text@.subrange(from as int, i as int).push(
                text@[i as int],
            ));
        }
        i += 1;
    }
    part
}

/// The content of each list of characters of a list.
pub open spec fn contents(lists: Seq<Vec<char>>) -> Seq<Seq<char>> {
    lists.map_values(|list: Vec<char>| list@)
}

/// Cuts a text into its lines.
pub fn lines(text: &Vec<char>) -> (out: Vec<Vec<char>>)
    ensures
        contents(out@) == lines_of(text@),
{
    let mut out: Vec<Vec<char>> = Vec::new();
    let mut start: usize = 0;
    let mut at: usize = 0;
    let ghost mut done: Seq<Seq<char>> = Seq::empty();
    while at < text.len()
        invariant
            start <= at <= text@.len(),
            contents(out@) == done,
            lines_of(text@) == done + lines_from(text@, start as int, at as int),
        decreases text@.len() - at,
    {
        if text[at] == '\n' {
            let stop = if start < at && text[at - 1] == '\r' {
                at - 1
            } else {
                at
            };
            let line = slice(text, start, stop);
            proof {
                assert(line@ == line_between(text@, start as int, at as int));
                assert(contents(out@.push(line)) == contents(out@).push(line@));
                assert(done + (seq![line@] + lines_from(text@, at + 1, at + 1)) == done.push(line@)
                    + lines_from(text@, at + 1, at + 1));
                done = done.push(line@);
            }
            out.push(line);
            start = at + 1;
        }
        at += 1;
    }
    if start < text.len() {
        let line = slice(text, start, text.len());
        proof {
            assert(contents(out@.push(line)) == contents(out@).push(line@));
            assert(done + seq![line@] == done.push(line@));
        }
        out.push(line);
    } else {
        proof {
            assert(done + Seq::<Seq<char>>::empty() == done);
        }
    }
    out
}

/// The words of the text from place `at` on, where the word that `at`
/// stands in, if it stands in one, began at `start`, and `start` is -1
/// where it stands in none. A word is a run of characters that are no
/// white space.
pub open spec fn words_from(text: Seq<char>, start: int, at: int) -> Seq<Seq<char>>
    decreases text.len() - at,
{
    if at < 0 || at >= text.len() {
        if 0 <= start < text.len() {
            seq![text.subrange(start, text.len() as int)]
        } else {
            Seq::empty()
        }
    } else if is_white(text[at]) {
        if 0 <= start {
            seq![text.subrange(start, at)] + words_from(text, -1, at + 1)
        } else {
            words_from(text, -1, at + 1)
        }
    } else if 0 <= start {
        words_from(text, start, at + 1)
    } else {
        words_from(text, at, at + 1)
    }
}

/// The words of the text.
pub open spec fn words_of(text: Seq<char>) -> Seq<Seq<char>> {
    words_from(text, -1, 0)
}

/// Cuts a text into its words.
pub fn words(text: &Vec<char>) -> (out: Vec<Vec<char>>)
    ensures
        contents(out@) == words_of(text@),
{
    let mut out: Vec<Vec<char>> = Vec::new();
    let mut start: Option<usize> = None;
    let mut at: usize = 0;
    let ghost mut done: Seq<Seq<char>> = Seq::empty();
    while at < text.len()
        invariant
            at <= text@.len(),
            start is Some ==> start->0 < at,
            contents(out@) == done,
            words_of(text@) == done + words_from(
                text@,
                match start {
                    Some(from) => from as int,
                    None => -1,
                },
                at as int,
            ),
        decreases text@.len() - at,
    {
        if is_whitespace(text[at]) {
            match start {
                Some(from) => {
                    let word = slice(text, from, at);
                    proof {
                        assert(contents(out@.push(word)) == contents(out@).push(word@));
                        assert(done + (seq![word@] + words_from(text@, -1, at + 1)) == done.push(
                            word@,
                        ) + words_from(text@, -1, at + 1));
                        done = done.push(word@);
                    }
                    out.push(word);
                    start = None;
                },
                None => {},
            }
        } else if start.is_none() {
            start = Some(at);
        }
        at += 1;
    }
    match start {
        Some(from) => {
            let word = slice(text, from, text.len());
            proof {
                assert(contents(out@.push(word)) == contents(out@).push(word@));
                assert(done + seq![word@] == done.push(word@));
            }
            out.push(word);
        },
        None => {
            proof {
                assert(done + Seq::<Seq<char>>::empty() == done);
            }
        },
    }
    out
}

/// True when `pattern` stands somewhere in `text`.
pub fn text_contains(text: &str, pattern: &str) -> (found: bool)
    ensures
        found == occurs_in(text@, pattern@),
{
    contains(&chars_of(text), &chars_of(pattern))
}

/// The text from place `at` on with every occurrence of the pattern
/// replaced, the occurrences taken from left to right, none overlapping
/// the one before.
pub open spec fn replaced_from(text: Seq<char>, pattern: Seq<char>, with: Seq<char>, at: int) -> Seq<
    char,
>
    decreases text.len() - at,
{
    if at < 0 || at >= text.len() || pattern.len() == 0 {
        Seq::empty()
    } else if occurs_at(text, pattern, at) {
        with + replaced_from(text, pattern, with, at + pattern.len())
    } else {
        seq![text[at]] + replaced_from(text, pattern, with, at + 1)
    }
}

/// The text with every occurrence of the pattern replaced.
pub open spec fn replaced(text: Seq<char>, pattern: Seq<char>, with: Seq<char>) -> Seq<char> {
    replaced_from(text, pattern, with, 0)
}

/// True when the pattern stands in the text at the place.
fn stands_at(text: &Vec<char>, pattern: &Vec<char>, at: usize) -> (found: bool)
    requires
        at <= text@.len(),
    ensures
        found == occurs_at(text@, pattern@, at as int),
{
    if pattern.len() > text.len() - at {
        return false;
    }
    let mut i: usize = 0;
    while i < pattern.len() && text[at + i] == pattern[i]
        invariant
            text@.len() <= usize::MAX,
            at + pattern@.len() <= text@.len(),
            i <= pattern@.len(),
            forall|k: int| 0 <= k < i ==> text@[at + k] == pattern@[k],
        decreases pattern@.len() - i,
    {
        i += 1;
    }
    if i == pattern.len() {
        proof {
            assert(text@.subrange(at as int, at + pattern@.len()) =~= pattern@);
        }
        true
    } else {
        proof {
            assert(text@.subrange(at as int, at + pattern@.len())[i as int] == text@[at + i]);
        }
        false
    }
}

/// Replaces every occurrence of the pattern in the text.
pub fn replace(text: &Vec<char>, pattern: &Vec<char>, with: &Vec<char>) -> (out: Vec<char>)
    requires
        pattern@.len() > 0,
    ensures
        out@ == replaced(text@, pattern@, with@),
{
    let mut out: Vec<char> = Vec::new();
    let mut at: usize = 0;
    while at < text.len()
        invariant
            at <= text@.len(),
            pattern@.len() > 0,
            replaced(text@, pattern@, with@) == out@ + replaced_from(
                text@,
                pattern@,
                with@,
                at as int,
            ),
        decreases text@.len() - at,
    {
        let ghost before = out@;
        if stands_at(text, pattern, at) {
            let mut k: usize = 0;
            while k < with.len()
                invariant
                    k <= with@.len(),
                    out@ == before + with@.take(k as int),
                decreases with@.len() - k,
            {
                proof {
                    assert(with@.take(k + 1) == with@.take(k as int).push(with@[k as int]));
                }
                out.push(with[k]);
                k += 1;
            }
            proof {
                assert(with@.take(with@.len() as int) == with@);
                assert(before + (with@ + replaced_from(
                    text@,
                    pattern@,
                    with@,
                    at + pattern@.len(),
                )) == (before + with@) + replaced_from(text@, pattern@, with@, at + pattern@.len()));
            }
            at += pattern.len();
        } else {
            proof {
                assert(before + (seq![text@[at as int]] + replaced_from(
                    text@,
                    pattern@,
                    with@,
                    at + 1,
                )) == before.push(text@[at as int]) + replaced_from(
                    text@,
                    pattern@,
                    with@,
                    at + 1,
                ));
            }
            out.push(text[at]);
            at += 1;
        }
    }
    proof {
        assert(out@ + Seq::<char>::empty() == out@);
    }
    out
}

} // verus!
