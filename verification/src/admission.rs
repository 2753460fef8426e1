//! Which formulas are handed to the evaluator. The evaluator adds the
//! numbers of a range without a check and pauses for as long as a formula
//! asks, so a formula is admitted only where its text shows that neither
//! can go wrong: besides names in capitals, numbers, quoted text, signs
//! and the words of a choice (`if`, `else`, `switch`, `in`, `true`,
//! `false`) it holds nothing but calls of `sum`, on one named argument
//! whose numbers add up within 64 bits, and of `sleep_then`, with a short
//! pause written out in digits. The evaluator knows no function in
//! capitals but its constants `E` and `PI`. An admitted formula assigns
//! nothing, so that a name stands for its argument wherever the formula
//! uses it: an equals sign is admitted only in a comparison or in the
//! arrow of a `switch`.

use crate::cell_value::{ArgumentView, CellArgument, CellValue, ValueView};
use crate::identifier::{is_digit, is_upper};
use crate::text::chars_of;
use vstd::prelude::*;

verus! {

/// The most digits that the pause of a `sleep_then` may have: a pause of
/// under a thousand seconds.
pub const MAX_PAUSE_DIGITS: usize = 6;

pub open spec fn is_lower(c: char) -> bool {
    'a' <= c && c <= 'z'
}

/// The characters that names and numbers are made of.
pub open spec fn is_word_char(c: char) -> bool {
    is_upper(c) || is_lower(c) || is_digit(c) || c == '_'
}

/// Characters that no admitted formula holds outside a piece of quoted
/// text: the marks of other kinds of quoted text.
pub open spec fn is_refused_char(c: char) -> bool {
    c == '\'' || c == '`' || c == '#'
}

/// A dot stands at place `i` and no digit follows it: the dot of a method
/// call or of a range, not that of a decimal fraction.
pub open spec fn is_bare_dot(s: Seq<char>, i: int) -> bool {
    s[i] == '.' && !(i + 1 < s.len() && is_digit(s[i + 1]))
}

/// The white space that parts the signs of a formula.
pub open spec fn is_blank(c: char) -> bool {
    c == ' ' || c == '\t' || c == '\n' || c == '\r'
}

/// Brackets, comma and semicolon, which join no other sign.
pub open spec fn is_bracket(c: char) -> bool {
    c == '(' || c == ')' || c == '[' || c == ']' || c == '{' || c == '}' || c == ',' || c == ';'
}

/// A character that may be part of a sign of several characters: none of a
/// word, of white space or of the brackets, and no quote mark.
pub open spec fn is_sign(c: char) -> bool {
    !is_word_char(c) && !is_blank(c) && !is_bracket(c) && c != '"'
}

/// The two characters are a comparison with an equals sign in it, or the
/// arrow of a `switch`: `==`, `!=`, `<=`, `>=`, `=>`.
pub open spec fn is_comparison(first: char, second: char) -> bool {
    (first == '=' && (second == '=' || second == '>')) || ((first == '!' || first == '<' || first
        == '>') && second == '=')
}

/// A comparison stands at places `p` and `p + 1`, with no sign before it
/// and none behind it.
pub open spec fn comparison_at(s: Seq<char>, p: int) -> bool {
    &&& 0 <= p && p + 1 < s.len()
    &&& is_comparison(s[p], s[p + 1])
    &&& p == 0 || !is_sign(s[p - 1])
    &&& p + 2 >= s.len() || !is_sign(s[p + 2])
}

/// The equals sign at place `i` assigns nothing: it is the first or the
/// second character of a comparison that stands by itself.
pub open spec fn equals_admitted(s: Seq<char>, i: int) -> bool {
    comparison_at(s, i) || comparison_at(s, i - 1)
}

/// A comment starts at place `i`.
pub open spec fn opens_comment(s: Seq<char>, i: int) -> bool {
    s[i] == '/' && i + 1 < s.len() && (s[i + 1] == '/' || s[i + 1] == '*')
}

/// The character `c` stands at place `i`.
pub open spec fn is_at(s: Seq<char>, i: int, c: char) -> bool {
    0 <= i < s.len() && s[i] == c
}

/// Where the run of word characters from `i` on ends.
pub open spec fn word_end(s: Seq<char>, i: int) -> int
    decreases s.len() - i,
{
    if 0 <= i < s.len() && is_word_char(s[i]) {
        word_end(s, i + 1)
    } else {
        i
    }
}

/// Where the run of digits from `i` on ends.
pub open spec fn digits_end(s: Seq<char>, i: int) -> int
    decreases s.len() - i,
{
    if 0 <= i < s.len() && is_digit(s[i]) {
        digits_end(s, i + 1)
    } else {
        i
    }
}

pub open spec fn has_lower(s: Seq<char>) -> bool {
    exists|i: int| 0 <= i < s.len() && is_lower(#[trigger] s[i])
}

/// The name of the function that adds up a range.
pub open spec fn sum_word() -> Seq<char> {
    seq!['s', 'u', 'm']
}

/// The words of a choice and of its answers.
pub open spec fn is_keyword(word: Seq<char>) -> bool {
    ||| word == seq!['i', 'f']
    ||| word == seq!['e', 'l', 's', 'e']
    ||| word == seq!['s', 'w', 'i', 't', 'c', 'h']
    ||| word == seq!['i', 'n']
    ||| word == seq!['t', 'r', 'u', 'e']
    ||| word == seq!['f', 'a', 'l', 's', 'e']
}

/// The name of the function that pauses.
pub open spec fn pause_word() -> Seq<char> {
    seq!['s', 'l', 'e', 'e', 'p', '_', 't', 'h', 'e', 'n']
}

pub open spec fn fits_i64(n: int) -> bool {
    i64::MIN <= n <= i64::MAX
}

/// Adding the numbers of `items` to `total` one after the other, up to the
/// first item that is no number, never leaves 64 bits.
pub open spec fn adds_fit(items: Seq<ValueView>, total: int) -> bool
    decreases items.len(),
{
    if items.len() == 0 {
        true
    } else {
        match items[0] {
            ValueView::Integer(i) => fits_i64(total + i) && adds_fit(items.drop_first(), total + i),
            _ => true,
        }
    }
}

pub open spec fn all_integers(items: Seq<ValueView>) -> bool {
    forall|i: int| 0 <= i < items.len() ==> #[trigger] items[i] is Integer
}

/// The sum of the numbers among `items`.
pub open spec fn total_of(items: Seq<ValueView>) -> int
    decreases items.len(),
{
    if items.len() == 0 {
        0
    } else {
        total_of(items.drop_last()) + match items.last() {
            ValueView::Integer(i) => i as int,
            _ => 0,
        }
    }
}

/// Adding up each list of `lists` by itself and then its sum to `total`,
/// one list after the other, up to the first list that holds something
/// that is no number, never leaves 64 bits.
pub open spec fn lists_fit(lists: Seq<Seq<ValueView>>, total: int) -> bool
    decreases lists.len(),
{
    if lists.len() == 0 {
        true
    } else {
        adds_fit(lists[0], 0) && (all_integers(lists[0]) ==> fits_i64(total + total_of(lists[0]))
            && lists_fit(lists.drop_first(), total + total_of(lists[0])))
    }
}

/// `sum` of the argument never leaves 64 bits on its way.
pub open spec fn sums_fit(argument: ArgumentView) -> bool {
    match argument {
        ArgumentView::Scalar(_) => true,
        ArgumentView::Vector(items) => adds_fit(items, 0),
        ArgumentView::Matrix(lists) => lists_fit(lists, 0),
    }
}

/// What follows the word `sum` that ends before place `end` is one name in
/// round brackets, and the argument bound to that name can be added up.
pub open spec fn sum_call_admitted(
    s: Seq<char>,
    end: int,
    bound: Map<Seq<char>, ArgumentView>,
) -> bool {
    let stop = word_end(s, end + 1);
    let name = s.subrange(end + 1, stop);
    &&& is_at(s, end, '(')
    &&& stop > end + 1
    &&& !has_lower(name)
    &&& is_at(s, stop, ')')
    &&& bound.contains_key(name) ==> sums_fit(bound[name])
}

/// What follows the word `sleep_then` that ends before place `end` is an
/// opening bracket, a pause of one to [`MAX_PAUSE_DIGITS`] digits, and a
/// comma.
pub open spec fn pause_call_admitted(s: Seq<char>, end: int) -> bool {
    let stop = digits_end(s, end + 1);
    &&& is_at(s, end, '(')
    &&& end + 1 < stop <= end + 1 + MAX_PAUSE_DIGITS
    &&& is_at(s, stop, ',')
}

/// The word from `start` to `end` is admitted: it has no small letter, it
/// is a word of a choice, or it is an admitted call of `sum` or of
/// `sleep_then`.
pub open spec fn word_admitted(
    s: Seq<char>,
    start: int,
    end: int,
    bound: Map<Seq<char>, ArgumentView>,
) -> bool {
    let word = s.subrange(start, end);
    ||| !has_lower(word)
    ||| is_keyword(word)
    ||| word == sum_word() && sum_call_admitted(s, end, bound)
    ||| word == pause_word() && pause_call_admitted(s, end)
}

/// The text from place `i` on is admitted, when a word began at `start`
/// (none where `start` is `i`) and `quoted` says whether place `i` lies
/// inside quoted text.
pub open spec fn admitted_from(
    s: Seq<char>,
    i: int,
    start: int,
    quoted: bool,
    bound: Map<Seq<char>, ArgumentView>,
) -> bool
    decreases s.len() - i,
{
    if i < 0 || i >= s.len() {
        quoted || start == i || word_admitted(s, start, i, bound)
    } else if s[i] == '\\' {
        false
    } else if quoted {
        admitted_from(s, i + 1, i + 1, s[i] != '"', bound)
    } else if is_word_char(s[i]) {
        admitted_from(s, i + 1, start, false, bound)
    } else {
        &&& start == i || word_admitted(s, start, i, bound)
        &&& !is_refused_char(s[i])
        &&& !is_bare_dot(s, i)
        &&& !opens_comment(s, i)
        &&& s[i] == '=' ==> equals_admitted(s, i)
        &&& admitted_from(s, i + 1, i + 1, s[i] == '"', bound)
    }
}

/// The formula `s` is admitted under the arguments `bound`. Outside quoted
/// text it holds no backslash, quote mark of another kind, hash, comment or
/// dot but that of a decimal fraction, no equals sign but in a comparison
/// that stands by itself, and every word with a small letter in it is a
/// word of a choice, a call of `sum` on one name whose argument can be
/// added up, or a call of `sleep_then` with a short pause written in
/// digits. Inside quoted text it holds no backslash.
pub open spec fn admitted(s: Seq<char>, bound: Map<Seq<char>, ArgumentView>) -> bool {
    admitted_from(s, 0, 0, false, bound)
}

/// A list of named arguments as plain values.
pub open spec fn arguments_view(variables: Seq<(String, CellArgument)>) -> Seq<
    (Seq<char>, ArgumentView),
> {
    variables.map_values(|v: (String, CellArgument)| (v.0@, v.1@))
}

/// The arguments that a list of named arguments binds: each name maps to the
/// argument that stands last under it.
pub open spec fn bindings(variables: Seq<(Seq<char>, ArgumentView)>) -> Map<Seq<char>, ArgumentView>
    decreases variables.len(),
{
    if variables.len() == 0 {
        Map::empty()
    } else {
        bindings(variables.drop_last()).insert(variables.last().0, variables.last().1)
    }
}

/// True when one of the arguments holds an error value.
pub open spec fn holds_error(bound: Map<Seq<char>, ArgumentView>) -> bool {
    exists|name: Seq<char>| #[trigger] bound.contains_key(name) && bound[name].holds_error()
}

/// `name` stands at place `i` of `variables` and nowhere after it.
pub open spec fn binds_last(variables: Seq<(Seq<char>, ArgumentView)>, i: int, name: Seq<char>) -> bool {
    &&& 0 <= i < variables.len()
    &&& variables[i].0 == name
    &&& forall|j: int| i < j < variables.len() ==> (#[trigger] variables[j]).0 != name
}

/// The place where a name stands last holds what the name is bound to.
pub proof fn lemma_bound_last(variables: Seq<(Seq<char>, ArgumentView)>, i: int, name: Seq<char>)
    requires
        binds_last(variables, i, name),
    ensures
        bindings(variables).contains_key(name),
        bindings(variables)[name] == variables[i].1,
    decreases variables.len(),
{
    if i < variables.len() - 1 {
        let front = variables.drop_last();
        assert(variables[variables.len() - 1].0 != name);
        assert forall|j: int| i < j < front.len() implies (#[trigger] front[j]).0 != name by {
            assert(front[j] == variables[j]);
        }
        lemma_bound_last(front, i, name);
    }
}

/// A name that is bound stands somewhere in the list.
pub proof fn lemma_bound_somewhere(variables: Seq<(Seq<char>, ArgumentView)>, name: Seq<char>)
    requires
        bindings(variables).contains_key(name),
    ensures
        exists|i: int| binds_last(variables, i, name),
    decreases variables.len(),
{
    if variables.len() > 0 {
        let front = variables.drop_last();
        if variables.last().0 == name {
            assert(binds_last(variables, variables.len() - 1, name));
        } else {
            lemma_bound_somewhere(front, name);
            let i = choose|i: int| binds_last(front, i, name);
            assert forall|j: int| i < j < variables.len() implies (#[trigger] variables[j]).0
                != name by {
                if j < front.len() {
                    assert(front[j] == variables[j]);
                }
            }
            assert(binds_last(variables, i, name));
        }
    }
}

/// When word characters stand from `i` to `k` and none stands at `k`, the
/// run from `i` ends at `k`.
pub proof fn lemma_word_end(s: Seq<char>, i: int, k: int)
    requires
        0 <= i <= k <= s.len(),
        forall|j: int| i <= j < k ==> is_word_char(#[trigger] s[j]),
        k == s.len() || !is_word_char(s[k]),
    ensures
        word_end(s, i) == k,
    decreases k - i,
{
    if i < k {
        lemma_word_end(s, i + 1, k);
    }
}

/// When digits stand from `i` to `k` and none stands at `k`, the run of
/// digits from `i` ends at `k`.
pub proof fn lemma_digits_end(s: Seq<char>, i: int, k: int)
    requires
        0 <= i <= k <= s.len(),
        forall|j: int| i <= j < k ==> is_digit(#[trigger] s[j]),
        k == s.len() || !is_digit(s[k]),
    ensures
        digits_end(s, i) == k,
    decreases k - i,
{
    if i < k {
        lemma_digits_end(s, i + 1, k);
    }
}

/// True for a character that names and numbers are made of.
pub fn word_char(c: char) -> (yes: bool)
    ensures
        yes == is_word_char(c),
{
    ('A' <= c && c <= 'Z') || ('a' <= c && c <= 'z') || ('0' <= c && c <= '9') || c == '_'
}

/// Finds the end of the run of word characters from `from` on.
pub fn find_word_end(chars: &Vec<char>, from: usize) -> (k: usize)
    requires
        from <= chars@.len(),
    ensures
        k == word_end(chars@, from as int),
        from <= k <= chars@.len(),
{
    let mut k: usize = from;
    while k < chars.len() && word_char(chars[k])
        invariant
            from <= k <= chars@.len(),
            forall|j: int| from <= j < k ==> is_word_char(#[trigger] chars@[j]),
        decreases chars@.len() - k,
    {
        k += 1;
    }
    proof {
        lemma_word_end(chars@, from as int, k as int);
    }
    k
}

/// Finds the end of the run of digits from `from` on.
pub fn find_digits_end(chars: &Vec<char>, from: usize) -> (k: usize)
    requires
        from <= chars@.len(),
    ensures
        k == digits_end(chars@, from as int),
        from <= k <= chars@.len(),
{
    let mut k: usize = from;
    while k < chars.len() && '0' <= chars[k] && chars[k] <= '9'
        invariant
            from <= k <= chars@.len(),
            forall|j: int| from <= j < k ==> is_digit(#[trigger] chars@[j]),
        decreases chars@.len() - k,
    {
        k += 1;
    }
    proof {
        lemma_digits_end(chars@, from as int, k as int);
    }
    k
}

/// True when a small letter stands between `from` and `to`.
pub fn any_lower(chars: &Vec<char>, from: usize, to: usize) -> (found: bool)
    requires
        from <= to <= chars@.len(),
    ensures
        found == has_lower(chars@.subrange(from as int, to as int)),
{
    let ghost part = chars@.subrange(from as int, to as int);
    let mut i: usize = from;
    while i < to
        invariant
            from <= i <= to <= chars@.len(),
            part == chars@.subrange(from as int, to as int),
            forall|j: int| 0 <= j < i - from ==> !is_lower(#[trigger] part[j]),
        decreases to - i,
    {
        if 'a' <= chars[i] && chars[i] <= 'z' {
            proof {
                assert(is_lower(part[i - from]));
            }
            return true;
        }
        i += 1;
    }
    false
}

/// True when the characters between `from` and `to` spell `word`.
pub fn spells(chars: &Vec<char>, from: usize, to: usize, word: &Vec<char>) -> (same: bool)
    requires
        from <= to <= chars@.len(),
    ensures
        same == (chars@.subrange(from as int, to as int) == word@),
{
    let ghost part = chars@.subrange(from as int, to as int);
    if to - from != word.len() {
        return false;
    }
    let mut i: usize = 0;
    while i < word.len()
        invariant
            from <= to <= chars@.len(),
            to - from == word@.len(),
            i <= word@.len(),
            part == chars@.subrange(from as int, to as int),
            forall|j: int| 0 <= j < i ==> part[j] == word@[j],
        decreases word@.len() - i,
    {
        if chars[from + i] != word[i] {
            proof {
                assert(part[i as int] != word@[i as int]);
            }
            return false;
        }
        i += 1;
    }
    proof {
        assert(part =~= word@);
    }
    true
}

/// Adds up the numbers of `items` one after the other, up to the first
/// item that is no number. Says whether every sum on the way fits in 64
/// bits, and, where they do, gives the total if all items are numbers.
pub fn add_up(items: &Vec<CellValue>) -> (added: (bool, Option<i64>))
    ensures
        added.0 == adds_fit(crate::cell_value::values_view(items@), 0),
        added.0 ==> (added.1 is Some) == all_integers(crate::cell_value::values_view(items@)),
        added.0 && added.1 is Some ==> added.1->0 == total_of(
            crate::cell_value::values_view(items@),
        ),
{
    let ghost view = crate::cell_value::values_view(items@);
    let mut total: i64 = 0;
    let mut i: usize = 0;
    proof {
        assert(view.skip(0) == view);
        assert(view.take(0).len() == 0);
    }
    while i < items.len()
        invariant
            i <= items@.len(),
            view == crate::cell_value::values_view(items@),
            adds_fit(view, 0) == adds_fit(view.skip(i as int), total as int),
            all_integers(view.take(i as int)),
            total == total_of(view.take(i as int)),
        decreases items@.len() - i,
    {
        proof {
            assert(view.skip(i as int)[0] == view[i as int]);
            assert(view.skip(i as int).drop_first() == view.skip(i + 1));
            assert(view.take(i + 1).drop_last() == view.take(i as int));
            assert(view.take(i + 1).last() == view[i as int]);
            assert(view[i as int] == items@[i as int]@);
        }
        match &items[i] {
            CellValue::Integer(n) => {
                match total.checked_add(*n) {
                    Some(next) => {
                        total = next;
                    },
                    None => {
                        return (false, None);
                    },
                }
            },
            _ => {
                proof {
                    assert(!(view[i as int] is Integer));
                    if all_integers(view) {
                        assert(view[i as int] is Integer);
                    }
                }
                return (true, None);
            },
        }
        proof {
            assert forall|j: int| 0 <= j < i + 1 implies #[trigger] view.take(i + 1)[j] is Integer by {
                if j < i {
                    assert(view.take(i as int)[j] is Integer);
                }
            }
        }
        i += 1;
    }
    proof {
        assert(view.take(items@.len() as int) == view);
        assert(view.skip(items@.len() as int).len() == 0);
    }
    (true, Some(total))
}

/// True when `sum` of the lists, each added up by itself and then to the
/// total, never leaves 64 bits.
pub fn lists_add_up(lists: &Vec<Vec<CellValue>>) -> (fits: bool)
    ensures
        fits == lists_fit(crate::cell_value::columns_view(lists@), 0),
{
    let ghost view = crate::cell_value::columns_view(lists@);
    let mut total: i64 = 0;
    let mut i: usize = 0;
    proof {
        assert(view.skip(0) == view);
    }
    while i < lists.len()
        invariant
            i <= lists@.len(),
            view == crate::cell_value::columns_view(lists@),
            lists_fit(view, 0) == lists_fit(view.skip(i as int), total as int),
        decreases lists@.len() - i,
    {
        proof {
            assert(view.skip(i as int)[0] == view[i as int]);
            assert(view.skip(i as int).drop_first() == view.skip(i + 1));
            assert(view[i as int] == crate::cell_value::values_view(lists@[i as int]@));
        }
        let (fits, sum) = add_up(&lists[i]);
        if !fits {
            return false;
        }
        match sum {
            Some(n) => {
                match total.checked_add(n) {
                    Some(next) => {
                        total = next;
                    },
                    None => {
                        return false;
                    },
                }
            },
            None => {
                return true;
            },
        }
        i += 1;
    }
    proof {
        assert(view.skip(lists@.len() as int).len() == 0);
    }
    true
}

/// True when `sum` of the argument never leaves 64 bits on its way.
pub fn argument_adds_up(argument: &CellArgument) -> (fits: bool)
    ensures
        fits == sums_fit(argument@),
{
    match argument {
        CellArgument::Scalar(_) => true,
        CellArgument::Vector(items) => add_up(items).0,
        CellArgument::Matrix(lists) => lists_add_up(lists),
    }
}

/// True when a value of the list is an error.
pub fn any_error(items: &Vec<CellValue>) -> (found: bool)
    ensures
        found == ArgumentView::Vector(crate::cell_value::values_view(items@)).holds_error(),
{
    let ghost view = crate::cell_value::values_view(items@);
    let mut i: usize = 0;
    while i < items.len()
        invariant
            i <= items@.len(),
            view == crate::cell_value::values_view(items@),
            forall|j: int| 0 <= j < i ==> !(#[trigger] view[j] is Error),
        decreases items@.len() - i,
    {
        proof {
            assert(view[i as int] == items@[i as int]@);
        }
        if items[i].is_error() {
            return true;
        }
        i += 1;
    }
    false
}

/// True when a value of one of the lists is an error.
pub fn any_error_in_lists(lists: &Vec<Vec<CellValue>>) -> (found: bool)
    ensures
        found == ArgumentView::Matrix(crate::cell_value::columns_view(lists@)).holds_error(),
{
    let ghost view = crate::cell_value::columns_view(lists@);
    let mut i: usize = 0;
    while i < lists.len()
        invariant
            i <= lists@.len(),
            view == crate::cell_value::columns_view(lists@),
            forall|a: int, b: int|
                0 <= a < i && 0 <= b < view[a].len() ==> !(#[trigger] view[a][b] is Error),
        decreases lists@.len() - i,
    {
        proof {
            assert(view[i as int] == crate::cell_value::values_view(lists@[i as int]@));
        }
        if any_error(&lists[i]) {
            proof {
                let list = crate::cell_value::values_view(lists@[i as int]@);
                assert(ArgumentView::Vector(list).holds_error());
                let b = choose|b: int| 0 <= b < list.len() && list[b] is Error;
                assert(0 <= i < view.len() && 0 <= b < view[i as int].len()
                    && view[i as int][b] is Error);
            }
            return true;
        }
        i += 1;
    }
    false
}

/// True when a value inside the argument is an error.
pub fn argument_holds_error(argument: &CellArgument) -> (found: bool)
    ensures
        found == argument@.holds_error(),
{
    match argument {
        CellArgument::Scalar(value) => value.is_error(),
        CellArgument::Vector(items) => any_error(items),
        CellArgument::Matrix(lists) => any_error_in_lists(lists),
    }
}

/// The place where `name` stands last among the names of `variables`.
pub fn find_binding(variables: &Vec<(String, CellArgument)>, name: &Vec<char>) -> (place: Option<usize>)
    ensures
        match place {
            Some(i) => binds_last(arguments_view(variables@), i as int, name@),
            None => !bindings(arguments_view(variables@)).contains_key(name@),
        },
{
    let ghost view = arguments_view(variables@);
    let mut i: usize = variables.len();
    while i > 0
        invariant
            i <= variables@.len(),
            view == arguments_view(variables@),
            forall|j: int| i <= j < view.len() ==> (#[trigger] view[j]).0 != name@,
        decreases i,
    {
        i -= 1;
        let bound = chars_of(variables[i].0.as_str());
        proof {
            assert(view[i as int].0 == variables@[i as int].0@);
        }
        if spells(&bound, 0, bound.len(), name) {
            proof {
                assert(bound@.subrange(0, bound@.len() as int) == bound@);
            }
            return Some(i);
        }
        proof {
            assert(bound@.subrange(0, bound@.len() as int) == bound@);
        }
    }
    proof {
        if bindings(view).contains_key(name@) {
            lemma_bound_somewhere(view, name@);
            let k = choose|k: int| binds_last(view, k, name@);
            assert(view[k].0 != name@);
        }
    }
    None
}

/// True when one of the arguments that `variables` binds holds an error.
pub fn binds_error(variables: &Vec<(String, CellArgument)>) -> (found: bool)
    ensures
        found == holds_error(bindings(arguments_view(variables@))),
{
    let ghost view = arguments_view(variables@);
    let mut i: usize = 0;
    while i < variables.len()
        invariant
            i <= variables@.len(),
            view == arguments_view(variables@),
            forall|j: int, name: Seq<char>|
                0 <= j < i && #[trigger] binds_last(view, j, name) ==> !view[j].1.holds_error(),
        decreases variables@.len() - i,
    {
        proof {
            assert(view[i as int].1 == variables@[i as int].1@);
            assert(view[i as int].0 == variables@[i as int].0@);
        }
        if argument_holds_error(&variables[i].1) {
            let name = chars_of(variables[i].0.as_str());
            let place = find_binding(variables, &name);
            let stands_last = match place {
                Some(last) => last == i,
                None => false,
            };
            if stands_last {
                proof {
                    lemma_bound_last(view, i as int, name@);
                }
                return true;
            }
            proof {
                assert forall|other: Seq<char>| binds_last(view, i as int, other) implies false by {
                    match place {
                        Some(last) => {
                            if last > i {
                                assert(view[last as int].0 == name@);
                            } else {
                                assert(view[i as int].0 == name@);
                            }
                        },
                        None => {
                            lemma_bound_last(view, i as int, name@);
                        },
                    }
                }
            }
        }
        i += 1;
    }
    proof {
        if holds_error(bindings(view)) {
            let name = choose|name: Seq<char>| #[trigger]
                bindings(view).contains_key(name) && bindings(view)[name].holds_error();
            lemma_bound_somewhere(view, name);
            let k = choose|k: int| binds_last(view, k, name);
            lemma_bound_last(view, k, name);
        }
    }
    false
}

/// True when a call of `sum` that stands before place `end` is admitted.
pub fn check_sum_call(chars: &Vec<char>, end: usize, variables: &Vec<(String, CellArgument)>) -> (ok:
    bool)
    requires
        end <= chars@.len(),
    ensures
        ok == sum_call_admitted(chars@, end as int, bindings(arguments_view(variables@))),
{
    if end >= chars.len() || chars[end] != '(' {
        return false;
    }
    let stop = find_word_end(chars, end + 1);
    if stop <= end + 1 || any_lower(chars, end + 1, stop) {
        return false;
    }
    if stop >= chars.len() || chars[stop] != ')' {
        return false;
    }
    let mut name: Vec<char> = Vec::new();
    let mut i: usize = end + 1;
    while i < stop
        invariant
            end + 1 <= i <= stop <= chars@.len(),
            name@ == chars@.subrange(end + 1, i as int),
        decreases stop - i,
    {
        name.push(chars[i]);
        proof {
            assert(chars@.subrange(end + 1, i + 1) == chars@.subrange(end + 1, i as int).push(
                chars@[i as int],
            ));
        }
        i += 1;
    }
    match find_binding(variables, &name) {
        Some(place) => {
            proof {
                lemma_bound_last(arguments_view(variables@), place as int, name@);
                assert(arguments_view(variables@)[place as int].1 == variables@[place as int].1@);
            }
            argument_adds_up(&variables[place].1)
        },
        None => true,
    }
}

/// True when a call of `sleep_then` that stands before place `end` is
/// admitted.
pub fn check_pause_call(chars: &Vec<char>, end: usize) -> (ok: bool)
    requires
        end <= chars@.len(),
    ensures
        ok == pause_call_admitted(chars@, end as int),
{
    if end >= chars.len() || chars[end] != '(' {
        return false;
    }
    let stop = find_digits_end(chars, end + 1);
    if stop <= end + 1 || stop - (end + 1) > MAX_PAUSE_DIGITS {
        return false;
    }
    stop < chars.len() && chars[stop] == ','
}

/// True when the characters between `from` and `to` spell a word of a
/// choice.
pub fn spells_keyword(chars: &Vec<char>, from: usize, to: usize) -> (yes: bool)
    requires
        from <= to <= chars@.len(),
    ensures
        yes == is_keyword(chars@.subrange(from as int, to as int)),
{
    let choice: Vec<char> = vec!['i', 'f'];
    let other: Vec<char> = vec!['e', 'l', 's', 'e'];
    let switch: Vec<char> = vec!['s', 'w', 'i', 't', 'c', 'h'];
    let among: Vec<char> = vec!['i', 'n'];
    let yes: Vec<char> = vec!['t', 'r', 'u', 'e'];
    let no: Vec<char> = vec!['f', 'a', 'l', 's', 'e'];
    proof {
        assert(choice@ =~= seq!['i', 'f']);
        assert(other@ =~= seq!['e', 'l', 's', 'e']);
        assert(switch@ =~= seq!['s', 'w', 'i', 't', 'c', 'h']);
        assert(among@ =~= seq!['i', 'n']);
        assert(yes@ =~= seq!['t', 'r', 'u', 'e']);
        assert(no@ =~= seq!['f', 'a', 'l', 's', 'e']);
    }
    spells(chars, from, to, &choice) || spells(chars, from, to, &other) || spells(
        chars,
        from,
        to,
        &switch,
    ) || spells(chars, from, to, &among) || spells(chars, from, to, &yes) || spells(
        chars,
        from,
        to,
        &no,
    )
}

/// True when the word from `start` to `end` is admitted.
pub fn check_word(
    chars: &Vec<char>,
    start: usize,
    end: usize,
    variables: &Vec<(String, CellArgument)>,
) -> (ok: bool)
    requires
        start <= end <= chars@.len(),
    ensures
        ok == word_admitted(
            chars@,
            start as int,
            end as int,
            bindings(arguments_view(variables@)),
        ),
{
    if !any_lower(chars, start, end) || spells_keyword(chars, start, end) {
        return true;
    }
    let sum: Vec<char> = vec!['s', 'u', 'm'];
    let pause: Vec<char> = vec!['s', 'l', 'e', 'e', 'p', '_', 't', 'h', 'e', 'n'];
    proof {
        assert(sum@ =~= sum_word());
        assert(pause@ =~= pause_word());
        assert(sum_word().len() != pause_word().len());
    }
    if spells(chars, start, end, &sum) {
        check_sum_call(chars, end, variables)
    } else if spells(chars, start, end, &pause) {
        check_pause_call(chars, end)
    } else {
        false
    }
}

/// True for a character that may be part of a sign of several characters.
pub fn sign_char(c: char) -> (yes: bool)
    ensures
        yes == is_sign(c),
{
    !word_char(c) && !(c == ' ' || c == '\t' || c == '\n' || c == '\r') && !(c == '(' || c == ')'
        || c == '[' || c == ']' || c == '{' || c == '}' || c == ',' || c == ';') && c != '"'
}

/// True when a comparison stands by itself at places `p` and `p + 1`.
pub fn stands_comparison(chars: &Vec<char>, p: usize) -> (yes: bool)
    ensures
        yes == comparison_at(chars@, p as int),
{
    if p >= chars.len() || chars.len() - p < 2 {
        return false;
    }
    let first = chars[p];
    let second = chars[p + 1];
    let pair = (first == '=' && (second == '=' || second == '>')) || ((first == '!' || first == '<'
        || first == '>') && second == '=');
    if !pair {
        return false;
    }
    if p > 0 && sign_char(chars[p - 1]) {
        return false;
    }
    !(chars.len() - p > 2 && sign_char(chars[p + 2]))
}

/// True when the equals sign at place `i` assigns nothing.
pub fn equals_compares(chars: &Vec<char>, i: usize) -> (yes: bool)
    ensures
        yes == equals_admitted(chars@, i as int),
{
    stands_comparison(chars, i) || (i > 0 && stands_comparison(chars, i - 1))
}

/// True when the formula is admitted under the arguments that `variables`
/// binds.
pub fn admits(expr: &str, variables: &Vec<(String, CellArgument)>) -> (ok: bool)
    ensures
        ok == admitted(expr@, bindings(arguments_view(variables@))),
{
    let chars = chars_of(expr);
    let ghost bound = bindings(arguments_view(variables@));
    let mut i: usize = 0;
    let mut start: usize = 0;
    let mut quoted = false;
    while i < chars.len()
        invariant
            start <= i <= chars@.len(),
            chars@ == expr@,
            bound == bindings(arguments_view(variables@)),
            admitted(expr@, bound) == admitted_from(chars@, i as int, start as int, quoted, bound),
        decreases chars@.len() - i,
    {
        let c = chars[i];
        if c == '\\' {
            return false;
        }
        if quoted {
            quoted = c != '"';
            start = i + 1;
        } else if word_char(c) {
        } else {
            if start < i && !check_word(&chars, start, i, variables) {
                return false;
            }
            if c == '\'' || c == '`' || c == '#' {
                return false;
            }
            if c == '.' && !(i + 1 < chars.len() && '0' <= chars[i + 1] && chars[i + 1] <= '9') {
                return false;
            }
            if c == '/' && i + 1 < chars.len() && (chars[i + 1] == '/' || chars[i + 1] == '*') {
                return false;
            }
            if c == '=' && !equals_compares(&chars, i) {
                return false;
            }
            quoted = c == '"';
            start = i + 1;
        }
        i += 1;
    }
    quoted || start == i || check_word(&chars, start, i, variables)
}

} // verus!
