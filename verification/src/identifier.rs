//! Cell addresses: a column and a row, both counted from zero, and their
//! written form, a run of capital letters followed by a row number that
//! starts at one (`A1`, `AB12`).

use crate::text::chars_of;
use std::str::FromStr;
use vstd::prelude::*;

verus! {

/// The position of one cell in the grid. `A1` is column 0, row 0.
#[derive(Clone, Copy, Debug, PartialEq, Eq, Structural, Hash)]
pub struct CellIdentifier {
    pub col: u32,
    pub row: u32,
}

pub open spec fn is_upper(c: char) -> bool {
    'A' <= c && c <= 'Z'
}

pub open spec fn is_digit(c: char) -> bool {
    '0' <= c && c <= '9'
}

/// How many capital letters stand at the front of `s`.
pub open spec fn letters_len(s: Seq<char>) -> nat
    decreases s.len(),
{
    if s.len() > 0 && is_upper(s[0]) {
        1 + letters_len(s.drop_first())
    } else {
        0
    }
}

/// The number a run of column letters stands for, counted from one:
/// `A` is 1, `Z` is 26, `AA` is 27.
pub open spec fn column_number(letters: Seq<char>) -> nat
    decreases letters.len(),
{
    if letters.len() == 0 {
        0
    } else {
        (column_number(letters.drop_last()) * 26 + (letters.last() as nat - 'A' as nat + 1)) as nat
    }
}

/// The number a run of decimal digits stands for.
pub open spec fn decimal_value(digits: Seq<char>) -> nat
    decreases digits.len(),
{
    if digits.len() == 0 {
        0
    } else {
        (decimal_value(digits.drop_last()) * 10 + (digits.last() as nat - '0' as nat)) as nat
    }
}

pub open spec fn all_digits(s: Seq<char>) -> bool {
    forall|i: int| 0 <= i < s.len() ==> is_digit(#[trigger] s[i])
}

/// An unsigned 32-bit number in decimal, as Rust reads one: an optional `+`,
/// then one digit or more, with a value that fits.
pub open spec fn parse_row_number(s: Seq<char>) -> Option<u32> {
    let digits = if s.len() > 0 && s[0] == '+' {
        s.drop_first()
    } else {
        s
    };
    if digits.len() > 0 && all_digits(digits) && decimal_value(digits) <= u32::MAX {
        Some(decimal_value(digits) as u32)
    } else {
        None
    }
}

/// The address that a name stands for: its leading capital letters give the
/// column, what follows them is the row number, which is at least 1. A name
/// without letters, without a row number or with row 0 stands for nothing.
pub open spec fn parse_identifier(s: Seq<char>) -> Option<CellIdentifier> {
    let k = letters_len(s) as int;
    if k == 0 || leading_column_of(s) is None {
        None
    } else {
        match parse_row_number(s.skip(k)) {
            Some(n) => if n >= 1 {
                Some(CellIdentifier { col: (column_number(s.take(k)) - 1) as u32, row: (n - 1) as u32 })
            } else {
                None
            },
            None => None,
        }
    }
}

/// The capital letters at the front of `s`.
pub open spec fn leading_run(s: Seq<char>) -> Seq<char> {
    s.take(letters_len(s) as int)
}

/// The column number that the letters at the front of `s` stand for, where
/// it fits in 32 bits.
pub open spec fn leading_column_of(s: Seq<char>) -> Option<u32> {
    if column_number(leading_run(s)) <= u32::MAX {
        Some(column_number(leading_run(s)) as u32)
    } else {
        None
    }
}

/// The letters of column number `n`, counted from one.
pub open spec fn column_letters(n: nat) -> Seq<char>
    decreases n,
{
    if n == 0 {
        Seq::empty()
    } else {
        column_letters(((n - 1) / 26) as nat).push((('A' as nat + (n - 1) % 26) as u8) as char)
    }
}

/// The decimal digits of `n`, without leading zeros.
pub open spec fn decimal_digits(n: nat) -> Seq<char>
    decreases n,
{
    if n < 10 {
        seq![(('0' as nat + n) as u8) as char]
    } else {
        decimal_digits(n / 10).push((('0' as nat + n % 10) as u8) as char)
    }
}

/// A run of capital letters stands for at least as much as any run that
/// it begins with.
pub proof fn lemma_column_number_grows(letters: Seq<char>, j: int)
    requires
        forall|i: int| 0 <= i < letters.len() ==> is_upper(#[trigger] letters[i]),
        0 <= j <= letters.len(),
    ensures
        column_number(letters.take(j)) <= column_number(letters),
        letters.len() > 0 ==> column_number(letters) >= 1,
    decreases letters.len(),
{
    if letters.len() > 0 {
        assert(is_upper(letters[letters.len() - 1]));
    }
    if j == letters.len() {
        assert(letters.take(j) == letters);
    } else {
        let front = letters.drop_last();
        assert forall|i: int| 0 <= i < front.len() implies is_upper(#[trigger] front[i]) by {
            assert(front[i] == letters[i]);
        }
        lemma_column_number_grows(front, j);
        assert(front.take(j) == letters.take(j));
    }
}

/// When the first `m` characters are capital letters, the leading run has
/// at least `m` of them.
pub proof fn lemma_letters_at_least(s: Seq<char>, m: int)
    requires
        0 <= m <= s.len(),
        forall|i: int| 0 <= i < m ==> is_upper(#[trigger] s[i]),
    ensures
        letters_len(s) >= m,
    decreases m,
{
    if m > 0 {
        let rest = s.drop_first();
        assert(is_upper(s[0]));
        assert forall|i: int| 0 <= i < m - 1 implies is_upper(#[trigger] rest[i]) by {
            assert(rest[i] == s[i + 1]);
        }
        lemma_letters_at_least(rest, m - 1);
    }
}

/// When the first `k` characters are capital letters and the next one, if
/// there is one, is not, then `k` is the length of the leading run.
pub proof fn lemma_letters_len(s: Seq<char>, k: int)
    requires
        0 <= k <= s.len(),
        forall|i: int| 0 <= i < k ==> is_upper(#[trigger] s[i]),
        k == s.len() || !is_upper(s[k]),
    ensures
        letters_len(s) == k,
    decreases k,
{
    if k > 0 {
        let rest = s.drop_first();
        assert(is_upper(s[0]));
        assert forall|i: int| 0 <= i < k - 1 implies is_upper(#[trigger] rest[i]) by {
            assert(rest[i] == s[i + 1]);
        }
        if k < s.len() {
            assert(rest[k - 1] == s[k]);
        }
        lemma_letters_len(rest, k - 1);
    }
}

/// The column number of the capital letters at the front of `chars`,
/// counted from one, or `None` where it does not fit in 32 bits.
pub fn leading_column(chars: &Vec<char>) -> (column: Option<u32>)
    ensures
        column == leading_column_of(chars@),
{
    let mut k: usize = 0;
    let mut n: u64 = 0;
    while k < chars.len() && 'A' <= chars[k] && chars[k] <= 'Z'
        invariant
            k <= chars@.len(),
            forall|i: int| 0 <= i < k ==> is_upper(#[trigger] chars@[i]),
            n == column_number(chars@.take(k as int)),
            n <= u32::MAX,
        decreases chars@.len() - k,
    {
        let letter: u64 = chars[k] as u64 - 'A' as u64 + 1;
        let next: u64 = n * 26 + letter;
        proof {
            assert(chars@.take(k + 1).drop_last() == chars@.take(k as int));
            assert(chars@.take(k + 1).last() == chars@[k as int]);
        }
        if next > 0xFFFF_FFFF {
            proof {
                lemma_letters_at_least(chars@, k + 1);
                lemma_leading_run(chars@);
                lemma_column_number_grows(leading_run(chars@), k + 1);
                assert(leading_run(chars@).take(k + 1) == chars@.take(k + 1));
            }
            return None;
        }
        n = next;
        k += 1;
    }
    proof {
        lemma_letters_len(chars@, k as int);
    }
    Some(n as u32)
}

/// `CellIdentifier::from_str` of the spreadsheet protocol crate. The contract
/// claims that it reads a name as `parse_identifier` says. Names whose column
/// does not fit in 32 bits are left out: the crate's arithmetic overflows on
/// them.
#[verifier::external_body]
fn identifier_from_str(name: &str) -> (id: Option<CellIdentifier>)
    requires
        leading_column_of(name@) is Some,
    ensures
        id == parse_identifier(name@),
{
    match rsheet_lib::command::CellIdentifier::from_str(name) {
        Ok(id) => Some(CellIdentifier { col: id.col, row: id.row }),
        Err(_) => None,
    }
}

/// `column_number_to_name` of the spreadsheet protocol crate. The contract
/// claims that it writes column `col`, counted from zero, in letters. The
/// last column is left out: the crate adds one to it.
#[verifier::external_body]
fn column_name(col: u32) -> (name: String)
    requires
        col < u32::MAX,
    ensures
        name@ == column_letters((col + 1) as nat),
{
    rsheet_lib::cells::column_number_to_name(col)
}

/// `u32::to_string`. The contract claims that it writes the number in
/// decimal, without sign or leading zeros.
#[verifier::external_body]
pub(crate) fn row_text(n: u32) -> (text: String)
    ensures
        text@ == decimal_digits(n as nat),
{
    n.to_string()
}

impl CellIdentifier {
    /// The key under which a cell is filed: the column in the upper half,
    /// the row in the lower half.
    pub open spec fn spec_key(self) -> u64 {
        (self.col as u64 * 0x1_0000_0000 + self.row as u64) as u64
    }

    /// Packs the address into one integer.
    pub fn key(&self) -> (k: u64)
        ensures
            k == self.spec_key(),
    {
        self.col as u64 * 0x1_0000_0000 + self.row as u64
    }

    /// Distinct addresses have distinct keys.
    pub proof fn lemma_key_injective(a: CellIdentifier, b: CellIdentifier)
        ensures
            a.spec_key() == b.spec_key() <==> a == b,
    {
        if a.spec_key() == b.spec_key() {
            assert(a.col as int * 0x1_0000_0000 + a.row as int == b.col as int * 0x1_0000_0000
                + b.row as int);
            assert(a.col == b.col) by (nonlinear_arith)
                requires
                    a.col as int * 0x1_0000_0000 + a.row as int == b.col as int * 0x1_0000_0000
                        + b.row as int,
                    0 <= a.row < 0x1_0000_0000,
                    0 <= b.row < 0x1_0000_0000,
            ;
        }
    }

    /// Reads an address from its written form. `None` when the name has no
    /// column letters, a column that does not fit in 32 bits, no row number,
    /// or row 0.
    pub fn parse(name: &str) -> (id: Option<CellIdentifier>)
        ensures
            id == parse_identifier(name@),
    {
        let chars = chars_of(name);
        match leading_column(&chars) {
            Some(_) => identifier_from_str(name),
            None => None,
        }
    }

    /// The written form of the address: column letters, then the row counted
    /// from one.
    pub fn to_text(&self) -> (text: String)
        requires
            self.col < u32::MAX,
            self.row < u32::MAX,
        ensures
            text@ == column_letters((self.col + 1) as nat) + decimal_digits((self.row + 1) as nat),
    {
        let mut text = column_name(self.col);
        let row = row_text(self.row + 1);
        text.append(row.as_str());
        text
    }
}

/// The leading run lies within the text and holds capital letters only;
/// where it is not empty it stands for a column of at least 1.
pub proof fn lemma_leading_run(s: Seq<char>)
    ensures
        letters_len(s) <= s.len(),
        forall|i: int| 0 <= i < leading_run(s).len() ==> is_upper(#[trigger] leading_run(s)[i]),
        letters_len(s) > 0 ==> column_number(leading_run(s)) >= 1,
{
    lemma_letters_len_bound(s);
    let run = leading_run(s);
    assert forall|i: int| 0 <= i < run.len() implies is_upper(#[trigger] run[i]) by {
        lemma_letters_prefix(s, i);
    }
    lemma_column_number_grows(run, 0);
}

/// The leading run is no longer than the text.
pub proof fn lemma_letters_len_bound(s: Seq<char>)
    ensures
        letters_len(s) <= s.len(),
    decreases s.len(),
{
    if s.len() > 0 && is_upper(s[0]) {
        lemma_letters_len_bound(s.drop_first());
    }
}

/// Every position inside the leading run holds a capital letter.
pub proof fn lemma_letters_prefix(s: Seq<char>, i: int)
    requires
        0 <= i < letters_len(s),
    ensures
        i < s.len(),
        is_upper(s[i]),
    decreases i,
{
    if i > 0 {
        lemma_letters_prefix(s.drop_first(), i - 1);
        assert(s.drop_first()[i - 1] == s[i]);
    }
}

} // verus!
