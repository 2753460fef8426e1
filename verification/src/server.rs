//! What a connection does with one message: read it as a command, and
//! answer a `get` from the sheet or write the formula of a `set` into it.

use crate::cell_value::{dependency_error_marker, CellValue, ValueView};
use crate::identifier::{
    column_letters, decimal_digits, leading_column, leading_column_of, lemma_leading_run,
    letters_len, parse_identifier, parse_row_number, CellIdentifier,
};
use crate::spreadsheet::Spreadsheet;
use crate::text::chars_of;
use std::str::FromStr;
use vstd::prelude::*;
use vstd::string::StringExecFns;

verus! {

/// What a client asks for.
#[derive(Debug)]
pub enum Command {
    GetCell { cell_identifier: CellIdentifier },
    SetCell { cell_identifier: CellIdentifier, cell_expr: String },
}

/// A [`Command`] as plain values.
pub ghost enum CommandView {
    GetCell { cell_identifier: CellIdentifier },
    SetCell { cell_identifier: CellIdentifier, cell_expr: Seq<char> },
}

impl View for Command {
    type V = CommandView;

    open spec fn view(&self) -> CommandView {
        match self {
            Command::GetCell { cell_identifier } => CommandView::GetCell { cell_identifier: *cell_identifier },
            Command::SetCell { cell_identifier, cell_expr } => CommandView::SetCell {
                cell_identifier: *cell_identifier,
                cell_expr: cell_expr@,
            },
        }
    }
}

/// What a client is told.
#[derive(Debug)]
pub enum Reply {
    /// The written form of a cell's address, and the cell's value.
    Value(String, CellValue),
    /// Why the request was not served.
    Error(String),
}

/// A [`Reply`] as plain values.
pub ghost enum ReplyView {
    Value(Seq<char>, ValueView),
    Error(Seq<char>),
}

impl View for Reply {
    type V = ReplyView;

    open spec fn view(&self) -> ReplyView {
        match self {
            Reply::Value(name, value) => ReplyView::Value(name@, value@),
            Reply::Error(message) => ReplyView::Error(message@),
        }
    }
}

/// The notice that a cell has changed and its dependents are due.
#[derive(Clone, Copy, Debug, PartialEq, Eq, Structural)]
pub struct UpdateMessage {
    cell_id: CellIdentifier,
}

impl UpdateMessage {
    pub closed spec fn spec_cell_id(&self) -> CellIdentifier {
        self.cell_id
    }

    pub fn new(cell_id: CellIdentifier) -> (message: UpdateMessage)
        ensures
            message.spec_cell_id() == cell_id,
    {
        UpdateMessage { cell_id }
    }

    #[verifier::when_used_as_spec(spec_cell_id)]
    pub fn cell_id(&self) -> (cell_id: CellIdentifier)
        ensures
            cell_id == self.spec_cell_id(),
    {
        self.cell_id
    }
}

/// The white space that parts the words of a message.
pub open spec fn is_space(c: char) -> bool {
    c == ' ' || c == '\t' || c == '\n' || c == '\x0C' || c == '\r'
}

/// How many characters stand before the first white space of `s`: the
/// whole length where it has none.
pub open spec fn word_len(s: Seq<char>) -> nat
    decreases s.len(),
{
    if s.len() > 0 && !is_space(s[0]) {
        1 + word_len(s.drop_first())
    } else {
        0
    }
}

/// When no white space stands among the first `k` characters and one stands
/// next, or the text ends there, then `k` is the length of the first word.
pub proof fn lemma_word_len(s: Seq<char>, k: int)
    requires
        0 <= k <= s.len(),
        forall|i: int| 0 <= i < k ==> !is_space(#[trigger] s[i]),
        k == s.len() || is_space(s[k]),
    ensures
        word_len(s) == k,
    decreases k,
{
    if k > 0 {
        let rest = s.drop_first();
        assert(!is_space(s[0]));
        assert forall|i: int| 0 <= i < k - 1 implies !is_space(#[trigger] rest[i]) by {
            assert(rest[i] == s[i + 1]);
        }
        if k < s.len() {
            assert(rest[k - 1] == s[k]);
        }
        lemma_word_len(rest, k - 1);
    }
}

/// The first word of a message.
pub open spec fn verb(s: Seq<char>) -> Seq<char> {
    s.take(word_len(s) as int)
}

/// What follows the first word and the white space after it.
pub open spec fn after_verb(s: Seq<char>) -> Seq<char> {
    s.skip(word_len(s) as int + 1)
}

/// The second word of a message: the name of the cell.
pub open spec fn target(s: Seq<char>) -> Seq<char> {
    verb(after_verb(s))
}

/// The command that a message stands for, once its second word has been
/// read as the address `id`. A `get` has two words and nothing more; a `set`
/// has a third part, the formula, which is all that follows the white space
/// after the second word.
pub open spec fn command_for(s: Seq<char>, id: Option<CellIdentifier>) -> Option<CommandView> {
    let rest = after_verb(s);
    if word_len(s) >= s.len() {
        None
    } else {
        match id {
            None => None,
            Some(cell_identifier) => if verb(s) == "get"@ {
                if word_len(rest) >= rest.len() {
                    Some(CommandView::GetCell { cell_identifier })
                } else {
                    None
                }
            } else if verb(s) == "set"@ {
                if word_len(rest) < rest.len() {
                    Some(
                        CommandView::SetCell {
                            cell_identifier,
                            cell_expr: rest.skip(word_len(rest) as int + 1),
                        },
                    )
                } else {
                    None
                }
            } else {
                None
            },
        }
    }
}

/// The command that [`parse_command`] reads from a message, if it reads one.
pub open spec fn command_of(s: Seq<char>) -> Option<CommandView> {
    command_for(s, parse_identifier(target(s)))
}

/// The form in which Rust's `Debug` writes a piece of text: in quotes, with
/// escapes.
pub uninterp spec fn debug_text(s: Seq<char>) -> Seq<char>;

/// The reply to a message that is no command.
pub open spec fn invalid_message_reply(s: Seq<char>) -> Seq<char> {
    "Invalid key provided: "@ + debug_text("Error parsing request: "@ + s)
}

/// `Command::from_str` of the spreadsheet protocol crate. The contract
/// claims that it reads a message as `command_for` says, with the second
/// word read as `parse_identifier` says. Messages whose column does not fit
/// in 32 bits are left out: the crate's arithmetic overflows on them.
#[verifier::external_body]
fn command_from_str(message: &str) -> (command: Option<Command>)
    requires
        leading_column_of(target(message@)) is Some,
    ensures
        match command {
            Some(c) => command_for(message@, parse_identifier(target(message@))) == Some(c@),
            None => command_for(message@, parse_identifier(target(message@))) is None,
        },
{
    match rsheet_lib::command::Command::from_str(message) {
        Ok(rsheet_lib::command::Command::Get { cell_identifier: id }) => Some(
            Command::GetCell { cell_identifier: CellIdentifier { col: id.col, row: id.row } },
        ),
        Ok(rsheet_lib::command::Command::Set { cell_identifier: id, cell_expr }) => Some(
            Command::SetCell { cell_identifier: CellIdentifier { col: id.col, row: id.row }, cell_expr },
        ),
        Err(_) => None,
    }
}

/// `format!` with `{:?}` on a piece of text. The contract names what it
/// writes.
#[verifier::external_body]
fn debug_format(text: &str) -> (quoted: String)
    ensures
        quoted@ == debug_text(text@),
{
    format!("{:?}", text)
}

/// Counts the characters of the word that starts at `from`.
fn find_space(chars: &Vec<char>, from: usize) -> (k: usize)
    requires
        from <= chars@.len(),
    ensures
        from <= k <= chars@.len(),
        k - from == word_len(chars@.skip(from as int)),
{
    let mut k: usize = from;
    while k < chars.len() && !(chars[k] == ' ' || chars[k] == '\t' || chars[k] == '\n' || chars[k]
        == '\x0C' || chars[k] == '\r')
        invariant
            from <= k <= chars@.len(),
            forall|i: int| from <= i < k ==> !is_space(#[trigger] chars@[i]),
        decreases chars@.len() - k,
    {
        k += 1;
    }
    proof {
        let rest = chars@.skip(from as int);
        assert forall|i: int| 0 <= i < k - from implies !is_space(#[trigger] rest[i]) by {
            assert(rest[i] == chars@[from + i]);
        }
        lemma_word_len(rest, k - from);
    }
    k
}

/// The column number of the capital letters that stand from `from` on,
/// where it fits in 32 bits.
fn column_from(chars: &Vec<char>, from: usize, to: usize) -> (column: Option<u32>)
    requires
        from <= to <= chars@.len(),
    ensures
        column == leading_column_of(chars@.subrange(from as int, to as int)),
{
    let mut word: Vec<char> = Vec::new();
    let mut i: usize = from;
    while i < to
        invariant
            from <= i <= to <= chars@.len(),
            word@ == chars@.subrange(from as int, i as int),
        decreases to - i,
    {
        word.push(chars[i]);
        proof {
            assert(chars@.subrange(from as int, i + 1) == chars@.subrange(from as int, i as int).push(
                chars@[i as int],
            ));
        }
        i += 1;
    }
    leading_column(&word)
}

/// Reads a message as a command. `None` when the message is none: it has
/// fewer than two words, its second word is not the address of a cell, its
/// first word is neither `get` nor `set`, a `get` has more than two words,
/// or a `set` has no formula.
pub fn parse_command(message: &str) -> (command: Option<Command>)
    ensures
        match command {
            Some(c) => command_of(message@) == Some(c@),
            None => command_of(message@) is None,
        },
{
    let chars = chars_of(message);
    let verb_end = find_space(&chars, 0);
    proof {
        assert(chars@.skip(0) == chars@);
    }
    if verb_end >= chars.len() {
        return None;
    }
    let target_end = find_space(&chars, verb_end + 1);
    let column = column_from(&chars, verb_end + 1, target_end);
    proof {
        let rest = chars@.skip(verb_end + 1);
        assert(chars@.subrange(verb_end + 1, target_end as int) == rest.take(
            word_len(rest) as int,
        ));
    }
    if column.is_none() {
        return None;
    }
    command_from_str(message)
}

/// The written form of a cell's address, as replies give it.
pub fn cell_identifier_to_string(identifier: CellIdentifier) -> (name: String)
    requires
        identifier.col < u32::MAX,
        identifier.row < u32::MAX,
    ensures
        name@ == column_letters((identifier.col + 1) as nat) + decimal_digits(
            (identifier.row + 1) as nat,
        ),
{
    identifier.to_text()
}

/// The reply to a message that is no command.
pub fn invalid_message(message: &str) -> (reply: Reply)
    ensures
        reply@ == ReplyView::Error(invalid_message_reply(message@)),
{
    let inner = "Error parsing request: ".to_owned().concat(message);
    let quoted = debug_format(inner.as_str());
    Reply::Error("Invalid key provided: ".to_owned().concat(quoted.as_str()))
}

/// The reply to `get`: the cell's address and value, or, where the cell
/// holds the dependency error, an error reply with that error's message.
pub fn handle_get(sheet: &Spreadsheet, cell_identifier: CellIdentifier) -> (reply: Reply)
    requires
        cell_identifier.col < u32::MAX,
        cell_identifier.row < u32::MAX,
    ensures
        reply@ == if sheet.value_of(cell_identifier) == ValueView::Error(dependency_error_marker()) {
            ReplyView::Error(dependency_error_marker())
        } else {
            ReplyView::Value(
                column_letters((cell_identifier.col + 1) as nat) + decimal_digits(
                    (cell_identifier.row + 1) as nat,
                ),
                sheet.value_of(cell_identifier),
            )
        },
{
    let value = sheet.get_value(&cell_identifier);
    if value.is_dependency_error() {
        match value {
            CellValue::Error(message) => Reply::Error(message),
            _ => Reply::Error("CELL_DEPENDENCY_ERROR".to_owned()),
        }
    } else {
        Reply::Value(cell_identifier_to_string(cell_identifier), value)
    }
}

/// Serves `set`: writes the formula into the cell, as `formula_written`
/// says, and gives the notice that the propagation worker is owed.
pub fn handle_set(sheet: &mut Spreadsheet, cell_identifier: CellIdentifier, cell_expr: String) -> (update:
    UpdateMessage)
    requires
        old(sheet).wf(),
    ensures
        final(sheet).wf(),
        update.cell_id() == cell_identifier,
        final(sheet).formula_written(old(sheet), cell_identifier, cell_expr@),
{
    sheet.set_expression(cell_identifier, cell_expr);
    UpdateMessage::new(cell_identifier)
}

/// What one message leads to: the reply to send, if one is owed, and the
/// cell whose dependents are due, if the sheet changed.
pub struct Handled {
    pub reply: Option<Reply>,
    pub update: Option<UpdateMessage>,
}

/// Serves one message. A message that is no command gets an error reply and
/// leaves the sheet as it is; a `get` gets its reply and leaves the sheet as
/// it is; a `set` gets no reply, writes the formula and names the cell for
/// propagation.
pub fn handle_message(sheet: &mut Spreadsheet, message: &str) -> (handled: Handled)
    requires
        old(sheet).wf(),
    ensures
        final(sheet).wf(),
        match command_of(message@) {
            None => {
                &&& *final(sheet) == *old(sheet)
                &&& handled.update is None
                &&& handled.reply is Some
                &&& handled.reply->0@ == ReplyView::Error(invalid_message_reply(message@))
            },
            Some(CommandView::GetCell { cell_identifier }) => {
                &&& *final(sheet) == *old(sheet)
                &&& handled.update is None
                &&& handled.reply is Some
                &&& handled.reply->0@ == if old(sheet).value_of(cell_identifier)
                    == ValueView::Error(dependency_error_marker()) {
                    ReplyView::Error(dependency_error_marker())
                } else {
                    ReplyView::Value(
                        column_letters((cell_identifier.col + 1) as nat) + decimal_digits(
                            (cell_identifier.row + 1) as nat,
                        ),
                        old(sheet).value_of(cell_identifier),
                    )
                }
            },
            Some(CommandView::SetCell { cell_identifier, cell_expr }) => {
                &&& handled.reply is None
                &&& handled.update is Some
                &&& handled.update->0.cell_id() == cell_identifier
                &&& final(sheet).formula_written(old(sheet), cell_identifier, cell_expr)
            },
        },
{
    match parse_command(message) {
        None => Handled { reply: Some(invalid_message(message)), update: None },
        Some(Command::GetCell { cell_identifier }) => {
            proof {
                lemma_parsed_in_range(target(message@));
            }
            Handled { reply: Some(handle_get(sheet, cell_identifier)), update: None }
        },
        Some(Command::SetCell { cell_identifier, cell_expr }) => {
            let update = handle_set(sheet, cell_identifier, cell_expr);
            Handled { reply: None, update: Some(update) }
        },
    }
}

/// An address that was read from a name is not the last column nor the
/// last row.
pub proof fn lemma_parsed_in_range(name: Seq<char>)
    ensures
        match parse_identifier(name) {
            Some(id) => id.col < u32::MAX && id.row < u32::MAX,
            None => true,
        },
{
    if parse_identifier(name) is Some {
        lemma_leading_run(name);
        let k = letters_len(name) as int;
        let n = parse_row_number(name.skip(k))->0;
        let id = parse_identifier(name)->0;
        assert(id.row == (n - 1) as u32);
    }
}

} // verus!
