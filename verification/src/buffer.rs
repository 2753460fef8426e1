//! Text buffers with names, of which one is open for editing, and the
//! commands and keys that work on them.

use crate::text::{chars_of, contains, contents, lines, lines_of, occurs_in, text_of, words, words_of};
use vstd::prelude::*;

verus! {

/// One buffer of text.
#[derive(Debug)]
pub struct Buffer {
    text: String,
}

/// A line of a buffer that a search has found: its number, counted from
/// one, and its text.
pub open spec fn matching_lines(lines: Seq<Seq<char>>, pattern: Seq<char>) -> Seq<
    (nat, Seq<char>),
>
    decreases lines.len(),
{
    if lines.len() == 0 {
        Seq::empty()
    } else if occurs_in(lines.last(), pattern) {
        matching_lines(lines.drop_last(), pattern).push((lines.len(), lines.last()))
    } else {
        matching_lines(lines.drop_last(), pattern)
    }
}

/// The lines that a search has found, as plain values.
pub open spec fn found_view(found: Seq<(usize, String)>) -> Seq<(nat, Seq<char>)> {
    found.map_values(|line: (usize, String)| (line.0 as nat, line.1@))
}

/// Where each character of a text stands on the screen: its column, its
/// line and the character, for the first `count` characters.
pub open spec fn laid_out(text: Seq<char>, count: int) -> Seq<(i32, i32, char)>
    decreases count,
{
    if count <= 0 || count > text.len() {
        Seq::empty()
    } else {
        laid_out(text, count - 1).push(
            (column_of(text, count - 1) as i32, line_of(text, count - 1) as i32, text[count - 1]),
        )
    }
}

/// The line on which the character at place `at` stands: the number of
/// line feeds before it.
pub open spec fn line_of(text: Seq<char>, at: int) -> int
    decreases at,
{
    if at <= 0 || at > text.len() {
        0
    } else {
        line_of(text, at - 1) + if text[at - 1] == '\n' {
            1int
        } else {
            0int
        }
    }
}

/// The column in which the character at place `at` stands: the number of
/// characters between it and the line feed before it.
pub open spec fn column_of(text: Seq<char>, at: int) -> int
    decreases at,
{
    if at <= 0 || at > text.len() || text[at - 1] == '\n' {
        0
    } else {
        column_of(text, at - 1) + 1
    }
}

impl View for Buffer {
    type V = Seq<char>;

    closed spec fn view(&self) -> Seq<char> {
        self.text@
    }
}

impl Buffer {
    /// An empty buffer.
    pub fn new() -> (buffer: Buffer)
        ensures
            buffer@ == Seq::<char>::empty(),
    {
        Buffer { text: String::new() }
    }

    /// Puts a character at the end of the buffer.
    pub fn push_char(&mut self, c: char)
        ensures
            final(self)@ == old(self)@.push(c),
    {
        self.text.push(c);
    }

    /// Takes the last character off the buffer, if it has one.
    pub fn pop_char(&mut self)
        ensures
            final(self)@ == if old(self)@.len() > 0 {
                old(self)@.drop_last()
            } else {
                old(self)@
            },
    {
        let _ = self.text.pop();
    }

    /// The text of the buffer.
    pub fn text(&self) -> (text: String)
        ensures
            text@ == self@,
    {
        self.text.clone()
    }

    /// The lines of the buffer in which `search_text` stands, each with its
    /// number, counted from one.
    pub fn search(&self, search_text: &str) -> (found: Vec<(usize, String)>)
        ensures
            found_view(found@) == matching_lines(lines_of(self@), search_text@),
    {
        let text = chars_of(self.text.as_str());
        let pattern = chars_of(search_text);
        let all = lines(&text);
        let mut found: Vec<(usize, String)> = Vec::new();
        let mut i: usize = 0;
        proof {
            assert(contents(all@).take(0) == Seq::<Seq<char>>::empty());
        }
        while i < all.len()
            invariant
                i <= all@.len(),
                pattern@ == search_text@,
                contents(all@) == lines_of(self@),
                found_view(found@) == matching_lines(contents(all@).take(i as int), pattern@),
            decreases all@.len() - i,
        {
            proof {
                let now = contents(all@).take(i + 1);
                assert(now.drop_last() == contents(all@).take(i as int));
                assert(now.last() == all@[i as int]@);
            }
            if contains(&all[i], &pattern) {
                let line = text_of(&all[i]);
                let number = i + 1;
                proof {
                    assert(found_view(found@.push((number, line))) == found_view(found@).push(
                        (number as nat, line@),
                    ));
                }
                found.push((number, line));
            }
            i += 1;
        }
        proof {
            assert(contents(all@).take(all@.len() as int) == contents(all@));
        }
        found
    }

    /// Where each character of the buffer stands on the screen: column,
    /// line, character. A line feed stands at the end of its line.
    pub fn layout(&self) -> (cells: Vec<(i32, i32, char)>)
        requires
            self@.len() <= i32::MAX,
        ensures
            cells@ == laid_out(self@, self@.len() as int),
    {
        let text = chars_of(self.text.as_str());
        let mut cells: Vec<(i32, i32, char)> = Vec::new();
        let mut line: i32 = 0;
        let mut col: i32 = 0;
        let mut i: usize = 0;
        while i < text.len()
            invariant
                i <= text@.len(),
                text@.len() <= i32::MAX,
                cells@ == laid_out(text@, i as int),
                line == line_of(text@, i as int),
                col == column_of(text@, i as int),
                0 <= line <= i,
                0 <= col <= i,
            decreases text@.len() - i,
        {
            let c = text[i];
            cells.push((col, line, c));
            col += 1;
            if c == '\n' {
                line += 1;
                col = 0;
            }
            i += 1;
        }
        cells
    }
}

/// A key that the editor knows.
#[derive(Clone, Copy, Debug, PartialEq, Eq, Structural)]
pub enum Key {
    Char(char),
    Enter,
    Backspace,
    Esc,
    Up,
    Down,
    Other,
}

/// What the screen owes after a key.
#[derive(Clone, Copy, Debug, PartialEq, Eq, Structural)]
pub enum Screen {
    /// The text is to be drawn again.
    Redraw,
    /// The view is to be moved to the given line, and the text drawn again.
    ScrollTo(i32),
    /// The editor is to be left.
    Leave,
}

/// What a command line asks of the editor.
#[derive(Debug)]
pub enum EditorCommand {
    /// An empty line.
    Nothing,
    /// Open the buffer with the name, or the buffer that is open where none
    /// is named, for editing.
    Open(Option<String>),
    /// Search all buffers for the text; there is none where no term was
    /// given.
    Search(Option<String>),
    /// A command that the editor does not know.
    Unknown,
}

/// The words joined with one space between neighbours.
pub open spec fn joined(words: Seq<Seq<char>>) -> Seq<char>
    decreases words.len(),
{
    if words.len() == 0 {
        Seq::empty()
    } else if words.len() == 1 {
        words[0]
    } else {
        joined(words.drop_last()) + seq![' '] + words.last()
    }
}

/// A command as plain values.
pub ghost enum CommandView {
    Nothing,
    Open(Option<Seq<char>>),
    Search(Option<Seq<char>>),
    Unknown,
}

impl View for EditorCommand {
    type V = CommandView;

    open spec fn view(&self) -> CommandView {
        match self {
            EditorCommand::Nothing => CommandView::Nothing,
            EditorCommand::Open(name) => CommandView::Open(
                match name {
                    Some(text) => Some(text@),
                    None => None,
                },
            ),
            EditorCommand::Search(term) => CommandView::Search(
                match term {
                    Some(text) => Some(text@),
                    None => None,
                },
            ),
            EditorCommand::Unknown => CommandView::Unknown,
        }
    }
}

/// The command that a line stands for: its first word names it; `open`
/// takes the second word as the name of a buffer, `search` all further
/// words, joined by single spaces, as the text to look for.
pub open spec fn command_of(line: Seq<char>) -> CommandView {
    let parts = words_of(line);
    if parts.len() == 0 {
        CommandView::Nothing
    } else if parts[0] == "open"@ {
        CommandView::Open(
            if parts.len() > 1 {
                Some(parts[1])
            } else {
                None
            },
        )
    } else if parts[0] == "search"@ {
        CommandView::Search(
            if parts.len() > 1 {
                Some(joined(parts.skip(1)))
            } else {
                None
            },
        )
    } else {
        CommandView::Unknown
    }
}

/// True when the characters spell the text.
fn spells(chars: &Vec<char>, text: &str) -> (same: bool)
    ensures
        same == (chars@ == text@),
{
    let other = chars_of(text);
    if chars.len() != other.len() {
        return false;
    }
    let mut i: usize = 0;
    while i < chars.len()
        invariant
            i <= chars@.len(),
            other@ == text@,
            chars@.len() == other@.len(),
            forall|k: int| 0 <= k < i ==> chars@[k] == other@[k],
        decreases chars@.len() - i,
    {
        if chars[i] != other[i] {
            return false;
        }
        i += 1;
    }
    proof {
        assert(chars@ =~= other@);
    }
    true
}

/// Reads a command line.
pub fn parse_editor_command(cmd: &str) -> (command: EditorCommand)
    ensures
        command@ == command_of(cmd@),
{
    let parts = words(&chars_of(cmd));
    if parts.len() == 0 {
        return EditorCommand::Nothing;
    }
    proof {
        assert(contents(parts@)[0] == parts@[0]@);
    }
    if spells(&parts[0], "open") {
        if parts.len() > 1 {
            proof {
                assert(contents(parts@)[1] == parts@[1]@);
            }
            EditorCommand::Open(Some(text_of(&parts[1])))
        } else {
            EditorCommand::Open(None)
        }
    } else if spells(&parts[0], "search") {
        if parts.len() > 1 {
            let mut query: Vec<char> = Vec::new();
            let mut i: usize = 1;
            while i < parts.len()
                invariant
                    1 <= i <= parts@.len(),
                    query@ == joined(contents(parts@).subrange(1, i as int)),
                decreases parts@.len() - i,
            {
                proof {
                    let now = contents(parts@).subrange(1, i + 1);
                    assert(now.drop_last() == contents(parts@).subrange(1, i as int));
                    assert(now.last() == parts@[i as int]@);
                    assert(now[0] == parts@[1]@);
                }
                if i > 1 {
                    query.push(' ');
                }
                let mut k: usize = 0;
                let ghost before = query@;
                while k < parts[i].len()
                    invariant
                        i < parts@.len(),
                        k <= parts@[i as int]@.len(),
                        query@ == before + parts@[i as int]@.take(k as int),
                    decreases parts@[i as int]@.len() - k,
                {
                    proof {
                        assert(parts@[i as int]@.take(k + 1) == parts@[i as int]@.take(
                            k as int,
                        ).push(parts@[i as int]@[k as int]));
                    }
                    query.push(parts[i][k]);
                    k += 1;
                }
                proof {
                    assert(parts@[i as int]@.take(parts@[i as int]@.len() as int)
                        == parts@[i as int]@);
                }
                i += 1;
            }
            proof {
                assert(contents(parts@).subrange(1, parts@.len() as int) == contents(parts@).skip(
                    1,
                ));
            }
            EditorCommand::Search(Some(text_of(&query)))
        } else {
            EditorCommand::Search(None)
        }
    } else {
        EditorCommand::Unknown
    }
}

/// The buffers of the editor, each under its name, and the one that is
/// open.
#[derive(Debug)]
pub struct BufferEditor {
    names: Vec<String>,
    buffers: Vec<Buffer>,
    active: usize,
}

/// The place of the first of the names that is `name`.
pub open spec fn name_index(names: Seq<Seq<char>>, name: Seq<char>) -> Option<int>
    decreases names.len(),
{
    if names.len() == 0 {
        None
    } else {
        match name_index(names.drop_last(), name) {
            Some(i) => Some(i),
            None => if names.last() == name {
                Some(names.len() - 1)
            } else {
                None
            },
        }
    }
}

impl BufferEditor {
    /// The names of the buffers, in the order in which they were opened.
    pub closed spec fn names(&self) -> Seq<Seq<char>> {
        self.names@.map_values(|name: String| name@)
    }

    /// The texts of the buffers, in the order of their names.
    pub closed spec fn texts(&self) -> Seq<Seq<char>> {
        self.buffers@.map_values(|buffer: Buffer| buffer@)
    }

    /// The place of the buffer that is open.
    pub closed spec fn active(&self) -> int {
        self.active as int
    }

    /// Every name has its buffer, and the open buffer is one of them.
    pub open spec fn wf(&self) -> bool {
        &&& self.names().len() == self.texts().len()
        &&& 0 <= self.active() < self.names().len()
    }

    /// An editor with one empty buffer, `default`, which is open.
    pub fn new() -> (editor: BufferEditor)
        ensures
            editor.wf(),
            editor.names() == seq!["default"@],
            editor.texts() == seq![Seq::<char>::empty()],
            editor.active() == 0,
    {
        let mut names: Vec<String> = Vec::new();
        names.push("default".to_owned());
        let mut buffers: Vec<Buffer> = Vec::new();
        buffers.push(Buffer::new());
        let editor = BufferEditor { names, buffers, active: 0 };
        proof {
            assert(editor.names() =~= seq!["default"@]);
            assert(editor.texts() =~= seq![Seq::<char>::empty()]);
        }
        editor
    }

    /// The name of the buffer that is open.
    pub fn active_name(&self) -> (name: String)
        requires
            self.wf(),
        ensures
            name@ == self.names()[self.active()],
    {
        self.names[self.active].clone()
    }

    /// The text of the buffer that is open.
    pub fn active_text(&self) -> (text: String)
        requires
            self.wf(),
        ensures
            text@ == self.texts()[self.active()],
    {
        self.buffers[self.active].text()
    }

    /// The buffer that is open, for editing.
    pub fn get_active_buffer(&mut self) -> (buffer: &mut Buffer)
        requires
            old(self).wf(),
        ensures
            buffer@ == old(self).texts()[old(self).active()],
            final(self).wf(),
            final(self).names() == old(self).names(),
            final(self).active() == old(self).active(),
            final(self).texts() == old(self).texts().update(
                old(self).active(),
                final(buffer)@,
            ),
    {
        let place = self.active;
        &mut self.buffers[place]
    }

    /// Finds the buffer with the name.
    fn find(&self, name: &str) -> (place: Option<usize>)
        ensures
            match place {
                Some(i) => name_index(self.names(), name@) == Some(i as int) && i
                    < self.names().len(),
                None => name_index(self.names(), name@) is None,
            },
    {
        let wanted = name.to_owned();
        let mut i: usize = 0;
        proof {
            assert(self.names().take(0) == Seq::<Seq<char>>::empty());
        }
        while i < self.names.len()
            invariant
                i <= self.names@.len(),
                wanted@ == name@,
                name_index(self.names().take(i as int), name@) is None,
            decreases self.names@.len() - i,
        {
            proof {
                assert(self.names().take(i + 1).drop_last() == self.names().take(i as int));
                assert(self.names().take(i + 1).last() == self.names@[i as int]@);
            }
            if self.names[i] == wanted {
                proof {
                    lemma_name_index_prefix(self.names(), name@, i + 1);
                }
                return Some(i);
            }
            i += 1;
        }
        proof {
            assert(self.names().take(self.names().len() as int) == self.names());
        }
        None
    }

    /// Opens the buffer with the name; it is made, empty, where there is
    /// none.
    pub fn open_buffer(&mut self, name: &str)
        requires
            old(self).wf(),
        ensures
            final(self).wf(),
            match name_index(old(self).names(), name@) {
                Some(i) => {
                    &&& final(self).names() == old(self).names()
                    &&& final(self).texts() == old(self).texts()
                    &&& final(self).active() == i
                },
                None => {
                    &&& final(self).names() == old(self).names().push(name@)
                    &&& final(self).texts() == old(self).texts().push(Seq::empty())
                    &&& final(self).active() == old(self).names().len()
                },
            },
    {
        match self.find(name) {
            Some(i) => {
                self.active = i;
            },
            None => {
                let place = self.names.len();
                self.names.push(name.to_owned());
                self.buffers.push(Buffer::new());
                self.active = place;
                proof {
                    assert(self.names() =~= old(self).names().push(name@));
                    assert(self.texts() =~= old(self).texts().push(Seq::empty()));
                }
            },
        }
    }

    /// Puts a character at the end of the open buffer.
    pub fn push_char(&mut self, c: char)
        requires
            old(self).wf(),
        ensures
            final(self).wf(),
            final(self).names() == old(self).names(),
            final(self).active() == old(self).active(),
            final(self).texts() == old(self).texts().update(
                old(self).active(),
                old(self).texts()[old(self).active()].push(c),
            ),
    {
        self.get_active_buffer().push_char(c);
        proof {
            assert(self.texts() =~= old(self).texts().update(
                old(self).active(),
                old(self).texts()[old(self).active()].push(c),
            ));
        }
    }

    /// Takes the last character off the open buffer, if it has one.
    pub fn pop_char(&mut self)
        requires
            old(self).wf(),
        ensures
            final(self).wf(),
            final(self).names() == old(self).names(),
            final(self).active() == old(self).active(),
            final(self).texts() == old(self).texts().update(
                old(self).active(),
                if old(self).texts()[old(self).active()].len() > 0 {
                    old(self).texts()[old(self).active()].drop_last()
                } else {
                    old(self).texts()[old(self).active()]
                },
            ),
    {
        self.get_active_buffer().pop_char();
        proof {
            assert(self.texts() =~= old(self).texts().update(
                old(self).active(),
                if old(self).texts()[old(self).active()].len() > 0 {
                    old(self).texts()[old(self).active()].drop_last()
                } else {
                    old(self).texts()[old(self).active()]
                },
            ));
        }
    }

    /// What a key does: a character, and a line feed for the enter key, go
    /// to the end of the open buffer; backspace takes its last character
    /// off; escape leaves the editor; the arrows move the view, which shows
    /// line `viewport_y` at its top, one line up, but not above the first
    /// line, or down. Every other key does nothing.
    pub fn handle_key(&mut self, key: Key, viewport_y: i32) -> (screen: Screen)
        requires
            old(self).wf(),
            viewport_y < i32::MAX,
        ensures
            final(self).wf(),
            final(self).names() == old(self).names(),
            final(self).active() == old(self).active(),
            screen == match key {
                Key::Esc => Screen::Leave,
                Key::Up => Screen::ScrollTo(
                    if viewport_y > 0 {
                        (viewport_y - 1) as i32
                    } else {
                        viewport_y
                    },
                ),
                Key::Down => Screen::ScrollTo((viewport_y + 1) as i32),
                _ => Screen::Redraw,
            },
            final(self).texts() == match key {
                Key::Char(c) => old(self).texts().update(
                    old(self).active(),
                    old(self).texts()[old(self).active()].push(c),
                ),
                Key::Enter => old(self).texts().update(
                    old(self).active(),
                    old(self).texts()[old(self).active()].push('\n'),
                ),
                Key::Backspace => old(self).texts().update(
                    old(self).active(),
                    if old(self).texts()[old(self).active()].len() > 0 {
                        old(self).texts()[old(self).active()].drop_last()
                    } else {
                        old(self).texts()[old(self).active()]
                    },
                ),
                _ => old(self).texts(),
            },
    {
        match key {
            Key::Char(c) => {
                self.push_char(c);
                Screen::Redraw
            },
            Key::Enter => {
                self.push_char('\n');
                Screen::Redraw
            },
            Key::Backspace => {
                self.pop_char();
                Screen::Redraw
            },
            Key::Esc => Screen::Leave,
            Key::Up => if viewport_y > 0 {
                Screen::ScrollTo(viewport_y - 1)
            } else {
                Screen::ScrollTo(viewport_y)
            },
            Key::Down => Screen::ScrollTo(viewport_y + 1),
            Key::Other => Screen::Redraw,
        }
    }

    /// The lines of all buffers in which `text` stands, buffer after
    /// buffer in the order in which they were opened: the name of the
    /// buffer, the number of the line, and the line.
    pub fn search_buffer(&self, text: &str) -> (found: Vec<(String, usize, String)>)
        requires
            self.wf(),
        ensures
            hits_view(found@) == all_matches(self.names(), self.texts(), text@),
    {
        let mut found: Vec<(String, usize, String)> = Vec::new();
        let mut i: usize = 0;
        proof {
            assert(self.names().take(0) == Seq::<Seq<char>>::empty());
        }
        while i < self.buffers.len()
            invariant
                i <= self.buffers@.len(),
                self.wf(),
                self.names@.len() == self.buffers@.len(),
                hits_view(found@) == all_matches(
                    self.names().take(i as int),
                    self.texts().take(i as int),
                    text@,
                ),
            decreases self.buffers@.len() - i,
        {
            proof {
                assert(self.names().take(i + 1).drop_last() == self.names().take(i as int));
                assert(self.texts().take(i + 1).drop_last() == self.texts().take(i as int));
                assert(self.names().take(i + 1).last() == self.names@[i as int]@);
                assert(self.texts().take(i + 1).last() == self.buffers@[i as int]@);
            }
            let matches = self.buffers[i].search(text);
            let ghost before = hits_view(found@);
            let mut k: usize = 0;
            while k < matches.len()
                invariant
                    i < self.names@.len(),
                    k <= matches@.len(),
                    hits_view(found@) == before + named(
                        self.names@[i as int]@,
                        found_view(matches@).take(k as int),
                    ),
                decreases matches@.len() - k,
            {
                let name = self.names[i].clone();
                let line = matches[k].1.clone();
                proof {
                    assert(found_view(matches@).take(k + 1) == found_view(matches@).take(
                        k as int,
                    ).push((matches@[k as int].0 as nat, matches@[k as int].1@)));
                    assert(hits_view(found@.push((name, matches@[k as int].0, line))) == hits_view(
                        found@,
                    ).push((name@, matches@[k as int].0 as nat, line@)));
                }
                found.push((name, matches[k].0, line));
                k += 1;
            }
            proof {
                assert(found_view(matches@).take(matches@.len() as int) == found_view(matches@));
            }
            i += 1;
        }
        proof {
            assert(self.names().take(self.names().len() as int) == self.names());
            assert(self.texts().take(self.texts().len() as int) == self.texts());
        }
        found
    }
}

/// The lines under the name of their buffer.
pub open spec fn named(name: Seq<char>, lines: Seq<(nat, Seq<char>)>) -> Seq<
    (Seq<char>, nat, Seq<char>),
> {
    lines.map_values(|line: (nat, Seq<char>)| (name, line.0, line.1))
}

/// The lines of all buffers in which the pattern stands.
pub open spec fn all_matches(names: Seq<Seq<char>>, texts: Seq<Seq<char>>, pattern: Seq<char>) -> Seq<
    (Seq<char>, nat, Seq<char>),
>
    decreases names.len(),
{
    if names.len() == 0 || texts.len() != names.len() {
        Seq::empty()
    } else {
        all_matches(names.drop_last(), texts.drop_last(), pattern) + named(
            names.last(),
            matching_lines(lines_of(texts.last()), pattern),
        )
    }
}

/// What a search of all buffers has found, as plain values.
pub open spec fn hits_view(found: Seq<(String, usize, String)>) -> Seq<(Seq<char>, nat, Seq<char>)> {
    found.map_values(|hit: (String, usize, String)| (hit.0@, hit.1 as nat, hit.2@))
}

/// The first name among the first `k` names that is `name`, where there is
/// one, is the first among them all.
pub proof fn lemma_name_index_prefix(names: Seq<Seq<char>>, name: Seq<char>, k: int)
    requires
        1 <= k <= names.len(),
        names[k - 1] == name,
        name_index(names.take(k - 1), name) is None,
    ensures
        name_index(names, name) == Some(k - 1),
    decreases names.len() - k,
{
    if k < names.len() {
        let front = names.drop_last();
        assert(front.take(k - 1) == names.take(k - 1));
        lemma_name_index_prefix(front, name, k);
    } else {
        assert(names.drop_last() == names.take(k - 1));
    }
}

} // verus!
