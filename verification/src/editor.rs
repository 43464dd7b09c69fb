//! The job editor: a modal three-field form with cyclic focus, verified
//! text buffers, live schedule validation, clipboard paste, and
//! commit/cancel semantics.
//!
//! Each field is a `TextField`: lines of text with a character cursor.
//! The single-line mirror of a field is the first line of its buffer;
//! what a multi-line paste puts beyond the first line stays in the
//! buffer but never reaches the mirror.

use vstd::prelude::*;

use crate::config::Config;
use crate::engine::get_next_execution;
use crate::event::Key;
use crate::event::KeyPress;
use crate::job::entry_of;
use crate::job::CronJob;
use crate::schedule::valid_schedule;
use crate::schedule::validate;
use crate::text::string_push;
use crate::text::views_of;

verus! {

// ---------------------------------------------------------------------
// one editable text buffer
// ---------------------------------------------------------------------

/// A text buffer: at least one line, and a cursor at a character
/// position inside one of the lines.
pub struct TextField {
    lines: Vec<String>,
    row: usize,
    col: usize,
}

/// How one typed character changes a buffer `(lines, row, col)`: a line
/// feed splits the current line at the cursor; any other character is
/// inserted at the cursor, unless the line has reached the platform's
/// index limit and cannot take another.
pub open spec fn type_char(st: (Seq<Seq<char>>, int, int), c: char) -> (Seq<Seq<char>>, int, int) {
    let ls = st.0;
    let r = st.1;
    let co = st.2;
    if c == '\n' {
        (ls.update(r, ls[r].take(co)).insert(r + 1, ls[r].skip(co)), r + 1, 0)
    } else if ls[r].len() >= usize::MAX {
        st
    } else {
        (ls.update(r, ls[r].take(co) + seq![c] + ls[r].skip(co)), r, co + 1)
    }
}

/// Typing a whole text, character by character.
pub open spec fn type_text(st: (Seq<Seq<char>>, int, int), t: Seq<char>) -> (
    Seq<Seq<char>>,
    int,
    int,
)
    decreases t.len(),
{
    if t.len() == 0 {
        st
    } else {
        type_text(type_char(st, t[0]), t.drop_first())
    }
}

/// Typing one more character continues from the text typed so far.
pub proof fn lemma_type_text_snoc(st: (Seq<Seq<char>>, int, int), t: Seq<char>, c: char)
    ensures
        type_text(st, t.push(c)) == type_char(type_text(st, t), c),
    decreases t.len(),
{
    if t.len() == 0 {
        assert(t.push(c)[0] == c);
        assert(t.push(c).drop_first() =~= Seq::<char>::empty());
        assert(type_text(type_char(st, c), Seq::<char>::empty()) == type_char(st, c));
    } else {
        assert(t.push(c)[0] == t[0]);
        assert(t.push(c).drop_first() =~= t.drop_first().push(c));
        lemma_type_text_snoc(type_char(st, t[0]), t.drop_first(), c);
    }
}

/// Appends the characters `src[from..to]` to `dst`.
fn push_char_range(dst: &mut String, src: &str, from: usize, to: usize)
    requires
        from <= to <= src@.len(),
    ensures
        final(dst)@ == old(dst)@ + src@.subrange(from as int, to as int),
{
    let mut k: usize = from;
    proof {
        assert(old(dst)@ + src@.subrange(from as int, from as int) =~= old(dst)@);
    }
    while k < to
        invariant
            from <= k <= to <= src@.len(),
            dst@ == old(dst)@ + src@.subrange(from as int, k as int),
        decreases to - k,
    {
        let c = src.get_char(k);
        string_push(dst, c);
        proof {
            assert(old(dst)@ + src@.subrange(from as int, k as int + 1) =~= (old(dst)@
                + src@.subrange(from as int, k as int)).push(c));
        }
        k = k + 1;
    }
}

impl TextField {
    pub closed spec fn content(&self) -> Seq<Seq<char>> {
        views_of(self.lines@)
    }

    pub closed spec fn crow(&self) -> int {
        self.row as int
    }

    pub closed spec fn ccol(&self) -> int {
        self.col as int
    }

    pub open spec fn state(&self) -> (Seq<Seq<char>>, int, int) {
        (self.content(), self.crow(), self.ccol())
    }

    pub closed spec fn wf(&self) -> bool {
        &&& self.lines@.len() >= 1
        &&& self.row < self.lines@.len()
        &&& self.col <= self.lines@[self.row as int]@.len()
    }

    /// The empty buffer: one empty line, cursor at its start.
    pub fn new() -> (r: TextField)
        ensures
            r.wf(),
            r.content() == seq![Seq::<char>::empty()],
            r.crow() == 0,
            r.ccol() == 0,
    {
        let mut lines: Vec<String> = Vec::new();
        lines.push(String::new());
        let r = TextField { lines, row: 0, col: 0 };
        proof {
            assert(r.content() =~= seq![Seq::<char>::empty()]);
        }
        r
    }

    /// Discards everything: one empty line, cursor at its start.
    pub fn clear(&mut self)
        ensures
            final(self).wf(),
            final(self).content() == seq![Seq::<char>::empty()],
            final(self).crow() == 0,
            final(self).ccol() == 0,
    {
        *self = TextField::new();
    }

    /// The single-line mirror: the first line of the buffer.
    pub fn first_line(&self) -> (r: String)
        requires
            self.wf(),
        ensures
            r@ == self.content()[0],
    {
        proof {
            assert(self.content()[0] == self.lines@[0]@);
        }
        self.lines[0].clone()
    }

    /// The lines, for rendering.
    pub fn lines_view(&self) -> (r: &Vec<String>)
        ensures
            views_of(r@) == self.content(),
    {
        &self.lines
    }

    /// The cursor position, for rendering: (row, column).
    pub fn cursor(&self) -> (r: (usize, usize))
        ensures
            r.0 as int == self.crow(),
            r.1 as int == self.ccol(),
    {
        (self.row, self.col)
    }

    /// The character count of the current line.
    fn line_len(&self) -> (r: usize)
        requires
            self.row < self.lines@.len(),
        ensures
            r as int == self.content()[self.crow()].len(),
    {
        proof {
            assert(self.content()[self.crow()] == self.lines@[self.row as int]@);
        }
        self.lines[self.row].as_str().unicode_len()
    }

    /// Inserts one character (not a line feed) at the cursor.
    pub fn insert_char(&mut self, c: char)
        requires
            old(self).wf(),
            c != '\n',
        ensures
            final(self).wf(),
            final(self).state() == type_char(old(self).state(), c),
    {
        let n = self.line_len();
        if n == usize::MAX {
            return;
        }
        let mut nl = String::new();
        let ghost oldline = self.lines@[self.row as int]@;
        push_char_range(&mut nl, self.lines[self.row].as_str(), 0, self.col);
        string_push(&mut nl, c);
        push_char_range(&mut nl, self.lines[self.row].as_str(), self.col, n);
        proof {
            assert(nl@ =~= oldline.take(self.col as int) + seq![c] + oldline.skip(
                self.col as int,
            ));
        }
        let r = self.row;
        self.lines[r] = nl;
        self.col = self.col + 1;
        proof {
            assert(final(self).content() =~= old(self).content().update(
                old(self).crow(),
                oldline.take(old(self).ccol()) + seq![c] + oldline.skip(old(self).ccol()),
            ));
        }
    }

    /// Splits the current line at the cursor, as a typed line feed does.
    pub fn split_line(&mut self)
        requires
            old(self).wf(),
        ensures
            final(self).wf(),
            final(self).state() == type_char(old(self).state(), '\n'),
    {
        let n = self.line_len();
        let mut left = String::new();
        let mut right = String::new();
        let ghost oldline = self.lines@[self.row as int]@;
        push_char_range(&mut left, self.lines[self.row].as_str(), 0, self.col);
        push_char_range(&mut right, self.lines[self.row].as_str(), self.col, n);
        proof {
            assert(left@ =~= oldline.take(self.col as int));
            assert(right@ =~= oldline.skip(self.col as int));
        }
        let r = self.row;
        let cnt = self.lines.len();
        proof {
            assert(r < cnt);
        }
        self.lines[r] = left;
        self.lines.insert(r + 1, right);
        self.row = r + 1;
        self.col = 0;
        proof {
            assert(final(self).content() =~= old(self).content().update(
                old(self).crow(),
                oldline.take(old(self).ccol()),
            ).insert(old(self).crow() + 1, oldline.skip(old(self).ccol())));
        }
    }

    /// Types a whole text at the cursor, character by character; line
    /// feeds split lines.
    pub fn insert_text(&mut self, text: &str)
        requires
            old(self).wf(),
        ensures
            final(self).wf(),
            final(self).state() == type_text(old(self).state(), text@),
    {
        let n = text.unicode_len();
        let mut i: usize = 0;
        proof {
            assert(text@.take(0) =~= Seq::<char>::empty());
        }
        while i < n
            invariant
                i <= n,
                n == text@.len(),
                self.wf(),
                self.state() == type_text(old(self).state(), text@.take(i as int)),
            decreases n - i,
        {
            let c = text.get_char(i);
            proof {
                assert(text@.take(i as int + 1) =~= text@.take(i as int).push(c));
                lemma_type_text_snoc(old(self).state(), text@.take(i as int), c);
            }
            if c == '\n' {
                self.split_line();
            } else {
                self.insert_char(c);
            }
            i = i + 1;
        }
        proof {
            assert(text@.take(n as int) =~= text@);
        }
    }

    /// Moves the cursor to the end of the current line.
    pub fn move_end(&mut self)
        requires
            old(self).wf(),
        ensures
            final(self).wf(),
            final(self).content() == old(self).content(),
            final(self).crow() == old(self).crow(),
            final(self).ccol() == old(self).content()[old(self).crow()].len(),
    {
        self.col = self.line_len();
    }

    /// Moves the cursor to the start of the current line.
    pub fn move_home(&mut self)
        requires
            old(self).wf(),
        ensures
            final(self).wf(),
            final(self).content() == old(self).content(),
            final(self).crow() == old(self).crow(),
            final(self).ccol() == 0,
    {
        self.col = 0;
    }

    /// Moves the cursor one position left, wrapping to the end of the
    /// previous line.
    pub fn move_left(&mut self)
        requires
            old(self).wf(),
        ensures
            final(self).wf(),
            final(self).content() == old(self).content(),
            old(self).ccol() > 0 ==> final(self).crow() == old(self).crow() && final(self).ccol()
                == old(self).ccol() - 1,
            old(self).ccol() == 0 && old(self).crow() > 0 ==> final(self).crow() == old(self).crow() - 1 && final(self).ccol() == old(self).content()[old(self).crow() - 1].len(),
            old(self).ccol() == 0 && old(self).crow() == 0 ==> *final(self) == *old(self),
    {
        if self.col > 0 {
            self.col = self.col - 1;
        } else if self.row > 0 {
            self.row = self.row - 1;
            self.col = self.line_len();
        }
    }

    /// Moves the cursor one position right, wrapping to the start of the
    /// next line.
    pub fn move_right(&mut self)
        requires
            old(self).wf(),
        ensures
            final(self).wf(),
            final(self).content() == old(self).content(),
            old(self).ccol() < old(self).content()[old(self).crow()].len() ==> final(self).crow()
                == old(self).crow() && final(self).ccol() == old(self).ccol() + 1,
            old(self).ccol() == old(self).content()[old(self).crow()].len() && old(self).crow() + 1
                < old(self).content().len() ==> final(self).crow() == old(self).crow() + 1 && final(self).ccol() == 0,
            old(self).ccol() == old(self).content()[old(self).crow()].len() && old(self).crow() + 1
                == old(self).content().len() ==> *final(self) == *old(self),
    {
        let n = self.line_len();
        let cnt = self.lines.len();
        proof {
            assert(self.row < cnt);
        }
        if self.col < n {
            self.col = self.col + 1;
        } else if self.row < cnt - 1 {
            self.row = self.row + 1;
            self.col = 0;
        }
    }

    /// Moves the cursor one line up, clamping the column.
    pub fn move_up(&mut self)
        requires
            old(self).wf(),
        ensures
            final(self).wf(),
            final(self).content() == old(self).content(),
            old(self).crow() == 0 ==> *final(self) == *old(self),
            old(self).crow() > 0 ==> final(self).crow() == old(self).crow() - 1 && final(self).ccol() == (if old(self).ccol() <= old(self).content()[old(self).crow() - 1].len() {
                old(self).ccol()
            } else {
                old(self).content()[old(self).crow() - 1].len() as int
            }),
    {
        if self.row > 0 {
            self.row = self.row - 1;
            let n = self.line_len();
            if self.col > n {
                self.col = n;
            }
        }
    }

    /// Moves the cursor one line down, clamping the column.
    pub fn move_down(&mut self)
        requires
            old(self).wf(),
        ensures
            final(self).wf(),
            final(self).content() == old(self).content(),
            old(self).crow() + 1 == old(self).content().len() ==> *final(self) == *old(self),
            old(self).crow() + 1 < old(self).content().len() ==> final(self).crow() == old(self).crow() + 1 && final(self).ccol() == (if old(self).ccol() <= old(self).content()[old(self).crow() + 1].len() {
                old(self).ccol()
            } else {
                old(self).content()[old(self).crow() + 1].len() as int
            }),
    {
        let cnt = self.lines.len();
        proof {
            assert(self.row < cnt);
        }
        if self.row < cnt - 1 {
            self.row = self.row + 1;
            let n = self.line_len();
            if self.col > n {
                self.col = n;
            }
        }
    }

    /// Removes the character before the cursor, or joins this line onto
    /// the previous one when the cursor is at a line start.
    pub fn backspace(&mut self)
        requires
            old(self).wf(),
        ensures
            final(self).wf(),
            old(self).ccol() > 0 ==> final(self).content() == old(self).content().update(
                old(self).crow(),
                old(self).content()[old(self).crow()].take(old(self).ccol() - 1) + old(self).content()[old(self).crow()].skip(old(self).ccol()),
            ) && final(self).crow() == old(self).crow() && final(self).ccol() == old(self).ccol()
                - 1,
            old(self).ccol() == 0 && old(self).crow() > 0 ==> final(self).content() == old(self).content().update(
                old(self).crow() - 1,
                old(self).content()[old(self).crow() - 1] + old(self).content()[old(self).crow()],
            ).remove(old(self).crow()) && final(self).crow() == old(self).crow() - 1 && final(self).ccol() == old(self).content()[old(self).crow() - 1].len(),
            old(self).ccol() == 0 && old(self).crow() == 0 ==> *final(self) == *old(self),
    {
        if self.col > 0 {
            let n = self.line_len();
            let mut nl = String::new();
            let ghost oldline = self.lines@[self.row as int]@;
            push_char_range(&mut nl, self.lines[self.row].as_str(), 0, self.col - 1);
            push_char_range(&mut nl, self.lines[self.row].as_str(), self.col, n);
            proof {
                assert(nl@ =~= oldline.take(self.col as int - 1) + oldline.skip(self.col as int));
            }
            let r = self.row;
            self.lines[r] = nl;
            self.col = self.col - 1;
            proof {
                assert(final(self).content() =~= old(self).content().update(
                    old(self).crow(),
                    oldline.take(old(self).ccol() - 1) + oldline.skip(old(self).ccol()),
                ));
            }
        } else if self.row > 0 {
            let ghost prevline = self.lines@[self.row as int - 1]@;
            let ghost curline = self.lines@[self.row as int]@;
            let r = self.row;
            let prev_n = self.lines[r - 1].as_str().unicode_len();
            let cur_n = self.lines[r].as_str().unicode_len();
            let mut nl = String::new();
            push_char_range(&mut nl, self.lines[r - 1].as_str(), 0, prev_n);
            push_char_range(&mut nl, self.lines[r].as_str(), 0, cur_n);
            proof {
                assert(nl@ =~= prevline + curline);
            }
            self.lines[r - 1] = nl;
            self.lines.remove(r);
            self.row = r - 1;
            self.col = prev_n;
            proof {
                assert(final(self).content() =~= old(self).content().update(
                    old(self).crow() - 1,
                    prevline + curline,
                ).remove(old(self).crow()));
            }
        }
    }

    /// Removes the character under the cursor, or joins the next line
    /// onto this one when the cursor is at a line end.
    pub fn delete_char(&mut self)
        requires
            old(self).wf(),
        ensures
            final(self).wf(),
            final(self).crow() == old(self).crow() && final(self).ccol() == old(self).ccol(),
            old(self).ccol() < old(self).content()[old(self).crow()].len() ==> final(self).content() == old(self).content().update(
                old(self).crow(),
                old(self).content()[old(self).crow()].take(old(self).ccol()) + old(self).content()[old(self).crow()].skip(old(self).ccol() + 1),
            ),
            old(self).ccol() == old(self).content()[old(self).crow()].len() && old(self).crow() + 1
                < old(self).content().len() ==> final(self).content() == old(self).content().update(
                old(self).crow(),
                old(self).content()[old(self).crow()] + old(self).content()[old(self).crow() + 1],
            ).remove(old(self).crow() + 1),
            old(self).ccol() == old(self).content()[old(self).crow()].len() && old(self).crow() + 1
                == old(self).content().len() ==> final(self).content() == old(self).content(),
    {
        let n = self.line_len();
        if self.col < n {
            let mut nl = String::new();
            let ghost oldline = self.lines@[self.row as int]@;
            push_char_range(&mut nl, self.lines[self.row].as_str(), 0, self.col);
            push_char_range(&mut nl, self.lines[self.row].as_str(), self.col + 1, n);
            proof {
                assert(nl@ =~= oldline.take(self.col as int) + oldline.skip(self.col as int + 1));
            }
            let r = self.row;
            self.lines[r] = nl;
            proof {
                assert(final(self).content() =~= old(self).content().update(
                    old(self).crow(),
                    oldline.take(old(self).ccol()) + oldline.skip(old(self).ccol() + 1),
                ));
            }
        } else {
            let cnt = self.lines.len();
            proof {
                assert(self.row < cnt);
            }
            if self.row < cnt - 1 {
            let ghost curline = self.lines@[self.row as int]@;
            let ghost nextline = self.lines@[self.row as int + 1]@;
            let r = self.row;
            let next_n = self.lines[r + 1].as_str().unicode_len();
            let mut nl = String::new();
            push_char_range(&mut nl, self.lines[r].as_str(), 0, self.col);
            push_char_range(&mut nl, self.lines[r + 1].as_str(), 0, next_n);
            proof {
                assert(self.col as int == curline.len());
                assert(curline.take(self.col as int) =~= curline);
                assert(nl@ =~= curline + nextline);
            }
            self.lines[r] = nl;
            self.lines.remove(r + 1);
            proof {
                assert(final(self).content() =~= old(self).content().update(
                    old(self).crow(),
                    curline + nextline,
                ).remove(old(self).crow() + 1));
            }
            }
        }
    }
}


// ---------------------------------------------------------------------
// keystroke semantics of a field
// ---------------------------------------------------------------------

/// How one editing key changes a buffer state. Keys the modal form
/// intercepts before they reach a field (Tab, Esc, Enter) and the null
/// key leave the buffer as it is; control combinations other than paste
/// act as their plain keys.
pub open spec fn apply_edit_key(st: (Seq<Seq<char>>, int, int), k: Key) -> (
    Seq<Seq<char>>,
    int,
    int,
) {
    let ls = st.0;
    let r = st.1;
    let co = st.2;
    match k {
        Key::Char(c) => type_char(st, c),
        Key::Backspace => if co > 0 {
            (ls.update(r, ls[r].take(co - 1) + ls[r].skip(co)), r, co - 1)
        } else if r > 0 {
            (ls.update(r - 1, ls[r - 1] + ls[r]).remove(r), r - 1, ls[r - 1].len() as int)
        } else {
            st
        },
        Key::Delete => if co < ls[r].len() {
            (ls.update(r, ls[r].take(co) + ls[r].skip(co + 1)), r, co)
        } else if r + 1 < ls.len() {
            (ls.update(r, ls[r] + ls[r + 1]).remove(r + 1), r, co)
        } else {
            st
        },
        Key::Left => if co > 0 {
            (ls, r, co - 1)
        } else if r > 0 {
            (ls, r - 1, ls[r - 1].len() as int)
        } else {
            st
        },
        Key::Right => if co < ls[r].len() {
            (ls, r, co + 1)
        } else if r + 1 < ls.len() {
            (ls, r + 1, 0)
        } else {
            st
        },
        Key::Up => if r > 0 {
            (ls, r - 1, if co <= ls[r - 1].len() { co } else { ls[r - 1].len() as int })
        } else {
            st
        },
        Key::Down => if r + 1 < ls.len() {
            (ls, r + 1, if co <= ls[r + 1].len() { co } else { ls[r + 1].len() as int })
        } else {
            st
        },
        Key::Home => (ls, r, 0),
        Key::End => (ls, r, ls[r].len() as int),
        Key::Enter => st,
        Key::Esc => st,
        Key::Tab => st,
        Key::Null => st,
    }
}

impl TextField {
    /// Applies one editing key to the buffer.
    pub fn input_key(&mut self, k: Key)
        requires
            old(self).wf(),
        ensures
            final(self).wf(),
            final(self).state() == apply_edit_key(old(self).state(), k),
    {
        match k {
            Key::Char(c) => {
                if c == '\n' {
                    self.split_line();
                } else {
                    self.insert_char(c);
                }
            },
            Key::Backspace => {
                self.backspace();
            },
            Key::Delete => {
                self.delete_char();
            },
            Key::Left => {
                self.move_left();
            },
            Key::Right => {
                self.move_right();
            },
            Key::Up => {
                self.move_up();
            },
            Key::Down => {
                self.move_down();
            },
            Key::Home => {
                self.move_home();
            },
            Key::End => {
                self.move_end();
            },
            Key::Enter => {},
            Key::Esc => {},
            Key::Tab => {},
            Key::Null => {},
        }
    }
}

// ---------------------------------------------------------------------
// the three-field form
// ---------------------------------------------------------------------

/// The focused field of the form, cycling Schedule, Command,
/// Description.
#[derive(Clone, Copy)]
pub enum ActiveInput {
    CronNotation,
    Job,
    JobDescription,
}

pub open spec fn next_of(a: ActiveInput) -> ActiveInput {
    match a {
        ActiveInput::CronNotation => ActiveInput::Job,
        ActiveInput::Job => ActiveInput::JobDescription,
        ActiveInput::JobDescription => ActiveInput::CronNotation,
    }
}

impl ActiveInput {
    /// The next field in the fixed cyclic focus order.
    pub fn next(&self) -> (r: Self)
        ensures
            r == next_of(*self),
    {
        match self {
            ActiveInput::CronNotation => ActiveInput::Job,
            ActiveInput::Job => ActiveInput::JobDescription,
            ActiveInput::JobDescription => ActiveInput::CronNotation,
        }
    }
}

/// The one modal state shared by the table and the editor: no modal,
/// creating a new job, or editing the selected one.
#[derive(Clone, Copy, PartialEq, Eq, Structural)]
pub enum EditMode {
    Idle,
    Creating,
    Editing,
}

/// Relies on arboard's `Clipboard`: reads the system clipboard as text.
/// What the clipboard holds belongs to the environment, so nothing is
/// promised of the value.
#[verifier::external_body]
fn clipboard_text() -> (r: Option<String>) {
    match arboard::Clipboard::new() {
        Ok(mut c) => c.get_text().ok(),
        Err(_) => None,
    }
}

/// The modal form: one buffer and one single-line mirror per field, and
/// the focused-field indicator.
pub struct Inputs {
    pub cron_notation: TextField,
    pub job: TextField,
    pub job_description: TextField,
    pub current_input: ActiveInput,
    pub cron_notation_value: String,
    pub job_value: String,
    pub job_description_value: String,
}

/// The named field and its mirror agree between two form states.
pub open spec fn same_field(a: &Inputs, b: &Inputs, which: ActiveInput) -> bool {
    match which {
        ActiveInput::CronNotation => a.cron_notation == b.cron_notation && a.cron_notation_value
            == b.cron_notation_value,
        ActiveInput::Job => a.job == b.job && a.job_value == b.job_value,
        ActiveInput::JobDescription => a.job_description == b.job_description
            && a.job_description_value == b.job_description_value,
    }
}

/// The buffer state of the focused field.
pub open spec fn focused_state(a: &Inputs) -> (Seq<Seq<char>>, int, int) {
    match a.current_input {
        ActiveInput::CronNotation => a.cron_notation.state(),
        ActiveInput::Job => a.job.state(),
        ActiveInput::JobDescription => a.job_description.state(),
    }
}

/// The two fields that are not focused in `a` agree between `a` and `b`.
pub open spec fn others_same(a: &Inputs, b: &Inputs) -> bool {
    match a.current_input {
        ActiveInput::CronNotation => same_field(a, b, ActiveInput::Job) && same_field(
            a,
            b,
            ActiveInput::JobDescription,
        ),
        ActiveInput::Job => same_field(a, b, ActiveInput::CronNotation) && same_field(
            a,
            b,
            ActiveInput::JobDescription,
        ),
        ActiveInput::JobDescription => same_field(a, b, ActiveInput::CronNotation) && same_field(
            a,
            b,
            ActiveInput::Job,
        ),
    }
}

/// Keys the form hands to the focused field rather than acting on
/// itself: everything but Tab, Esc, Enter and the paste combination.
pub open spec fn editor_routes(key: KeyPress) -> bool {
    !(key.code is Tab || key.code is Esc || key.code is Enter || (key.ctrl && key.code is Char
        && key.code->0 == 'v'))
}

/// The buffer `after` is `before` with its cursor moved to the end of
/// the current line and some text typed there: the shape every paste
/// leaves behind, whatever the clipboard held.
pub open spec fn pasted_at_line_end(
    before: (Seq<Seq<char>>, int, int),
    after: (Seq<Seq<char>>, int, int),
) -> bool {
    exists|t: Seq<char>|
        after == type_text((before.0, before.1, before.0[before.1].len() as int), t)
}

impl Inputs {
    /// Buffers are well-formed and every mirror is the first line of its
    /// buffer.
    pub open spec fn wf(&self) -> bool {
        &&& self.cron_notation.wf()
        &&& self.job.wf()
        &&& self.job_description.wf()
        &&& self.cron_notation_value@ == self.cron_notation.content()[0]
        &&& self.job_value@ == self.job.content()[0]
        &&& self.job_description_value@ == self.job_description.content()[0]
    }

    /// All three buffers and mirrors are empty.
    pub open spec fn cleared(&self) -> bool {
        &&& self.cron_notation.content() == seq![Seq::<char>::empty()]
        &&& self.job.content() == seq![Seq::<char>::empty()]
        &&& self.job_description.content() == seq![Seq::<char>::empty()]
        &&& self.cron_notation_value@ == Seq::<char>::empty()
        &&& self.job_value@ == Seq::<char>::empty()
        &&& self.job_description_value@ == Seq::<char>::empty()
    }

    /// The empty form, focused on the schedule field.
    pub fn new() -> (r: Inputs)
        ensures
            r.wf(),
            r.cleared(),
            r.current_input is CronNotation,
    {
        Inputs {
            cron_notation: TextField::new(),
            job: TextField::new(),
            job_description: TextField::new(),
            current_input: ActiveInput::CronNotation,
            cron_notation_value: String::new(),
            job_value: String::new(),
            job_description_value: String::new(),
        }
    }

    /// Empties every buffer and mirror and focuses the schedule field,
    /// for creating a new job.
    pub fn init_empty(&mut self)
        ensures
            final(self).wf(),
            final(self).cleared(),
            final(self).current_input is CronNotation,
    {
        *self = Inputs::new();
    }

    /// Pre-fills the form from the selected job, for editing it.
    pub fn init(&mut self, cron_jobs: &Vec<CronJob>, selected: &Option<usize>)
        requires
            (*selected) is Some,
            (*selected)->0 < cron_jobs@.len(),
        ensures
            final(self).wf(),
            final(self).current_input is CronNotation,
            final(self).cron_notation.state() == type_text(
                (seq![Seq::<char>::empty()], 0int, 0int),
                cron_jobs@[(*selected)->0 as int].cron_notation@,
            ),
            final(self).job.state() == type_text(
                (seq![Seq::<char>::empty()], 0int, 0int),
                cron_jobs@[(*selected)->0 as int].job@,
            ),
            final(self).job_description.state() == type_text(
                (seq![Seq::<char>::empty()], 0int, 0int),
                cron_jobs@[(*selected)->0 as int].job_description@,
            ),
    {
        *self = Inputs::new();
        let i = match *selected {
            Some(i) => i,
            None => {
                proof {
                    assert(false);
                }
                0
            },
        };
        self.cron_notation.insert_text(cron_jobs[i].cron_notation.as_str());
        self.cron_notation_value = self.cron_notation.first_line();
        self.job.insert_text(cron_jobs[i].job.as_str());
        self.job_value = self.job.first_line();
        self.job_description.insert_text(cron_jobs[i].job_description.as_str());
        self.job_description_value = self.job_description.first_line();
    }

    /// Routes one key press while the modal is open.
    ///
    /// Tab cycles focus; Esc discards everything and closes without
    /// persisting; Enter commits if and only if the schedule mirror is a
    /// well-formed schedule (an invalid schedule blocks the commit and
    /// leaves the modal open); the paste combination appends the
    /// clipboard text at the end of the focused field's current line;
    /// every other key edits the focused field. A commit recomputes the
    /// advisory next-run display string, in the creating and the editing
    /// path alike. The returned flag asks the caller to persist the
    /// table.
    pub fn handle_inputs(
        &mut self,
        key: KeyPress,
        mode: &mut EditMode,
        cron_jobs: &mut Vec<CronJob>,
        selected: &mut Option<usize>,
        config: &Config,
    ) -> (persist: bool)
        requires
            old(self).wf(),
            *old(mode) is Creating || *old(mode) is Editing,
            *old(mode) is Editing ==> (*old(selected)) is Some && (*old(selected))->0 < old(cron_jobs)@.len(),
        ensures
            final(self).wf(),
            key.code is Tab ==> final(self).current_input == next_of(old(self).current_input)
                && same_field(old(self), final(self), ActiveInput::CronNotation) && same_field(
                old(self),
                final(self),
                ActiveInput::Job,
            ) && same_field(old(self), final(self), ActiveInput::JobDescription) && *final(mode)
                == *old(mode) && final(cron_jobs)@ == old(cron_jobs)@ && *final(selected) == *old(selected) && !persist,
            key.code is Esc ==> final(self).cleared() && final(self).current_input is CronNotation
                && *final(mode) is Idle && final(cron_jobs)@ == old(cron_jobs)@ && *final(selected)
                == *old(selected) && !persist,
            key.code is Enter && !valid_schedule(old(self).cron_notation_value@) ==> *final(self)
                == *old(self) && *final(mode) == *old(mode) && final(cron_jobs)@ == old(cron_jobs)@ && *final(selected) == *old(selected) && !persist,
            key.code is Enter && valid_schedule(old(self).cron_notation_value@) && *old(mode)
                is Creating ==> final(cron_jobs)@.len() == old(cron_jobs)@.len() + 1 && final(cron_jobs)@.take(old(cron_jobs)@.len() as int) == old(cron_jobs)@ && entry_of(
                final(cron_jobs)@.last(),
            ) == (
                old(self).cron_notation_value@,
                old(self).job_value@,
                old(self).job_description_value@,
            ) && *final(selected) == Some((old(cron_jobs)@.len()) as usize) && *final(mode) is Idle
                && persist,
            key.code is Enter && valid_schedule(old(self).cron_notation_value@) && *old(mode)
                is Editing ==> final(cron_jobs)@.len() == old(cron_jobs)@.len() && (forall|k: int|
                0 <= k < old(cron_jobs)@.len() && k != (*old(selected))->0 ==> final(cron_jobs)@[k]
                    == old(cron_jobs)@[k]) && entry_of(
                final(cron_jobs)@[(*old(selected))->0 as int],
            ) == (
                old(self).cron_notation_value@,
                old(self).job_value@,
                old(self).job_description_value@,
            ) && *final(selected) == *old(selected) && *final(mode) is Idle && persist,
            key.ctrl && key.code is Char && key.code->0 == 'v' ==> final(self).current_input
                == old(self).current_input && others_same(old(self), final(self)) && (focused_state(
                final(self),
            ) == focused_state(old(self)) || pasted_at_line_end(
                focused_state(old(self)),
                focused_state(final(self)),
            )) && *final(mode) == *old(mode) && final(cron_jobs)@ == old(cron_jobs)@ && *final(selected) == *old(selected) && !persist,
            editor_routes(key) ==> final(self).current_input == old(self).current_input
                && others_same(old(self), final(self)) && focused_state(final(self))
                == apply_edit_key(focused_state(old(self)), key.code) && *final(mode) == *old(mode)
                && final(cron_jobs)@ == old(cron_jobs)@ && *final(selected) == *old(selected)
                && !persist,
    {
        match key.code {
            Key::Tab => {
                self.current_input = self.current_input.next();
                false
            },
            Key::Esc => {
                self.cron_notation.clear();
                self.job.clear();
                self.job_description.clear();
                self.cron_notation_value = String::new();
                self.job_value = String::new();
                self.job_description_value = String::new();
                self.current_input = ActiveInput::CronNotation;
                *mode = EditMode::Idle;
                false
            },
            Key::Enter => {
                if validate(self.cron_notation_value.as_str()) {
                    match *mode {
                        EditMode::Creating => {
                            let next = get_next_execution(self.cron_notation_value.as_str(), config);
                            let j = CronJob {
                                cron_notation: self.cron_notation_value.clone(),
                                job: self.job_value.clone(),
                                job_description: self.job_description_value.clone(),
                                next_execution: next,
                            };
                            let ghost prev = cron_jobs@;
                            cron_jobs.push(j);
                            proof {
                                assert(cron_jobs@.take(prev.len() as int) =~= prev);
                            }
                            *selected = Some(cron_jobs.len() - 1);
                            *mode = EditMode::Idle;
                            true
                        },
                        EditMode::Editing => {
                            let i = match *selected {
                                Some(i) => i,
                                None => {
                                    proof {
                                        assert(false);
                                    }
                                    0
                                },
                            };
                            let next = get_next_execution(self.cron_notation_value.as_str(), config);
                            let j = CronJob {
                                cron_notation: self.cron_notation_value.clone(),
                                job: self.job_value.clone(),
                                job_description: self.job_description_value.clone(),
                                next_execution: next,
                            };
                            cron_jobs[i] = j;
                            *mode = EditMode::Idle;
                            true
                        },
                        EditMode::Idle => {
                            proof {
                                assert(false);
                            }
                            false
                        },
                    }
                } else {
                    false
                }
            },
            Key::Char(c) => {
                if key.ctrl && c == 'v' {
                    match clipboard_text() {
                        Some(t) => {
                            match self.current_input {
                                ActiveInput::CronNotation => {
                                    let ghost before = self.cron_notation.state();
                                    self.cron_notation.move_end();
                                    self.cron_notation.insert_text(t.as_str());
                                    self.cron_notation_value = self.cron_notation.first_line();
                                    proof {
                                        assert(self.cron_notation.state() == type_text(
                                            (before.0, before.1, before.0[before.1].len() as int),
                                            t@,
                                        ));
                                        assert(pasted_at_line_end(before, self.cron_notation.state()));
                                    }
                                },
                                ActiveInput::Job => {
                                    let ghost before = self.job.state();
                                    self.job.move_end();
                                    self.job.insert_text(t.as_str());
                                    self.job_value = self.job.first_line();
                                    proof {
                                        assert(self.job.state() == type_text(
                                            (before.0, before.1, before.0[before.1].len() as int),
                                            t@,
                                        ));
                                        assert(pasted_at_line_end(before, self.job.state()));
                                    }
                                },
                                ActiveInput::JobDescription => {
                                    let ghost before = self.job_description.state();
                                    self.job_description.move_end();
                                    self.job_description.insert_text(t.as_str());
                                    self.job_description_value = self.job_description.first_line();
                                    proof {
                                        assert(self.job_description.state() == type_text(
                                            (before.0, before.1, before.0[before.1].len() as int),
                                            t@,
                                        ));
                                        assert(pasted_at_line_end(before, self.job_description.state()));
                                    }
                                },
                            }
                        },
                        None => {},
                    }
                    false
                } else {
                    self.route_key(key);
                    false
                }
            },
            _ => {
                self.route_key(key);
                false
            },
        }
    }

    /// Hands one editing key to the focused field and refreshes its
    /// mirror from the buffer's first line.
    fn route_key(&mut self, key: KeyPress)
        requires
            old(self).wf(),
        ensures
            final(self).wf(),
            final(self).current_input == old(self).current_input,
            others_same(old(self), final(self)),
            focused_state(final(self)) == apply_edit_key(focused_state(old(self)), key.code),
    {
        match self.current_input {
            ActiveInput::CronNotation => {
                self.cron_notation.input_key(key.code);
                self.cron_notation_value = self.cron_notation.first_line();
            },
            ActiveInput::Job => {
                self.job.input_key(key.code);
                self.job_value = self.job.first_line();
            },
            ActiveInput::JobDescription => {
                self.job_description.input_key(key.code);
                self.job_description_value = self.job_description.first_line();
            },
        }
    }

    /// Whether the schedule mirror is currently a well-formed schedule,
    /// for the live validity indicator beside the schedule field.
    pub fn schedule_valid(&self) -> (r: bool)
        ensures
            r == valid_schedule(self.cron_notation_value@),
    {
        validate(self.cron_notation_value.as_str())
    }
}

impl Default for Inputs {
    /// The empty form.
    fn default() -> (r: Self)
        ensures
            r.wf(),
            r.cleared(),
            r.current_input is CronNotation,
    {
        Inputs::new()
    }
}

} // verus!
