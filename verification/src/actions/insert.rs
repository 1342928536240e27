//! Actions that insert characters, line breaks and rows.
use crate::actions::{Execute, SwitchMode};
use crate::helper::{
    char_inserted, clamp_column, created_notices, in_limits, insert_char, insert_char_notices,
    kept_in_limits, line_break, line_break_notices, line_broken, with_row,
};
use crate::highlight::Notice;
use crate::index::Index2;
use crate::lines::{lines_insert_row, lines_len, lines_push_row, rows};
use crate::state::mode::EditorMode;
use crate::state::undo::captured;
use crate::state::{EditorState, StateView};
use crate::strings::chars_of;
use vstd::prelude::*;

verus! {

/// The state with its text and cursor replaced.
pub open spec fn edited(s: StateView, change: (Seq<Seq<char>>, Index2)) -> StateView {
    StateView { lines: change.0, cursor: change.1, ..s }
}

/// The text and the position after `n` line breaks, each at the position the
/// one before has left.
pub open spec fn lines_broken(text: Seq<Seq<char>>, pos: Index2, n: nat) -> (
    Seq<Seq<char>>,
    Index2,
)
    decreases n,
{
    if n == 0 {
        (text, pos)
    } else {
        let (t, p) = lines_broken(text, pos, (n - 1) as nat);
        line_broken(t, p)
    }
}

/// What the highlighter is told of `n` line breaks, each at the position the
/// one before has left.
pub open spec fn lines_broken_notices(text: Seq<Seq<char>>, pos: Index2, n: nat) -> Seq<Notice>
    decreases n,
{
    if n == 0 {
        Seq::empty()
    } else {
        let (t, p) = lines_broken(text, pos, (n - 1) as nat);
        lines_broken_notices(text, pos, (n - 1) as nat) + line_break_notices(t, p)
    }
}

/// The text with `n` empty rows inserted at row `at`.
pub open spec fn blank_rows_inserted(text: Seq<Seq<char>>, at: int, n: nat) -> Seq<Seq<char>> {
    text.take(at) + Seq::new(n, |i: int| Seq::<char>::empty()) + text.skip(at)
}

/// What the highlighter is told of `n` empty rows inserted at row `at`: of
/// each, that an empty row was inserted there.
pub open spec fn blank_rows_notices(at: int, n: nat) -> Seq<Notice> {
    Seq::new(n, |i: int| Notice::InsertLine(at, Seq::empty()))
}

/// Inserts `n` empty rows at row `at` and tells the highlighter of each.
fn insert_blank_rows(state: &mut EditorState, at: usize, n: usize)
    requires
        old(state).wf(),
        at <= old(state)@.lines.len(),
    ensures
        final(state).wf(),
        final(state)@ == (StateView {
            lines: blank_rows_inserted(old(state)@.lines, at as int, n as nat),
            ..old(state)@
        }),
        final(state).highlighter.log() == old(state).highlighter.log() + blank_rows_notices(
            at as int,
            n as nat,
        ),
{
    let ghost text = state@.lines;
    let mut i: usize = 0;
    assert(blank_rows_inserted(text, at as int, 0) =~= text);
    assert(state.highlighter.log() =~= old(state).highlighter.log() + blank_rows_notices(
        at as int,
        0,
    ));
    while i < n
        invariant
            i <= n,
            at <= text.len(),
            state.wf(),
            state.highlighter.log() == old(state).highlighter.log() + blank_rows_notices(
                at as int,
                i as nat,
            ),
            state@ == (StateView {
                lines: blank_rows_inserted(text, at as int, i as nat),
                ..old(state)@
            }),
        decreases n - i,
    {
        let empty: Vec<char> = Vec::new();
        assert(empty@ =~= Seq::<char>::empty());
        state.highlighter.insert_line(at, &empty);
        lines_insert_row(&mut state.lines, at, empty);
        i += 1;
        assert(state@.lines =~= blank_rows_inserted(text, at as int, i as nat));
        assert(state.highlighter.log() =~= old(state).highlighter.log() + blank_rows_notices(
            at as int,
            i as nat,
        ));
    }
}

/// Inserts a single character at the current cursor position
#[derive(Clone, Copy, Debug, PartialEq, Eq)]
pub struct InsertChar(pub char);

impl Execute for InsertChar {
    /// After a capture, the character is inserted at the cursor as
    /// [`char_inserted`] says, and the cursor moves behind it. A cursor that
    /// was within the limits of the mode stays within them, as
    /// [`kept_in_limits`] says: in the modes in which the cursor rests on a
    /// character, it rests on a character that was inserted at the end of a
    /// row.
    open spec fn applied(&self, s: StateView) -> StateView {
        let c = captured(s);
        kept_in_limits(s, edited(c, char_inserted(c.lines, c.cursor, self.0, false)))
    }

    open spec fn notices(&self, s: StateView) -> Seq<Notice> {
        insert_char_notices(s.lines, s.cursor, self.0)
    }

    fn execute(&self, state: &mut EditorState) {
        let within = in_limits(state);
        state.capture();
        insert_char(&mut state.lines, &mut state.cursor, self.0, false, &mut state.highlighter);
        if within {
            clamp_column(state);
        }
    }
}

/// Inserts a newline at the current cursor position
#[derive(Clone, Copy, Debug, PartialEq, Eq)]
pub struct LineBreak(pub usize);

impl Execute for LineBreak {
    /// After a capture, the line is broken at the cursor as many times as the
    /// count says: the row is split at the cursor, the other breaks leave
    /// empty rows above, and the cursor ends at the start of the row that
    /// holds what followed it.
    open spec fn applied(&self, s: StateView) -> StateView {
        let c = captured(s);
        edited(c, lines_broken(c.lines, c.cursor, self.0 as nat))
    }

    open spec fn notices(&self, s: StateView) -> Seq<Notice> {
        lines_broken_notices(s.lines, s.cursor, self.0 as nat)
    }

    fn execute(&self, state: &mut EditorState) {
        state.capture();
        let ghost c = state@;
        let mut i: usize = 0;
        assert(state.highlighter.log() =~= old(state).highlighter.log() + lines_broken_notices(
            c.lines,
            c.cursor,
            0,
        ));
        while i < self.0
            invariant
                i <= self.0,
                state.wf(),
                state@ == edited(c, lines_broken(c.lines, c.cursor, i as nat)),
                state.highlighter.log() == old(state).highlighter.log() + lines_broken_notices(
                    c.lines,
                    c.cursor,
                    i as nat,
                ),
            decreases self.0 - i,
        {
            let ghost t = state@.lines;
            let ghost p = state@.cursor;
            line_break(&mut state.lines, &mut state.cursor, &mut state.highlighter);
            i += 1;
            assert(state.highlighter.log() =~= old(state).highlighter.log() + (
            lines_broken_notices(c.lines, c.cursor, (i - 1) as nat) + line_break_notices(t, p)));
        }
    }
}

/// Appends a newline below the current cursor position
/// and switches into insert mode.
#[derive(Clone, Copy, Debug, PartialEq, Eq)]
pub struct AppendNewline(pub usize);

impl AppendNewline {
    /// The state after the rows were inserted, before the mode is switched.
    pub open spec fn rows_added(&self, s: StateView) -> StateView {
        let c = captured(s);
        let row = if c.cursor.row <= c.lines.len() {
            c.cursor.row
        } else {
            c.lines.len() as usize
        };
        StateView {
            lines: blank_rows_inserted(with_row(c.lines, row as int), row + 1, self.0 as nat),
            cursor: Index2 {
                row: if self.0 > 0 {
                    (row + 1) as usize
                } else {
                    row
                },
                col: 0,
            },
            ..c
        }
    }
}

impl Execute for AppendNewline {
    /// After a capture, as many empty rows as the count says are inserted
    /// below the row of the cursor, the cursor goes to the start of the first
    /// of them, and the editor enters insert mode. A cursor below the text
    /// counts as in the row after the last, which is created first.
    open spec fn applied(&self, s: StateView) -> StateView {
        SwitchMode(EditorMode::Insert).applied(self.rows_added(s))
    }

    /// The row that was created for the cursor, if one was, and each of the
    /// rows inserted below it.
    open spec fn notices(&self, s: StateView) -> Seq<Notice> {
        let row = if s.cursor.row <= s.lines.len() {
            s.cursor.row as int
        } else {
            s.lines.len() as int
        };
        created_notices(s.lines, row) + blank_rows_notices(row + 1, self.0 as nat)
    }

    fn execute(&self, state: &mut EditorState) {
        state.capture();
        let n = lines_len(&state.lines);
        let row = if state.cursor.row <= n {
            state.cursor.row
        } else {
            n
        };
        if row == n {
            let empty: Vec<char> = Vec::new();
            assert(empty@ =~= Seq::<char>::empty());
            state.highlighter.insert_line(n, &empty);
            lines_push_row(&mut state.lines, empty);
            assert(state.highlighter.told() =~= rows(state.lines));
        }
        let ghost created = state.highlighter.log();
        let m = lines_len(&state.lines);
        insert_blank_rows(state, row + 1, self.0);
        assert(state.highlighter.log() =~= old(state).highlighter.log() + self.notices(
            old(state)@,
        )) by {
            if row == n {
                assert(created =~= old(state).highlighter.log() + seq![
                    Notice::InsertLine(n as int, Seq::empty()),
                ]);
            } else {
                assert(created =~= old(state).highlighter.log() + Seq::<Notice>::empty());
            }
        }
        state.cursor = Index2 {
            row: if self.0 > 0 {
                row + 1
            } else {
                row
            },
            col: 0,
        };
        SwitchMode(EditorMode::Insert).execute(state);
    }
}

/// Appends a newline at the current cursor position
/// and switches into insert mode.
#[derive(Clone, Copy, Debug, PartialEq, Eq)]
pub struct InsertNewline(pub usize);

impl InsertNewline {
    /// The state after the rows were inserted, before the mode is switched.
    pub open spec fn rows_added(&self, s: StateView) -> StateView {
        let c = captured(s);
        let row = if c.cursor.row <= c.lines.len() {
            c.cursor.row
        } else {
            c.lines.len() as usize
        };
        StateView {
            lines: blank_rows_inserted(c.lines, row as int, self.0 as nat),
            cursor: Index2 { row, col: 0 },
            ..c
        }
    }
}

impl Execute for InsertNewline {
    /// After a capture, as many empty rows as the count says are inserted
    /// above the row of the cursor, the cursor goes to the start of the first
    /// of them, and the editor enters insert mode. A cursor below the text
    /// counts as in the row after the last.
    open spec fn applied(&self, s: StateView) -> StateView {
        SwitchMode(EditorMode::Insert).applied(self.rows_added(s))
    }

    open spec fn notices(&self, s: StateView) -> Seq<Notice> {
        blank_rows_notices(
            if s.cursor.row <= s.lines.len() {
                s.cursor.row as int
            } else {
                s.lines.len() as int
            },
            self.0 as nat,
        )
    }

    fn execute(&self, state: &mut EditorState) {
        state.capture();
        let n = lines_len(&state.lines);
        let row = if state.cursor.row <= n {
            state.cursor.row
        } else {
            n
        };
        insert_blank_rows(state, row, self.0);
        state.cursor = Index2 { row, col: 0 };
        SwitchMode(EditorMode::Insert).execute(state);
    }
}

/// Pushes a line to the back of the buffer.
/// Does not affect the cursor position.
#[derive(Clone, Copy, Debug, PartialEq, Eq)]
pub struct PushLine<'a>(pub &'a str);

impl Execute for PushLine<'_> {
    /// After a capture, the characters become the last row of the text.
    open spec fn applied(&self, s: StateView) -> StateView {
        let c = captured(s);
        StateView { lines: c.lines.push(self.0@), ..c }
    }

    open spec fn notices(&self, s: StateView) -> Seq<Notice> {
        seq![Notice::Append(self.0@)]
    }

    fn execute(&self, state: &mut EditorState) {
        state.capture();
        let chars = chars_of(self.0);
        state.highlighter.append(&chars);
        lines_push_row(&mut state.lines, chars);
    }
}

} // verus!
