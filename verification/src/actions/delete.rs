//! Actions that delete characters, rows and selections.
use crate::actions::insert::{edited, LineBreak};
use crate::actions::Execute;
use crate::helper::{
    clamp_column, clamped, column_in_range, enter, entered, in_limits, kept_in_limits,
    line_broken,
};
use crate::highlight::{Bridge, Notice};
use crate::index::Index2;
use crate::lines::{
    len_col_at, lines_len, lines_len_col, lines_merge, lines_remove_char, lines_remove_row,
    lines_row, lines_split_off, rows, Lines,
};
use crate::state::mode::EditorMode;
use crate::state::selection::{
    clamp_pos, join_rows, selected_text, selection_removed, Selection,
};
use crate::state::undo::captured;
use crate::state::{EditorState, StateView};
use vstd::prelude::*;

verus! {

/// A row and a column in it after the character at the column was removed
/// `n` times. After each removal a column past the end falls back to the last
/// character; a row without a character at the column is left as it is.
pub open spec fn chars_removed(row: Seq<char>, col: nat, n: nat) -> (Seq<char>, nat)
    decreases n,
{
    if n == 0 || col >= row.len() {
        (row, col)
    } else {
        let rest = row.remove(col as int);
        chars_removed(
            rest,
            if col < rest.len() {
                col
            } else if rest.len() > 0 {
                (rest.len() - 1) as nat
            } else {
                0
            },
            (n - 1) as nat,
        )
    }
}

/// Deletes a character at the current cursor position. Does not
/// move the cursor position unless it is at the end of the line
#[derive(Clone, Copy, Debug, PartialEq, Eq)]
pub struct RemoveChar(pub usize);

impl Execute for RemoveChar {
    /// The state is captured and the column clamped. Then the character under
    /// the cursor is removed as many times as the count says, as
    /// [`chars_removed`] has it. Without a row under the cursor nothing is
    /// removed.
    open spec fn applied(&self, s: StateView) -> StateView {
        let c = clamped(captured(s));
        if c.cursor.row < c.lines.len() {
            let (row, col) = chars_removed(
                c.lines[c.cursor.row as int],
                c.cursor.col as nat,
                self.0 as nat,
            );
            StateView {
                lines: c.lines.update(c.cursor.row as int, row),
                cursor: Index2 { row: c.cursor.row, col: col as usize },
                ..c
            }
        } else {
            c
        }
    }

    /// Where there is a row under the cursor, how the row reads in the end.
    open spec fn notices(&self, s: StateView) -> Seq<Notice> {
        if s.cursor.row < s.lines.len() {
            seq![Notice::Edit(s.cursor.row as int, self.applied(s).lines[s.cursor.row as int])]
        } else {
            Seq::empty()
        }
    }

    fn execute(&self, state: &mut EditorState) {
        state.capture();
        clamp_column(state);
        let ghost c = state@;
        let row = state.cursor.row;
        if row >= lines_len(&state.lines) {
            return ;
        }
        let mut left = self.0;
        assert(c.lines.update(row as int, c.lines[row as int]) =~= c.lines);
        while left > 0
            invariant
                row == c.cursor.row,
                row < c.lines.len(),
                state.cursor.row == row,
                state.highlighter.wf(),
                state.highlighter.told() == c.lines,
                state.highlighter.log() == old(state).highlighter.log(),
                column_in_range(state@),
                rows(state.lines) == c.lines.update(row as int, rows(state.lines)[row as int]),
                state@ == (StateView { lines: state@.lines, cursor: state@.cursor, ..c }),
                chars_removed(c.lines[row as int], c.cursor.col as nat, self.0 as nat)
                    == chars_removed(
                    rows(state.lines)[row as int],
                    state.cursor.col as nat,
                    left as nat,
                ),
            ensures
                chars_removed(c.lines[row as int], c.cursor.col as nat, self.0 as nat) == (
                    rows(state.lines)[row as int],
                    state.cursor.col as nat,
                ),
            decreases left,
        {
            let len = lines_len_col(&state.lines, row).unwrap();
            let col = state.cursor.col;
            if col >= len {
                break ;
            }
            let _ = lines_remove_char(&mut state.lines, row, col);
            if col >= len - 1 {
                state.cursor.col = if len - 1 > 0 {
                    len - 2
                } else {
                    0
                };
            }
            left -= 1;
            assert(rows(state.lines) =~= c.lines.update(row as int, rows(state.lines)[row as int]));
        }
        let line = lines_row(&state.lines, row).unwrap();
        state.highlighter.edit(row, line);
        assert(state.highlighter.told() =~= rows(state.lines));
    }
}

/// The text and the position after the character before `pos` was deleted.
///
/// A position outside the text counts as the nearest one inside: a row below
/// the text as the row after the last, a column past the end of its row as
/// the end of the row. Inside a row the character before the position is
/// removed. At the start of a row the row is joined to the end of the row
/// above, and the position goes to where the two meet. At the start of the
/// text nothing is deleted.
pub open spec fn char_deleted(text: Seq<Seq<char>>, pos: Index2) -> (Seq<Seq<char>>, Index2) {
    let row = if pos.row <= text.len() {
        pos.row as int
    } else {
        text.len() as int
    };
    let col = if pos.col <= len_col_at(text, row) {
        pos.col as int
    } else {
        len_col_at(text, row) as int
    };
    if col > 0 {
        (
            text.update(row, text[row].remove(col - 1)),
            Index2 { row: row as usize, col: (col - 1) as usize },
        )
    } else if row == 0 {
        (text, Index2 { row: 0, col: 0 })
    } else {
        let above = Index2 { row: (row - 1) as usize, col: text[row - 1].len() as usize };
        if row < text.len() {
            (text.take(row - 1).push(text[row - 1] + text[row]) + text.skip(row + 1), above)
        } else {
            (text, above)
        }
    }
}

/// The text and the position after `n` deletions, each at the position the
/// one before has left.
pub open spec fn chars_deleted(text: Seq<Seq<char>>, pos: Index2, n: nat) -> (
    Seq<Seq<char>>,
    Index2,
)
    decreases n,
{
    if n == 0 {
        (text, pos)
    } else {
        let (t, p) = char_deleted(text, pos);
        chars_deleted(t, p, (n - 1) as nat)
    }
}

/// At the start of the text, deleting changes nothing, however often.
pub proof fn lemma_delete_at_start(text: Seq<Seq<char>>, n: nat)
    ensures
        chars_deleted(text, Index2 { row: 0, col: 0 }, n) == (text, Index2 { row: 0, col: 0 }),
    decreases n,
{
    if n > 0 {
        lemma_delete_at_start(text, (n - 1) as nat);
    }
}

/// What the highlighter is told of the deletion before `pos`: how the row
/// reads without the character, or how the row above reads with the row
/// joined to it and that the row was removed. Nothing where nothing was
/// deleted.
pub open spec fn delete_char_notices(text: Seq<Seq<char>>, pos: Index2) -> Seq<Notice> {
    let row = if pos.row <= text.len() {
        pos.row as int
    } else {
        text.len() as int
    };
    let col = if pos.col <= len_col_at(text, row) {
        pos.col as int
    } else {
        len_col_at(text, row) as int
    };
    if col > 0 {
        seq![Notice::Edit(row, text[row].remove(col - 1))]
    } else if row > 0 && row < text.len() {
        seq![Notice::Edit(row - 1, text[row - 1] + text[row]), Notice::RemoveLine(row)]
    } else {
        Seq::empty()
    }
}

/// What the highlighter is told of `n` deletions, each at the position the
/// one before has left.
pub open spec fn chars_deleted_notices(text: Seq<Seq<char>>, pos: Index2, n: nat) -> Seq<Notice>
    decreases n,
{
    if n == 0 {
        Seq::empty()
    } else {
        let (t, p) = char_deleted(text, pos);
        delete_char_notices(text, pos) + chars_deleted_notices(t, p, (n - 1) as nat)
    }
}

/// At the start of the text, deleting tells the highlighter nothing, however
/// often.
pub proof fn lemma_delete_at_start_silent(text: Seq<Seq<char>>, n: nat)
    ensures
        chars_deleted_notices(text, Index2 { row: 0, col: 0 }, n) == Seq::<Notice>::empty(),
    decreases n,
{
    if n > 0 {
        lemma_delete_at_start_silent(text, (n - 1) as nat);
        assert(delete_char_notices(text, Index2 { row: 0, col: 0 }) + Seq::<Notice>::empty()
            =~= Seq::<Notice>::empty());
    }
}

/// Deletes the character before `index`, or joins the row to the one above.
pub fn delete_char(lines: &mut Lines, index: &mut Index2, highlighter: &mut Bridge)
    requires
        old(highlighter).wf(),
        old(highlighter).told() == rows(*old(lines)),
    ensures
        final(highlighter).wf(),
        final(highlighter).told() == rows(*final(lines)),
        final(highlighter).log() =~= old(highlighter).log() + delete_char_notices(
            rows(*old(lines)),
            *old(index),
        ),
        (rows(*final(lines)), *final(index)) == char_deleted(rows(*old(lines)), *old(index)),
{
    let ghost text = rows(*lines);
    let n = lines_len(lines);
    let row = if index.row <= n {
        index.row
    } else {
        n
    };
    let len = match lines_len_col(lines, row) {
        Some(len) => len,
        None => 0,
    };
    let col = if index.col <= len {
        index.col
    } else {
        len
    };
    if col > 0 {
        let _ = lines_remove_char(lines, row, col - 1);
        let line = lines_row(lines, row).unwrap();
        highlighter.edit(row, line);
        index.row = row;
        index.col = col - 1;
    } else if row == 0 {
        index.row = 0;
        index.col = 0;
    } else {
        let above = lines_len_col(lines, row - 1).unwrap();
        if row < n {
            let mut rest = lines_split_off(lines, row, 0);
            lines_merge(lines, &mut rest);
            assert(rows(*lines) =~= text.take(row - 1).push(text[row - 1] + text[row as int])
                + text.skip(row + 1));
            let line = lines_row(lines, row - 1).unwrap();
            highlighter.edit(row - 1, line);
            highlighter.remove_line(row);
            assert(highlighter.told() =~= rows(*lines));
        }
        index.row = row - 1;
        index.col = above;
    }
}

/// Deletes a character to the left of the current cursor. Deletes
/// the line break if the the cursor is in column zero.
#[derive(Clone, Copy, Debug, PartialEq, Eq)]
pub struct DeleteChar(pub usize);

impl Execute for DeleteChar {
    /// After a capture, the character before the cursor is deleted as many
    /// times as the count says, each time as [`char_deleted`] has it. A cursor
    /// that was within the limits of the mode stays within them, as
    /// [`kept_in_limits`] says.
    open spec fn applied(&self, s: StateView) -> StateView {
        let c = captured(s);
        kept_in_limits(s, edited(c, chars_deleted(c.lines, c.cursor, self.0 as nat)))
    }

    open spec fn notices(&self, s: StateView) -> Seq<Notice> {
        chars_deleted_notices(s.lines, s.cursor, self.0 as nat)
    }

    fn execute(&self, state: &mut EditorState) {
        let within = in_limits(state);
        state.capture();
        let ghost c = state@;
        let ghost all = chars_deleted_notices(c.lines, c.cursor, self.0 as nat);
        let mut left = self.0;
        assert(old(state).highlighter.log() + all =~= state.highlighter.log() + all);
        while left > 0
            invariant
                state.wf(),
                old(state).highlighter.log() + all == state.highlighter.log()
                    + chars_deleted_notices(state@.lines, state@.cursor, left as nat),
                state@ == (StateView { lines: state@.lines, cursor: state@.cursor, ..c }),
                chars_deleted(c.lines, c.cursor, self.0 as nat) == chars_deleted(
                    state@.lines,
                    state@.cursor,
                    left as nat,
                ),
            ensures
                chars_deleted(c.lines, c.cursor, self.0 as nat) == (state@.lines, state@.cursor),
                old(state).highlighter.log() + all =~= state.highlighter.log(),
            decreases left,
        {
            if state.cursor.row == 0 && state.cursor.col == 0 {
                proof {
                    lemma_delete_at_start(state@.lines, left as nat);
                    lemma_delete_at_start_silent(state@.lines, left as nat);
                }
                break ;
            }
            let ghost before = state.highlighter.log();
            let ghost t = state@.lines;
            let ghost p = state@.cursor;
            delete_char(&mut state.lines, &mut state.cursor, &mut state.highlighter);
            left -= 1;
            assert(before + chars_deleted_notices(t, p, (left + 1) as nat) =~= (before
                + delete_char_notices(t, p)) + chars_deleted_notices(
                state@.lines,
                state@.cursor,
                left as nat,
            ));
        }
        if within {
            clamp_column(state);
        }
    }
}

/// Deletes the current line.
#[derive(Clone, Copy, Debug, PartialEq, Eq)]
pub struct DeleteLine(pub usize);

impl DeleteLine {
    /// How many rows are removed: the count, or the number of rows from the
    /// cursor to the end of the text if that is less.
    pub open spec fn removed(&self, s: StateView) -> nat {
        if s.cursor.row >= s.lines.len() {
            0
        } else if self.0 <= s.lines.len() - s.cursor.row {
            self.0 as nat
        } else {
            (s.lines.len() - s.cursor.row) as nat
        }
    }
}

impl Execute for DeleteLine {
    /// After a capture, the row of the cursor and the rows below it leave the
    /// text, as many as the count says or as there are. Where a row was
    /// removed the cursor goes to the start of the row that took its place,
    /// or of the last row if none did.
    open spec fn applied(&self, s: StateView) -> StateView {
        let c = captured(s);
        let k = self.removed(s);
        if k == 0 {
            c
        } else {
            let lines = c.lines.take(c.cursor.row as int) + c.lines.skip(c.cursor.row + k);
            StateView {
                lines,
                cursor: Index2 {
                    row: if c.cursor.row < lines.len() {
                        c.cursor.row
                    } else if lines.len() > 0 {
                        (lines.len() - 1) as usize
                    } else {
                        0
                    },
                    col: 0,
                },
                ..c
            }
        }
    }

    /// Of each row removed, that the row at the cursor was removed.
    open spec fn notices(&self, s: StateView) -> Seq<Notice> {
        Seq::new(self.removed(s), |i: int| Notice::RemoveLine(s.cursor.row as int))
    }

    fn execute(&self, state: &mut EditorState) {
        state.capture();
        let ghost c = state@;
        let row = state.cursor.row;
        let n = lines_len(&state.lines);
        if row >= n || self.0 == 0 {
            return ;
        }
        let k = if self.0 <= n - row {
            self.0
        } else {
            n - row
        };
        let mut i: usize = 0;
        assert(c.lines.take(row as int) + c.lines.skip(row as int) =~= c.lines);
        while i < k
            invariant
                i <= k,
                row + k <= c.lines.len(),
                state.wf(),
                state.highlighter.log() =~= old(state).highlighter.log() + Seq::new(
                    i as nat,
                    |j: int| Notice::RemoveLine(row as int),
                ),
                state@ == (StateView {
                    lines: c.lines.take(row as int) + c.lines.skip(row + i),
                    ..c
                }),
            decreases k - i,
        {
            let _ = lines_remove_row(&mut state.lines, row);
            state.highlighter.remove_line(row);
            i += 1;
            assert(state@.lines =~= c.lines.take(row as int) + c.lines.skip(row + i));
        }
        let m = lines_len(&state.lines);
        state.cursor = Index2 {
            row: if row < m {
                row
            } else if m > 0 {
                m - 1
            } else {
                0
            },
            col: 0,
        };
    }
}

/// What the highlighter is told when what a selection spans is removed: how
/// the row reads in which what was before and what was behind the selection
/// meet, and of each other row of the selection that it was removed.
pub open spec fn selection_notices(text: Seq<Seq<char>>, selection: Selection) -> Seq<Notice> {
    if text.len() == 0 {
        Seq::empty()
    } else {
        let from = clamp_pos(text, selection.first());
        let to = clamp_pos(text, selection.last());
        seq![Notice::Edit(from.row as int, selection_removed(text, selection)[from.row as int])]
            + Seq::new((to.row - from.row) as nat, |i: int| Notice::RemoveLine(from.row + 1))
    }
}

/// Removes what the selection spans from the text, puts the cursor where the
/// span began, and tells the highlighter. Returns the text removed, its rows
/// joined by line feeds.
pub fn delete_selection(state: &mut EditorState, selection: &Selection) -> (cut: String)
    requires
        old(state).wf(),
    ensures
        final(state).wf(),
        final(state).highlighter.log() =~= old(state).highlighter.log() + selection_notices(
            old(state)@.lines,
            *selection,
        ),
        cut@ == selected_text(old(state)@.lines, *selection),
        final(state)@ == (StateView {
            lines: selection_removed(old(state)@.lines, *selection),
            cursor: clamp_pos(old(state)@.lines, selection.first()),
            ..old(state)@
        }),
{
    let ghost text = state@.lines;
    let (from, to) = selection.span(&state.lines);
    state.cursor = from;
    let cut = selection.cut(&mut state.lines);
    if lines_len(&state.lines) == 0 {
        return join_rows(&cut);
    }
    let line = lines_row(&state.lines, from.row).unwrap();
    state.highlighter.edit(from.row, line);
    let mut i: usize = 0;
    let k = to.row - from.row;
    let ghost now = rows(state.lines);
    assert(now.take(from.row + 1) + text.skip(from.row + 1) =~= state.highlighter.told());
    while i < k
        invariant
            i <= k,
            k == to.row - from.row,
            to.row < text.len(),
            state.highlighter.wf(),
            now == rows(state.lines),
            now == selection_removed(text, *selection),
            text.len() > 0,
            from == clamp_pos(text, selection.first()),
            to == clamp_pos(text, selection.last()),
            state.highlighter.log() =~= old(state).highlighter.log() + (seq![
                Notice::Edit(from.row as int, now[from.row as int]),
            ] + Seq::new(i as nat, |j: int| Notice::RemoveLine(from.row + 1))),
            state.highlighter.told() == now.take(from.row + 1) + text.skip(from.row + 1 + i),
            state@ == (StateView { lines: now, cursor: from, ..old(state)@ }),
        decreases k - i,
    {
        state.highlighter.remove_line(from.row + 1);
        i += 1;
        assert(state.highlighter.told() =~= now.take(from.row + 1) + text.skip(from.row + 1 + i));
    }
    assert(state.highlighter.told() =~= now);
    join_rows(&cut)
}

/// Deletes the current selection.
#[derive(Clone, Copy, Debug, PartialEq, Eq)]
pub struct DeleteSelection;

impl Execute for DeleteSelection {
    /// After a capture, the characters that the selection spans go to the
    /// clipboard and leave the text, and the cursor goes to where they began.
    /// With or without a selection, the editor then enters normal mode
    /// without a selection, the column clamped by the limit of normal mode.
    open spec fn applied(&self, s: StateView) -> StateView {
        let c = captured(s);
        match c.selection {
            Some(selection) => entered(
                StateView {
                    lines: selection_removed(c.lines, selection),
                    cursor: clamp_pos(c.lines, selection.first()),
                    clip: selected_text(c.lines, selection),
                    selection: None,
                    ..c
                },
                EditorMode::Normal,
            ),
            None => entered(StateView { selection: None, ..c }, EditorMode::Normal),
        }
    }

    open spec fn notices(&self, s: StateView) -> Seq<Notice> {
        match s.selection {
            Some(selection) => selection_notices(s.lines, selection),
            None => Seq::empty(),
        }
    }

    fn execute(&self, state: &mut EditorState) {
        state.capture();
        match state.selection {
            Some(selection) => {
                let cut = delete_selection(state, &selection);
                state.clip.set_text(cut);
            },
            None => {},
        }
        state.selection = None;
        enter(state, EditorMode::Normal);
    }
}

/// Deleting at the start of the row that a line break has made restores the
/// text, and leaves the position where the line was broken.
pub proof fn lemma_break_then_delete(text: Seq<Seq<char>>, pos: Index2)
    requires
        pos.row < text.len() < usize::MAX,
        text[pos.row as int].len() <= usize::MAX,
    ensures
        line_broken(text, pos).1.col == 0,
        char_deleted(line_broken(text, pos).0, line_broken(text, pos).1).0 == text,
        char_deleted(line_broken(text, pos).0, line_broken(text, pos).1).1 == (Index2 {
            row: pos.row,
            col: if pos.col <= text[pos.row as int].len() {
                pos.col
            } else {
                text[pos.row as int].len() as usize
            },
        }),
{
    let (broken, below) = line_broken(text, pos);
    let row = pos.row as int;
    let col = if pos.col <= text[row].len() {
        pos.col as int
    } else {
        text[row].len() as int
    };
    assert(below.row == row + 1);
    if col == 0 {
        assert(broken[row] =~= Seq::<char>::empty());
        assert(broken[row + 1] == text[row]);
        assert(broken[row] + broken[row + 1] =~= text[row]);
        assert(broken.take(row).push(text[row]) + broken.skip(row + 2) =~= text);
    } else {
        assert(broken[row] == text[row].take(col));
        assert(broken[row + 1] == text[row].skip(col));
        assert(broken[row] + broken[row + 1] =~= text[row]);
        assert(broken.take(row).push(text[row]) + broken.skip(row + 2) =~= text);
    }
}

/// A line break followed by the deletion of one character restores the text,
/// where the cursor was in a row of the text.
pub proof fn lemma_line_break_inverse(s: StateView)
    requires
        s.cursor.row < s.lines.len() < usize::MAX,
        s.lines[s.cursor.row as int].len() <= usize::MAX,
    ensures
        LineBreak(1).applied(s).cursor.col == 0,
        DeleteChar(1).applied(LineBreak(1).applied(s)).lines == s.lines,
{
    lemma_break_then_delete(s.lines, s.cursor);
    let c = captured(s);
    assert(crate::actions::insert::lines_broken(c.lines, c.cursor, 1) == line_broken(
        c.lines,
        c.cursor,
    )) by {
        assert(crate::actions::insert::lines_broken(c.lines, c.cursor, 0) == (c.lines, c.cursor));
    }
    let b = LineBreak(1).applied(s);
    let d = captured(b);
    assert(chars_deleted(d.lines, d.cursor, 1) == char_deleted(d.lines, d.cursor)) by {
        let (t, p) = char_deleted(d.lines, d.cursor);
        assert(chars_deleted(t, p, 0) == (t, p));
    }
}

} // verus!
