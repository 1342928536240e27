//! Building blocks of the actions: column limits, clamping, and the insertion
//! of characters and line breaks.
use crate::highlight::{Bridge, Notice};
use crate::index::Index2;
use crate::lines::{
    len_col_at, lines_append, lines_insert_char, lines_insert_row, lines_len, lines_len_col,
    lines_push_row, lines_row, lines_split_off, rows, Lines,
};
use crate::state::mode::EditorMode;
use crate::state::selection::Selection;
use crate::state::undo::SnapshotView;
use crate::state::{EditorState, StateView};
use crate::strings::chars_of;
use vstd::prelude::*;

verus! {

/// The largest column the cursor may take in `row`: the last character in
/// normal and visual mode, one past it in the other modes, and zero in an
/// empty or missing row.
pub open spec fn max_col_of(text: Seq<Seq<char>>, row: int, mode: EditorMode) -> nat {
    if mode.on_char() {
        if len_col_at(text, row) > 0 {
            (len_col_at(text, row) - 1) as nat
        } else {
            0
        }
    } else {
        len_col_at(text, row)
    }
}

/// The largest row the cursor may take: one past the last row in insert mode,
/// the last row in the other modes, and zero in an empty buffer.
pub open spec fn max_row_of(text: Seq<Seq<char>>, mode: EditorMode) -> nat {
    if mode == EditorMode::Insert {
        text.len()
    } else if text.len() > 0 {
        (text.len() - 1) as nat
    } else {
        0
    }
}

/// Whether the cursor of a state is within the limits of its mode.
pub open spec fn cursor_in_range(s: StateView) -> bool {
    &&& s.cursor.row <= max_row_of(s.lines, s.mode)
    &&& s.cursor.col <= max_col_of(s.lines, s.cursor.row as int, s.mode)
}

/// Whether the column of the cursor of a state is within the limit of its
/// mode.
pub open spec fn column_in_range(s: StateView) -> bool {
    s.cursor.col <= max_col_of(s.lines, s.cursor.row as int, s.mode)
}

/// Whether the column of the cursor of every snapshot of a stack is within
/// the limit of the snapshot's own mode and text.
pub open spec fn columns_in_range(stack: Seq<SnapshotView>) -> bool {
    forall|i: int|
        0 <= i < stack.len() ==> (#[trigger] stack[i]).cursor.col <= max_col_of(
            stack[i].lines,
            stack[i].cursor.row as int,
            stack[i].mode,
        )
}

/// Whether a state is steady in its columns: the column of its cursor is
/// within the limit of its mode, and so is the column of every snapshot on
/// its stacks. Every action keeps a steady state steady.
pub open spec fn steady(s: StateView) -> bool {
    &&& column_in_range(s)
    &&& columns_in_range(s.undo)
    &&& columns_in_range(s.redo)
}

/// `col`, or the largest column of the row if `col` is past it.
pub open spec fn clamped_col(text: Seq<Seq<char>>, pos: Index2, mode: EditorMode) -> usize {
    if pos.col <= max_col_of(text, pos.row as int, mode) {
        pos.col
    } else {
        max_col_of(text, pos.row as int, mode) as usize
    }
}

/// The state with the column of its cursor clamped.
pub open spec fn clamped(s: StateView) -> StateView {
    StateView { cursor: Index2 { row: s.cursor.row, col: clamped_col(s.lines, s.cursor, s.mode) }, ..s }
}

/// The state in `mode`, with the column of its cursor clamped by the limit
/// that the mode sets in the row of the cursor.
pub open spec fn entered(s: StateView, mode: EditorMode) -> StateView {
    clamped(StateView { mode, ..s })
}

/// The state that an action leaves, given the state `before` it and the state
/// `after` its work: a column that was within the limit of the mode before is
/// within it after, by a clamp. A column that was past the limit stays where
/// the work of the action has left it.
pub open spec fn kept_in_limits(before: StateView, after: StateView) -> StateView {
    if column_in_range(before) {
        clamped(after)
    } else {
        after
    }
}

/// The selection with its end moved to `end`; no selection stays none.
pub open spec fn reselected(selection: Option<Selection>, end: Index2) -> Option<Selection> {
    match selection {
        Some(s) => Some(Selection { start: s.start, end }),
        None => None,
    }
}

/// Returns the maximum permissible column value. In normal or visual
/// mode the limit is len() - 1, in insert mode the limit is len().
pub fn max_col(lines: &Lines, index: &Index2, mode: EditorMode) -> (max: usize)
    ensures
        max == max_col_of(rows(*lines), index.row as int, mode),
{
    let len = match lines_len_col(lines, index.row) {
        Some(len) => len,
        None => 0,
    };
    match mode {
        EditorMode::Normal | EditorMode::Visual => if len > 0 {
            len - 1
        } else {
            0
        },
        _ => len,
    }
}

/// Returns the maximum permissible row value. In insert mode the limit is
/// len(), in the other modes it is len() - 1.
pub fn max_row(state: &EditorState) -> (max: usize)
    ensures
        max == max_row_of(state@.lines, state@.mode),
{
    let len = lines_len(&state.lines);
    if state.mode == EditorMode::Insert {
        len
    } else if len > 0 {
        len - 1
    } else {
        0
    }
}

/// Get the number of columns in the current line.
#[must_use]
pub fn len_col(state: &EditorState) -> (len: usize)
    ensures
        len == len_col_at(state@.lines, state@.cursor.row as int),
{
    match lines_len_col(&state.lines, state.cursor.row) {
        Some(len) => len,
        None => 0,
    }
}

/// Clamps the column of the cursor if the cursor is out of bounds.
/// In normal or visual mode, clamps on col = len() - 1, in insert
/// mode on col = len().
pub fn clamp_column(state: &mut EditorState)
    ensures
        final(state)@ == clamped(old(state)@),
        column_in_range(final(state)@),
        final(state).highlighter == old(state).highlighter,
        old(state).wf() ==> final(state).wf(),
{
    let max = max_col(&state.lines, &state.cursor, state.mode);
    if state.cursor.col > max {
        state.cursor.col = max;
    }
}

/// Enters `mode` and clamps the column of the cursor by its limit.
pub fn enter(state: &mut EditorState, mode: EditorMode)
    ensures
        final(state)@ == entered(old(state)@, mode),
        column_in_range(final(state)@),
        final(state).highlighter == old(state).highlighter,
        old(state).wf() ==> final(state).wf(),
{
    state.mode = mode;
    clamp_column(state);
}

/// Whether the column of the cursor of the state is within the limit of its
/// mode.
pub fn in_limits(state: &EditorState) -> (b: bool)
    ensures
        b == column_in_range(state@),
{
    state.cursor.col <= max_col(&state.lines, &state.cursor, state.mode)
}

/// The cursor as it is displayed: its column is never past the last one the
/// mode allows in its row.
pub fn displayed_cursor(state: &EditorState) -> (cursor: Index2)
    ensures
        cursor == clamped(state@).cursor,
{
    let max = max_col(&state.lines, &state.cursor, state.mode);
    if state.cursor.col > max {
        Index2 { row: state.cursor.row, col: max }
    } else {
        state.cursor
    }
}

/// Set the selections end positions
pub fn set_selection(selection: &mut Option<Selection>, end: Index2)
    ensures
        *final(selection) == reselected(*old(selection), end),
{
    match *selection {
        Some(s) => {
            *selection = Some(Selection { start: s.start, end });
        },
        None => {},
    }
}

/// Whether a character separates words: space, tab, line feed, form feed or
/// carriage return.
pub open spec fn is_space(ch: char) -> bool {
    ch == ' ' || ch == '\t' || ch == '\n' || ch == '\x0C' || ch == '\r'
}

/// Whether a character separates words.
pub fn is_whitespace(ch: char) -> (b: bool)
    ensures
        b == is_space(ch),
{
    ch == ' ' || ch == '\t' || ch == '\n' || ch == '\x0C' || ch == '\r'
}

/// The first column at or after `col` that holds a character other than
/// whitespace, or the length of the row if there is none.
pub open spec fn next_word_col(row: Seq<char>, col: int) -> int
    decreases row.len() - col,
{
    if col < 0 || col >= row.len() {
        row.len() as int
    } else if !is_space(row[col]) {
        col
    } else {
        next_word_col(row, col + 1)
    }
}

/// The first column at or after `col` that holds a character other than
/// whitespace, or `col` itself if the row has none.
pub open spec fn first_word_col(row: Seq<char>, col: int) -> int {
    if 0 <= col && next_word_col(row, col) < row.len() {
        next_word_col(row, col)
    } else {
        col
    }
}

/// The column reached from `col` by stepping left over whitespace: the nearest
/// column at or before `col` that holds no whitespace, or zero if there is none.
pub open spec fn last_word_col(row: Seq<char>, col: int) -> int
    decreases col,
{
    if col <= 0 || col >= row.len() {
        col
    } else if !is_space(row[col]) {
        col
    } else {
        last_word_col(row, col - 1)
    }
}

/// Skip whitespaces moving to the right. Stop at the end of the line.
///
/// The column moves to the next character that is no whitespace. It stays
/// where it is if there is none in the row, or no such row.
pub fn skip_whitespace(lines: &Lines, index: &mut Index2)
    ensures
        final(index).row == old(index).row,
        old(index).row < rows(*lines).len() ==> final(index).col == first_word_col(
            rows(*lines)[old(index).row as int],
            old(index).col as int,
        ),
        old(index).row >= rows(*lines).len() ==> final(index).col == old(index).col,
{
    match lines_row(lines, index.row) {
        Some(line) => {
            let start = index.col;
            let n = line.len();
            let mut i = start;
            while i < n
                invariant
                    start <= i,
                    n == line.len(),
                    index.col == start,
                    start == old(index).col,
                    index.row == old(index).row,
                    old(index).row < rows(*lines).len(),
                    line@ == rows(*lines)[old(index).row as int],
                    next_word_col(line@, start as int) == next_word_col(line@, i as int),
                decreases n - i,
            {
                if !is_whitespace(line[i]) {
                    index.col = i;
                    return ;
                }
                i += 1;
            }
        },
        None => {},
    }
}

/// Skip whitespaces moving to the left. Stop at the start of the line.
///
/// The column moves left to the nearest character that is no whitespace, and
/// to column zero if there is none. It stays where it is if it names no
/// character of the row.
pub fn skip_whitespace_rev(lines: &Lines, index: &mut Index2)
    ensures
        final(index).row == old(index).row,
        old(index).row < rows(*lines).len() ==> final(index).col == last_word_col(
            rows(*lines)[old(index).row as int],
            old(index).col as int,
        ),
        old(index).row >= rows(*lines).len() ==> final(index).col == old(index).col,
{
    match lines_row(lines, index.row) {
        Some(line) => {
            if index.col >= line.len() {
                return ;
            }
            let mut i = index.col;
            while i > 0 && is_whitespace(line[i])
                invariant
                    i <= old(index).col < line.len(),
                    index.row == old(index).row,
                    old(index).row < rows(*lines).len(),
                    line@ == rows(*lines)[old(index).row as int],
                    last_word_col(line@, old(index).col as int) == last_word_col(line@, i as int),
                decreases i,
            {
                i -= 1;
            }
            index.col = i;
        },
        None => {},
    }
}

/// The text and the position after a line break at `pos`.
///
/// A text without rows gets its first row before anything else. A position
/// outside the text counts as the nearest one inside: a row past the end as
/// the row after the last, a column past the end of its row as the end of the
/// row. At column zero an empty row is inserted above the row; elsewhere the
/// row is split in two. The position moves to the start of the row below.
pub open spec fn line_broken(text: Seq<Seq<char>>, pos: Index2) -> (Seq<Seq<char>>, Index2) {
    let ready = with_row(text, 0);
    let row = if pos.row <= ready.len() {
        pos.row as int
    } else {
        ready.len() as int
    };
    let col = if pos.col <= len_col_at(ready, row) {
        pos.col as int
    } else {
        len_col_at(ready, row) as int
    };
    let below = Index2 { row: (row + 1) as usize, col: 0 };
    if col == 0 {
        (ready.insert(row, Seq::empty()), below)
    } else {
        (
            ready.take(row).push(ready[row].take(col)).push(ready[row].skip(col)) + ready.skip(
                row + 1,
            ),
            below,
        )
    }
}

/// What the highlighter is told of a row that is created at the end of the
/// text, in front of an insertion below the text: that an empty row was
/// inserted at `row`, where `row` is no row of the text yet.
pub open spec fn created_notices(text: Seq<Seq<char>>, row: int) -> Seq<Notice> {
    if row >= text.len() {
        seq![Notice::InsertLine(text.len() as int, Seq::empty())]
    } else {
        Seq::empty()
    }
}

/// What the highlighter is told of a line break at `pos`: how the row reads
/// that was cut short, and that the rest of it was inserted as the row below.
/// At column zero the row is left empty and all of it is the row below. Where
/// the break is below the text, it is told that an empty row was inserted
/// there; and before all that, of the first row that a text without rows got.
pub open spec fn line_break_notices(text: Seq<Seq<char>>, pos: Index2) -> Seq<Notice> {
    let ready = with_row(text, 0);
    let row = if pos.row <= ready.len() {
        pos.row as int
    } else {
        ready.len() as int
    };
    let col = if pos.col <= len_col_at(ready, row) {
        pos.col as int
    } else {
        len_col_at(ready, row) as int
    };
    created_notices(text, 0) + if row >= ready.len() {
        seq![Notice::InsertLine(row, Seq::empty())]
    } else {
        seq![
            Notice::Edit(row, ready[row].take(col)),
            Notice::InsertLine(row + 1, ready[row].skip(col)),
        ]
    }
}

/// Inserts a line break at a given index. Forces a splitting of lines if
/// the index is in the middle of a line.
///
/// The highlighter is told of the row that was cut short and of the row that
/// was inserted below it.
pub fn line_break(lines: &mut Lines, index: &mut Index2, highlighter: &mut Bridge)
    requires
        old(highlighter).wf(),
        old(highlighter).told() == rows(*old(lines)),
    ensures
        final(highlighter).wf(),
        final(highlighter).told() == rows(*final(lines)),
        final(highlighter).log() == old(highlighter).log() + line_break_notices(
            rows(*old(lines)),
            *old(index),
        ),
        (rows(*final(lines)), *final(index)) == line_broken(rows(*old(lines)), *old(index)),
{
    let ghost text = rows(*lines);
    if lines_len(lines) == 0 {
        let first: Vec<char> = Vec::new();
        assert(first@ =~= Seq::<char>::empty());
        highlighter.insert_line(0, &first);
        lines_push_row(lines, first);
        assert(highlighter.told() =~= rows(*lines));
    }
    let ghost ready = rows(*lines);
    let ghost created = highlighter.log();
    assert(ready == with_row(text, 0));
    assert(created =~= old(highlighter).log() + created_notices(text, 0));
    let n = lines_len(lines);
    let row = if index.row <= n {
        index.row
    } else {
        n
    };
    let len = match lines_len_col(lines, row) {
        Some(len) => len,
        None => 0,
    };
    let col = if index.col <= len {
        index.col
    } else {
        len
    };
    if row >= n {
        let empty: Vec<char> = Vec::new();
        assert(empty@ =~= Seq::<char>::empty());
        highlighter.insert_line(row, &empty);
        lines_insert_row(lines, row, empty);
        assert(highlighter.log() =~= created + seq![Notice::InsertLine(row as int, Seq::empty())]);
    } else {
        if col == 0 {
            let empty: Vec<char> = Vec::new();
            assert(empty@ =~= Seq::<char>::empty());
            lines_insert_row(lines, row, empty);
            assert(ready[row as int].take(0) =~= Seq::<char>::empty());
            assert(ready[row as int].skip(0) =~= ready[row as int]);
        } else {
            let mut tail = lines_split_off(lines, row, col);
            lines_append(lines, &mut tail);
            assert(rows(*lines) =~= ready.take(row as int).push(
                ready[row as int].take(col as int),
            ).push(ready[row as int].skip(col as int)) + ready.skip(row + 1));
        }
        let upper = lines_row(lines, row).unwrap();
        highlighter.edit(row, upper);
        let lower = lines_row(lines, row + 1).unwrap();
        highlighter.insert_line(row + 1, lower);
        assert(highlighter.told() =~= rows(*lines));
        assert(highlighter.log() =~= created + seq![
            Notice::Edit(row as int, ready[row as int].take(col as int)),
            Notice::InsertLine(row + 1, ready[row as int].skip(col as int)),
        ]);
    }
    assert(highlighter.log() =~= old(highlighter).log() + line_break_notices(text, *old(index)));
    let m = lines_len(lines);
    assert(m == n + 1);
    index.row = row + 1;
    index.col = 0;
}

/// The text with an empty row added at the end if `row` is not a row of it.
pub open spec fn with_row(text: Seq<Seq<char>>, row: int) -> Seq<Seq<char>> {
    if row >= text.len() {
        text.push(Seq::empty())
    } else {
        text
    }
}

/// The text and the position after `ch` was inserted at `pos`.
///
/// A row past the end counts as the row after the last, and is created first:
/// so the first insertion into an empty buffer creates row zero. A line feed
/// breaks the line. Any other character goes into the row, at the column or at
/// the end of the row if the column is past it; the position then moves one
/// column right, unless `skip_move` holds.
pub open spec fn char_inserted(text: Seq<Seq<char>>, pos: Index2, ch: char, skip_move: bool) -> (
    Seq<Seq<char>>,
    Index2,
) {
    let row = if pos.row <= text.len() {
        pos.row
    } else {
        text.len() as usize
    };
    let ready = with_row(text, row as int);
    if ch == '\n' {
        line_broken(ready, Index2 { row, col: pos.col })
    } else {
        let col = if pos.col <= ready[row as int].len() {
            pos.col
        } else {
            ready[row as int].len() as usize
        };
        (
            ready.update(row as int, ready[row as int].insert(col as int, ch)),
            Index2 {
                row,
                col: if skip_move {
                    col
                } else {
                    (col + 1) as usize
                },
            },
        )
    }
}

/// What the highlighter is told of the insertion of `ch` at `pos`: of the
/// row that was created for it, if one was, and then of the line break or of
/// the row that holds the character.
pub open spec fn insert_char_notices(text: Seq<Seq<char>>, pos: Index2, ch: char) -> Seq<Notice> {
    let row = if pos.row <= text.len() {
        pos.row
    } else {
        text.len() as usize
    };
    let ready = with_row(text, row as int);
    if ch == '\n' {
        created_notices(text, row as int) + line_break_notices(ready, Index2 { row, col: pos.col })
    } else {
        created_notices(text, row as int) + seq![
            Notice::Edit(row as int, char_inserted(text, pos, ch, false).0[row as int]),
        ]
    }
}

/// Inserts a character into the lines data at the given `index`.
pub fn insert_char(
    lines: &mut Lines,
    index: &mut Index2,
    ch: char,
    skip_move: bool,
    highlighter: &mut Bridge,
)
    requires
        old(highlighter).wf(),
        old(highlighter).told() == rows(*old(lines)),
    ensures
        final(highlighter).wf(),
        final(highlighter).told() == rows(*final(lines)),
        final(highlighter).log() == old(highlighter).log() + insert_char_notices(
            rows(*old(lines)),
            *old(index),
            ch,
        ),
        (rows(*final(lines)), *final(index)) == char_inserted(
            rows(*old(lines)),
            *old(index),
            ch,
            skip_move,
        ),
{
    let ghost text = rows(*lines);
    let ghost created = created_notices(text, index.row as int);
    let n = lines_len(lines);
    if index.row >= n {
        index.row = n;
        let empty: Vec<char> = Vec::new();
        assert(empty@ =~= Seq::<char>::empty());
        highlighter.insert_line(n, &empty);
        lines_push_row(lines, empty);
        assert(highlighter.told() =~= rows(*lines));
    }
    assert(highlighter.log() =~= old(highlighter).log() + created);
    if ch == '\n' {
        line_break(lines, index, highlighter);
        assert(highlighter.log() =~= old(highlighter).log() + insert_char_notices(
            text,
            *old(index),
            ch,
        ));
    } else {
        let row = index.row;
        let len = lines_len_col(lines, row).unwrap();
        let col = if index.col <= len {
            index.col
        } else {
            len
        };
        lines_insert_char(lines, row, col, ch);
        let line = lines_row(lines, row).unwrap();
        highlighter.edit(row, line);
        assert(col < line.len());
        index.col = col;
        if !skip_move {
            index.col = col + 1;
        }
        assert(highlighter.log() =~= old(highlighter).log() + insert_char_notices(
            text,
            *old(index),
            ch,
        ));
    }
}

/// What the highlighter is told of the insertion of the characters of `s`,
/// one after the other.
pub open spec fn chars_notices(text: Seq<Seq<char>>, pos: Index2, s: Seq<char>) -> Seq<Notice>
    decreases s.len(),
{
    if s.len() == 0 {
        Seq::empty()
    } else {
        let (t, p) = chars_inserted(text, pos, s.drop_last());
        chars_notices(text, pos, s.drop_last()) + insert_char_notices(t, p, s.last())
    }
}

/// The position next to `pos` at which a string is appended: behind the
/// character at `pos`, or `pos` itself where it holds no character.
pub open spec fn behind(text: Seq<Seq<char>>, pos: Index2) -> Index2 {
    if pos.col < len_col_at(text, pos.row as int) {
        Index2 { row: pos.row, col: (pos.col + 1) as usize }
    } else {
        pos
    }
}

/// The text and the position after the characters of `s` were inserted one
/// after the other, each moving the position on.
pub open spec fn chars_inserted(text: Seq<Seq<char>>, pos: Index2, s: Seq<char>) -> (
    Seq<Seq<char>>,
    Index2,
)
    decreases s.len(),
{
    if s.len() == 0 {
        (text, pos)
    } else {
        let (t, p) = chars_inserted(text, pos, s.drop_last());
        char_inserted(t, p, s.last(), false)
    }
}

/// The text and the position after `s` was inserted at `pos`: as
/// [`chars_inserted`], but the position stays on the last character where
/// that is no line feed.
pub open spec fn str_inserted(text: Seq<Seq<char>>, pos: Index2, s: Seq<char>) -> (
    Seq<Seq<char>>,
    Index2,
) {
    if s.len() == 0 {
        (text, pos)
    } else {
        let (t, p) = chars_inserted(text, pos, s.drop_last());
        char_inserted(t, p, s.last(), true)
    }
}

/// The text and the position after `s` was appended next to `pos`: the
/// characters are inserted behind the character at `pos`, and the position
/// ends on the last of them.
pub open spec fn str_appended(text: Seq<Seq<char>>, pos: Index2, s: Seq<char>) -> (
    Seq<Seq<char>>,
    Index2,
) {
    let (t, p) = chars_inserted(text, behind(text, pos), s);
    (
        t,
        Index2 {
            row: p.row,
            col: if p.col > 0 {
                (p.col - 1) as usize
            } else {
                0
            },
        },
    )
}

/// Inserts the characters one after the other, each moving the position on.
fn insert_chars(lines: &mut Lines, index: &mut Index2, chars: &Vec<char>, highlighter: &mut Bridge)
    requires
        old(highlighter).wf(),
        old(highlighter).told() == rows(*old(lines)),
    ensures
        final(highlighter).wf(),
        final(highlighter).told() == rows(*final(lines)),
        final(highlighter).log() == old(highlighter).log() + chars_notices(
            rows(*old(lines)),
            *old(index),
            chars@,
        ),
        (rows(*final(lines)), *final(index)) == chars_inserted(
            rows(*old(lines)),
            *old(index),
            chars@,
        ),
{
    let mut i: usize = 0;
    assert(chars@.take(0) =~= Seq::<char>::empty());
    assert(highlighter.log() =~= old(highlighter).log() + chars_notices(
        rows(*old(lines)),
        *old(index),
        chars@.take(0),
    ));
    while i < chars.len()
        invariant
            i <= chars.len(),
            highlighter.wf(),
            highlighter.told() == rows(*lines),
            highlighter.log() == old(highlighter).log() + chars_notices(
                rows(*old(lines)),
                *old(index),
                chars@.take(i as int),
            ),
            (rows(*lines), *index) == chars_inserted(
                rows(*old(lines)),
                *old(index),
                chars@.take(i as int),
            ),
        decreases chars.len() - i,
    {
        let ghost t = rows(*lines);
        let ghost p = *index;
        insert_char(lines, index, chars[i], false, highlighter);
        i += 1;
        assert(chars@.take(i as int).drop_last() =~= chars@.take(i - 1));
        assert(highlighter.log() =~= old(highlighter).log() + (chars_notices(
            rows(*old(lines)),
            *old(index),
            chars@.take(i - 1),
        ) + insert_char_notices(t, p, chars@[i - 1])));
    }
    assert(chars@.take(chars.len() as int) =~= chars@);
}

/// Inserts a string into the lines data at the given `index`.
pub fn insert_str(lines: &mut Lines, index: &mut Index2, text: &str, highlighter: &mut Bridge)
    requires
        old(highlighter).wf(),
        old(highlighter).told() == rows(*old(lines)),
    ensures
        final(highlighter).wf(),
        final(highlighter).told() == rows(*final(lines)),
        final(highlighter).log() == old(highlighter).log() + chars_notices(
            rows(*old(lines)),
            *old(index),
            text@,
        ),
        (rows(*final(lines)), *final(index)) == str_inserted(
            rows(*old(lines)),
            *old(index),
            text@,
        ),
{
    let mut chars = chars_of(text);
    match chars.pop() {
        Some(last) => {
            assert(chars@ =~= text@.drop_last());
            insert_chars(lines, index, &chars, highlighter);
            let ghost t = rows(*lines);
            let ghost p = *index;
            insert_char(lines, index, last, true, highlighter);
            assert(highlighter.log() =~= old(highlighter).log() + (chars_notices(
                rows(*old(lines)),
                *old(index),
                text@.drop_last(),
            ) + insert_char_notices(t, p, last)));
        },
        None => {
            assert(highlighter.log() =~= old(highlighter).log() + chars_notices(
                rows(*old(lines)),
                *old(index),
                text@,
            ));
        },
    }
}

/// Appends a string into the lines data next to a given `index`.
pub fn append_str(lines: &mut Lines, index: &mut Index2, text: &str, highlighter: &mut Bridge)
    requires
        old(highlighter).wf(),
        old(highlighter).told() == rows(*old(lines)),
    ensures
        final(highlighter).wf(),
        final(highlighter).told() == rows(*final(lines)),
        final(highlighter).log() == old(highlighter).log() + chars_notices(
            rows(*old(lines)),
            behind(rows(*old(lines)), *old(index)),
            text@,
        ),
        (rows(*final(lines)), *final(index)) == str_appended(
            rows(*old(lines)),
            *old(index),
            text@,
        ),
{
    let len = match lines_len_col(lines, index.row) {
        Some(len) => len,
        None => 0,
    };
    if index.col < len {
        index.col += 1;
    }
    let chars = chars_of(text);
    insert_chars(lines, index, &chars, highlighter);
    if index.col > 0 {
        index.col -= 1;
    }
}

} // verus!
