//! The limits of the cursor.
//!
//! In every mode the cursor has a last row and, in each row, a last column
//! that it may take. Four laws are proved here of every action of the
//! catalog:
//!
//! - The column stays within the limit of the mode ([`lemma_column_after`]):
//!   an action that enters a mode, or that moves the text away under the
//!   cursor, clamps the column at its end.
//! - The row stays within the limit of the mode ([`lemma_row_after`]), on
//!   the inputs that [`admits`] does not leave out: an action that enters a
//!   mode moves no row.
//! - The cursor stays within the text, whatever the mode
//!   ([`lemma_safe_after`]).
//! - The ends of the selection stay within the limits of the mode
//!   ([`lemma_selection_after`]), on the inputs that [`admits_selection`]
//!   does not leave out.
//!
//! That the column stays within the limit is also part of what every
//! `execute` ensures, as `steady`. Of the keys that run no action of the
//! catalog, [`lemma_limits_after_key`] proves the limits of row and column.
use crate::actions::delete::{char_deleted, chars_deleted, chars_removed};
use crate::actions::insert::{blank_rows_inserted, lines_broken};
use crate::actions::motion::{
    edges_backward, edges_forward, is_edge, is_next_edge, is_previous_edge, next_edge,
    previous_edge, WordEdge,
};
use crate::actions::select::{
    has_between, is_between, is_first_open, is_last_close, is_place, place_before, place_behind,
};
use crate::actions::cpaste::read_into;
use crate::actions::{all_applied, lemma_leads_exactly, reads_clipboard, Action, Execute};
use crate::highlight::Notice;
use crate::helper::{
    char_inserted, chars_inserted, clamped, column_in_range, cursor_in_range, entered,
    line_broken, max_col, max_col_of, max_row_of, with_row,
};
use crate::index::Index2;
use crate::input::key::Key;
use crate::input::{takes_key, typed};
use crate::lines::{len_col_at, lines_len, rows, Lines};
use crate::state::mode::EditorMode;
use crate::state::search::{first_index, fits, lemma_occurrences_exact, occurrences, occurs_at};
use crate::state::selection::{clamp_pos, selection_removed, span_stop, Selection};
use crate::state::undo::{captured, SnapshotView};
use crate::state::{EditorState, StateView};
use vstd::prelude::*;

verus! {

/// Whether a position is within the limits that `mode` sets in `text`.
pub open spec fn pos_in_range(text: Seq<Seq<char>>, pos: Index2, mode: EditorMode) -> bool {
    &&& pos.row <= max_row_of(text, mode)
    &&& pos.col <= max_col_of(text, pos.row as int, mode)
}

/// Whether `pos` is within the limits that `mode` sets in the text.
pub fn within_limits(lines: &Lines, pos: &Index2, mode: EditorMode) -> (b: bool)
    ensures
        b == pos_in_range(rows(*lines), *pos, mode),
{
    let len = lines_len(lines);
    let max_row = if mode == EditorMode::Insert {
        len
    } else if len > 0 {
        len - 1
    } else {
        0
    };
    pos.row <= max_row && pos.col <= max_col(lines, pos, mode)
}

/// Whether the cursor of the state is within the limits of its mode.
pub fn cursor_within_limits(state: &EditorState) -> (b: bool)
    ensures
        b == cursor_in_range(state@),
{
    within_limits(&state.lines, &state.cursor, state.mode)
}

/// Whether both ends of the selection of the state, if it has one, are
/// within the limits of its mode.
pub fn selection_within_limits(state: &EditorState) -> (b: bool)
    ensures
        b == selection_in_range(state@),
{
    match state.selection {
        Some(selection) => within_limits(&state.lines, &selection.start, state.mode)
            && within_limits(&state.lines, &selection.end, state.mode),
        None => true,
    }
}

/// Whether a position rests on a character of the text, or at column zero of
/// an empty row. Such a position is within the limits of every mode.
pub open spec fn on_text(text: Seq<Seq<char>>, pos: Index2) -> bool {
    &&& pos.row < text.len()
    &&& (pos.col < text[pos.row as int].len() || pos.col == 0)
}

/// Whether the text leaves room for `k` more rows, and each of its rows for
/// `k` more characters, within the sizes that the machine can count.
pub open spec fn roomy(text: Seq<Seq<char>>, k: nat) -> bool {
    &&& text.len() + k <= usize::MAX
    &&& forall|i: int| 0 <= i < text.len() ==> (#[trigger] text[i]).len() + k <= usize::MAX
}

/// Whether every snapshot of a stack holds a cursor within the limits of its
/// own mode and text.
pub open spec fn snapshots_in_range(stack: Seq<SnapshotView>) -> bool {
    forall|i: int|
        0 <= i < stack.len() ==> fits((#[trigger] stack[i]).lines) && pos_in_range(
            stack[i].lines,
            stack[i].cursor,
            stack[i].mode,
        )
}

/// Whether a state is sound: its text is machine-sized, its cursor is within
/// the limits of its mode, and so is the cursor of every snapshot on its
/// stacks.
pub open spec fn sound(s: StateView) -> bool {
    &&& fits(s.lines)
    &&& cursor_in_range(s)
    &&& snapshots_in_range(s.undo)
    &&& snapshots_in_range(s.redo)
}

/// A capture keeps a sound state sound.
pub proof fn lemma_capture_sound(s: StateView)
    requires
        sound(s),
    ensures
        sound(captured(s)),
{
    let c = captured(s);
    assert forall|i: int| 0 <= i < c.undo.len() implies fits((#[trigger] c.undo[i]).lines)
        && pos_in_range(c.undo[i].lines, c.undo[i].cursor, c.undo[i].mode) by {
        if i < s.undo.len() {
            assert(c.undo[i] == s.undo[i]);
        }
    }
}

/// The edge reached by going forward is on the text, or it is the position
/// that was left.
pub proof fn lemma_edges_forward_on_text(text: Seq<Seq<char>>, edge: WordEdge, p: Index2, n: nat)
    requires
        fits(text),
    ensures
        n == 0 ==> edges_forward(text, edge, p, n) == p,
        n > 0 && text.len() > 0 ==> on_text(text, edges_forward(text, edge, p, n)),
        n > 0 && text.len() == 0 ==> edges_forward(text, edge, p, n) == (Index2 { row: 0, col: 0 }),
    decreases n,
{
    if n > 0 {
        let q = next_edge(text, edge, p);
        if exists|q: Index2| is_next_edge(text, edge, p, q) {
            assert(is_edge(text, edge, q));
        } else if text.len() > 0 {
            assert(text.last() == text[text.len() - 1]);
        }
        lemma_edges_forward_on_text(text, edge, q, (n - 1) as nat);
    }
}

/// The edge reached by going backward is on the text, or it is the position
/// that was left.
pub proof fn lemma_edges_backward_on_text(text: Seq<Seq<char>>, edge: WordEdge, p: Index2, n: nat)
    ensures
        n == 0 ==> edges_backward(text, edge, p, n) == p,
        n > 0 && text.len() > 0 ==> on_text(text, edges_backward(text, edge, p, n)),
        n > 0 && text.len() == 0 ==> edges_backward(text, edge, p, n) == (Index2 { row: 0, col: 0 }),
    decreases n,
{
    if n > 0 {
        let q = previous_edge(text, edge, p);
        if exists|q: Index2| is_previous_edge(text, edge, p, q) {
            assert(is_edge(text, edge, q));
        }
        lemma_edges_backward_on_text(text, edge, q, (n - 1) as nat);
    }
}

/// Every motion leaves the cursor within the limits of the mode.
pub proof fn lemma_motion_in_range<I>(action: Action<I>, s: StateView)
    requires
        sound(s),
        action is MoveForward || action is MoveBackward || action is MoveUp || action is MoveDown
            || action is MoveWordForwardStart || action is MoveWordForwardEnd
            || action is MoveWordBackward || action is MoveToStart || action is MoveToFirst
            || action is MoveToEnd || action is MoveToFirstLine || action is MoveToLastLine
            || action is Append,
    ensures
        sound(action.applied(s)),
{
    let c = clamped(s);
    match action {
        Action::MoveWordForwardStart(a) => {
            lemma_edges_forward_on_text(c.lines, WordEdge::Start, c.cursor, a.0 as nat);
        },
        Action::MoveWordForwardEnd(a) => {
            lemma_edges_forward_on_text(c.lines, WordEdge::End, c.cursor, a.0 as nat);
        },
        Action::MoveWordBackward(a) => {
            lemma_edges_backward_on_text(c.lines, WordEdge::Start, c.cursor, a.0 as nat);
        },
        Action::MoveToFirst(a) => {
            if s.cursor.row < s.lines.len() {
                lemma_next_word_col_in_row(s.lines[s.cursor.row as int], 0);
            }
        },
        _ => {},
    }
}

/// The next column that holds no whitespace is at or after the column the
/// search began at, and at most the length of the row.
pub proof fn lemma_next_word_col_in_row(row: Seq<char>, col: int)
    requires
        0 <= col,
    ensures
        col <= crate::helper::next_word_col(row, col) || row.len() <= col,
        crate::helper::next_word_col(row, col) <= row.len(),
    decreases row.len() - col,
{
    if col < row.len() && crate::helper::is_space(row[col]) {
        lemma_next_word_col_in_row(row, col + 1);
    }
}

/// A line break keeps a position within the limits of the mode.
pub proof fn lemma_line_broken_in_range(text: Seq<Seq<char>>, pos: Index2, mode: EditorMode, k: nat)
    requires
        k >= 2,
        roomy(text, k),
        pos_in_range(text, pos, mode),
    ensures
        roomy(line_broken(text, pos).0, (k - 2) as nat),
        pos_in_range(line_broken(text, pos).0, line_broken(text, pos).1, mode),
        line_broken(text, pos).0.len() > 0,
{
    let ready = with_row(text, 0);
    let (t, p) = line_broken(text, pos);
    let row = pos.row as int;
    let col = if pos.col <= len_col_at(ready, row) {
        pos.col as int
    } else {
        len_col_at(ready, row) as int
    };
    assert(t.len() == ready.len() + 1);
    assert forall|i: int| 0 <= i < ready.len() implies (#[trigger] ready[i]).len() + k
        <= usize::MAX by {
        if i < text.len() {
            assert(ready[i] == text[i]);
        }
    }
    assert forall|i: int| 0 <= i < t.len() implies (#[trigger] t[i]).len() + (k - 2)
        <= usize::MAX by {
        if col == 0 {
            if i < row {
                assert(t[i] == ready[i]);
            } else if i > row {
                assert(t[i] == ready[i - 1]);
            }
        } else {
            if i < row {
                assert(t[i] == ready[i]);
            } else if i > row + 1 {
                assert(t[i] == ready[i - 1]);
            } else {
                assert(ready[row].len() + k <= usize::MAX);
            }
        }
    }
    assert(p.row == row + 1);
    if p.row < t.len() {
        if col == 0 {
            assert(t[p.row as int] == ready[row]);
        }
    }
}

/// Line breaks keep a position within the limits of the mode.
pub proof fn lemma_lines_broken_in_range(
    text: Seq<Seq<char>>,
    pos: Index2,
    mode: EditorMode,
    n: nat,
    k: nat,
)
    requires
        k >= 2 * n,
        roomy(text, k),
        pos_in_range(text, pos, mode),
    ensures
        roomy(lines_broken(text, pos, n).0, (k - 2 * n) as nat),
        pos_in_range(lines_broken(text, pos, n).0, lines_broken(text, pos, n).1, mode),
    decreases n,
{
    if n > 0 {
        lemma_lines_broken_in_range(text, pos, mode, (n - 1) as nat, k);
        let (t, p) = lines_broken(text, pos, (n - 1) as nat);
        lemma_line_broken_in_range(t, p, mode, (k - 2 * (n - 1)) as nat);
    }
}

/// The text and the position after a character was inserted: the position is
/// on the row of the character, behind it or on it.
pub proof fn lemma_char_inserted_on_row(
    text: Seq<Seq<char>>,
    pos: Index2,
    ch: char,
    skip_move: bool,
    k: nat,
)
    requires
        k >= 2,
        roomy(text, k),
    ensures
        ({
            let (t, p) = char_inserted(text, pos, ch, skip_move);
            &&& roomy(t, (k - 2) as nat)
            &&& p.row < t.len()
            &&& p.col <= t[p.row as int].len()
            &&& ch == '\n' ==> p.col == 0
            &&& ch != '\n' ==> p.col >= 1 || skip_move
            &&& ch != '\n' && skip_move ==> p.col < t[p.row as int].len()
            &&& t.len() >= text.len()
        }),
{
    let row = if pos.row <= text.len() {
        pos.row
    } else {
        text.len() as usize
    };
    let ready = with_row(text, row as int);
    assert(roomy(ready, (k - 1) as nat)) by {
        assert forall|i: int| 0 <= i < ready.len() implies (#[trigger] ready[i]).len() + (k - 1)
            <= usize::MAX by {
            if i < text.len() {
                assert(ready[i] == text[i]);
            }
        }
    }
    if ch == '\n' {
        let at = Index2 { row, col: pos.col };
        let (t, p) = line_broken(ready, at);
        let col = if at.col <= len_col_at(ready, row as int) {
            at.col as int
        } else {
            len_col_at(ready, row as int) as int
        };
        assert(t.len() == ready.len() + 1);
        assert forall|i: int| 0 <= i < t.len() implies (#[trigger] t[i]).len() + (k - 2)
            <= usize::MAX by {
            if col == 0 {
                if i < row {
                    assert(t[i] == ready[i]);
                } else if i > row {
                    assert(t[i] == ready[i - 1]);
                }
            } else {
                if i < row {
                    assert(t[i] == ready[i]);
                } else if i > row + 1 {
                    assert(t[i] == ready[i - 1]);
                } else {
                    assert(ready[row as int].len() + (k - 1) <= usize::MAX);
                }
            }
        }
    } else {
        let (t, p) = char_inserted(text, pos, ch, skip_move);
        assert forall|i: int| 0 <= i < t.len() implies (#[trigger] t[i]).len() + (k - 2)
            <= usize::MAX by {
            if i != row {
                assert(t[i] == ready[i]);
            } else {
                assert(ready[row as int].len() + (k - 1) <= usize::MAX);
            }
        }
    }
}

/// The text and the position after characters were inserted: the position is
/// on a row of the text, at most at its end.
pub proof fn lemma_chars_inserted_on_row(text: Seq<Seq<char>>, pos: Index2, s: Seq<char>, k: nat)
    requires
        k >= 2 * s.len(),
        roomy(text, k),
    ensures
        ({
            let (t, p) = chars_inserted(text, pos, s);
            &&& roomy(t, (k - 2 * s.len()) as nat)
            &&& s.len() > 0 ==> p.row < t.len() && p.col <= t[p.row as int].len()
            &&& s.len() > 0 && s.last() != '\n' ==> p.col >= 1
            &&& s.len() == 0 ==> t == text && p == pos
            &&& t.len() >= text.len()
        }),
    decreases s.len(),
{
    if s.len() > 0 {
        lemma_chars_inserted_on_row(text, pos, s.drop_last(), k);
        let (t, p) = chars_inserted(text, pos, s.drop_last());
        lemma_char_inserted_on_row(t, p, s.last(), false, (k - 2 * s.drop_last().len()) as nat);
    }
}

/// A row and a column after characters were removed: a column that was
/// within the limits of the mode still is, and the row has not grown.
pub proof fn lemma_chars_removed_in_range(row: Seq<char>, col: nat, n: nat, on_char: bool)
    requires
        on_char ==> col < row.len() || col == 0,
        !on_char ==> col <= row.len(),
    ensures
        ({
            let (rest, at) = chars_removed(row, col, n);
            &&& rest.len() <= row.len()
            &&& at <= col
            &&& on_char ==> at < rest.len() || at == 0
            &&& !on_char ==> at <= rest.len()
        }),
    decreases n,
{
    if n > 0 && col < row.len() {
        let rest = row.remove(col as int);
        let at: nat = if col < rest.len() {
            col
        } else if rest.len() > 0 {
            (rest.len() - 1) as nat
        } else {
            0
        };
        lemma_chars_removed_in_range(rest, at, (n - 1) as nat, on_char);
    }
}

/// Whether every text on the way of `n` deletions is machine-sized.
pub open spec fn deletions_fit(text: Seq<Seq<char>>, pos: Index2, n: nat) -> bool
    decreases n,
{
    &&& fits(text)
    &&& n > 0 ==> deletions_fit(char_deleted(text, pos).0, char_deleted(text, pos).1, (n - 1) as nat)
}

/// In the modes in which the cursor rests between characters, deletions keep
/// a position within the limits of the mode.
pub proof fn lemma_chars_deleted_in_range(text: Seq<Seq<char>>, pos: Index2, mode: EditorMode, n: nat)
    requires
        !mode.on_char(),
        deletions_fit(text, pos, n),
        pos_in_range(text, pos, mode),
    ensures
        fits(chars_deleted(text, pos, n).0),
        pos_in_range(chars_deleted(text, pos, n).0, chars_deleted(text, pos, n).1, mode),
    decreases n,
{
    if n > 0 {
        let (t, p) = char_deleted(text, pos);
        assert(pos_in_range(t, p, mode)) by {
            let row = pos.row as int;
            let col = pos.col as int;
            if col > 0 {
                assert(t[row].len() == text[row].len() - 1);
            } else if row > 0 {
                if row < text.len() {
                    assert(t[row - 1] == text[row - 1] + text[row]);
                    assert(t.len() == text.len() - 1);
                } else {
                    assert(t == text);
                }
            }
        }
        lemma_chars_deleted_in_range(t, p, mode, (n - 1) as nat);
    }
}

/// The position that an action of the search goes to: the match that it
/// selects, or the cursor where it selects none.
pub open spec fn search_target(s: StateView, index: Option<usize>) -> Index2 {
    match index {
        Some(i) => s.search.matches[i as int],
        None => s.cursor,
    }
}

/// The matches of a search lie on the text that was searched: an action of
/// the search that goes to one of them keeps the cursor within the limits of
/// every mode, as long as the text is the one that was searched.
pub proof fn lemma_matches_on_text(text: Seq<Seq<char>>, pattern: Seq<char>, i: int)
    requires
        fits(text),
        0 <= i < occurrences(text, pattern).len(),
    ensures
        on_text(text, occurrences(text, pattern)[i]),
{
    lemma_occurrences_exact(text, pattern);
    assert(occurs_at(text, pattern, occurrences(text, pattern)[i]));
}

/// Deletions keep the row of a position within the limit of the mode.
pub proof fn lemma_chars_deleted_row(text: Seq<Seq<char>>, pos: Index2, mode: EditorMode, n: nat)
    requires
        deletions_fit(text, pos, n),
        row_in_range(text, pos, mode),
    ensures
        fits(chars_deleted(text, pos, n).0),
        row_in_range(chars_deleted(text, pos, n).0, chars_deleted(text, pos, n).1, mode),
    decreases n,
{
    if n > 0 {
        let (t, p) = char_deleted(text, pos);
        assert(row_in_range(t, p, mode)) by {
            let row = pos.row as int;
            if row > 0 && row < text.len() {
                assert(t.len() >= text.len() - 1);
            }
        }
        lemma_chars_deleted_row(t, p, mode, (n - 1) as nat);
    }
}

/// Whether the text leaves the action the room it takes, within the sizes
/// that the machine can count.
pub open spec fn room<I>(action: Action<I>, s: StateView) -> bool {
    match action {
        Action::InsertChar(a) => roomy(s.lines, 2),
        Action::LineBreak(a) => roomy(s.lines, 2 * a.0 as nat),
        Action::AppendNewline(a) => roomy(s.lines, (a.0 + 1) as nat),
        Action::InsertNewline(a) => roomy(s.lines, a.0 as nat),
        Action::DeleteChar(a) => deletions_fit(s.lines, s.cursor, a.0 as nat),
        Action::DeleteSelection(a) => s.selection is Some ==> fits(
            selection_removed(s.lines, s.selection->0),
        ),
        Action::Paste(a) => match s.selection {
            Some(selection) => roomy(selection_removed(s.lines, selection), 2 * s.clip.len()),
            None => roomy(s.lines, 2 * s.clip.len()),
        },
        _ => true,
    }
}

/// Whether the row of the cursor is within the limit of `mode`.
pub open spec fn row_in_range(text: Seq<Seq<char>>, pos: Index2, mode: EditorMode) -> bool {
    pos.row <= max_row_of(text, mode)
}

/// The inputs on which an action keeps the row of the cursor within the limit
/// of the mode.
///
/// Left out are the inputs on which what the action is leaves no choice: an
/// action that enters a mode and moves no row, run in the row below the text
/// that only insert mode allows; an action of the search that goes to a
/// position kept from a text that has changed since. Left out too are texts
/// too large for the machine to count what the action adds.
pub open spec fn admits<I>(action: Action<I>, s: StateView) -> bool
    decreases action,
{
    &&& room(action, s)
    &&& match action {
        Action::SwitchMode(a) => row_in_range(s.lines, s.cursor, a.0),
        Action::DeleteSelection(a) => s.selection is Some || row_in_range(
            s.lines,
            s.cursor,
            EditorMode::Normal,
        ),
        Action::Paste(a) => s.selection is Some || s.clip.len() > 0 || row_in_range(
            s.lines,
            s.cursor,
            EditorMode::Normal,
        ),
        Action::CopySelection(a) => s.selection is None || row_in_range(
            s.lines,
            s.cursor,
            EditorMode::Normal,
        ),
        Action::Composed(a) => all_admitted(a.0@, s),
        Action::StartSearch(a) => row_in_range(s.lines, s.cursor, EditorMode::Search),
        Action::StopSearch(a) => row_in_range(
            s.lines,
            s.search.start_cursor,
            EditorMode::Normal,
        ),
        Action::TriggerSearch(a) => row_in_range(
            s.lines,
            search_target(s, first_index(s.search)),
            EditorMode::Normal,
        ),
        Action::FindNext(a) => row_in_range(
            s.lines,
            search_target(s, crate::state::search::next_index(s.search)),
            EditorMode::Normal,
        ),
        Action::FindPrevious(a) => row_in_range(
            s.lines,
            search_target(s, crate::state::search::previous_index(s.search)),
            EditorMode::Normal,
        ),
        _ => true,
    }
}

/// Whether each action of a list, run after those before it, is run on an
/// input that it is admitted on.
pub open spec fn all_admitted<I>(actions: Seq<Action<I>>, s: StateView) -> bool
    decreases actions,
{
    actions.len() == 0 || (all_admitted(actions.drop_last(), s) && admits(
        actions.last(),
        all_applied(actions.drop_last(), s),
    ))
}

/// Where a search selects a first match, it is one of the matches.
pub proof fn lemma_first_index_in_matches(v: crate::state::search::SearchView)
    ensures
        first_index(v) is Some <==> v.matches.len() > 0,
        first_index(v) is Some ==> first_index(v)->0 < v.matches.len(),
{
    lemma_first_at_or_after_bounds(v.matches, v.start_cursor);
}

/// The first index at or after a position is an index of the list, or its
/// length.
pub proof fn lemma_first_at_or_after_bounds(matches: Seq<Index2>, from: Index2)
    ensures
        0 <= crate::state::search::first_at_or_after(matches, from) <= matches.len(),
    decreases matches.len(),
{
    if matches.len() > 0 && !from.le(matches[0]) {
        lemma_first_at_or_after_bounds(matches.drop_first(), from);
    }
}

/// After the insertion of a character, a sound state is sound.
proof fn lemma_insert_char_sound(a: crate::actions::InsertChar, s: StateView)
    requires
        sound(s),
        roomy(s.lines, 2),
    ensures
        sound(a.applied(s)),
{
    lemma_capture_sound(s);
    let c = captured(s);
    lemma_char_inserted_on_row(c.lines, c.cursor, a.0, false, 2);
}

/// After line breaks, a sound state is sound.
proof fn lemma_line_break_sound(a: crate::actions::LineBreak, s: StateView)
    requires
        sound(s),
        roomy(s.lines, 2 * a.0 as nat),
    ensures
        sound(a.applied(s)),
{
    lemma_capture_sound(s);
    let c = captured(s);
    lemma_lines_broken_in_range(c.lines, c.cursor, c.mode, a.0 as nat, 2 * a.0 as nat);
}

/// Empty rows inserted into a text leave it machine-sized where there is
/// room for them.
pub proof fn lemma_blank_rows_fit(text: Seq<Seq<char>>, at: int, n: nat)
    requires
        0 <= at <= text.len(),
        roomy(text, n),
    ensures
        fits(blank_rows_inserted(text, at, n)),
        blank_rows_inserted(text, at, n).len() == text.len() + n,
        forall|i: int| at <= i < at + n ==> (#[trigger] blank_rows_inserted(text, at, n)[i]).len() == 0,
        forall|i: int| 0 <= i < at ==> #[trigger] blank_rows_inserted(text, at, n)[i] == text[i],
{
    let t = blank_rows_inserted(text, at, n);
    assert forall|i: int| 0 <= i < t.len() implies (#[trigger] t[i]).len() <= usize::MAX by {
        if i < at {
            assert(t[i] == text[i]);
        } else if i >= at + n {
            assert(t[i] == text[i - n]);
        }
    }
}

/// After rows were inserted below the cursor, a sound state is sound.
proof fn lemma_append_newline_sound(a: crate::actions::AppendNewline, s: StateView)
    requires
        sound(s),
        roomy(s.lines, (a.0 + 1) as nat),
    ensures
        sound(a.applied(s)),
{
    lemma_capture_sound(s);
    let c = captured(s);
    let row = if c.cursor.row <= c.lines.len() {
        c.cursor.row as int
    } else {
        c.lines.len() as int
    };
    let ready = with_row(c.lines, row);
    assert(roomy(ready, a.0 as nat)) by {
        assert forall|i: int| 0 <= i < ready.len() implies (#[trigger] ready[i]).len() + a.0
            <= usize::MAX by {
            if i < c.lines.len() {
                assert(ready[i] == c.lines[i]);
            }
        }
    }
    lemma_blank_rows_fit(ready, row + 1, a.0 as nat);
}

/// After rows were inserted above the cursor, a sound state is sound.
proof fn lemma_insert_newline_sound(a: crate::actions::InsertNewline, s: StateView)
    requires
        sound(s),
        roomy(s.lines, a.0 as nat),
    ensures
        sound(a.applied(s)),
{
    lemma_capture_sound(s);
    let c = captured(s);
    let row = if c.cursor.row <= c.lines.len() {
        c.cursor.row as int
    } else {
        c.lines.len() as int
    };
    lemma_blank_rows_fit(c.lines, row, a.0 as nat);
    let t = blank_rows_inserted(c.lines, row, a.0 as nat);
    if a.0 == 0 {
        assert(t =~= c.lines);
    }
}

/// After the removal of characters under the cursor, a sound state is sound.
proof fn lemma_remove_char_sound(a: crate::actions::RemoveChar, s: StateView)
    requires
        sound(s),
    ensures
        sound(a.applied(s)),
{
    lemma_capture_sound(s);
    let k = clamped(captured(s));
    if k.cursor.row < k.lines.len() {
        lemma_chars_removed_in_range(
            k.lines[k.cursor.row as int],
            k.cursor.col as nat,
            a.0 as nat,
            k.mode.on_char(),
        );
        let r = a.applied(s);
        assert forall|i: int| 0 <= i < r.lines.len() implies (#[trigger] r.lines[i]).len()
            <= usize::MAX by {
            if i != k.cursor.row {
                assert(r.lines[i] == k.lines[i]);
            }
        }
    }
}

/// After the deletion of characters before the cursor, a sound state is sound.
proof fn lemma_delete_char_sound(a: crate::actions::DeleteChar, s: StateView)
    requires
        sound(s),
        deletions_fit(s.lines, s.cursor, a.0 as nat),
    ensures
        sound(a.applied(s)),
{
    lemma_capture_sound(s);
    let c = captured(s);
    lemma_chars_deleted_row(c.lines, c.cursor, c.mode, a.0 as nat);
}

/// After the deletion of rows, a sound state is sound.
proof fn lemma_delete_line_sound(a: crate::actions::DeleteLine, s: StateView)
    requires
        sound(s),
    ensures
        sound(a.applied(s)),
{
    lemma_capture_sound(s);
    let c = captured(s);
    let r = a.applied(s);
    let k = a.removed(s);
    if k > 0 {
        assert forall|i: int| 0 <= i < r.lines.len() implies (#[trigger] r.lines[i]).len()
            <= usize::MAX by {
            if i < c.cursor.row {
                assert(r.lines[i] == c.lines[i]);
            } else {
                assert(r.lines[i] == c.lines[i + k]);
            }
        }
    }
}

/// After the deletion of the selection, a sound state is sound.
proof fn lemma_delete_selection_sound(a: crate::actions::DeleteSelection, s: StateView)
    requires
        sound(s),
        s.selection is Some ==> fits(selection_removed(s.lines, s.selection->0)),
        s.selection is Some || row_in_range(s.lines, s.cursor, EditorMode::Normal),
    ensures
        sound(a.applied(s)),
{
    lemma_capture_sound(s);
}

/// After a paste, a sound state is sound.
proof fn lemma_paste_sound(a: crate::actions::Paste, s: StateView)
    requires
        sound(s),
        match s.selection {
            Some(selection) => roomy(selection_removed(s.lines, selection), 2 * s.clip.len()),
            None => roomy(s.lines, 2 * s.clip.len()),
        },
        s.selection is Some || s.clip.len() > 0 || row_in_range(
            s.lines,
            s.cursor,
            EditorMode::Normal,
        ),
    ensures
        sound(a.applied(s)),
{
    lemma_capture_sound(s);
    let c = clamped(captured(s));
    match c.selection {
        Some(selection) => {
            let t0 = selection_removed(c.lines, selection);
            let at = clamp_pos(c.lines, selection.first());
            if c.clip.len() > 0 {
                lemma_chars_inserted_on_row(t0, at, c.clip.drop_last(), 2 * c.clip.len());
                let (t, p) = chars_inserted(t0, at, c.clip.drop_last());
                lemma_char_inserted_on_row(t, p, c.clip.last(), true, 2);
            }
        },
        None => {
            lemma_chars_inserted_on_row(
                c.lines,
                crate::helper::behind(c.lines, c.cursor),
                c.clip,
                2 * c.clip.len(),
            );
        },
    }
}

/// After the text was searched anew, a sound state is sound.
proof fn lemma_search_anew_sound(s: StateView, pattern: Seq<char>)
    requires
        sound(s),
    ensures
        sound(crate::actions::search::searched(s, pattern)),
{
    lemma_occurrences_exact(s.lines, pattern);
    let found = occurrences(s.lines, pattern);
    let view = crate::state::search::SearchView {
        pattern,
        matches: found,
        selected_index: None,
        ..s.search
    };
    lemma_first_index_in_matches(view);
    if found.len() > 0 {
        let i = first_index(view)->0;
        assert(occurs_at(s.lines, pattern, found[i as int]));
    }
}

/// After the cursor went to a match that lies within the limits, a sound
/// state is sound.
proof fn lemma_find_sound<I>(action: Action<I>, s: StateView)
    requires
        sound(s),
        action is TriggerSearch || action is FindNext || action is FindPrevious,
        admits(action, s),
    ensures
        sound(action.applied(s)),
{
    lemma_first_index_in_matches(s.search);
}

/// Every action of the catalog keeps the cursor within the limits of the
/// mode, on the inputs that it is admitted on: run on a sound state, it
/// leaves a sound state.
#[verifier::spinoff_prover]
#[verifier::rlimit(80)]
pub proof fn lemma_sound_after<I>(action: Action<I>, s: StateView)
    requires
        sound(s),
        admits(action, s),
    ensures
        sound(action.applied(s)),
    decreases action,
{
    match action {
        Action::SwitchMode(a) => {},
        Action::Append(a) => lemma_motion_in_range(action, s),
        Action::MoveForward(a) => lemma_motion_in_range(action, s),
        Action::MoveBackward(a) => lemma_motion_in_range(action, s),
        Action::MoveUp(a) => lemma_motion_in_range(action, s),
        Action::MoveDown(a) => lemma_motion_in_range(action, s),
        Action::MoveWordForwardStart(a) => lemma_motion_in_range(action, s),
        Action::MoveWordForwardEnd(a) => lemma_motion_in_range(action, s),
        Action::MoveWordBackward(a) => lemma_motion_in_range(action, s),
        Action::MoveToStart(a) => lemma_motion_in_range(action, s),
        Action::MoveToFirst(a) => lemma_motion_in_range(action, s),
        Action::MoveToEnd(a) => lemma_motion_in_range(action, s),
        Action::MoveToFirstLine(a) => lemma_motion_in_range(action, s),
        Action::MoveToLastLine(a) => lemma_motion_in_range(action, s),
        Action::InsertChar(a) => lemma_insert_char_sound(a, s),
        Action::LineBreak(a) => lemma_line_break_sound(a, s),
        Action::AppendNewline(a) => lemma_append_newline_sound(a, s),
        Action::InsertNewline(a) => lemma_insert_newline_sound(a, s),
        Action::RemoveChar(a) => lemma_remove_char_sound(a, s),
        Action::DeleteChar(a) => lemma_delete_char_sound(a, s),
        Action::DeleteLine(a) => lemma_delete_line_sound(a, s),
        Action::DeleteSelection(a) => lemma_delete_selection_sound(a, s),
        Action::SelectBetween(a) => {
            if has_between(s.lines, a.0@, s.cursor) {
                assert(is_place(s.lines, s.cursor));
            }
        },
        Action::Undo(a) => {
            if s.undo.len() > 0 {
                let u = action.applied(s);
                assert forall|i: int| 0 <= i < u.redo.len() implies fits(
                    (#[trigger] u.redo[i]).lines,
                ) && pos_in_range(u.redo[i].lines, u.redo[i].cursor, u.redo[i].mode) by {
                    if i < s.redo.len() {
                        assert(u.redo[i] == s.redo[i]);
                    }
                }
                assert forall|i: int| 0 <= i < u.undo.len() implies fits(
                    (#[trigger] u.undo[i]).lines,
                ) && pos_in_range(u.undo[i].lines, u.undo[i].cursor, u.undo[i].mode) by {
                    assert(u.undo[i] == s.undo[i]);
                }
                assert(s.undo.last() == s.undo[s.undo.len() - 1]);
            }
        },
        Action::Redo(a) => {
            if s.redo.len() > 0 {
                let u = action.applied(s);
                assert forall|i: int| 0 <= i < u.undo.len() implies fits(
                    (#[trigger] u.undo[i]).lines,
                ) && pos_in_range(u.undo[i].lines, u.undo[i].cursor, u.undo[i].mode) by {
                    if i < s.undo.len() {
                        assert(u.undo[i] == s.undo[i]);
                    }
                }
                assert forall|i: int| 0 <= i < u.redo.len() implies fits(
                    (#[trigger] u.redo[i]).lines,
                ) && pos_in_range(u.redo[i].lines, u.redo[i].cursor, u.redo[i].mode) by {
                    assert(u.redo[i] == s.redo[i]);
                }
                assert(s.redo.last() == s.redo[s.redo.len() - 1]);
            }
        },
        Action::Paste(a) => lemma_paste_sound(a, s),
        Action::CopySelection(a) => {},
        Action::Composed(a) => lemma_sound_after_all(a.0@, s),
        Action::StartSearch(a) => {},
        Action::StopSearch(a) => {},
        Action::TriggerSearch(a) => lemma_find_sound(action, s),
        Action::FindNext(a) => lemma_find_sound(action, s),
        Action::FindPrevious(a) => lemma_find_sound(action, s),
        Action::AppendCharToSearch(a) => lemma_search_anew_sound(s, s.search.pattern.push(a.0)),
        Action::RemoveCharFromSearch(a) => lemma_search_anew_sound(
            s,
            crate::actions::RemoveCharFromSearch::shortened(s.search.pattern),
        ),
        Action::Custom(a) => {},
    }
}

/// A list of actions, each run on an input that it is admitted on, leaves a
/// sound state sound.
pub proof fn lemma_sound_after_all<I>(actions: Seq<Action<I>>, s: StateView)
    requires
        sound(s),
        all_admitted(actions, s),
    ensures
        sound(all_applied(actions, s)),
    decreases actions,
{
    if actions.len() > 0 {
        lemma_sound_after_all(actions.drop_last(), s);
        lemma_sound_after(actions.last(), all_applied(actions.drop_last(), s));
    }
}

/// The row limit: every action of the catalog keeps the row of the cursor
/// within the limit of the mode, on the inputs that [`admits`] does not
/// leave out.
pub proof fn lemma_row_after<I>(action: Action<I>, s: StateView)
    requires
        sound(s),
        admits(action, s),
    ensures
        row_in_range(action.applied(s).lines, action.applied(s).cursor, action.applied(s).mode),
{
    lemma_sound_after(action, s);
}

/// The column limit: every action of the catalog keeps the column of the
/// cursor within the limit of the mode it leaves the editor in. No input is
/// left out but texts too large for the machine to count what the action
/// adds; a list of actions is held to [`admits`] for the rows of the states
/// on its way.
#[verifier::spinoff_prover]
#[verifier::rlimit(60)]
pub proof fn lemma_column_after<I>(action: Action<I>, s: StateView)
    requires
        sound(s),
        room(action, s),
        action is Composed ==> admits(action, s),
    ensures
        column_in_range(action.applied(s)),
{
    match action {
        Action::SwitchMode(a) => {},
        Action::DeleteSelection(a) => {
            let c = captured(s);
            match c.selection {
                Some(selection) => {
                    if c.lines.len() > 0 {
                        let from = clamp_pos(c.lines, selection.first());
                        assert(from.row < selection_removed(c.lines, selection).len());
                    }
                },
                None => {},
            }
        },
        Action::Paste(a) => {
            let c = clamped(captured(s));
            match c.selection {
                Some(selection) => {
                    let t0 = selection_removed(c.lines, selection);
                    let at = clamp_pos(c.lines, selection.first());
                    if c.clip.len() > 0 {
                        lemma_chars_inserted_on_row(t0, at, c.clip.drop_last(), 2 * c.clip.len());
                        let (t, p) = chars_inserted(t0, at, c.clip.drop_last());
                        lemma_char_inserted_on_row(t, p, c.clip.last(), true, 2);
                    }
                },
                None => {
                    lemma_chars_inserted_on_row(
                        c.lines,
                        crate::helper::behind(c.lines, c.cursor),
                        c.clip,
                        2 * c.clip.len(),
                    );
                },
            }
        },
        Action::CopySelection(a) => {},
        Action::StartSearch(a) => {},
        Action::StopSearch(a) => {},
        Action::TriggerSearch(a) => {},
        Action::FindNext(a) => {},
        Action::FindPrevious(a) => {},
        _ => {
            assert(admits(action, s));
            lemma_sound_after(action, s);
        },
    }
}

/// The inputs on which an action that leads from `before` to `after` keeps
/// the cursor within the limits of the mode: those that [`admits`] does not
/// leave out, [`Paste`](crate::actions::Paste) being held to the string that
/// the clipboard returned. A list of actions that asks the clipboard is not
/// spoken of.
pub open spec fn admits_on_the_way<I>(action: Action<I>, before: StateView, after: StateView) -> bool {
    match action {
        Action::Paste(a) => admits(action, read_into(before, after)),
        _ => !reads_clipboard(action) && admits(action, before),
    }
}

/// Wherever an action leads from a sound state, on the inputs that it is
/// admitted on, the state is sound.
pub proof fn lemma_sound_where_led<I>(
    action: Action<I>,
    before: StateView,
    after: StateView,
    told: Seq<Notice>,
    told_after: Seq<Notice>,
)
    requires
        sound(before),
        action.leads(before, after, told, told_after),
        admits_on_the_way(action, before, after),
    ensures
        sound(after),
{
    match action {
        Action::Paste(a) => {
            lemma_sound_after(action, read_into(before, after));
        },
        _ => {
            lemma_leads_exactly(action, before, after, told, told_after);
            lemma_sound_after(action, before);
        },
    }
}

/// A key that the command line takes keeps a sound state sound, whatever it
/// leaves on the line.
pub proof fn lemma_sound_after_taken(s: StateView, line: Seq<char>, mode: EditorMode)
    requires
        sound(s),
        s.mode == EditorMode::Normal || s.mode == EditorMode::Command,
        mode == EditorMode::Normal || mode == EditorMode::Command,
    ensures
        sound(entered(StateView { command: line, ..s }, mode)),
{
}

/// The limits over keys that run no action of the catalog: a key that the
/// command line takes, whatever it leaves on the line, and a key that is
/// typed because no binding begins with it keep the row and the column of the
/// cursor within the limits of the mode that the editor is in afterwards. A
/// key that ends a bound sequence runs the action bound to it, of which
/// [`lemma_row_after`] and [`lemma_column_after`] speak.
pub proof fn lemma_limits_after_key(s: StateView, line: Seq<char>, key: Key)
    requires
        sound(s),
        roomy(s.lines, 2),
    ensures
        takes_key(s.mode, key) ==> cursor_in_range(
            entered(StateView { command: line, ..s }, EditorMode::Command),
        ) && cursor_in_range(entered(StateView { command: line, ..s }, EditorMode::Normal)),
        cursor_in_range(typed(s, key)),
{
    match (s.mode, key) {
        (EditorMode::Insert, Key::Char(c)) => {
            let action: Action<()> = Action::InsertChar(crate::actions::InsertChar(c));
            lemma_sound_after(action, s);
        },
        (EditorMode::Search, Key::Char(c)) => {
            let action: Action<()> = Action::AppendCharToSearch(
                crate::actions::AppendCharToSearch(c),
            );
            lemma_sound_after(action, s);
        },
        _ => {},
    }
}

/// Whether both ends of the selection, if there is one, are within the limits
/// that the mode sets for the cursor.
pub open spec fn selection_in_range(s: StateView) -> bool {
    s.selection is Some ==> pos_in_range(s.lines, s.selection->0.start, s.mode) && pos_in_range(
        s.lines,
        s.selection->0.end,
        s.mode,
    )
}

/// The ends of a selection, taken in row-major order, are in order.
pub proof fn lemma_selection_ordered(selection: Selection)
    ensures
        selection.first().le(selection.last()),
{
}

/// The inputs on which an action keeps the ends of the selection within the
/// limits of the mode.
///
/// Left out are the inputs on which it may not: an action that changes the
/// text, or restores an earlier text, does not move a selection along, and a
/// change of mode carries a selection into the limits of the new mode as it
/// is.
pub open spec fn admits_selection<I>(action: Action<I>, s: StateView) -> bool
    decreases action,
{
    match action {
        Action::SwitchMode(a) => a.0 == EditorMode::Normal || a.0 == EditorMode::Visual
            || selection_in_range(StateView { mode: a.0, ..s }),
        Action::InsertChar(a) => s.selection is None,
        Action::LineBreak(a) => s.selection is None,
        Action::AppendNewline(a) => s.selection is None,
        Action::InsertNewline(a) => s.selection is None,
        Action::RemoveChar(a) => s.selection is None,
        Action::DeleteChar(a) => s.selection is None,
        Action::DeleteLine(a) => s.selection is None,
        Action::Undo(a) => s.selection is None,
        Action::Redo(a) => s.selection is None,
        Action::Composed(a) => all_admitted_selection(a.0@, s),
        Action::StartSearch(a) => selection_in_range(StateView { mode: EditorMode::Search, ..s }),
        Action::StopSearch(a) => selection_in_range(StateView { mode: EditorMode::Normal, ..s }),
        Action::TriggerSearch(a) => selection_in_range(StateView { mode: EditorMode::Normal, ..s }),
        Action::FindNext(a) => selection_in_range(StateView { mode: EditorMode::Normal, ..s }),
        Action::FindPrevious(a) => selection_in_range(StateView { mode: EditorMode::Normal, ..s }),
        _ => true,
    }
}

/// Whether each action of a list, run after those before it, is run on an
/// input on which it keeps the cursor and the selection within their limits.
pub open spec fn all_admitted_selection<I>(actions: Seq<Action<I>>, s: StateView) -> bool
    decreases actions,
{
    actions.len() == 0 || (all_admitted_selection(actions.drop_last(), s) && admits(
        actions.last(),
        all_applied(actions.drop_last(), s),
    ) && admits_selection(actions.last(), all_applied(actions.drop_last(), s)))
}

/// The places around the delimiters that enclose a cursor lie on the text.
pub proof fn lemma_between_on_text(
    text: Seq<Seq<char>>,
    pairs: Seq<(char, char)>,
    cursor: Index2,
    selection: Selection,
)
    requires
        fits(text),
        is_place(text, cursor),
        is_between(text, pairs, cursor, selection),
    ensures
        on_text(text, selection.start),
        on_text(text, selection.end),
{
    let (open, close) = choose|open: Index2, close: Index2|
        {
            &&& is_first_open(text, pairs, cursor, open)
            &&& is_last_close(text, pairs, cursor, close)
            &&& selection.end == if open == cursor {
                cursor
            } else {
                place_before(text, open)
            }
            &&& selection.start == if close == cursor {
                cursor
            } else {
                place_behind(text, close)
            }
        };
    if open != cursor {
        assert(cursor.lt(open));
    }
    if close != cursor {
        assert(close.lt(cursor));
    }
}

/// A motion keeps the ends of the selection within the limits of the mode.
proof fn lemma_motion_selection<I>(action: Action<I>, s: StateView)
    requires
        sound(s),
        selection_in_range(s),
        action is MoveForward || action is MoveBackward || action is MoveUp || action is MoveDown
            || action is MoveWordForwardStart || action is MoveWordForwardEnd
            || action is MoveWordBackward || action is MoveToStart || action is MoveToFirst
            || action is MoveToEnd || action is MoveToFirstLine || action is MoveToLastLine
            || action is Append,
    ensures
        selection_in_range(action.applied(s)),
{
    lemma_motion_in_range(action, s);
}

/// Every action of the catalog keeps the ends of the selection within the
/// limits of the mode, on the inputs that it is admitted on.
#[verifier::spinoff_prover]
#[verifier::rlimit(60)]
pub proof fn lemma_selection_after<I>(action: Action<I>, s: StateView)
    requires
        sound(s),
        selection_in_range(s),
        admits(action, s),
        admits_selection(action, s),
    ensures
        sound(action.applied(s)),
        selection_in_range(action.applied(s)),
    decreases action,
{
    lemma_sound_after(action, s);
    match action {
        Action::Append(a) => lemma_motion_selection(action, s),
        Action::MoveForward(a) => lemma_motion_selection(action, s),
        Action::MoveBackward(a) => lemma_motion_selection(action, s),
        Action::MoveUp(a) => lemma_motion_selection(action, s),
        Action::MoveDown(a) => lemma_motion_selection(action, s),
        Action::MoveWordForwardStart(a) => lemma_motion_selection(action, s),
        Action::MoveWordForwardEnd(a) => lemma_motion_selection(action, s),
        Action::MoveWordBackward(a) => lemma_motion_selection(action, s),
        Action::MoveToStart(a) => lemma_motion_selection(action, s),
        Action::MoveToFirst(a) => lemma_motion_selection(action, s),
        Action::MoveToEnd(a) => lemma_motion_selection(action, s),
        Action::MoveToFirstLine(a) => lemma_motion_selection(action, s),
        Action::MoveToLastLine(a) => lemma_motion_selection(action, s),
        Action::SelectBetween(a) => {
            if has_between(s.lines, a.0@, s.cursor) {
                let chosen = choose|selection: Selection|
                    is_between(s.lines, a.0@, s.cursor, selection);
                lemma_between_on_text(s.lines, a.0@, s.cursor, chosen);
            }
        },
        Action::Composed(a) => lemma_selection_after_all(a.0@, s),
        Action::AppendCharToSearch(a) => {},
        Action::RemoveCharFromSearch(a) => {},
        _ => {},
    }
}

/// A list of actions, each run on an input that it is admitted on, keeps the
/// cursor and the ends of the selection within the limits of the mode.
pub proof fn lemma_selection_after_all<I>(actions: Seq<Action<I>>, s: StateView)
    requires
        sound(s),
        selection_in_range(s),
        all_admitted_selection(actions, s),
    ensures
        sound(all_applied(actions, s)),
        selection_in_range(all_applied(actions, s)),
    decreases actions,
{
    if actions.len() > 0 {
        lemma_selection_after_all(actions.drop_last(), s);
        lemma_selection_after(actions.last(), all_applied(actions.drop_last(), s));
    }
}

/// Whether the cursor of a state is within the text: at most in the row
/// below the last, and at most one column past the end of its row. These are
/// the limits of insert mode, the widest of all modes.
pub open spec fn cursor_in_text(s: StateView) -> bool {
    pos_in_range(s.lines, s.cursor, EditorMode::Insert)
}

/// Whether every snapshot of a stack holds a cursor within its own text.
pub open spec fn snapshots_in_text(stack: Seq<SnapshotView>) -> bool {
    forall|i: int|
        0 <= i < stack.len() ==> fits((#[trigger] stack[i]).lines) && pos_in_range(
            stack[i].lines,
            stack[i].cursor,
            EditorMode::Insert,
        )
}

/// Whether a state is safe: its text is machine-sized, its cursor is within
/// the text, and so is the cursor of every snapshot on its stacks.
pub open spec fn safe(s: StateView) -> bool {
    &&& fits(s.lines)
    &&& cursor_in_text(s)
    &&& snapshots_in_text(s.undo)
    &&& snapshots_in_text(s.redo)
}

/// The inputs on which an action keeps the cursor within the text.
///
/// Left out are texts too large for the machine to count what the action
/// adds, and the positions that a search has kept from a text that has
/// changed since: the actions of the search go to them as they are.
pub open spec fn admits_in_text<I>(action: Action<I>, s: StateView) -> bool
    decreases action,
{
    &&& room(action, s)
    &&& match action {
        Action::Composed(a) => all_admitted_in_text(a.0@, s),
        Action::StopSearch(a) => pos_in_range(s.lines, s.search.start_cursor, EditorMode::Insert),
        Action::TriggerSearch(a) => pos_in_range(
            s.lines,
            search_target(s, first_index(s.search)),
            EditorMode::Insert,
        ),
        Action::FindNext(a) => pos_in_range(
            s.lines,
            search_target(s, crate::state::search::next_index(s.search)),
            EditorMode::Insert,
        ),
        Action::FindPrevious(a) => pos_in_range(
            s.lines,
            search_target(s, crate::state::search::previous_index(s.search)),
            EditorMode::Insert,
        ),
        _ => true,
    }
}

/// Whether each action of a list, run after those before it, is run on an
/// input on which it keeps the cursor within the text.
pub open spec fn all_admitted_in_text<I>(actions: Seq<Action<I>>, s: StateView) -> bool
    decreases actions,
{
    actions.len() == 0 || (all_admitted_in_text(actions.drop_last(), s) && admits_in_text(
        actions.last(),
        all_applied(actions.drop_last(), s),
    ))
}

/// A capture keeps a safe state safe.
pub proof fn lemma_capture_safe(s: StateView)
    requires
        safe(s),
    ensures
        safe(captured(s)),
{
    let c = captured(s);
    assert forall|i: int| 0 <= i < c.undo.len() implies fits((#[trigger] c.undo[i]).lines)
        && pos_in_range(c.undo[i].lines, c.undo[i].cursor, EditorMode::Insert) by {
        if i < s.undo.len() {
            assert(c.undo[i] == s.undo[i]);
        }
    }
}

/// Every motion leaves the cursor within the text.
proof fn lemma_motion_safe<I>(action: Action<I>, s: StateView)
    requires
        safe(s),
        action is MoveForward || action is MoveBackward || action is MoveUp || action is MoveDown
            || action is MoveWordForwardStart || action is MoveWordForwardEnd
            || action is MoveWordBackward || action is MoveToStart || action is MoveToFirst
            || action is MoveToEnd || action is MoveToFirstLine || action is MoveToLastLine
            || action is Append || action is SwitchMode,
    ensures
        safe(action.applied(s)),
{
    let c = clamped(s);
    match action {
        Action::MoveWordForwardStart(a) => {
            lemma_edges_forward_on_text(c.lines, WordEdge::Start, c.cursor, a.0 as nat);
        },
        Action::MoveWordForwardEnd(a) => {
            lemma_edges_forward_on_text(c.lines, WordEdge::End, c.cursor, a.0 as nat);
        },
        Action::MoveWordBackward(a) => {
            lemma_edges_backward_on_text(c.lines, WordEdge::Start, c.cursor, a.0 as nat);
        },
        Action::MoveToFirst(a) => {
            if s.cursor.row < s.lines.len() {
                lemma_next_word_col_in_row(s.lines[s.cursor.row as int], 0);
            }
        },
        _ => {},
    }
}

/// After an insertion, a safe state is safe.
proof fn lemma_insert_safe<I>(action: Action<I>, s: StateView)
    requires
        safe(s),
        admits_in_text(action, s),
        action is InsertChar || action is LineBreak || action is AppendNewline
            || action is InsertNewline,
    ensures
        safe(action.applied(s)),
{
    lemma_capture_safe(s);
    let c = captured(s);
    match action {
        Action::InsertChar(a) => {
            lemma_char_inserted_on_row(c.lines, c.cursor, a.0, false, 2);
        },
        Action::LineBreak(a) => {
            lemma_lines_broken_in_range(
                c.lines,
                c.cursor,
                EditorMode::Insert,
                a.0 as nat,
                2 * a.0 as nat,
            );
        },
        Action::AppendNewline(a) => {
            let row = if c.cursor.row <= c.lines.len() {
                c.cursor.row as int
            } else {
                c.lines.len() as int
            };
            let ready = with_row(c.lines, row);
            assert(roomy(ready, a.0 as nat)) by {
                assert forall|i: int| 0 <= i < ready.len() implies (#[trigger] ready[i]).len()
                    + a.0 <= usize::MAX by {
                    if i < c.lines.len() {
                        assert(ready[i] == c.lines[i]);
                    }
                }
            }
            lemma_blank_rows_fit(ready, row + 1, a.0 as nat);
        },
        Action::InsertNewline(a) => {
            let row = if c.cursor.row <= c.lines.len() {
                c.cursor.row as int
            } else {
                c.lines.len() as int
            };
            lemma_blank_rows_fit(c.lines, row, a.0 as nat);
            if a.0 == 0 {
                assert(blank_rows_inserted(c.lines, row, 0) =~= c.lines);
            }
        },
        _ => {},
    }
}

/// After a deletion, a safe state is safe.
proof fn lemma_delete_safe<I>(action: Action<I>, s: StateView)
    requires
        safe(s),
        admits_in_text(action, s),
        action is RemoveChar || action is DeleteChar || action is DeleteLine
            || action is DeleteSelection,
    ensures
        safe(action.applied(s)),
{
    lemma_capture_safe(s);
    let c = captured(s);
    match action {
        Action::RemoveChar(a) => {
            let k = clamped(c);
            if k.cursor.row < k.lines.len() {
                lemma_chars_removed_in_range(
                    k.lines[k.cursor.row as int],
                    k.cursor.col as nat,
                    a.0 as nat,
                    k.mode.on_char(),
                );
                let r = a.applied(s);
                assert forall|i: int| 0 <= i < r.lines.len() implies (#[trigger] r.lines[i]).len()
                    <= usize::MAX by {
                    if i != k.cursor.row {
                        assert(r.lines[i] == k.lines[i]);
                    }
                }
            }
        },
        Action::DeleteChar(a) => {
            lemma_chars_deleted_in_range(c.lines, c.cursor, EditorMode::Insert, a.0 as nat);
        },
        Action::DeleteLine(a) => {
            let r = a.applied(s);
            let k = a.removed(s);
            if k > 0 {
                assert forall|i: int| 0 <= i < r.lines.len() implies (#[trigger] r.lines[i]).len()
                    <= usize::MAX by {
                    if i < c.cursor.row {
                        assert(r.lines[i] == c.lines[i]);
                    } else {
                        assert(r.lines[i] == c.lines[i + k]);
                    }
                }
            }
        },
        Action::DeleteSelection(a) => {
            match c.selection {
                Some(selection) => {
                    if c.lines.len() > 0 {
                        let from = clamp_pos(c.lines, selection.first());
                        let to = clamp_pos(c.lines, selection.last());
                        let t = selection_removed(c.lines, selection);
                        assert(t[from.row as int] == c.lines[from.row as int].take(from.col as int)
                            + c.lines[to.row as int].skip(span_stop(c.lines, to)));
                    }
                },
                None => {},
            }
        },
        _ => {},
    }
}

/// After a paste, a safe state is safe.
proof fn lemma_paste_safe(a: crate::actions::Paste, s: StateView)
    requires
        safe(s),
        match s.selection {
            Some(selection) => roomy(selection_removed(s.lines, selection), 2 * s.clip.len()),
            None => roomy(s.lines, 2 * s.clip.len()),
        },
    ensures
        safe(a.applied(s)),
{
    lemma_capture_safe(s);
    let c = clamped(captured(s));
    match c.selection {
        Some(selection) => {
            let t0 = selection_removed(c.lines, selection);
            let at = clamp_pos(c.lines, selection.first());
            if c.clip.len() > 0 {
                lemma_chars_inserted_on_row(t0, at, c.clip.drop_last(), 2 * c.clip.len());
                let (t, p) = chars_inserted(t0, at, c.clip.drop_last());
                lemma_char_inserted_on_row(t, p, c.clip.last(), true, 2);
            } else if c.lines.len() > 0 {
                let to = clamp_pos(c.lines, selection.last());
                assert(t0[at.row as int] == c.lines[at.row as int].take(at.col as int)
                    + c.lines[to.row as int].skip(span_stop(c.lines, to)));
            }
        },
        None => {
            lemma_chars_inserted_on_row(
                c.lines,
                crate::helper::behind(c.lines, c.cursor),
                c.clip,
                2 * c.clip.len(),
            );
        },
    }
}

/// After an undo or a redo, a safe state is safe.
proof fn lemma_restore_safe<I>(action: Action<I>, s: StateView)
    requires
        safe(s),
        action is Undo || action is Redo,
    ensures
        safe(action.applied(s)),
{
    let u = action.applied(s);
    if action is Undo && s.undo.len() > 0 {
        assert forall|i: int| 0 <= i < u.redo.len() implies fits((#[trigger] u.redo[i]).lines)
            && pos_in_range(u.redo[i].lines, u.redo[i].cursor, EditorMode::Insert) by {
            if i < s.redo.len() {
                assert(u.redo[i] == s.redo[i]);
            }
        }
        assert forall|i: int| 0 <= i < u.undo.len() implies fits((#[trigger] u.undo[i]).lines)
            && pos_in_range(u.undo[i].lines, u.undo[i].cursor, EditorMode::Insert) by {
            assert(u.undo[i] == s.undo[i]);
        }
        assert(s.undo.last() == s.undo[s.undo.len() - 1]);
    }
    if action is Redo && s.redo.len() > 0 {
        assert forall|i: int| 0 <= i < u.undo.len() implies fits((#[trigger] u.undo[i]).lines)
            && pos_in_range(u.undo[i].lines, u.undo[i].cursor, EditorMode::Insert) by {
            if i < s.undo.len() {
                assert(u.undo[i] == s.undo[i]);
            }
        }
        assert forall|i: int| 0 <= i < u.redo.len() implies fits((#[trigger] u.redo[i]).lines)
            && pos_in_range(u.redo[i].lines, u.redo[i].cursor, EditorMode::Insert) by {
            assert(u.redo[i] == s.redo[i]);
        }
        assert(s.redo.last() == s.redo[s.redo.len() - 1]);
    }
}

/// After the text was searched anew, a safe state is safe.
proof fn lemma_search_anew_safe(s: StateView, pattern: Seq<char>)
    requires
        safe(s),
    ensures
        safe(crate::actions::search::searched(s, pattern)),
{
    lemma_occurrences_exact(s.lines, pattern);
    let found = occurrences(s.lines, pattern);
    let view = crate::state::search::SearchView {
        pattern,
        matches: found,
        selected_index: None,
        ..s.search
    };
    lemma_first_index_in_matches(view);
    if found.len() > 0 {
        let i = first_index(view)->0;
        assert(occurs_at(s.lines, pattern, found[i as int]));
    }
}

/// Every action of the catalog keeps the cursor within the text, whatever
/// the mode: run on a safe state, it leaves a safe state.
#[verifier::spinoff_prover]
#[verifier::rlimit(80)]
pub proof fn lemma_safe_after<I>(action: Action<I>, s: StateView)
    requires
        safe(s),
        admits_in_text(action, s),
    ensures
        safe(action.applied(s)),
    decreases action,
{
    match action {
        Action::SwitchMode(a) => lemma_motion_safe(action, s),
        Action::Append(a) => lemma_motion_safe(action, s),
        Action::MoveForward(a) => lemma_motion_safe(action, s),
        Action::MoveBackward(a) => lemma_motion_safe(action, s),
        Action::MoveUp(a) => lemma_motion_safe(action, s),
        Action::MoveDown(a) => lemma_motion_safe(action, s),
        Action::MoveWordForwardStart(a) => lemma_motion_safe(action, s),
        Action::MoveWordForwardEnd(a) => lemma_motion_safe(action, s),
        Action::MoveWordBackward(a) => lemma_motion_safe(action, s),
        Action::MoveToStart(a) => lemma_motion_safe(action, s),
        Action::MoveToFirst(a) => lemma_motion_safe(action, s),
        Action::MoveToEnd(a) => lemma_motion_safe(action, s),
        Action::MoveToFirstLine(a) => lemma_motion_safe(action, s),
        Action::MoveToLastLine(a) => lemma_motion_safe(action, s),
        Action::InsertChar(a) => lemma_insert_safe(action, s),
        Action::LineBreak(a) => lemma_insert_safe(action, s),
        Action::AppendNewline(a) => lemma_insert_safe(action, s),
        Action::InsertNewline(a) => lemma_insert_safe(action, s),
        Action::RemoveChar(a) => lemma_delete_safe(action, s),
        Action::DeleteChar(a) => lemma_delete_safe(action, s),
        Action::DeleteLine(a) => lemma_delete_safe(action, s),
        Action::DeleteSelection(a) => lemma_delete_safe(action, s),
        Action::SelectBetween(a) => {},
        Action::Undo(a) => lemma_restore_safe(action, s),
        Action::Redo(a) => lemma_restore_safe(action, s),
        Action::Paste(a) => lemma_paste_safe(a, s),
        Action::CopySelection(a) => {},
        Action::Composed(a) => lemma_safe_after_all(a.0@, s),
        Action::StartSearch(a) => {},
        Action::StopSearch(a) => {},
        Action::TriggerSearch(a) => lemma_first_index_in_matches(s.search),
        Action::FindNext(a) => {},
        Action::FindPrevious(a) => {},
        Action::AppendCharToSearch(a) => lemma_search_anew_safe(s, s.search.pattern.push(a.0)),
        Action::RemoveCharFromSearch(a) => lemma_search_anew_safe(
            s,
            crate::actions::RemoveCharFromSearch::shortened(s.search.pattern),
        ),
        Action::Custom(a) => {},
    }
}

/// A list of actions, each run on an input that it is admitted on, keeps the
/// cursor within the text.
pub proof fn lemma_safe_after_all<I>(actions: Seq<Action<I>>, s: StateView)
    requires
        safe(s),
        all_admitted_in_text(actions, s),
    ensures
        safe(all_applied(actions, s)),
    decreases actions,
{
    if actions.len() > 0 {
        lemma_safe_after_all(actions.drop_last(), s);
        lemma_safe_after(actions.last(), all_applied(actions.drop_last(), s));
    }
}

} // verus!
