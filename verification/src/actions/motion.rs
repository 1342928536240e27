//! Actions that move the cursor.
use crate::actions::Execute;
use crate::helper::{
    clamp_column, clamped, clamped_col, first_word_col, is_space, is_whitespace, max_col,
    max_col_of, max_row, max_row_of, reselected, set_selection, skip_whitespace,
};
use crate::index::Index2;
use crate::lines::{lines_len, lines_len_col, lines_row, rows, Lines};
use crate::state::mode::EditorMode;
use crate::state::{EditorState, StateView};
use vstd::prelude::*;

verus! {

/// The state with its cursor at `cursor`. In visual mode the selection
/// follows: its end moves to the cursor.
pub open spec fn moved(s: StateView, cursor: Index2) -> StateView {
    StateView {
        cursor,
        selection: if s.mode == EditorMode::Visual {
            reselected(s.selection, cursor)
        } else {
            s.selection
        },
        ..s
    }
}

/// Puts the cursor at `cursor` and lets the selection follow in visual mode.
pub fn move_to(state: &mut EditorState, cursor: Index2)
    ensures
        final(state)@ == moved(old(state)@, cursor),
        final(state).highlighter == old(state).highlighter,
        old(state).wf() ==> final(state).wf(),
{
    state.cursor = cursor;
    if state.mode == EditorMode::Visual {
        set_selection(&mut state.selection, cursor);
    }
}

/// Move the cursor right by a number of columns.
#[derive(Clone, Copy, Debug, PartialEq, Eq)]
pub struct MoveForward(pub usize);

impl Execute for MoveForward {
    /// The column grows by the count and stops at the last column of the row.
    open spec fn applied(&self, s: StateView) -> StateView {
        let c = clamped(s);
        let max = max_col_of(c.lines, c.cursor.row as int, c.mode);
        moved(
            c,
            Index2 {
                row: c.cursor.row,
                col: if c.cursor.col + self.0 <= max {
                    (c.cursor.col + self.0) as usize
                } else {
                    max as usize
                },
            },
        )
    }

    fn execute(&self, state: &mut EditorState) {
        clamp_column(state);
        let max = max_col(&state.lines, &state.cursor, state.mode);
        let col = if self.0 <= max - state.cursor.col {
            state.cursor.col + self.0
        } else {
            max
        };
        move_to(state, Index2 { row: state.cursor.row, col });
    }
}

/// Move the cursor left by a number of columns.
#[derive(Clone, Copy, Debug, PartialEq, Eq)]
pub struct MoveBackward(pub usize);

impl Execute for MoveBackward {
    /// The column shrinks by the count and stops at column zero.
    open spec fn applied(&self, s: StateView) -> StateView {
        let c = clamped(s);
        moved(
            c,
            Index2 {
                row: c.cursor.row,
                col: if c.cursor.col >= self.0 {
                    (c.cursor.col - self.0) as usize
                } else {
                    0
                },
            },
        )
    }

    fn execute(&self, state: &mut EditorState) {
        clamp_column(state);
        let col = if state.cursor.col >= self.0 {
            state.cursor.col - self.0
        } else {
            0
        };
        move_to(state, Index2 { row: state.cursor.row, col });
    }
}

/// Move the cursor up by a number of rows.
#[derive(Clone, Copy, Debug, PartialEq, Eq)]
pub struct MoveUp(pub usize);

impl Execute for MoveUp {
    /// The row shrinks by the count and stops at row zero; the column is
    /// clamped to the row reached.
    open spec fn applied(&self, s: StateView) -> StateView {
        let row = if s.cursor.row >= self.0 {
            (s.cursor.row - self.0) as usize
        } else {
            0
        };
        moved(s, Index2 { row, col: clamped_col(s.lines, Index2 { row, col: s.cursor.col }, s.mode) })
    }

    fn execute(&self, state: &mut EditorState) {
        let row = if state.cursor.row >= self.0 {
            state.cursor.row - self.0
        } else {
            0
        };
        let target = Index2 { row, col: state.cursor.col };
        let max = max_col(&state.lines, &target, state.mode);
        let col = if target.col > max {
            max
        } else {
            target.col
        };
        move_to(state, Index2 { row, col });
    }
}

/// Move the cursor down by a number of rows.
#[derive(Clone, Copy, Debug, PartialEq, Eq)]
pub struct MoveDown(pub usize);

impl Execute for MoveDown {
    /// The row grows by the count and stops at the last row the mode allows;
    /// the column is clamped to the row reached.
    open spec fn applied(&self, s: StateView) -> StateView {
        let max = max_row_of(s.lines, s.mode);
        let row = if s.cursor.row + self.0 <= max {
            (s.cursor.row + self.0) as usize
        } else {
            max as usize
        };
        moved(s, Index2 { row, col: clamped_col(s.lines, Index2 { row, col: s.cursor.col }, s.mode) })
    }

    fn execute(&self, state: &mut EditorState) {
        let max_row = max_row(state);
        let row = if state.cursor.row <= max_row && self.0 <= max_row - state.cursor.row {
            state.cursor.row + self.0
        } else {
            max_row
        };
        let target = Index2 { row, col: state.cursor.col };
        let max = max_col(&state.lines, &target, state.mode);
        let col = if target.col > max {
            max
        } else {
            target.col
        };
        move_to(state, Index2 { row, col });
    }
}

/// Move the cursor to the start of the line.
#[derive(Clone, Copy, Debug, PartialEq, Eq)]
pub struct MoveToStart();

impl Execute for MoveToStart {
    open spec fn applied(&self, s: StateView) -> StateView {
        moved(s, Index2 { row: s.cursor.row, col: 0 })
    }

    fn execute(&self, state: &mut EditorState) {
        move_to(state, Index2 { row: state.cursor.row, col: 0 });
    }
}

/// Move the cursor to the first character of the line that is no whitespace.
#[derive(Clone, Copy, Debug, PartialEq, Eq)]
pub struct MoveToFirst();

impl Execute for MoveToFirst {
    /// Column zero where the row holds nothing but whitespace.
    open spec fn applied(&self, s: StateView) -> StateView {
        moved(
            s,
            Index2 {
                row: s.cursor.row,
                col: if s.cursor.row < s.lines.len() {
                    first_word_col(s.lines[s.cursor.row as int], 0) as usize
                } else {
                    0
                },
            },
        )
    }

    fn execute(&self, state: &mut EditorState) {
        let mut target = Index2 { row: state.cursor.row, col: 0 };
        skip_whitespace(&state.lines, &mut target);
        move_to(state, target);
    }
}

/// Move the cursor to the end of the line.
#[derive(Clone, Copy, Debug, PartialEq, Eq)]
pub struct MoveToEnd();

impl Execute for MoveToEnd {
    open spec fn applied(&self, s: StateView) -> StateView {
        moved(
            s,
            Index2 {
                row: s.cursor.row,
                col: max_col_of(s.lines, s.cursor.row as int, s.mode) as usize,
            },
        )
    }

    fn execute(&self, state: &mut EditorState) {
        let col = max_col(&state.lines, &state.cursor, state.mode);
        move_to(state, Index2 { row: state.cursor.row, col });
    }
}

/// Move the cursor to the start of the first line.
#[derive(Clone, Copy, Debug, PartialEq, Eq)]
pub struct MoveToFirstLine();

impl Execute for MoveToFirstLine {
    open spec fn applied(&self, s: StateView) -> StateView {
        moved(s, Index2 { row: 0, col: 0 })
    }

    fn execute(&self, state: &mut EditorState) {
        move_to(state, Index2 { row: 0, col: 0 });
    }
}

/// Move the cursor to the start of the last line.
#[derive(Clone, Copy, Debug, PartialEq, Eq)]
pub struct MoveToLastLine();

impl Execute for MoveToLastLine {
    /// Row zero in a buffer without rows.
    open spec fn applied(&self, s: StateView) -> StateView {
        moved(
            s,
            Index2 {
                row: if s.lines.len() > 0 {
                    (s.lines.len() - 1) as usize
                } else {
                    0
                },
                col: 0,
            },
        )
    }

    fn execute(&self, state: &mut EditorState) {
        let len = lines_len(&state.lines);
        let row = if len > 0 {
            len - 1
        } else {
            0
        };
        move_to(state, Index2 { row, col: 0 });
    }
}

/// The two edges of a word. A word is a run of characters other than
/// whitespace, within one row, that cannot be made longer.
#[derive(Clone, Copy, Debug, PartialEq, Eq, Structural)]
pub enum WordEdge {
    /// The first character of a word.
    Start,
    /// The last character of a word.
    End,
}

/// Whether the character at `p` is the given edge of a word.
pub open spec fn is_edge(text: Seq<Seq<char>>, edge: WordEdge, p: Index2) -> bool {
    &&& p.row < text.len()
    &&& p.col < text[p.row as int].len()
    &&& !is_space(text[p.row as int][p.col as int])
    &&& match edge {
        WordEdge::Start => p.col == 0 || is_space(text[p.row as int][p.col - 1]),
        WordEdge::End => p.col + 1 == text[p.row as int].len() || is_space(
            text[p.row as int][p.col + 1],
        ),
    }
}

/// Whether `q` is the first edge after `p` in row-major order.
pub open spec fn is_next_edge(text: Seq<Seq<char>>, edge: WordEdge, p: Index2, q: Index2) -> bool {
    &&& p.lt(q)
    &&& is_edge(text, edge, q)
    &&& forall|r: Index2| p.lt(r) && r.lt(q) ==> !is_edge(text, edge, r)
}

/// Whether `q` is the last edge before `p` in row-major order.
pub open spec fn is_previous_edge(text: Seq<Seq<char>>, edge: WordEdge, p: Index2, q: Index2) -> bool {
    &&& q.lt(p)
    &&& is_edge(text, edge, q)
    &&& forall|r: Index2| q.lt(r) && r.lt(p) ==> !is_edge(text, edge, r)
}

/// The last position of the text: the last character of the last row, and
/// column zero where that row is empty or there is no row.
pub open spec fn last_position(text: Seq<Seq<char>>) -> Index2 {
    if text.len() == 0 {
        Index2 { row: 0, col: 0 }
    } else {
        Index2 {
            row: (text.len() - 1) as usize,
            col: if text.last().len() > 0 {
                (text.last().len() - 1) as usize
            } else {
                0
            },
        }
    }
}

/// The first edge after `p`, or the last position of the text where no edge
/// follows.
pub open spec fn next_edge(text: Seq<Seq<char>>, edge: WordEdge, p: Index2) -> Index2 {
    if exists|q: Index2| is_next_edge(text, edge, p, q) {
        choose|q: Index2| is_next_edge(text, edge, p, q)
    } else {
        last_position(text)
    }
}

/// The last edge before `p`, or the first position of the text where no edge
/// comes before.
pub open spec fn previous_edge(text: Seq<Seq<char>>, edge: WordEdge, p: Index2) -> Index2 {
    if exists|q: Index2| is_previous_edge(text, edge, p, q) {
        choose|q: Index2| is_previous_edge(text, edge, p, q)
    } else {
        Index2 { row: 0, col: 0 }
    }
}

/// The position reached from `p` by going to the next edge `n` times.
pub open spec fn edges_forward(text: Seq<Seq<char>>, edge: WordEdge, p: Index2, n: nat) -> Index2
    decreases n,
{
    if n == 0 {
        p
    } else {
        edges_forward(text, edge, next_edge(text, edge, p), (n - 1) as nat)
    }
}

/// The position reached from `p` by going to the previous edge `n` times.
pub open spec fn edges_backward(text: Seq<Seq<char>>, edge: WordEdge, p: Index2, n: nat) -> Index2
    decreases n,
{
    if n == 0 {
        p
    } else {
        edges_backward(text, edge, previous_edge(text, edge, p), (n - 1) as nat)
    }
}

/// There is at most one first edge after a position.
pub proof fn lemma_next_edge_unique(text: Seq<Seq<char>>, edge: WordEdge, p: Index2, q: Index2)
    requires
        is_next_edge(text, edge, p, q),
    ensures
        next_edge(text, edge, p) == q,
{
    let c = choose|c: Index2| is_next_edge(text, edge, p, c);
    if c != q {
        if c.lt(q) {
            assert(!is_edge(text, edge, c));
        } else {
            assert(q.lt(c));
            assert(!is_edge(text, edge, q));
        }
    }
}

/// There is at most one last edge before a position.
pub proof fn lemma_previous_edge_unique(text: Seq<Seq<char>>, edge: WordEdge, p: Index2, q: Index2)
    requires
        is_previous_edge(text, edge, p, q),
    ensures
        previous_edge(text, edge, p) == q,
{
    let c = choose|c: Index2| is_previous_edge(text, edge, p, c);
    if c != q {
        if c.lt(q) {
            assert(!is_edge(text, edge, q));
        } else {
            assert(q.lt(c));
            assert(!is_edge(text, edge, c));
        }
    }
}

/// From the last position on, going forward stays at the last position.
pub proof fn lemma_forward_saturates(text: Seq<Seq<char>>, edge: WordEdge, n: nat)
    requires
        text.len() <= usize::MAX,
        text.len() > 0 ==> text.last().len() <= usize::MAX,
    ensures
        edges_forward(text, edge, last_position(text), n) == last_position(text),
    decreases n,
{
    if n > 0 {
        let last = last_position(text);
        assert forall|q: Index2| !is_next_edge(text, edge, last, q) by {
            if last.lt(q) && text.len() > 0 {
                assert(text.last() == text[text.len() - 1]);
                assert(!is_edge(text, edge, q));
            }
        }
        lemma_forward_saturates(text, edge, (n - 1) as nat);
    }
}

/// From the first position on, going backward stays at the first position.
pub proof fn lemma_backward_saturates(text: Seq<Seq<char>>, edge: WordEdge, n: nat)
    ensures
        edges_backward(text, edge, Index2 { row: 0, col: 0 }, n) == (Index2 { row: 0, col: 0 }),
    decreases n,
{
    if n > 0 {
        let first = Index2 { row: 0, col: 0 };
        assert forall|q: Index2| !is_previous_edge(text, edge, first, q) by {
            assert(!q.lt(first));
        }
        lemma_backward_saturates(text, edge, (n - 1) as nat);
    }
}

/// The last position of the text.
pub fn last_position_of(lines: &Lines) -> (last: Index2)
    ensures
        last == last_position(rows(*lines)),
        last.col <= max_col_of(rows(*lines), last.row as int, EditorMode::Normal),
        rows(*lines).len() <= usize::MAX,
        rows(*lines).len() > 0 ==> rows(*lines).last().len() <= usize::MAX,
{
    let n = lines_len(lines);
    if n == 0 {
        Index2 { row: 0, col: 0 }
    } else {
        let len = lines_len_col(lines, n - 1).unwrap();
        Index2 {
            row: n - 1,
            col: if len > 0 {
                len - 1
            } else {
                0
            },
        }
    }
}

/// Whether the character at `col` of `row` is the given edge of a word.
fn edge_at(row: &Vec<char>, edge: WordEdge, col: usize) -> (b: bool)
    requires
        col < row.len(),
    ensures
        b == (!is_space(row@[col as int]) && match edge {
            WordEdge::Start => col == 0 || is_space(row@[col - 1]),
            WordEdge::End => col + 1 == row.len() || is_space(row@[col + 1]),
        }),
{
    if is_whitespace(row[col]) {
        return false;
    }
    match edge {
        WordEdge::Start => col == 0 || is_whitespace(row[col - 1]),
        WordEdge::End => col + 1 == row.len() || is_whitespace(row[col + 1]),
    }
}

/// Finds the first edge after `from`.
fn find_next_edge(lines: &Lines, edge: WordEdge, from: Index2) -> (found: Option<Index2>)
    ensures
        found is Some ==> is_next_edge(rows(*lines), edge, from, found->0),
        found is None ==> forall|q: Index2| from.lt(q) ==> !is_edge(rows(*lines), edge, q),
{
    let ghost text = rows(*lines);
    let n = lines_len(lines);
    if from.row >= n {
        return None;
    }
    let mut r = from.row;
    let mut c = if from.col < usize::MAX {
        from.col + 1
    } else {
        from.col
    };
    while r < n
        invariant
            text == rows(*lines),
            n == text.len(),
            from.row <= r <= n,
            r == from.row ==> c > from.col || c == usize::MAX,
            forall|q: Index2|
                from.lt(q) && q.lt(Index2 { row: r, col: c }) ==> !is_edge(text, edge, q),
        decreases n - r,
    {
        let row = lines_row(lines, r).unwrap();
        while c < row.len()
            invariant
                text == rows(*lines),
                n == text.len(),
                from.row <= r < n,
                r == from.row ==> c > from.col || c == usize::MAX,
                row@ == text[r as int],
                forall|q: Index2|
                    from.lt(q) && q.lt(Index2 { row: r, col: c }) ==> !is_edge(text, edge, q),
            decreases row.len() - c,
        {
            if edge_at(row, edge, c) {
                return Some(Index2 { row: r, col: c });
            }
            c += 1;
        }
        r += 1;
        c = 0;
    }
    None
}

/// Finds the last edge before `from`.
fn find_previous_edge(lines: &Lines, edge: WordEdge, from: Index2) -> (found: Option<Index2>)
    ensures
        found is Some ==> is_previous_edge(rows(*lines), edge, from, found->0),
        found is None ==> forall|q: Index2| q.lt(from) ==> !is_edge(rows(*lines), edge, q),
{
    let ghost text = rows(*lines);
    let n = lines_len(lines);
    if n == 0 {
        return None;
    }
    let mut r = if from.row < n {
        from.row
    } else {
        n - 1
    };
    let len = lines_len_col(lines, r).unwrap();
    let mut c = if from.row < n && from.col < len {
        from.col
    } else {
        len
    };
    loop
        invariant
            text == rows(*lines),
            n == text.len(),
            r < n,
            c <= text[r as int].len(),
            !from.lt(Index2 { row: r, col: c }),
            forall|q: Index2|
                !q.lt(Index2 { row: r, col: c }) && q.lt(from) ==> !is_edge(text, edge, q),
        decreases r,
    {
        let row = lines_row(lines, r).unwrap();
        while c > 0
            invariant
                text == rows(*lines),
                n == text.len(),
                r < n,
                row@ == text[r as int],
                c <= row.len(),
                !from.lt(Index2 { row: r, col: c }),
                forall|q: Index2|
                    !q.lt(Index2 { row: r, col: c }) && q.lt(from) ==> !is_edge(text, edge, q),
            decreases c,
        {
            c -= 1;
            if edge_at(row, edge, c) {
                return Some(Index2 { row: r, col: c });
            }
        }
        if r == 0 {
            return None;
        }
        r -= 1;
        c = lines_len_col(lines, r).unwrap();
    }
}

/// Goes from `from` to the next edge, `count` times.
fn go_forward(lines: &Lines, edge: WordEdge, from: Index2, count: usize) -> (to: Index2)
    ensures
        to == edges_forward(rows(*lines), edge, from, count as nat),
        count > 0 ==> to.col <= max_col_of(rows(*lines), to.row as int, EditorMode::Normal),
{
    let ghost text = rows(*lines);
    let mut at = from;
    let mut left = count;
    while left > 0
        invariant
            text == rows(*lines),
            left <= count,
            left < count ==> at.col <= max_col_of(text, at.row as int, EditorMode::Normal),
            edges_forward(text, edge, from, count as nat) == edges_forward(
                text,
                edge,
                at,
                left as nat,
            ),
        decreases left,
    {
        match find_next_edge(lines, edge, at) {
            Some(q) => {
                proof {
                    lemma_next_edge_unique(text, edge, at, q);
                }
                at = q;
                left -= 1;
            },
            None => {
                let last = last_position_of(lines);
                proof {
                    assert forall|q: Index2| !is_next_edge(text, edge, at, q) by {}
                    lemma_forward_saturates(text, edge, (left - 1) as nat);
                }
                return last;
            },
        }
    }
    at
}

/// Goes from `from` to the previous edge, `count` times.
fn go_backward(lines: &Lines, edge: WordEdge, from: Index2, count: usize) -> (to: Index2)
    ensures
        to == edges_backward(rows(*lines), edge, from, count as nat),
        count > 0 ==> to.col <= max_col_of(rows(*lines), to.row as int, EditorMode::Normal),
{
    let ghost text = rows(*lines);
    let mut at = from;
    let mut left = count;
    while left > 0
        invariant
            text == rows(*lines),
            left <= count,
            left < count ==> at.col <= max_col_of(text, at.row as int, EditorMode::Normal),
            edges_backward(text, edge, from, count as nat) == edges_backward(
                text,
                edge,
                at,
                left as nat,
            ),
        decreases left,
    {
        match find_previous_edge(lines, edge, at) {
            Some(q) => {
                proof {
                    lemma_previous_edge_unique(text, edge, at, q);
                }
                at = q;
                left -= 1;
            },
            None => {
                proof {
                    assert forall|q: Index2| !is_previous_edge(text, edge, at, q) by {}
                    lemma_backward_saturates(text, edge, (left - 1) as nat);
                }
                return Index2 { row: 0, col: 0 };
            },
        }
    }
    at
}

/// Move the cursor to the start of the next word.
#[derive(Clone, Copy, Debug, PartialEq, Eq)]
pub struct MoveWordForwardStart(pub usize);

impl Execute for MoveWordForwardStart {
    /// The cursor goes, as many times as the count says, to the first
    /// character of the next word, in this row or a later one. Where no word
    /// follows it goes to the last position of the text.
    open spec fn applied(&self, s: StateView) -> StateView {
        let c = clamped(s);
        moved(c, edges_forward(c.lines, WordEdge::Start, c.cursor, self.0 as nat))
    }

    fn execute(&self, state: &mut EditorState) {
        clamp_column(state);
        let target = go_forward(&state.lines, WordEdge::Start, state.cursor, self.0);
        move_to(state, target);
    }
}

/// Move the cursor to the end of the current or the next word.
#[derive(Clone, Copy, Debug, PartialEq, Eq)]
pub struct MoveWordForwardEnd(pub usize);

impl Execute for MoveWordForwardEnd {
    /// The cursor goes, as many times as the count says, to the next last
    /// character of a word: that of the word it is in, or of the next word
    /// where it is on a last character or between words. Where no word
    /// follows it goes to the last position of the text.
    open spec fn applied(&self, s: StateView) -> StateView {
        let c = clamped(s);
        moved(c, edges_forward(c.lines, WordEdge::End, c.cursor, self.0 as nat))
    }

    fn execute(&self, state: &mut EditorState) {
        clamp_column(state);
        let target = go_forward(&state.lines, WordEdge::End, state.cursor, self.0);
        move_to(state, target);
    }
}

/// Move the cursor to the start of the word before it.
#[derive(Clone, Copy, Debug, PartialEq, Eq)]
pub struct MoveWordBackward(pub usize);

impl Execute for MoveWordBackward {
    /// The cursor goes, as many times as the count says, to the nearest first
    /// character of a word before it. Where there is none it goes to the
    /// first position of the text.
    open spec fn applied(&self, s: StateView) -> StateView {
        let c = clamped(s);
        moved(c, edges_backward(c.lines, WordEdge::Start, c.cursor, self.0 as nat))
    }

    fn execute(&self, state: &mut EditorState) {
        clamp_column(state);
        let target = go_backward(&state.lines, WordEdge::Start, state.cursor, self.0);
        move_to(state, target);
    }
}

} // verus!
