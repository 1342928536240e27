//! Selecting the text between two delimiters.
use crate::actions::Execute;
use crate::index::Index2;
use crate::lines::{lines_len, lines_len_col, lines_row, rows, Lines};
use crate::state::mode::EditorMode;
use crate::state::selection::Selection;
use crate::state::{EditorState, StateView};
use vstd::prelude::*;

verus! {

/// The two sides of a pair of delimiters.
#[derive(Clone, Copy, Debug, PartialEq, Eq, Structural)]
pub enum Side {
    /// The first character of a pair.
    Open,
    /// The second character of a pair.
    Close,
}

/// Whether `ch` is the delimiter of the given side in one of the pairs.
pub open spec fn is_delimiter(pairs: Seq<(char, char)>, side: Side, ch: char) -> bool {
    exists|i: int|
        0 <= i < pairs.len() && match side {
            Side::Open => (#[trigger] pairs[i]).0 == ch,
            Side::Close => (#[trigger] pairs[i]).1 == ch,
        }
}

/// Whether the text holds a delimiter of the given side at `p`.
pub open spec fn delimiter_at(
    text: Seq<Seq<char>>,
    pairs: Seq<(char, char)>,
    side: Side,
    p: Index2,
) -> bool {
    &&& p.row < text.len()
    &&& p.col < text[p.row as int].len()
    &&& is_delimiter(pairs, side, text[p.row as int][p.col as int])
}

/// Whether `p` is a place the cursor can rest on: a character, or column zero
/// of an empty row.
pub open spec fn is_place(text: Seq<Seq<char>>, p: Index2) -> bool {
    &&& p.row < text.len()
    &&& (p.col < text[p.row as int].len() || (p.col == 0 && text[p.row as int].len() == 0))
}

/// The place before the character at `p`: the column before it, or the last
/// place of the row above.
pub open spec fn place_before(text: Seq<Seq<char>>, p: Index2) -> Index2 {
    if p.col > 0 {
        Index2 { row: p.row, col: (p.col - 1) as usize }
    } else if p.row > 0 {
        Index2 {
            row: (p.row - 1) as usize,
            col: if text[p.row - 1].len() > 0 {
                (text[p.row - 1].len() - 1) as usize
            } else {
                0
            },
        }
    } else {
        p
    }
}

/// The place behind the character at `p`: the column behind it, or the start
/// of the row below.
pub open spec fn place_behind(text: Seq<Seq<char>>, p: Index2) -> Index2 {
    if p.col + 1 < text[p.row as int].len() {
        Index2 { row: p.row, col: (p.col + 1) as usize }
    } else {
        Index2 { row: (p.row + 1) as usize, col: 0 }
    }
}

/// Whether `q` holds the first opening delimiter at or after `from`.
pub open spec fn is_first_open(
    text: Seq<Seq<char>>,
    pairs: Seq<(char, char)>,
    from: Index2,
    q: Index2,
) -> bool {
    &&& from.le(q)
    &&& delimiter_at(text, pairs, Side::Open, q)
    &&& forall|r: Index2| from.le(r) && r.lt(q) ==> !delimiter_at(text, pairs, Side::Open, r)
}

/// Whether `q` holds the last closing delimiter at or before `from`.
pub open spec fn is_last_close(
    text: Seq<Seq<char>>,
    pairs: Seq<(char, char)>,
    from: Index2,
    q: Index2,
) -> bool {
    &&& q.le(from)
    &&& delimiter_at(text, pairs, Side::Close, q)
    &&& forall|r: Index2| q.lt(r) && r.le(from) ==> !delimiter_at(text, pairs, Side::Close, r)
}

/// Whether `selection` is what lies between the delimiters around `cursor`:
/// it ends at the place before the first opening delimiter at or after the
/// cursor, and starts at the place behind the last closing delimiter at or
/// before the cursor. A delimiter under the cursor itself leaves that end of
/// the selection on the cursor.
pub open spec fn is_between(
    text: Seq<Seq<char>>,
    pairs: Seq<(char, char)>,
    cursor: Index2,
    selection: Selection,
) -> bool {
    exists|open: Index2, close: Index2|
        {
            &&& is_first_open(text, pairs, cursor, open)
            &&& is_last_close(text, pairs, cursor, close)
            &&& selection.end == if open == cursor {
                cursor
            } else {
                place_before(text, open)
            }
            &&& selection.start == if close == cursor {
                cursor
            } else {
                place_behind(text, close)
            }
        }
}

/// Whether there is something to select around `cursor`: the cursor rests on
/// a place of the text, an opening delimiter follows and a closing delimiter
/// comes before.
pub open spec fn has_between(text: Seq<Seq<char>>, pairs: Seq<(char, char)>, cursor: Index2) -> bool {
    &&& is_place(text, cursor)
    &&& exists|selection: Selection| is_between(text, pairs, cursor, selection)
}

/// There is at most one selection between the delimiters around a cursor.
pub proof fn lemma_between_unique(
    text: Seq<Seq<char>>,
    pairs: Seq<(char, char)>,
    cursor: Index2,
    a: Selection,
    b: Selection,
)
    requires
        is_between(text, pairs, cursor, a),
        is_between(text, pairs, cursor, b),
    ensures
        a == b,
{
    let (oa, ca) = choose|open: Index2, close: Index2|
        {
            &&& is_first_open(text, pairs, cursor, open)
            &&& is_last_close(text, pairs, cursor, close)
            &&& a.end == if open == cursor {
                cursor
            } else {
                place_before(text, open)
            }
            &&& a.start == if close == cursor {
                cursor
            } else {
                place_behind(text, close)
            }
        };
    let (ob, cb) = choose|open: Index2, close: Index2|
        {
            &&& is_first_open(text, pairs, cursor, open)
            &&& is_last_close(text, pairs, cursor, close)
            &&& b.end == if open == cursor {
                cursor
            } else {
                place_before(text, open)
            }
            &&& b.start == if close == cursor {
                cursor
            } else {
                place_behind(text, close)
            }
        };
    if oa != ob {
        if oa.lt(ob) {
            assert(!delimiter_at(text, pairs, Side::Open, oa));
        } else {
            assert(ob.lt(oa));
            assert(!delimiter_at(text, pairs, Side::Open, ob));
        }
    }
    if ca != cb {
        if ca.lt(cb) {
            assert(!delimiter_at(text, pairs, Side::Close, cb));
        } else {
            assert(cb.lt(ca));
            assert(!delimiter_at(text, pairs, Side::Close, ca));
        }
    }
}

/// Whether `ch` is the delimiter of the given side in one of the pairs.
fn delimits(pairs: &Vec<(char, char)>, side: Side, ch: char) -> (b: bool)
    ensures
        b == is_delimiter(pairs@, side, ch),
{
    let mut i: usize = 0;
    while i < pairs.len()
        invariant
            i <= pairs.len(),
            forall|j: int|
                0 <= j < i ==> !match side {
                    Side::Open => (#[trigger] pairs@[j]).0 == ch,
                    Side::Close => (#[trigger] pairs@[j]).1 == ch,
                },
        decreases pairs.len() - i,
    {
        let hit = match side {
            Side::Open => pairs[i].0 == ch,
            Side::Close => pairs[i].1 == ch,
        };
        if hit {
            return true;
        }
        i += 1;
    }
    false
}

/// Finds the first opening delimiter at or after `from`.
fn find_open(lines: &Lines, pairs: &Vec<(char, char)>, from: Index2) -> (found: Option<Index2>)
    ensures
        found is Some ==> is_first_open(rows(*lines), pairs@, from, found->0),
        found is None ==> forall|q: Index2|
            from.le(q) ==> !delimiter_at(rows(*lines), pairs@, Side::Open, q),
{
    let ghost text = rows(*lines);
    let n = lines_len(lines);
    let mut r = from.row;
    let mut c = from.col;
    while r < n
        invariant
            text == rows(*lines),
            n == text.len(),
            from.row <= r,
            r == from.row ==> c >= from.col,
            forall|q: Index2|
                from.le(q) && q.lt(Index2 { row: r, col: c }) ==> !delimiter_at(
                    text,
                    pairs@,
                    Side::Open,
                    q,
                ),
        decreases n - r,
    {
        let row = lines_row(lines, r).unwrap();
        while c < row.len()
            invariant
                text == rows(*lines),
                n == text.len(),
                from.row <= r < n,
                r == from.row ==> c >= from.col,
                row@ == text[r as int],
                forall|q: Index2|
                    from.le(q) && q.lt(Index2 { row: r, col: c }) ==> !delimiter_at(
                        text,
                        pairs@,
                        Side::Open,
                        q,
                    ),
            decreases row.len() - c,
        {
            if delimits(pairs, Side::Open, row[c]) {
                return Some(Index2 { row: r, col: c });
            }
            c += 1;
        }
        r += 1;
        c = 0;
    }
    None
}

/// Finds the last closing delimiter at or before `from`, for a `from` that
/// rests on a place of the text.
fn find_close(lines: &Lines, pairs: &Vec<(char, char)>, from: Index2) -> (found: Option<Index2>)
    requires
        is_place(rows(*lines), from),
    ensures
        found is Some ==> is_last_close(rows(*lines), pairs@, from, found->0),
        found is None ==> forall|q: Index2|
            q.le(from) ==> !delimiter_at(rows(*lines), pairs@, Side::Close, q),
{
    let ghost text = rows(*lines);
    let n = lines_len(lines);
    let mut r = from.row;
    let len = lines_len_col(lines, r).unwrap();
    let mut c = if from.col < len {
        from.col + 1
    } else {
        len
    };
    loop
        invariant
            text == rows(*lines),
            n == text.len(),
            r < n,
            r <= from.row,
            c <= text[r as int].len(),
            r == from.row ==> c <= from.col + 1,
            forall|q: Index2|
                !q.lt(Index2 { row: r, col: c }) && q.le(from) ==> !delimiter_at(
                    text,
                    pairs@,
                    Side::Close,
                    q,
                ),
        decreases r,
    {
        let row = lines_row(lines, r).unwrap();
        while c > 0
            invariant
                text == rows(*lines),
                n == text.len(),
                r < n,
                r <= from.row,
                row@ == text[r as int],
                c <= row.len(),
                r == from.row ==> c <= from.col + 1,
                forall|q: Index2|
                    !q.lt(Index2 { row: r, col: c }) && q.le(from) ==> !delimiter_at(
                        text,
                        pairs@,
                        Side::Close,
                        q,
                    ),
            decreases c,
        {
            c -= 1;
            if delimits(pairs, Side::Close, row[c]) {
                return Some(Index2 { row: r, col: c });
            }
        }
        if r == 0 {
            return None;
        }
        r -= 1;
        c = lines_len_col(lines, r).unwrap();
    }
}

/// The place before `p`.
fn before(lines: &Lines, p: Index2) -> (q: Index2)
    requires
        p.row < rows(*lines).len(),
    ensures
        q == place_before(rows(*lines), p),
{
    if p.col > 0 {
        Index2 { row: p.row, col: p.col - 1 }
    } else if p.row > 0 {
        let len = lines_len_col(lines, p.row - 1).unwrap();
        Index2 {
            row: p.row - 1,
            col: if len > 0 {
                len - 1
            } else {
                0
            },
        }
    } else {
        p
    }
}

/// The place behind `p`.
fn behind(lines: &Lines, p: Index2) -> (q: Index2)
    requires
        p.row < rows(*lines).len(),
        p.col < rows(*lines)[p.row as int].len(),
    ensures
        q == place_behind(rows(*lines), p),
{
    let len = lines_len_col(lines, p.row).unwrap();
    let n = lines_len(lines);
    if p.col + 1 < len {
        Index2 { row: p.row, col: p.col + 1 }
    } else {
        Index2 { row: p.row + 1, col: 0 }
    }
}

/// Selects text between specified delimiter characters.
///
/// Each pair names an opening and a closing delimiter.
#[derive(Clone, Debug, PartialEq, Eq)]
pub struct SelectBetween(pub Vec<(char, char)>);

impl Execute for SelectBetween {
    /// Where there is something to select around the cursor, it becomes the
    /// selection and the editor enters visual mode; the cursor stays.
    /// Elsewhere nothing changes.
    open spec fn applied(&self, s: StateView) -> StateView {
        if has_between(s.lines, self.0@, s.cursor) {
            StateView {
                selection: Some(
                    choose|selection: Selection|
                        is_between(s.lines, self.0@, s.cursor, selection),
                ),
                mode: EditorMode::Visual,
                ..s
            }
        } else {
            s
        }
    }

    fn execute(&self, state: &mut EditorState) {
        let cursor = state.cursor;
        let ghost text = state@.lines;
        let len = match lines_len_col(&state.lines, cursor.row) {
            Some(len) => len,
            None => {
                return ;
            },
        };
        if !(cursor.col < len || (cursor.col == 0 && len == 0)) {
            return ;
        }
        let open = match find_open(&state.lines, &self.0, cursor) {
            Some(open) => open,
            None => {
                assert forall|selection: Selection| !is_between(
                    text,
                    self.0@,
                    cursor,
                    selection,
                ) by {}
                return ;
            },
        };
        let close = match find_close(&state.lines, &self.0, cursor) {
            Some(close) => close,
            None => {
                assert forall|selection: Selection| !is_between(
                    text,
                    self.0@,
                    cursor,
                    selection,
                ) by {}
                return ;
            },
        };
        let end = if open == cursor {
            cursor
        } else {
            before(&state.lines, open)
        };
        let start = if close == cursor {
            cursor
        } else {
            behind(&state.lines, close)
        };
        let selection = Selection { start, end };
        proof {
            assert(is_between(text, self.0@, cursor, selection));
            let chosen = choose|selection: Selection|
                is_between(text, self.0@, cursor, selection);
            lemma_between_unique(text, self.0@, cursor, selection, chosen);
        }
        state.selection = Some(selection);
        state.mode = EditorMode::Visual;
    }
}

} // verus!
