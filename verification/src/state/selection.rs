//! Selections: inclusive ranges of positions.
use crate::index::Index2;
use crate::lines::{
    append, lines_clone, lines_len, lines_len_col, lines_row, rows, split_at, Lines,
};
use vstd::prelude::*;

verus! {

/// A selection between two positions, both included. The endpoints may be
/// given in either order.
#[derive(Debug, Clone, Copy, PartialEq, Eq, Structural)]
pub struct Selection {
    /// Where the selection was started.
    pub start: Index2,
    /// Where the selection was last extended to.
    pub end: Index2,
}

impl Selection {
    /// The endpoint that comes first in row-major order.
    pub open spec fn first(self) -> Index2 {
        if self.start.le(self.end) {
            self.start
        } else {
            self.end
        }
    }

    /// The endpoint that comes last in row-major order.
    pub open spec fn last(self) -> Index2 {
        if self.start.le(self.end) {
            self.end
        } else {
            self.start
        }
    }

    /// Whether `pos` lies between the two endpoints in row-major order, both
    /// endpoints included.
    pub open spec fn contains(self, pos: Index2) -> bool {
        self.first().le(pos) && pos.le(self.last())
    }

    /// A selection from `start` to `end`.
    pub fn new(start: Index2, end: Index2) -> (selection: Selection)
        ensures
            selection.start == start,
            selection.end == end,
    {
        Selection { start, end }
    }

    /// The endpoint that comes first in row-major order.
    pub fn start(&self) -> (first: Index2)
        ensures
            first == self.first(),
    {
        if self.start.at_or_before(&self.end) {
            self.start
        } else {
            self.end
        }
    }

    /// The endpoint that comes last in row-major order.
    pub fn end(&self) -> (last: Index2)
        ensures
            last == self.last(),
    {
        if self.start.at_or_before(&self.end) {
            self.end
        } else {
            self.start
        }
    }

    /// Whether `pos` lies within the selection.
    pub fn within(&self, pos: &Index2) -> (b: bool)
        ensures
            b == self.contains(*pos),
    {
        let first = self.start();
        let last = self.end();
        first.at_or_before(pos) && pos.at_or_before(&last)
    }
}

/// The nearest position that holds a character: `pos` itself where it does,
/// the last character of its row where its column is past it, the last
/// position of the text where its row is below it. In an empty row or an
/// empty text, column zero.
pub open spec fn clamp_pos(text: Seq<Seq<char>>, pos: Index2) -> Index2 {
    if text.len() == 0 {
        Index2 { row: 0, col: 0 }
    } else {
        let row = if pos.row < text.len() {
            pos.row as int
        } else {
            text.len() - 1
        };
        let last = if text[row].len() > 0 {
            text[row].len() - 1
        } else {
            0
        };
        Index2 {
            row: row as usize,
            col: if pos.row < text.len() && pos.col <= last {
                pos.col
            } else {
                last as usize
            },
        }
    }
}

/// The column behind the position `to`: one past its column, and zero in an
/// empty row.
pub open spec fn span_stop(text: Seq<Seq<char>>, to: Index2) -> int {
    if to.col < text[to.row as int].len() {
        to.col + 1
    } else {
        text[to.row as int].len() as int
    }
}

/// Whether `from` and `to` are positions of the text, in this order, each on a
/// character or at column zero of an empty row.
pub open spec fn is_span(text: Seq<Seq<char>>, from: Index2, to: Index2) -> bool {
    &&& from.le(to)
    &&& to.row < text.len()
    &&& clamp_pos(text, from) == from
    &&& clamp_pos(text, to) == to
}

/// The rows of the span from `from` to `to`, both included: the rest of the
/// first row, the rows in between, and the start of the last row.
pub open spec fn span_rows(text: Seq<Seq<char>>, from: Index2, to: Index2) -> Seq<Seq<char>> {
    if from.row == to.row {
        seq![text[from.row as int].subrange(from.col as int, span_stop(text, to))]
    } else {
        seq![text[from.row as int].skip(from.col as int)] + text.subrange(
            from.row + 1,
            to.row as int,
        ) + seq![text[to.row as int].take(span_stop(text, to))]
    }
}

/// The text without the span from `from` to `to`: what is before the span in
/// its first row and what is behind it in its last row make one row.
pub open spec fn span_removed(text: Seq<Seq<char>>, from: Index2, to: Index2) -> Seq<Seq<char>> {
    text.take(from.row as int).push(
        text[from.row as int].take(from.col as int) + text[to.row as int].skip(
            span_stop(text, to),
        ),
    ) + text.skip(to.row + 1)
}

/// Rows as one sequence of characters, a line feed between every two rows.
pub open spec fn joined(text: Seq<Seq<char>>) -> Seq<char>
    decreases text.len(),
{
    if text.len() == 0 {
        Seq::empty()
    } else if text.len() == 1 {
        text[0]
    } else {
        joined(text.drop_last()) + seq!['\n'] + text.last()
    }
}

/// The rows that a selection spans in the text: the rest of its first row,
/// the rows in between, and the start of its last row. The endpoints are
/// taken in row-major order and clamped to the text.
pub open spec fn selected_rows(text: Seq<Seq<char>>, selection: Selection) -> Seq<Seq<char>> {
    if text.len() == 0 {
        Seq::empty()
    } else {
        span_rows(text, clamp_pos(text, selection.first()), clamp_pos(text, selection.last()))
    }
}

/// The characters that a selection spans in the text, rows joined by line
/// feeds.
pub open spec fn selected_text(text: Seq<Seq<char>>, selection: Selection) -> Seq<char> {
    joined(selected_rows(text, selection))
}

/// The text without the characters that a selection spans.
pub open spec fn selection_removed(text: Seq<Seq<char>>, selection: Selection) -> Seq<Seq<char>> {
    if text.len() == 0 {
        text
    } else {
        span_removed(text, clamp_pos(text, selection.first()), clamp_pos(text, selection.last()))
    }
}

/// The nearest position to `pos` that holds a character.
pub fn clamp_position(lines: &Lines, pos: Index2) -> (clamped: Index2)
    ensures
        clamped == clamp_pos(rows(*lines), pos),
        rows(*lines).len() > 0 ==> clamped.row < rows(*lines).len() && rows(
            *lines,
        )[clamped.row as int].len() <= usize::MAX && clamp_pos(rows(*lines), clamped) == clamped,
{
    let n = lines_len(lines);
    if n == 0 {
        return Index2 { row: 0, col: 0 };
    }
    let row = if pos.row < n {
        pos.row
    } else {
        n - 1
    };
    let len = lines_len_col(lines, row).unwrap();
    let last = if len > 0 {
        len - 1
    } else {
        0
    };
    Index2 {
        row,
        col: if pos.row < n && pos.col <= last {
            pos.col
        } else {
            last
        },
    }
}

/// Takes the span from `from` to `to` out of the buffer and returns its rows.
pub(crate) fn cut_span(lines: &mut Lines, from: Index2, to: Index2) -> (cut: Lines)
    requires
        is_span(rows(*old(lines)), from, to),
    ensures
        rows(*final(lines)) == span_removed(rows(*old(lines)), from, to),
        rows(cut) == span_rows(rows(*old(lines)), from, to),
{
    let ghost text = rows(*lines);
    let len = lines_len_col(lines, to.row).unwrap();
    let stop = if to.col < len {
        to.col + 1
    } else {
        len
    };
    let tail = split_at(lines, to.row, stop);
    let ghost kept = rows(*lines);
    let cut = split_at(lines, from.row, from.col);
    let ghost head = rows(*lines);
    append(lines, tail);
    proof {
        assert(kept[from.row as int].take(from.col as int) =~= text[from.row as int].take(
            from.col as int,
        ));
        assert(head.drop_last() =~= text.take(from.row as int));
        assert(rows(tail).drop_first() =~= text.skip(to.row + 1));
        assert(rows(*lines) =~= span_removed(text, from, to));
        if from.row == to.row {
            assert(kept[from.row as int].skip(from.col as int) =~= text[from.row as int].subrange(
                from.col as int,
                stop as int,
            ));
            assert(kept.skip(from.row + 1) =~= Seq::<Seq<char>>::empty());
            assert(rows(cut) =~= span_rows(text, from, to));
        } else {
            assert(kept.skip(from.row + 1) =~= text.subrange(from.row + 1, to.row as int).push(
                text[to.row as int].take(stop as int),
            ));
            assert(rows(cut) =~= span_rows(text, from, to));
        }
    }
    cut
}

/// The rows of a buffer as one string, a line feed between every two rows.
pub fn join_rows(lines: &Lines) -> (text: String)
    ensures
        text@ == joined(rows(*lines)),
{
    let n = lines_len(lines);
    let mut text = String::new();
    let mut r: usize = 0;
    assert(rows(*lines).take(0) =~= Seq::<Seq<char>>::empty());
    while r < n
        invariant
            r <= n,
            n == rows(*lines).len(),
            text@ == joined(rows(*lines).take(r as int)),
        decreases n - r,
    {
        let row = lines_row(lines, r).unwrap();
        let ghost before = text@;
        if r > 0 {
            text.push('\n');
        }
        let ghost start = text@;
        let mut c: usize = 0;
        while c < row.len()
            invariant
                c <= row.len(),
                text@ == start + row@.take(c as int),
            decreases row.len() - c,
        {
            text.push(row[c]);
            c += 1;
            assert(row@.take(c as int) =~= row@.take(c - 1).push(row@[c - 1]));
        }
        proof {
            let upto = rows(*lines).take(r + 1);
            assert(row@.take(row.len() as int) =~= row@);
            assert(upto.drop_last() =~= rows(*lines).take(r as int));
            assert(upto.last() == row@);
            if r == 0 {
                assert(text@ =~= row@);
            } else {
                assert(text@ =~= before + seq!['\n'] + row@);
            }
        }
        r += 1;
    }
    assert(rows(*lines).take(n as int) =~= rows(*lines));
    text
}

impl Selection {
    /// The two endpoints in row-major order, each clamped to the text.
    pub fn span(&self, lines: &Lines) -> (ends: (Index2, Index2))
        ensures
            ends.0 == clamp_pos(rows(*lines), self.first()),
            ends.1 == clamp_pos(rows(*lines), self.last()),
            rows(*lines).len() > 0 ==> is_span(rows(*lines), ends.0, ends.1),
    {
        let from = clamp_position(lines, self.start());
        let to = clamp_position(lines, self.end());
        (from, to)
    }

    /// Takes what the selection spans out of the buffer and returns its rows.
    /// What was before the selection in its first row and what was behind it
    /// in its last row make one row of the buffer.
    pub fn cut(&self, lines: &mut Lines) -> (cut: Lines)
        ensures
            rows(*final(lines)) == selection_removed(rows(*old(lines)), *self),
            rows(cut) == selected_rows(rows(*old(lines)), *self),
    {
        if lines_len(lines) == 0 {
            return lines_clone(lines);
        }
        let (from, to) = self.span(lines);
        cut_span(lines, from, to)
    }

    /// The text that the selection spans, rows joined by line feeds.
    pub fn extract(&self, lines: &Lines) -> (text: String)
        ensures
            text@ == selected_text(rows(*lines), *self),
    {
        let mut copy = lines_clone(lines);
        let cut = self.cut(&mut copy);
        join_rows(&cut)
    }
}

} // verus!
