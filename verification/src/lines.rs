//! The text buffer: rows of characters held in a jagged array.
//!
//! The storage is `edtui_jagged::Jagged<char>`. Verus does not look inside it;
//! the functions in this module state, without proof, what each storage
//! operation does to the rows. Everything built on top is proved from these
//! statements.
use edtui_jagged::index::RowIndex;
use edtui_jagged::Jagged;
use vstd::prelude::*;

verus! {

/// `edtui_jagged::Jagged`, the storage of the rows. Nothing is known of a
/// value of it but what the functions below state.
#[verifier::external_type_specification]
#[verifier::external_body]
#[verifier::reject_recursive_types(T)]
pub struct ExJagged<T>(Jagged<T>);

/// The text of the editor: rows of characters, the line break between two rows implied.
pub type Lines = Jagged<char>;

/// The rows that a buffer holds, top to bottom.
pub uninterp spec fn rows(lines: Jagged<char>) -> Seq<Seq<char>>;

/// `Jagged::default`: the result holds no rows.
#[verifier::external_body]
pub(crate) fn lines_empty() -> (lines: Lines)
    ensures
        rows(lines) == Seq::<Seq<char>>::empty(),
{
    Jagged::default()
}

/// `Jagged::len`: the number of rows.
#[verifier::external_body]
pub(crate) fn lines_len(lines: &Lines) -> (n: usize)
    ensures
        n == rows(*lines).len(),
{
    lines.len()
}

/// `Jagged::len_col`: the length of the row, or `None` when there is no such row.
#[verifier::external_body]
pub(crate) fn lines_len_col(lines: &Lines, row: usize) -> (n: Option<usize>)
    ensures
        n is Some <==> row < rows(*lines).len(),
        n is Some ==> n->0 == rows(*lines)[row as int].len(),
{
    lines.len_col(row)
}

/// `Jagged::get` with a `RowIndex`: a reference to the row, or `None` when there is no such row.
#[verifier::external_body]
pub(crate) fn lines_row(lines: &Lines, row: usize) -> (r: Option<&Vec<char>>)
    ensures
        r is Some <==> row < rows(*lines).len(),
        r is Some ==> r->0@ == rows(*lines)[row as int],
{
    lines.get(RowIndex::new(row))
}

/// `Jagged::insert` with an `Index2` and a character: the character is inserted
/// into the row at the column. Left out: a column past the end of the row, on
/// which `Vec::insert` panics.
#[verifier::external_body]
pub(crate) fn lines_insert_char(lines: &mut Lines, row: usize, col: usize, ch: char)
    requires
        row < rows(*old(lines)).len(),
        col <= rows(*old(lines))[row as int].len(),
    ensures
        rows(*final(lines)) == rows(*old(lines)).update(
            row as int,
            rows(*old(lines))[row as int].insert(col as int, ch),
        ),
{
    lines.insert(edtui_jagged::Index2::new(row, col), ch);
}

/// `Jagged::remove` with an `Index2`: the character at the position leaves its
/// row and is returned. Left out: positions that hold no character, on which
/// indexing or `Vec::remove` panics.
#[verifier::external_body]
pub(crate) fn lines_remove_char(lines: &mut Lines, row: usize, col: usize) -> (ch: char)
    requires
        row < rows(*old(lines)).len(),
        col < rows(*old(lines))[row as int].len(),
    ensures
        ch == rows(*old(lines))[row as int][col as int],
        rows(*final(lines)) == rows(*old(lines)).update(
            row as int,
            rows(*old(lines))[row as int].remove(col as int),
        ),
{
    lines.remove(edtui_jagged::Index2::new(row, col))
}

/// `Jagged::insert` with a `RowIndex` and a vector: the vector becomes the row
/// at that index. Left out: an index past the number of rows, on which
/// `Vec::insert` panics.
#[verifier::external_body]
pub(crate) fn lines_insert_row(lines: &mut Lines, row: usize, chars: Vec<char>)
    requires
        row <= rows(*old(lines)).len(),
    ensures
        rows(*final(lines)) == rows(*old(lines)).insert(row as int, chars@),
{
    lines.insert(RowIndex::new(row), chars);
}

/// `Jagged::remove` with a `RowIndex`: the row leaves the buffer and is
/// returned. Left out: an index that names no row, on which `Vec::remove` panics.
#[verifier::external_body]
pub(crate) fn lines_remove_row(lines: &mut Lines, row: usize) -> (chars: Vec<char>)
    requires
        row < rows(*old(lines)).len(),
    ensures
        chars@ == rows(*old(lines))[row as int],
        rows(*final(lines)) == rows(*old(lines)).remove(row as int),
{
    lines.remove(RowIndex::new(row))
}

/// `Jagged::push` with a vector: the vector becomes the last row.
#[verifier::external_body]
pub(crate) fn lines_push_row(lines: &mut Lines, chars: Vec<char>)
    ensures
        rows(*final(lines)) == rows(*old(lines)).push(chars@),
{
    lines.push(chars);
}

/// `Jagged::split_off`. At column zero the rows from `row` on leave the buffer
/// and are returned. At another column the buffer keeps the rows above and
/// the part of the row before the column; the rest of the row and the rows
/// below are returned. Left out: positions outside the text, on which
/// `Vec::split_off` or `Vec::remove` panics.
#[verifier::external_body]
pub(crate) fn lines_split_off(lines: &mut Lines, row: usize, col: usize) -> (tail: Lines)
    requires
        col == 0 ==> row <= rows(*old(lines)).len(),
        col > 0 ==> row < rows(*old(lines)).len() && col <= rows(*old(lines))[row as int].len(),
    ensures
        col == 0 ==> rows(*final(lines)) == rows(*old(lines)).take(row as int) && rows(tail)
            == rows(*old(lines)).skip(row as int),
        col > 0 ==> rows(*final(lines)) == rows(*old(lines)).take(row as int).push(
            rows(*old(lines))[row as int].take(col as int),
        ) && rows(tail) == seq![rows(*old(lines))[row as int].skip(col as int)] + rows(
            *old(lines),
        ).skip(row + 1),
{
    lines.split_off(edtui_jagged::Index2::new(row, col))
}

/// `Jagged::append`: the rows of `other` move to the end of the buffer, and
/// `other` is left without rows.
#[verifier::external_body]
pub(crate) fn lines_append(lines: &mut Lines, other: &mut Lines)
    ensures
        rows(*final(lines)) == rows(*old(lines)) + rows(*old(other)),
        rows(*final(other)) == Seq::<Seq<char>>::empty(),
{
    lines.append(other);
}

/// The rows of a buffer with a tail joined on: the first row of the tail
/// continues the last row of the buffer, and the other rows of the tail
/// follow. A buffer without rows takes the rows of the tail as they are.
pub open spec fn joined_on(text: Seq<Seq<char>>, tail: Seq<Seq<char>>) -> Seq<Seq<char>> {
    if tail.len() == 0 {
        text
    } else if text.len() == 0 {
        tail
    } else {
        text.drop_last().push(text.last() + tail.first()) + tail.drop_first()
    }
}

/// `Jagged::merge`: the first row of `other` is joined to the end of the last
/// row of the buffer, the remaining rows of `other` follow, and `other` is
/// left without rows. A buffer without rows takes the rows of `other` as they
/// are.
#[verifier::external_body]
pub(crate) fn lines_merge(lines: &mut Lines, other: &mut Lines)
    ensures
        rows(*final(lines)) == joined_on(rows(*old(lines)), rows(*old(other))),
        rows(*final(other)) == Seq::<Seq<char>>::empty(),
{
    lines.merge(other);
}

/// `Clone::clone` as derived for `Jagged`: the copy holds the same rows.
#[verifier::external_body]
pub(crate) fn lines_clone(lines: &Lines) -> (copy: Lines)
    ensures
        rows(copy) == rows(*lines),
{
    lines.clone()
}

/// The number of characters in `row`, and zero where there is no such row.
pub open spec fn len_col_at(text: Seq<Seq<char>>, row: int) -> nat {
    if 0 <= row < text.len() {
        text[row].len()
    } else {
        0
    }
}

/// The number of rows.
pub fn len(lines: &Lines) -> (n: usize)
    ensures
        n == rows(*lines).len(),
{
    lines_len(lines)
}

/// The number of characters in a row, or `None` where there is no such row.
pub fn len_col(lines: &Lines, row: usize) -> (n: Option<usize>)
    ensures
        n is Some <==> row < rows(*lines).len(),
        n is Some ==> n->0 == rows(*lines)[row as int].len(),
{
    lines_len_col(lines, row)
}

/// The text with `ch` inserted before column `col` of row `row`; the text as
/// it is where the row has no such column.
pub open spec fn with_char(text: Seq<Seq<char>>, row: int, col: int, ch: char) -> Seq<Seq<char>> {
    if 0 <= row < text.len() && 0 <= col <= text[row].len() {
        text.update(row, text[row].insert(col, ch))
    } else {
        text
    }
}

/// Inserts a character before column `col` of row `row`. Nothing changes
/// where the row has no such column.
pub fn insert_char(lines: &mut Lines, row: usize, col: usize, ch: char)
    ensures
        rows(*final(lines)) == with_char(rows(*old(lines)), row as int, col as int, ch),
{
    match lines_len_col(lines, row) {
        Some(len) => {
            if col <= len {
                lines_insert_char(lines, row, col, ch);
            }
        },
        None => {},
    }
}

/// Removes the character at column `col` of row `row` and returns it. Nothing
/// changes and nothing is returned where there is no such character.
pub fn remove(lines: &mut Lines, row: usize, col: usize) -> (ch: Option<char>)
    ensures
        ch is Some <==> row < rows(*old(lines)).len() && col < rows(*old(lines))[row as int].len(),
        ch is Some ==> ch->0 == rows(*old(lines))[row as int][col as int] && rows(*final(lines))
            == rows(*old(lines)).update(
            row as int,
            rows(*old(lines))[row as int].remove(col as int),
        ),
        ch is None ==> rows(*final(lines)) == rows(*old(lines)),
{
    match lines_len_col(lines, row) {
        Some(len) => {
            if col < len {
                Some(lines_remove_char(lines, row, col))
            } else {
                None
            }
        },
        None => None,
    }
}

/// Inserts a row at index `row`, or at the end where the index is past it.
pub fn insert_row(lines: &mut Lines, row: usize, chars: Vec<char>)
    ensures
        rows(*final(lines)) == rows(*old(lines)).insert(
            if row <= rows(*old(lines)).len() {
                row as int
            } else {
                rows(*old(lines)).len() as int
            },
            chars@,
        ),
{
    let n = lines_len(lines);
    lines_insert_row(
        lines,
        if row <= n {
            row
        } else {
            n
        },
        chars,
    );
}

/// Removes the row at index `row` and returns it. Nothing changes and nothing
/// is returned where there is no such row.
pub fn remove_row(lines: &mut Lines, row: usize) -> (chars: Option<Vec<char>>)
    ensures
        chars is Some <==> row < rows(*old(lines)).len(),
        chars is Some ==> chars->0@ == rows(*old(lines))[row as int] && rows(*final(lines))
            == rows(*old(lines)).remove(row as int),
        chars is None ==> rows(*final(lines)) == rows(*old(lines)),
{
    if row < lines_len(lines) {
        Some(lines_remove_row(lines, row))
    } else {
        None
    }
}

/// The position in the text nearest to `(row, col)`: a row below the text
/// counts as the last row, a column past the end of its row as the end of the
/// row.
pub open spec fn split_point(text: Seq<Seq<char>>, row: int, col: int) -> (int, int) {
    let r = if row < text.len() {
        row
    } else {
        text.len() - 1
    };
    (
        r,
        if col <= len_col_at(text, r) {
            col
        } else {
            len_col_at(text, r) as int
        },
    )
}

/// The rows that stay when a text is split at a position: the rows above and
/// the part of the row before the column. A text without rows stays as it is.
pub open spec fn head_of_split(text: Seq<Seq<char>>, row: int, col: int) -> Seq<Seq<char>> {
    if text.len() == 0 {
        text
    } else {
        let (r, c) = split_point(text, row, col);
        text.take(r).push(text[r].take(c))
    }
}

/// The rows that leave when a text is split at a position: the rest of the
/// row, followed by the rows below. A text without rows has no tail.
pub open spec fn tail_of_split(text: Seq<Seq<char>>, row: int, col: int) -> Seq<Seq<char>> {
    if text.len() == 0 {
        text
    } else {
        let (r, c) = split_point(text, row, col);
        seq![text[r].skip(c)] + text.skip(r + 1)
    }
}

/// Splits the buffer at a position.
///
/// The buffer keeps the rows above and the part of the row before `col` as its
/// last row. The tail that is returned begins with the rest of that row,
/// followed by the rows below. A position outside the text counts as the
/// nearest one inside.
pub fn split_at(lines: &mut Lines, row: usize, col: usize) -> (tail: Lines)
    ensures
        rows(*final(lines)) == head_of_split(rows(*old(lines)), row as int, col as int),
        rows(tail) == tail_of_split(rows(*old(lines)), row as int, col as int),
{
    let n = lines_len(lines);
    if n == 0 {
        return lines_split_off(lines, 0, 0);
    }
    let row = if row < n {
        row
    } else {
        n - 1
    };
    let len = match lines_len_col(lines, row) {
        Some(len) => len,
        None => 0,
    };
    let col = if col <= len {
        col
    } else {
        len
    };
    if col == 0 {
        let tail = lines_split_off(lines, row, 0);
        lines_push_row(lines, Vec::new());
        proof {
            let text = rows(*old(lines));
            assert(text[row as int].take(0) =~= Seq::<char>::empty());
            assert(text[row as int].skip(0) =~= text[row as int]);
            assert(text.skip(row as int) =~= seq![text[row as int]] + text.skip(row + 1));
        }
        tail
    } else {
        lines_split_off(lines, row, col)
    }
}

/// Joins a tail onto the buffer: the first row of the tail continues the last
/// row of the buffer, and the other rows of the tail follow. The inverse of
/// [`split_at`].
pub fn append(lines: &mut Lines, tail: Lines)
    ensures
        rows(*final(lines)) == joined_on(rows(*old(lines)), rows(tail)),
{
    let mut tail = tail;
    lines_merge(lines, &mut tail);
}

/// Splitting at a position and joining the tail back restores the text.
pub proof fn lemma_split_then_append(text: Seq<Seq<char>>, row: int, col: int)
    requires
        0 <= row,
        0 <= col,
    ensures
        joined_on(head_of_split(text, row, col), tail_of_split(text, row, col)) == text,
{
    if text.len() > 0 {
        let (r, c) = split_point(text, row, col);
        let head = head_of_split(text, row, col);
        let tail = tail_of_split(text, row, col);
        assert(head.drop_last() =~= text.take(r));
        assert(head.last() + tail.first() =~= text[r]);
        assert(tail.drop_first() =~= text.skip(r + 1));
        assert(text.take(r).push(text[r]) + text.skip(r + 1) =~= text);
    }
}

} // verus!
