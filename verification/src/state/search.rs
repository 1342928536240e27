//! The state of a search: the pattern, where it occurs, and the match the
//! cursor was last sent to.
use crate::index::Index2;
use crate::lines::{lines_len, lines_row, rows, Lines};
use crate::strings::chars_of;
use vstd::prelude::*;

verus! {

/// Whether `pattern` occurs in `text` at `pos`: the pattern is not empty and
/// the characters of the row from `pos.col` on begin with it. A match lies
/// within one row.
pub open spec fn occurs_at(text: Seq<Seq<char>>, pattern: Seq<char>, pos: Index2) -> bool {
    &&& pattern.len() > 0
    &&& pos.row < text.len()
    &&& pos.col + pattern.len() <= text[pos.row as int].len()
    &&& text[pos.row as int].subrange(pos.col as int, pos.col + pattern.len()) == pattern
}

/// Whether `matches` lists exactly the occurrences of `pattern` in `text`, each
/// once, in row-major order.
pub open spec fn lists_occurrences(
    matches: Seq<Index2>,
    text: Seq<Seq<char>>,
    pattern: Seq<char>,
) -> bool {
    &&& forall|i: int| 0 <= i < matches.len() ==> occurs_at(text, pattern, #[trigger] matches[i])
    &&& forall|pos: Index2| #[trigger]
        occurs_at(text, pattern, pos) ==> exists|i: int|
            0 <= i < matches.len() && matches[i] == pos
    &&& forall|i: int, j: int|
        0 <= i < j < matches.len() ==> (#[trigger] matches[i]).lt(#[trigger] matches[j])
}

/// The occurrences of `pattern` in `row` that begin at column `from` or
/// after it, in the order of their columns. `r` is the index of the row.
pub open spec fn row_occurrences(row: Seq<char>, pattern: Seq<char>, r: usize, from: int) -> Seq<
    Index2,
>
    decreases row.len() - from,
{
    if pattern.len() == 0 || from < 0 || from + pattern.len() > row.len() {
        Seq::empty()
    } else {
        let rest = row_occurrences(row, pattern, r, from + 1);
        if row.subrange(from, from + pattern.len()) == pattern {
            seq![Index2 { row: r, col: from as usize }] + rest
        } else {
            rest
        }
    }
}

/// The occurrences of `pattern` in the rows of `text` from row `r` on, in
/// row-major order.
pub open spec fn occurrences_from(text: Seq<Seq<char>>, pattern: Seq<char>, r: int) -> Seq<Index2>
    decreases text.len() - r,
{
    if r < 0 || r >= text.len() {
        Seq::empty()
    } else {
        row_occurrences(text[r], pattern, r as usize, 0) + occurrences_from(text, pattern, r + 1)
    }
}

/// The occurrences of `pattern` in `text`, in row-major order. An empty
/// pattern occurs nowhere.
pub open spec fn occurrences(text: Seq<Seq<char>>, pattern: Seq<char>) -> Seq<Index2> {
    occurrences_from(text, pattern, 0)
}

/// Whether the text is one that a buffer can hold: the number of its rows
/// and the length of each row are machine-sized.
pub open spec fn fits(text: Seq<Seq<char>>) -> bool {
    &&& text.len() <= usize::MAX
    &&& forall|i: int| 0 <= i < text.len() ==> (#[trigger] text[i]).len() <= usize::MAX
}

/// What [`row_occurrences`] lists: exactly the columns from `from` on at
/// which the pattern begins, in ascending order.
pub proof fn lemma_row_occurrences(row: Seq<char>, pattern: Seq<char>, r: usize, from: int)
    requires
        0 <= from,
        row.len() <= usize::MAX,
    ensures
        forall|i: int|
            0 <= i < row_occurrences(row, pattern, r, from).len() ==> {
                let at = #[trigger] row_occurrences(row, pattern, r, from)[i];
                &&& at.row == r
                &&& from <= at.col
                &&& pattern.len() > 0
                &&& at.col + pattern.len() <= row.len()
                &&& row.subrange(at.col as int, at.col + pattern.len()) == pattern
            },
        forall|c: int|
            from <= c && pattern.len() > 0 && c + pattern.len() <= row.len() && #[trigger] row.subrange(
                c,
                c + pattern.len(),
            ) == pattern ==> exists|i: int|
                0 <= i < row_occurrences(row, pattern, r, from).len() && row_occurrences(
                    row,
                    pattern,
                    r,
                    from,
                )[i] == (Index2 { row: r, col: c as usize }),
        forall|i: int, j: int|
            0 <= i < j < row_occurrences(row, pattern, r, from).len() ==> (
            #[trigger] row_occurrences(row, pattern, r, from)[i]).col < (#[trigger] row_occurrences(
                row,
                pattern,
                r,
                from,
            )[j]).col,
    decreases row.len() - from,
{
    let found = row_occurrences(row, pattern, r, from);
    if pattern.len() == 0 || from + pattern.len() > row.len() {
    } else {
        lemma_row_occurrences(row, pattern, r, from + 1);
        let rest = row_occurrences(row, pattern, r, from + 1);
        let here = Index2 { row: r, col: from as usize };
        if row.subrange(from, from + pattern.len()) == pattern {
            assert(found =~= seq![here] + rest);
            assert forall|i: int| 0 <= i < found.len() implies {
                let at = #[trigger] found[i];
                &&& at.row == r
                &&& from <= at.col
                &&& pattern.len() > 0
                &&& at.col + pattern.len() <= row.len()
                &&& row.subrange(at.col as int, at.col + pattern.len()) == pattern
            } by {
                if i > 0 {
                    assert(found[i] == rest[i - 1]);
                }
            }
            assert forall|c: int|
                from <= c && pattern.len() > 0 && c + pattern.len() <= row.len()
                    && #[trigger] row.subrange(c, c + pattern.len()) == pattern implies exists|
                i: int,
            |
                0 <= i < found.len() && found[i] == (Index2 { row: r, col: c as usize }) by {
                if c == from {
                    assert(found[0] == here);
                } else {
                    let k = choose|k: int|
                        0 <= k < rest.len() && rest[k] == (Index2 { row: r, col: c as usize });
                    assert(found[k + 1] == rest[k]);
                }
            }
            assert forall|i: int, j: int| 0 <= i < j < found.len() implies (#[trigger] found[i]).col
                < (#[trigger] found[j]).col by {
                assert(found[j] == rest[j - 1]);
                if i > 0 {
                    assert(found[i] == rest[i - 1]);
                }
            }
        } else {
            assert(found =~= rest);
            assert forall|c: int|
                from <= c && pattern.len() > 0 && c + pattern.len() <= row.len()
                    && #[trigger] row.subrange(c, c + pattern.len()) == pattern implies exists|
                i: int,
            |
                0 <= i < found.len() && found[i] == (Index2 { row: r, col: c as usize }) by {
                assert(c != from);
            }
        }
    }
}

/// What [`occurrences_from`] lists: exactly the occurrences in row `r` and
/// below, in row-major order.
pub proof fn lemma_occurrences_from(text: Seq<Seq<char>>, pattern: Seq<char>, r: int)
    requires
        0 <= r,
        fits(text),
    ensures
        forall|i: int|
            0 <= i < occurrences_from(text, pattern, r).len() ==> occurs_at(
                text,
                pattern,
                #[trigger] occurrences_from(text, pattern, r)[i],
            ) && occurrences_from(text, pattern, r)[i].row >= r,
        forall|pos: Index2| #[trigger]
            occurs_at(text, pattern, pos) && pos.row >= r ==> exists|i: int|
                0 <= i < occurrences_from(text, pattern, r).len() && occurrences_from(
                    text,
                    pattern,
                    r,
                )[i] == pos,
        forall|i: int, j: int|
            0 <= i < j < occurrences_from(text, pattern, r).len() ==> (
            #[trigger] occurrences_from(text, pattern, r)[i]).lt(
                #[trigger] occurrences_from(text, pattern, r)[j],
            ),
    decreases text.len() - r,
{
    let found = occurrences_from(text, pattern, r);
    if r < text.len() {
        let row = text[r];
        let head = row_occurrences(row, pattern, r as usize, 0);
        let rest = occurrences_from(text, pattern, r + 1);
        lemma_row_occurrences(row, pattern, r as usize, 0);
        lemma_occurrences_from(text, pattern, r + 1);
        assert(found =~= head + rest);
        assert forall|i: int| 0 <= i < found.len() implies occurs_at(
            text,
            pattern,
            #[trigger] found[i],
        ) && found[i].row >= r by {
            if i < head.len() {
                assert(found[i] == head[i]);
            } else {
                assert(found[i] == rest[i - head.len()]);
            }
        }
        assert forall|pos: Index2| #[trigger]
            occurs_at(text, pattern, pos) && pos.row >= r implies exists|i: int|
            0 <= i < found.len() && found[i] == pos by {
            if pos.row == r {
                assert(row.subrange(pos.col as int, pos.col + pattern.len()) == pattern);
                let k = choose|k: int|
                    0 <= k < head.len() && head[k] == (Index2 {
                        row: r as usize,
                        col: (pos.col as int) as usize,
                    });
                assert(found[k] == head[k]);
            } else {
                let k = choose|k: int| 0 <= k < rest.len() && rest[k] == pos;
                assert(found[k + head.len()] == rest[k]);
            }
        }
        assert forall|i: int, j: int| 0 <= i < j < found.len() implies (#[trigger] found[i]).lt(
            #[trigger] found[j],
        ) by {
            if j < head.len() {
                assert(found[i] == head[i] && found[j] == head[j]);
            } else if i < head.len() {
                assert(found[i] == head[i] && found[j] == rest[j - head.len()]);
            } else {
                assert(found[i] == rest[i - head.len()] && found[j] == rest[j - head.len()]);
            }
        }
    }
}

/// For every pattern and every text, the occurrences listed are exactly the
/// positions at which the pattern begins within a row, each once, in
/// row-major order.
pub proof fn lemma_occurrences_exact(text: Seq<Seq<char>>, pattern: Seq<char>)
    requires
        fits(text),
    ensures
        lists_occurrences(occurrences(text, pattern), text, pattern),
        pattern.len() == 0 ==> occurrences(text, pattern).len() == 0,
{
    lemma_occurrences_from(text, pattern, 0);
    if pattern.len() == 0 && occurrences(text, pattern).len() > 0 {
        assert(occurs_at(text, pattern, occurrences(text, pattern)[0]));
    }
}

/// What a search state holds, as plain values.
pub struct SearchView {
    pub start_cursor: Index2,
    pub pattern: Seq<char>,
    pub matches: Seq<Index2>,
    pub selected_index: Option<usize>,
}

/// The first index of `matches` whose position is at or after `from`, or the
/// number of matches when there is none.
pub open spec fn first_at_or_after(matches: Seq<Index2>, from: Index2) -> int
    decreases matches.len(),
{
    if matches.len() == 0 {
        0
    } else if from.le(matches[0]) {
        0
    } else {
        1 + first_at_or_after(matches.drop_first(), from)
    }
}

/// The index `find_first` selects: the first match at or after the position
/// the search was started from, or the earliest match if there is none after.
pub open spec fn first_index(s: SearchView) -> Option<usize> {
    if s.matches.len() == 0 {
        None
    } else if first_at_or_after(s.matches, s.start_cursor) < s.matches.len() {
        Some(first_at_or_after(s.matches, s.start_cursor) as usize)
    } else {
        Some(0)
    }
}

/// The index `find_next` selects: one past the selected match, the first match
/// after the last. Nothing where no match was selected before.
pub open spec fn next_index(s: SearchView) -> Option<usize> {
    match s.selected_index {
        Some(i) if s.matches.len() > 0 => {
            if i + 1 >= s.matches.len() {
                Some(0)
            } else {
                Some((i + 1) as usize)
            }
        },
        _ => None,
    }
}

/// The index `find_previous` selects: one before the selected match, the last
/// match before the first. Nothing where no match was selected before.
pub open spec fn previous_index(s: SearchView) -> Option<usize> {
    match s.selected_index {
        Some(i) if s.matches.len() > 0 => {
            if i == 0 || i > s.matches.len() {
                Some((s.matches.len() - 1) as usize)
            } else {
                Some((i - 1) as usize)
            }
        },
        _ => None,
    }
}

/// The state of the search mode.
#[derive(Debug)]
pub struct SearchState {
    /// The cursor position when the search was started.
    pub start_cursor: Index2,
    /// The text searched for.
    pub pattern: String,
    /// The positions where the pattern begins, in row-major order.
    pub matches: Vec<Index2>,
    /// The index into `matches` of the match last selected.
    pub selected_index: Option<usize>,
}

impl View for SearchState {
    type V = SearchView;

    open spec fn view(&self) -> SearchView {
        SearchView {
            start_cursor: self.start_cursor,
            pattern: self.pattern@,
            matches: self.matches@,
            selected_index: self.selected_index,
        }
    }
}

impl Default for SearchState {
    fn default() -> (s: SearchState)
        ensures
            s@ == (SearchView {
                start_cursor: Index2 { row: 0, col: 0 },
                pattern: Seq::empty(),
                matches: Seq::empty(),
                selected_index: None,
            }),
    {
        SearchState {
            start_cursor: Index2 { row: 0, col: 0 },
            pattern: String::new(),
            matches: Vec::new(),
            selected_index: None,
        }
    }
}

/// Whether `pattern` begins at column `col` of `row`.
fn matches_at(row: &Vec<char>, pattern: &Vec<char>, col: usize) -> (b: bool)
    requires
        pattern.len() > 0,
        col + pattern.len() <= row.len(),
    ensures
        b == (row@.subrange(col as int, col + pattern.len()) == pattern@),
{
    let mut k: usize = 0;
    while k < pattern.len()
        invariant
            k <= pattern.len(),
            col + pattern.len() <= row.len(),
            forall|j: int| 0 <= j < k ==> row@[col + j] == pattern@[j],
        decreases pattern.len() - k,
    {
        if row[col + k] != pattern[k] {
            assert(row@.subrange(col as int, col + pattern.len())[k as int] != pattern@[k as int]);
            return false;
        }
        k += 1;
    }
    assert(row@.subrange(col as int, col + pattern.len()) =~= pattern@);
    true
}

impl SearchState {
    /// Returns the length of the current search pattern.
    pub fn pattern_len(&self) -> (n: usize)
        ensures
            n == self.pattern@.len(),
    {
        self.pattern.as_str().unicode_len()
    }

    /// Starts a search from `cursor`: the pattern and the matches are cleared.
    pub fn start(&mut self, cursor: Index2)
        ensures
            final(self)@ == (SearchView {
                start_cursor: cursor,
                pattern: Seq::empty(),
                matches: Seq::empty(),
                selected_index: None,
            }),
    {
        self.start_cursor = cursor;
        self.pattern.clear();
        self.matches = Vec::new();
        self.selected_index = None;
    }

    /// Clears the pattern and the matches. The start position stays.
    pub fn clear(&mut self)
        ensures
            final(self)@ == (SearchView {
                start_cursor: old(self)@.start_cursor,
                pattern: Seq::empty(),
                matches: Seq::empty(),
                selected_index: None,
            }),
    {
        self.pattern.clear();
        self.matches = Vec::new();
        self.selected_index = None;
    }

    /// Appends a character to the pattern.
    pub fn push_char(&mut self, ch: char)
        ensures
            final(self)@ == (SearchView { pattern: old(self)@.pattern.push(ch), ..old(self)@ }),
    {
        self.pattern.push(ch);
    }

    /// Removes the last character of the pattern, if there is one.
    pub fn remove_char(&mut self)
        ensures
            final(self)@ == (SearchView {
                pattern: if old(self)@.pattern.len() > 0 {
                    old(self)@.pattern.drop_last()
                } else {
                    old(self)@.pattern
                },
                ..old(self)@
            }),
    {
        let _ = self.pattern.pop();
    }

    /// Finds the pattern in `lines` anew: afterwards the matches are exactly
    /// the occurrences of the pattern, in row-major order, and none is selected.
    /// An empty pattern has no matches.
    pub fn trigger_search(&mut self, lines: &Lines)
        ensures
            final(self)@.matches == occurrences(rows(*lines), old(self)@.pattern),
            lists_occurrences(final(self)@.matches, rows(*lines), old(self)@.pattern),
            fits(rows(*lines)),
            final(self)@.pattern == old(self)@.pattern,
            final(self)@.start_cursor == old(self)@.start_cursor,
            final(self)@.selected_index is None,
    {
        let pattern = chars_of(self.pattern.as_str());
        let mut found: Vec<Index2> = Vec::new();
        self.selected_index = None;
        let ghost text = rows(*lines);
        let ghost pat = pattern@;
        let n = lines_len(lines);
        let mut r: usize = 0;
        assert(found@ + occurrences_from(text, pat, 0) =~= occurrences(text, pat));
        while r < n
            invariant
                r <= n,
                n == text.len(),
                text == rows(*lines),
                pat == pattern@,
                forall|i: int| 0 <= i < r ==> (#[trigger] text[i]).len() <= usize::MAX,
                found@ + occurrences_from(text, pat, r as int) == occurrences(text, pat),
            decreases n - r,
        {
            let row = lines_row(lines, r).unwrap();
            let ghost before = found@;
            if pattern.len() > 0 && row.len() >= pattern.len() {
                let limit = row.len() - pattern.len();
                let mut c: usize = 0;
                assert(found@ + row_occurrences(row@, pat, r, 0) =~= before + row_occurrences(
                    row@,
                    pat,
                    r,
                    0,
                ));
                while c <= limit
                    invariant
                        c <= limit + 1,
                        limit == row.len() - pattern.len(),
                        pat == pattern@,
                        pat.len() > 0,
                        found@ + row_occurrences(row@, pat, r, c as int) == before
                            + row_occurrences(row@, pat, r, 0),
                    decreases limit + 1 - c,
                {
                    let ghost so_far = found@;
                    if matches_at(row, &pattern, c) {
                        found.push(Index2 { row: r, col: c });
                    }
                    assert(found@ + row_occurrences(row@, pat, r, c + 1) =~= so_far
                        + row_occurrences(row@, pat, r, c as int));
                    c += 1;
                }
                assert(row_occurrences(row@, pat, r, c as int) =~= Seq::<Index2>::empty());
                assert(found@ =~= before + row_occurrences(row@, pat, r, 0));
            } else {
                assert(row_occurrences(row@, pat, r, 0) =~= Seq::<Index2>::empty()) by {
                    if pat.len() > 0 && row@.len() >= 1 {
                        assert(row_occurrences(row@, pat, r, 1) =~= Seq::<Index2>::empty());
                    }
                }
                assert(found@ =~= before + row_occurrences(row@, pat, r, 0));
            }
            assert(found@ + occurrences_from(text, pat, r + 1) =~= before + occurrences_from(
                text,
                pat,
                r as int,
            ));
            r += 1;
        }
        proof {
            assert(found@ =~= occurrences(text, pat));
            lemma_occurrences_exact(text, pat);
        }
        self.matches = found;
    }

    /// Selects the first match at or after the position the search was started
    /// from, or the earliest match if none comes after, and returns it.
    /// Without matches nothing is selected and nothing returned.
    pub fn find_first(&mut self) -> (found: Option<Index2>)
        ensures
            final(self)@ == (SearchView { selected_index: first_index(old(self)@), ..old(self)@ }),
            found == match first_index(old(self)@) {
                Some(i) => Some(old(self)@.matches[i as int]),
                None => None,
            },
            first_index(old(self)@) is Some ==> first_index(old(self)@)->0 < old(self)@.matches.len(),
    {
        let n = self.matches.len();
        if n == 0 {
            self.selected_index = None;
            return None;
        }
        let mut i: usize = 0;
        assert(self.matches@.skip(0) =~= self.matches@);
        while i < n
            invariant
                i <= n,
                n == self.matches.len(),
                *self == *old(self),
                first_at_or_after(self.matches@, self.start_cursor) == i + first_at_or_after(
                    self.matches@.skip(i as int),
                    self.start_cursor,
                ),
            decreases n - i,
        {
            assert(self.matches@.skip(i as int)[0] == self.matches@[i as int]);
            if self.start_cursor.at_or_before(&self.matches[i]) {
                self.selected_index = Some(i);
                return Some(self.matches[i]);
            }
            assert(self.matches@.skip(i as int).drop_first() =~= self.matches@.skip(i + 1));
            i += 1;
        }
        self.selected_index = Some(0);
        Some(self.matches[0])
    }

    /// Selects the match after the selected one, the first after the last, and
    /// returns it. Where no match is selected yet, nothing changes.
    pub fn find_next(&mut self) -> (found: Option<Index2>)
        ensures
            next_index(old(self)@) is Some ==> {
                &&& next_index(old(self)@)->0 < old(self)@.matches.len()
                &&& found == Some(old(self)@.matches[next_index(old(self)@)->0 as int])
                &&& final(self)@ == (SearchView {
                    selected_index: next_index(old(self)@),
                    ..old(self)@
                })
            },
            next_index(old(self)@) is None ==> found is None && final(self)@ == old(self)@,
    {
        let n = self.matches.len();
        match self.selected_index {
            Some(i) => {
                if n == 0 {
                    return None;
                }
                let next = if i >= n - 1 {
                    0
                } else {
                    i + 1
                };
                self.selected_index = Some(next);
                Some(self.matches[next])
            },
            None => None,
        }
    }

    /// Selects the match before the selected one, the last before the first,
    /// and returns it. Where no match is selected yet, nothing changes.
    pub fn find_previous(&mut self) -> (found: Option<Index2>)
        ensures
            previous_index(old(self)@) is Some ==> {
                &&& previous_index(old(self)@)->0 < old(self)@.matches.len()
                &&& found == Some(old(self)@.matches[previous_index(old(self)@)->0 as int])
                &&& final(self)@ == (SearchView {
                    selected_index: previous_index(old(self)@),
                    ..old(self)@
                })
            },
            previous_index(old(self)@) is None ==> found is None && final(self)@ == old(self)@,
    {
        let n = self.matches.len();
        match self.selected_index {
            Some(i) => {
                if n == 0 {
                    return None;
                }
                let previous = if i == 0 || i > n {
                    n - 1
                } else {
                    i - 1
                };
                self.selected_index = Some(previous);
                Some(self.matches[previous])
            },
            None => None,
        }
    }
}

} // verus!
