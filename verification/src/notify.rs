//! What the highlighter is told describes what was done to the text.
//!
//! Every action tells the highlighter, row by row, of the changes it makes.
//! The lemmas of this module show that the notifications of an action,
//! replayed on the text as it was, give the text as the action leaves it.
use crate::actions::delete::{
    char_deleted, chars_deleted, chars_deleted_notices, delete_char_notices, selection_notices,
};
use crate::actions::insert::{
    blank_rows_inserted, blank_rows_notices, lines_broken, lines_broken_notices,
};
use crate::actions::{action_notices, all_applied, all_notices, Action, Execute};
use crate::helper::{
    behind, char_inserted, chars_inserted, chars_notices, clamped, created_notices,
    insert_char_notices, line_break_notices, line_broken, with_row,
};
use crate::highlight::{lemma_replayed_joined, noticed, replayed, Notice};
use crate::index::Index2;
use crate::state::selection::{clamp_pos, selection_removed, Selection};
use crate::state::undo::captured;
use crate::state::StateView;
use vstd::prelude::*;

verus! {

/// Replaying one notification.
pub proof fn lemma_replayed_one(told: Seq<Seq<char>>, a: Notice)
    ensures
        replayed(told, seq![a]) == noticed(told, a),
{
    assert(seq![a].drop_last() =~= Seq::<Notice>::empty());
    assert(replayed(told, seq![a].drop_last()) == told);
}

/// Replaying two notifications.
pub proof fn lemma_replayed_two(told: Seq<Seq<char>>, a: Notice, b: Notice)
    ensures
        replayed(told, seq![a, b]) == noticed(noticed(told, a), b),
{
    lemma_replayed_one(told, a);
    assert(seq![a, b].drop_last() =~= seq![a]);
}

/// What is told of a row created at the end of the text gives the text with
/// the row.
pub proof fn lemma_created_replayed(text: Seq<Seq<char>>, row: int)
    ensures
        replayed(text, created_notices(text, row)) == with_row(text, row),
{
    if row >= text.len() {
        lemma_replayed_one(text, Notice::InsertLine(text.len() as int, Seq::empty()));
        assert(text.insert(text.len() as int, Seq::empty()) =~= text.push(Seq::empty()));
    }
}

/// What is told of a line break gives the text with the line broken.
pub proof fn lemma_line_break_replayed(text: Seq<Seq<char>>, pos: Index2)
    ensures
        replayed(text, line_break_notices(text, pos)) == line_broken(text, pos).0,
{
    let ready = with_row(text, 0);
    let row = if pos.row <= ready.len() {
        pos.row as int
    } else {
        ready.len() as int
    };
    let col = if pos.col <= crate::lines::len_col_at(ready, row) {
        pos.col as int
    } else {
        crate::lines::len_col_at(ready, row) as int
    };
    lemma_created_replayed(text, 0);
    if row >= ready.len() {
        let told = seq![Notice::InsertLine(row, Seq::empty())];
        lemma_replayed_one(ready, Notice::InsertLine(row, Seq::empty()));
        lemma_replayed_joined(text, created_notices(text, 0), told);
    } else {
        let told = seq![
            Notice::Edit(row, ready[row].take(col)),
            Notice::InsertLine(row + 1, ready[row].skip(col)),
        ];
        lemma_replayed_two(
            ready,
            Notice::Edit(row, ready[row].take(col)),
            Notice::InsertLine(row + 1, ready[row].skip(col)),
        );
        lemma_replayed_joined(text, created_notices(text, 0), told);
        if col == 0 {
            assert(ready[row].take(0) =~= Seq::<char>::empty());
            assert(ready[row].skip(0) =~= ready[row]);
        }
        assert(ready.update(row, ready[row].take(col)).insert(row + 1, ready[row].skip(col))
            =~= line_broken(text, pos).0);
    }
}

/// What is told of line breaks gives the text with the lines broken.
pub proof fn lemma_lines_broken_replayed(text: Seq<Seq<char>>, pos: Index2, n: nat)
    ensures
        replayed(text, lines_broken_notices(text, pos, n)) == lines_broken(text, pos, n).0,
    decreases n,
{
    if n > 0 {
        let (t, p) = lines_broken(text, pos, (n - 1) as nat);
        lemma_lines_broken_replayed(text, pos, (n - 1) as nat);
        lemma_line_break_replayed(t, p);
        lemma_replayed_joined(
            text,
            lines_broken_notices(text, pos, (n - 1) as nat),
            line_break_notices(t, p),
        );
    }
}

/// What is told of the insertion of a character gives the text with the
/// character inserted, whether or not the position moves on.
pub proof fn lemma_insert_char_replayed(
    text: Seq<Seq<char>>,
    pos: Index2,
    ch: char,
    skip_move: bool,
)
    ensures
        replayed(text, insert_char_notices(text, pos, ch)) == char_inserted(
            text,
            pos,
            ch,
            skip_move,
        ).0,
{
    let row = if pos.row <= text.len() {
        pos.row
    } else {
        text.len() as usize
    };
    let ready = with_row(text, row as int);
    let created = created_notices(text, row as int);
    lemma_created_replayed(text, row as int);
    if ch == '\n' {
        let at = Index2 { row, col: pos.col };
        lemma_line_break_replayed(ready, at);
        lemma_replayed_joined(text, created, line_break_notices(ready, at));
    } else {
        let edit = Notice::Edit(row as int, char_inserted(text, pos, ch, false).0[row as int]);
        lemma_replayed_one(ready, edit);
        lemma_replayed_joined(text, created, seq![edit]);
        assert(noticed(ready, edit) =~= char_inserted(text, pos, ch, skip_move).0);
    }
}

/// What is told of the insertion of characters gives the text with the
/// characters inserted.
pub proof fn lemma_chars_replayed(text: Seq<Seq<char>>, pos: Index2, s: Seq<char>)
    ensures
        replayed(text, chars_notices(text, pos, s)) == chars_inserted(text, pos, s).0,
    decreases s.len(),
{
    if s.len() > 0 {
        let (t, p) = chars_inserted(text, pos, s.drop_last());
        lemma_chars_replayed(text, pos, s.drop_last());
        lemma_insert_char_replayed(t, p, s.last(), false);
        lemma_replayed_joined(
            text,
            chars_notices(text, pos, s.drop_last()),
            insert_char_notices(t, p, s.last()),
        );
    }
}

/// What is told of empty rows inserted gives the text with the rows.
pub proof fn lemma_blank_rows_replayed(text: Seq<Seq<char>>, at: int, n: nat)
    requires
        0 <= at <= text.len(),
    ensures
        replayed(text, blank_rows_notices(at, n)) == blank_rows_inserted(text, at, n),
    decreases n,
{
    if n == 0 {
        assert(blank_rows_notices(at, 0) =~= Seq::<Notice>::empty());
        assert(blank_rows_inserted(text, at, 0) =~= text);
    } else {
        lemma_blank_rows_replayed(text, at, (n - 1) as nat);
        assert(blank_rows_notices(at, n).drop_last() =~= blank_rows_notices(at, (n - 1) as nat));
        assert(blank_rows_inserted(text, at, (n - 1) as nat).insert(at, Seq::empty())
            =~= blank_rows_inserted(text, at, n));
    }
}

/// What is told of a deletion gives the text after the deletion.
pub proof fn lemma_delete_char_replayed(text: Seq<Seq<char>>, pos: Index2)
    ensures
        replayed(text, delete_char_notices(text, pos)) == char_deleted(text, pos).0,
{
    let row = if pos.row <= text.len() {
        pos.row as int
    } else {
        text.len() as int
    };
    let col = if pos.col <= crate::lines::len_col_at(text, row) {
        pos.col as int
    } else {
        crate::lines::len_col_at(text, row) as int
    };
    if col > 0 {
        lemma_replayed_one(text, Notice::Edit(row, text[row].remove(col - 1)));
    } else if row > 0 && row < text.len() {
        lemma_replayed_two(
            text,
            Notice::Edit(row - 1, text[row - 1] + text[row]),
            Notice::RemoveLine(row),
        );
        assert(text.update(row - 1, text[row - 1] + text[row]).remove(row) =~= char_deleted(
            text,
            pos,
        ).0);
    }
}

/// What is told of deletions gives the text after the deletions.
pub proof fn lemma_chars_deleted_replayed(text: Seq<Seq<char>>, pos: Index2, n: nat)
    ensures
        replayed(text, chars_deleted_notices(text, pos, n)) == chars_deleted(text, pos, n).0,
    decreases n,
{
    if n > 0 {
        let (t, p) = char_deleted(text, pos);
        lemma_delete_char_replayed(text, pos);
        lemma_chars_deleted_replayed(t, p, (n - 1) as nat);
        lemma_replayed_joined(
            text,
            delete_char_notices(text, pos),
            chars_deleted_notices(t, p, (n - 1) as nat),
        );
    }
}

/// What is told of rows removed at one row gives the text without the rows.
pub proof fn lemma_rows_removed_replayed(text: Seq<Seq<char>>, row: int, k: nat)
    requires
        0 <= row,
        row + k <= text.len(),
    ensures
        replayed(text, Seq::new(k, |i: int| Notice::RemoveLine(row))) == text.take(row)
            + text.skip(row + k),
    decreases k,
{
    let notices = Seq::new(k, |i: int| Notice::RemoveLine(row));
    if k == 0 {
        assert(notices =~= Seq::<Notice>::empty());
        assert(text.take(row) + text.skip(row) =~= text);
    } else {
        lemma_rows_removed_replayed(text, row, (k - 1) as nat);
        assert(notices.drop_last() =~= Seq::new((k - 1) as nat, |i: int| Notice::RemoveLine(row)));
        assert((text.take(row) + text.skip(row + k - 1)).remove(row) =~= text.take(row)
            + text.skip(row + k));
    }
}

/// What is told of the removal of a selection gives the text without what
/// the selection spans.
pub proof fn lemma_selection_replayed(text: Seq<Seq<char>>, selection: Selection)
    requires
        text.len() <= usize::MAX,
        forall|i: int| 0 <= i < text.len() ==> (#[trigger] text[i]).len() <= usize::MAX,
    ensures
        replayed(text, selection_notices(text, selection)) == selection_removed(text, selection),
{
    if text.len() > 0 {
        let from = clamp_pos(text, selection.first());
        let to = clamp_pos(text, selection.last());
        let removed = selection_removed(text, selection);
        let edit = Notice::Edit(from.row as int, removed[from.row as int]);
        let k = (to.row - from.row) as nat;
        let rest = Seq::new(k, |i: int| Notice::RemoveLine(from.row + 1));
        lemma_replayed_one(text, edit);
        let edited = text.update(from.row as int, removed[from.row as int]);
        lemma_rows_removed_replayed(edited, from.row + 1, k);
        lemma_replayed_joined(text, seq![edit], rest);
        assert(edited.take(from.row + 1) + edited.skip(from.row + 1 + k) =~= removed);
    }
}

/// Whether the text of a state is machine-sized.
pub open spec fn sized(s: StateView) -> bool {
    &&& s.lines.len() <= usize::MAX
    &&& forall|i: int| 0 <= i < s.lines.len() ==> (#[trigger] s.lines[i]).len() <= usize::MAX
}

/// Every action of the catalog tells the highlighter what it does to the
/// text: its notifications, replayed on the text as it was, give the text as
/// the action leaves it.
#[verifier::spinoff_prover]
#[verifier::rlimit(80)]
pub proof fn lemma_notices_describe_change<I>(action: Action<I>, s: StateView)
    requires
        sized(s),
        action is Composed ==> all_sized(action->Composed_0.0@, s),
    ensures
        replayed(s.lines, action.notices(s)) == action.applied(s).lines,
    decreases action,
{
    let c = captured(s);
    match action {
        Action::InsertChar(a) => lemma_insert_char_replayed(s.lines, s.cursor, a.0, false),
        Action::LineBreak(a) => lemma_lines_broken_replayed(s.lines, s.cursor, a.0 as nat),
        Action::AppendNewline(a) => {
            let row = if s.cursor.row <= s.lines.len() {
                s.cursor.row as int
            } else {
                s.lines.len() as int
            };
            let ready = with_row(s.lines, row);
            let created = created_notices(s.lines, row);
            lemma_created_replayed(s.lines, row);
            lemma_blank_rows_replayed(ready, row + 1, a.0 as nat);
            lemma_replayed_joined(s.lines, created, blank_rows_notices(row + 1, a.0 as nat));
        },
        Action::InsertNewline(a) => {
            let row = if s.cursor.row <= s.lines.len() {
                s.cursor.row as int
            } else {
                s.lines.len() as int
            };
            lemma_blank_rows_replayed(s.lines, row, a.0 as nat);
        },
        Action::RemoveChar(a) => {
            if s.cursor.row < s.lines.len() {
                lemma_replayed_one(
                    s.lines,
                    Notice::Edit(s.cursor.row as int, a.applied(s).lines[s.cursor.row as int]),
                );
                assert(s.lines.update(s.cursor.row as int, a.applied(s).lines[s.cursor.row as int])
                    =~= a.applied(s).lines);
            }
        },
        Action::DeleteChar(a) => lemma_chars_deleted_replayed(s.lines, s.cursor, a.0 as nat),
        Action::DeleteLine(a) => {
            let k = a.removed(s);
            if k > 0 {
                lemma_rows_removed_replayed(s.lines, s.cursor.row as int, k);
            } else {
                assert(a.notices(s) =~= Seq::<Notice>::empty());
            }
        },
        Action::DeleteSelection(a) => {
            match s.selection {
                Some(selection) => lemma_selection_replayed(s.lines, selection),
                None => {},
            }
        },
        Action::Undo(a) => {
            if s.undo.len() > 0 {
                lemma_replayed_one(s.lines, Notice::Run(s.undo.last().lines));
            }
        },
        Action::Redo(a) => {
            if s.redo.len() > 0 {
                lemma_replayed_one(s.lines, Notice::Run(s.redo.last().lines));
            }
        },
        Action::Paste(a) => {
            let k = clamped(s);
            match k.selection {
                Some(selection) => {
                    let removed = selection_removed(k.lines, selection);
                    let at = clamp_pos(k.lines, selection.first());
                    lemma_selection_replayed(k.lines, selection);
                    lemma_chars_replayed(removed, at, k.clip);
                    lemma_replayed_joined(
                        k.lines,
                        selection_notices(k.lines, selection),
                        chars_notices(removed, at, k.clip),
                    );
                },
                None => {
                    lemma_chars_replayed(k.lines, behind(k.lines, k.cursor), k.clip);
                },
            }
        },
        Action::Composed(a) => lemma_all_notices_describe_change(a.0@, s),
        _ => {},
    }
}

/// Whether the text is machine-sized before each action of a list, run
/// after those before it.
pub open spec fn all_sized<I>(actions: Seq<Action<I>>, s: StateView) -> bool
    decreases actions,
{
    actions.len() == 0 || (all_sized(actions.drop_last(), s) && sized(
        all_applied(actions.drop_last(), s),
    ) && (actions.last() is Composed ==> all_sized(
        actions.last()->Composed_0.0@,
        all_applied(actions.drop_last(), s),
    )))
}

/// A list of actions tells the highlighter what it does to the text.
pub proof fn lemma_all_notices_describe_change<I>(actions: Seq<Action<I>>, s: StateView)
    requires
        all_sized(actions, s),
    ensures
        replayed(s.lines, all_notices(actions, s)) == all_applied(actions, s).lines,
    decreases actions,
{
    if actions.len() > 0 {
        let before = all_applied(actions.drop_last(), s);
        lemma_all_notices_describe_change(actions.drop_last(), s);
        lemma_notices_describe_change(actions.last(), before);
        lemma_replayed_joined(
            s.lines,
            all_notices(actions.drop_last(), s),
            action_notices(actions.last(), before),
        );
    }
}

} // verus!
