//! Copy and paste.
use crate::actions::delete::{delete_selection, selection_notices};
use crate::actions::Execute;
use crate::helper::{
    append_str, behind, chars_notices, clamp_column, clamped, enter, entered, insert_str, steady,
    str_appended, str_inserted,
};
use crate::highlight::Notice;
use crate::state::mode::EditorMode;
use crate::state::selection::{clamp_pos, selected_text, selection_removed};
use crate::state::undo::captured;
use crate::state::{EditorState, StateView};
use vstd::prelude::*;

verus! {

/// The state `before` with the last string that the clipboard has returned
/// on the way to `after` in the clipboard.
pub open spec fn read_into(before: StateView, after: StateView) -> StateView {
    StateView { clip: after.answers.last(), answers: after.answers, ..before }
}

/// Pastes the clipboard into the text: the string that the clipboard returns
/// when the action asks for it.
#[derive(Clone, Copy, Debug, PartialEq, Eq)]
pub struct Paste;

impl Execute for Paste {
    /// What the action leaves when the clipboard returns `s.clip`.
    ///
    /// The state is captured and the column clamped. With a selection, what
    /// it spans is removed and the clipboard is inserted in its place, the
    /// cursor ending on the last character inserted. Without one, the
    /// clipboard is appended behind the character under the cursor. The
    /// editor then enters normal mode without a selection, the column clamped
    /// by the limit of normal mode.
    open spec fn applied(&self, s: StateView) -> StateView {
        let c = clamped(captured(s));
        let (lines, cursor) = match c.selection {
            Some(selection) => str_inserted(
                selection_removed(c.lines, selection),
                clamp_pos(c.lines, selection.first()),
                c.clip,
            ),
            None => str_appended(c.lines, c.cursor, c.clip),
        };
        entered(StateView { lines, cursor, selection: None, ..c }, EditorMode::Normal)
    }

    /// With a selection, what is told of its removal and then of the
    /// insertion of each character of the clipboard; without one, what is
    /// told of the insertion of each character behind the cursor.
    open spec fn notices(&self, s: StateView) -> Seq<Notice> {
        let c = clamped(s);
        match c.selection {
            Some(selection) => selection_notices(c.lines, selection) + chars_notices(
                selection_removed(c.lines, selection),
                clamp_pos(c.lines, selection.first()),
                c.clip,
            ),
            None => chars_notices(c.lines, behind(c.lines, c.cursor), c.clip),
        }
    }

    /// The action asks the clipboard for its text once and works on the
    /// string that comes back: it leaves what `applied` says of `before` with
    /// that string in the clipboard. The default clipboard in memory returns
    /// the string that it was last handed.
    open spec fn leads(
        &self,
        before: StateView,
        after: StateView,
        told: Seq<Notice>,
        told_after: Seq<Notice>,
    ) -> bool {
        let read = read_into(before, after);
        &&& before.in_memory ==> after.answers.last() == before.clip
        &&& after.answers.len() == before.answers.len() + 1
        &&& after.answers.drop_last() == before.answers
        &&& after == self.applied(read)
        &&& told_after =~= told + self.notices(read)
    }

    fn execute(&self, state: &mut EditorState) {
        let text = state.clip.get_text();
        paste_text(state, text.as_str());
        assert(state@.answers.drop_last() =~= old(state)@.answers);
        assert(state@.answers.last() == text@);
    }
}

/// Pastes `text` into the text of the editor, as [`Paste`] does with the
/// string that the clipboard returns. The clipboard itself is left alone.
pub fn paste_text(state: &mut EditorState, text: &str)
    requires
        old(state).wf(),
    ensures
        final(state).wf(),
        final(state)@ == (StateView {
            clip: old(state)@.clip,
            ..Paste.applied(StateView { clip: text@, ..old(state)@ })
        }),
        final(state).highlighter.log() =~= old(state).highlighter.log() + Paste.notices(
            StateView { clip: text@, ..old(state)@ },
        ),
        steady(old(state)@) ==> steady(final(state)@),
{
    state.capture();
    clamp_column(state);
    match state.selection {
        Some(selection) => {
            let _ = delete_selection(state, &selection);
            let ghost t = state@.lines;
            let ghost p = state@.cursor;
            insert_str(&mut state.lines, &mut state.cursor, text, &mut state.highlighter);
            assert(state.highlighter.log() =~= old(state).highlighter.log() + (selection_notices(
                old(state)@.lines,
                selection,
            ) + chars_notices(t, p, text@)));
        },
        None => {
            append_str(&mut state.lines, &mut state.cursor, text, &mut state.highlighter);
        },
    }
    state.selection = None;
    enter(state, EditorMode::Normal);
}

/// Copies the selection to the clipboard.
#[derive(Clone, Copy, Debug, PartialEq, Eq)]
pub struct CopySelection;

impl Execute for CopySelection {
    /// With a selection, the characters it spans go to the clipboard, and the
    /// editor then enters normal mode without a selection, the column clamped
    /// by the limit of normal mode. Without one nothing changes.
    open spec fn applied(&self, s: StateView) -> StateView {
        match s.selection {
            Some(selection) => entered(
                StateView { clip: selected_text(s.lines, selection), selection: None, ..s },
                EditorMode::Normal,
            ),
            None => s,
        }
    }

    fn execute(&self, state: &mut EditorState) {
        match state.selection {
            Some(selection) => {
                let text = selection.extract(&state.lines);
                state.clip.set_text(text);
                state.selection = None;
                enter(state, EditorMode::Normal);
            },
            None => {},
        }
    }
}

/// Copying a selection and pasting it back appends the text that the
/// selection spans behind the cursor, where the clipboard returns to the
/// paste the string that the copy has handed it, as the default clipboard
/// does. The copy leaves the text as it is and
/// the cursor where it was, its column within the limit of normal mode; the
/// paste leaves the cursor on the last character pasted.
pub proof fn lemma_copy_then_paste(s: StateView)
    requires
        s.selection is Some,
    ensures
        ({
            let copied = CopySelection.applied(s);
            let pasted = Paste.applied(copied);
            let (lines, cursor) = str_appended(
                s.lines,
                copied.cursor,
                selected_text(s.lines, s.selection->0),
            );
            &&& copied.cursor == entered(s, EditorMode::Normal).cursor
            &&& s.cursor.col <= crate::helper::max_col_of(
                s.lines,
                s.cursor.row as int,
                EditorMode::Normal,
            ) ==> copied.cursor == s.cursor
            &&& copied.lines == s.lines
            &&& copied.selection is None
            &&& copied.clip == selected_text(s.lines, s.selection->0)
            &&& pasted.lines == lines
            &&& pasted.cursor == entered(
                StateView { lines, cursor, ..copied },
                EditorMode::Normal,
            ).cursor
        }),
{
}

/// With the default clipboard in memory, wherever a copy of the selection
/// and a paste after it lead, the text that the selection spans has been
/// appended behind the cursor, and the cursor is on the last character
/// pasted.
pub proof fn lemma_copy_then_paste_led(
    s: StateView,
    copied: StateView,
    pasted: StateView,
    told: Seq<Notice>,
    told_copied: Seq<Notice>,
    told_pasted: Seq<Notice>,
)
    requires
        s.selection is Some,
        s.in_memory,
        CopySelection.leads(s, copied, told, told_copied),
        Paste.leads(copied, pasted, told_copied, told_pasted),
    ensures
        ({
            let (lines, cursor) = str_appended(
                s.lines,
                copied.cursor,
                selected_text(s.lines, s.selection->0),
            );
            &&& copied == CopySelection.applied(s)
            &&& pasted.lines == lines
            &&& pasted.cursor == entered(
                StateView { lines, cursor, ..copied },
                EditorMode::Normal,
            ).cursor
            &&& pasted.clip == selected_text(s.lines, s.selection->0)
        }),
{
    lemma_copy_then_paste(s);
    let read = read_into(copied, pasted);
    assert(read.clip == copied.clip);
    assert(Paste.applied(read).lines == Paste.applied(copied).lines);
    assert(Paste.applied(read).cursor == Paste.applied(copied).cursor);
}

} // verus!
