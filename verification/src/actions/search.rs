//! Actions of the search mode.
use crate::actions::Execute;
use crate::helper::{clamp_column, clamped, column_in_range};
use crate::state::mode::EditorMode;
use crate::state::search::{
    first_index, next_index, occurrences, occurs_at, previous_index, SearchView,
};
use crate::state::{EditorState, StateView};
use vstd::prelude::*;

verus! {

/// The state with the match at `index` selected and the cursor on it; without
/// an index the state as it is.
pub open spec fn at_match(s: StateView, index: Option<usize>) -> StateView {
    match index {
        Some(i) => StateView {
            cursor: s.search.matches[i as int],
            search: SearchView { selected_index: Some(i), ..s.search },
            ..s
        },
        None => s,
    }
}

/// The state searched anew for `pattern`: the matches are the occurrences of
/// the pattern in the text, and the first match from where the search began
/// is selected, the cursor on it. Without a match nothing is selected and the
/// cursor stays.
pub open spec fn searched(s: StateView, pattern: Seq<char>) -> StateView {
    let found = SearchView {
        pattern,
        matches: occurrences(s.lines, pattern),
        selected_index: None,
        ..s.search
    };
    at_match(
        StateView { search: SearchView { selected_index: first_index(found), ..found }, ..s },
        first_index(found),
    )
}

/// Searches anew and goes to the first match.
fn search_again(state: &mut EditorState)
    requires
        old(state).wf(),
    ensures
        final(state).wf(),
        final(state)@ == searched(old(state)@, old(state)@.search.pattern),
        final(state).highlighter == old(state).highlighter,
        column_in_range(old(state)@) ==> column_in_range(final(state)@),
{
    state.search.trigger_search(&state.lines);
    let ghost found = state.search@.matches;
    match state.search.find_first() {
        Some(index) => {
            let ghost i = first_index(state.search@)->0;
            assert(occurs_at(state@.lines, state@.search.pattern, found[i as int]));
            state.cursor = index;
        },
        None => {},
    }
}

/// Command to append a single character to the search buffer and trigger a search.
#[derive(Clone, Copy, Debug, PartialEq, Eq)]
pub struct AppendCharToSearch(pub char);

impl Execute for AppendCharToSearch {
    /// The character is added to the pattern, the text is searched for the
    /// new pattern, and the cursor goes to the first match from where the
    /// search began.
    open spec fn applied(&self, s: StateView) -> StateView {
        searched(s, s.search.pattern.push(self.0))
    }

    /// Executes the command, appending the specified character to the search buffer
    /// and triggering a search based on the updated buffer.
    fn execute(&self, state: &mut EditorState) {
        state.search.push_char(self.0);
        search_again(state);
    }
}

/// Command to remove the last character from the search buffer and trigger a search.
#[derive(Clone, Copy, Debug, PartialEq, Eq)]
pub struct RemoveCharFromSearch;

impl RemoveCharFromSearch {
    /// The pattern without its last character.
    pub open spec fn shortened(pattern: Seq<char>) -> Seq<char> {
        if pattern.len() > 0 {
            pattern.drop_last()
        } else {
            pattern
        }
    }
}

impl Execute for RemoveCharFromSearch {
    /// The last character leaves the pattern, the text is searched for the
    /// new pattern, and the cursor goes to the first match from where the
    /// search began.
    open spec fn applied(&self, s: StateView) -> StateView {
        searched(s, Self::shortened(s.search.pattern))
    }

    /// Executes the command, removing the last character from the search buffer
    /// and triggering a search based on the updated buffer.
    fn execute(&self, state: &mut EditorState) {
        state.search.remove_char();
        search_again(state);
    }
}

/// Command to find the first match of the search pattern behind the last cursor position.
#[derive(Clone, Copy, Debug, PartialEq, Eq)]
pub struct TriggerSearch;

impl Execute for TriggerSearch {
    /// The editor returns to normal mode and the cursor goes to the first
    /// match from where the search began, if there is a match. The column is
    /// clamped by the limit of normal mode.
    open spec fn applied(&self, s: StateView) -> StateView {
        clamped(at_match(
            StateView {
                mode: EditorMode::Normal,
                search: SearchView { selected_index: first_index(s.search), ..s.search },
                ..s
            },
            first_index(s.search),
        ))
    }

    /// Executes the command, finding the first match of the search pattern behind
    /// the last cursor position and setting the cursor to the found match.
    /// Switches to normal mode.
    fn execute(&self, state: &mut EditorState) {
        state.mode = EditorMode::Normal;
        match state.search.find_first() {
            Some(index) => {
                state.cursor = index;
            },
            None => {},
        }
        clamp_column(state);
    }
}

/// Command to find the next search match and update the cursor position.
#[derive(Clone, Copy, Debug, PartialEq, Eq)]
pub struct FindNext;

impl Execute for FindNext {
    /// The editor returns to normal mode and the cursor goes to the match
    /// after the selected one, to the first after the last. The column is
    /// clamped by the limit of normal mode.
    open spec fn applied(&self, s: StateView) -> StateView {
        clamped(at_match(StateView { mode: EditorMode::Normal, ..s }, next_index(s.search)))
    }

    /// Executes the command, finding the next search match and updating the cursor position.
    /// Switches to normal mode.
    fn execute(&self, state: &mut EditorState) {
        state.mode = EditorMode::Normal;
        match state.search.find_next() {
            Some(index) => {
                state.cursor = index;
            },
            None => {},
        }
        clamp_column(state);
    }
}

/// Command to find the previous search match and update the cursor position.
#[derive(Clone, Copy, Debug, PartialEq, Eq)]
pub struct FindPrevious;

impl Execute for FindPrevious {
    /// The editor returns to normal mode and the cursor goes to the match
    /// before the selected one, to the last before the first. The column is
    /// clamped by the limit of normal mode.
    open spec fn applied(&self, s: StateView) -> StateView {
        clamped(at_match(StateView { mode: EditorMode::Normal, ..s }, previous_index(s.search)))
    }

    /// Executes the command, finding the previous search match and updating the cursor position.
    /// Switches to normal mode.
    fn execute(&self, state: &mut EditorState) {
        state.mode = EditorMode::Normal;
        match state.search.find_previous() {
            Some(index) => {
                state.cursor = index;
            },
            None => {},
        }
        clamp_column(state);
    }
}

/// Command to clear to start of the search and switch into search mode.
#[derive(Clone, Copy, Debug, PartialEq, Eq)]
pub struct StartSearch;

impl Execute for StartSearch {
    /// The editor enters search mode with an empty pattern and remembers
    /// where the cursor is.
    open spec fn applied(&self, s: StateView) -> StateView {
        StateView {
            mode: EditorMode::Search,
            search: SearchView {
                start_cursor: s.cursor,
                pattern: Seq::empty(),
                matches: Seq::empty(),
                selected_index: None,
            },
            ..s
        }
    }

    /// Executes the command, starting the search state and switching to search mode.
    fn execute(&self, state: &mut EditorState) {
        state.mode = EditorMode::Search;
        state.search.start(state.cursor);
    }
}

/// Command to clear the search state and switch to normal mode.
#[derive(Clone, Copy, Debug, PartialEq, Eq)]
pub struct StopSearch;

impl Execute for StopSearch {
    /// The editor returns to normal mode, the pattern and the matches are
    /// dropped, and the cursor goes back to where the search began. The
    /// column is clamped by the limit of normal mode.
    open spec fn applied(&self, s: StateView) -> StateView {
        clamped(
            StateView {
                mode: EditorMode::Normal,
                cursor: s.search.start_cursor,
                search: SearchView {
                    start_cursor: s.search.start_cursor,
                    pattern: Seq::empty(),
                    matches: Seq::empty(),
                    selected_index: None,
                },
                ..s
            },
        )
    }

    /// Executes the command, clearing the search state and switching to normal mode.
    fn execute(&self, state: &mut EditorState) {
        state.mode = EditorMode::Normal;
        state.search.clear();
        state.cursor = state.search.start_cursor;
        clamp_column(state);
    }
}

} // verus!
