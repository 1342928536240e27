use edtui::actions::{
    AppendCharToSearch, Execute, FindNext, FindPrevious, RemoveCharFromSearch, StartSearch,
    StopSearch, TriggerSearch,
};
use edtui::state::search::SearchState;
use edtui::{EditorMode, EditorState, Index2, Lines};

fn searched(text: &str, pattern: &str) -> SearchState {
    let mut search = SearchState::default();
    for ch in pattern.chars() {
        search.push_char(ch);
    }
    search.trigger_search(&Lines::from(text));
    search
}

#[test]
fn search_lists_every_occurrence_in_row_major_order() {
    let search = searched("aabcaabc\n\naabc.", "abc");
    assert_eq!(
        search.matches,
        vec![Index2::new(0, 1), Index2::new(0, 5), Index2::new(2, 1)]
    );
    assert_eq!(search.pattern_len(), 3);
    assert_eq!(search.selected_index, None);
}

#[test]
fn search_lists_overlapping_occurrences() {
    let search = searched("aaaa", "aa");
    assert_eq!(
        search.matches,
        vec![Index2::new(0, 0), Index2::new(0, 1), Index2::new(0, 2)]
    );
}

#[test]
fn search_is_literal() {
    assert_eq!(searched("Abc abc ABC", "abc").matches, vec![Index2::new(0, 4)]);
    assert_eq!(searched("a.c abc", "a.c").matches, vec![Index2::new(0, 0)]);
}

#[test]
fn search_does_not_cross_rows() {
    assert_eq!(searched("ab\ncd", "bc").matches, vec![]);
    assert_eq!(searched("ab\ncd", "b\nc").matches, vec![]);
}

#[test]
fn empty_pattern_has_no_matches() {
    assert_eq!(searched("abc\n\nabc", "").matches, vec![]);
    assert_eq!(searched("", "abc").matches, vec![]);
    assert_eq!(searched("ab", "abc").matches, vec![]);
}

#[test]
fn search_of_characters_beyond_ascii() {
    assert_eq!(
        searched("größe Maße", "ße").matches,
        vec![Index2::new(0, 3), Index2::new(0, 8)]
    );
}

#[test]
fn find_first_starts_where_the_search_began_and_wraps() {
    let mut search = searched("abc abc\nabc", "abc");
    search.start_cursor = Index2::new(0, 2);
    assert_eq!(search.find_first(), Some(Index2::new(0, 4)));
    assert_eq!(search.selected_index, Some(1));
    search.start_cursor = Index2::new(0, 4);
    assert_eq!(search.find_first(), Some(Index2::new(0, 4)));
    search.start_cursor = Index2::new(1, 1);
    assert_eq!(search.find_first(), Some(Index2::new(0, 0)));
    assert_eq!(search.selected_index, Some(0));
    let mut none = searched("abc", "x");
    assert_eq!(none.find_first(), None);
    assert_eq!(none.selected_index, None);
}

#[test]
fn find_next_and_previous_cycle_through_the_matches() {
    let mut search = searched("abc abc\nabc", "abc");
    assert_eq!(search.find_next(), None);
    assert_eq!(search.find_previous(), None);
    assert_eq!(search.find_first(), Some(Index2::new(0, 0)));
    assert_eq!(search.find_next(), Some(Index2::new(0, 4)));
    assert_eq!(search.find_next(), Some(Index2::new(1, 0)));
    assert_eq!(search.find_next(), Some(Index2::new(0, 0)));
    assert_eq!(search.find_previous(), Some(Index2::new(1, 0)));
    assert_eq!(search.find_previous(), Some(Index2::new(0, 4)));
    assert_eq!(search.selected_index, Some(1));
}

#[test]
fn search_state_start_clear_and_remove() {
    let mut search = searched("abc", "abc");
    search.remove_char();
    assert_eq!(search.pattern, "ab");
    assert_eq!(search.matches, vec![Index2::new(0, 0)]);
    search.start(Index2::new(3, 4));
    assert_eq!(search.pattern, "");
    assert_eq!(search.matches, vec![]);
    assert_eq!(search.start_cursor, Index2::new(3, 4));
    search.remove_char();
    assert_eq!(search.pattern, "");
    search.push_char('x');
    search.clear();
    assert_eq!(search.pattern, "");
    assert_eq!(search.start_cursor, Index2::new(3, 4));
}

#[test]
fn search_actions_move_the_cursor_to_the_matches() {
    let mut state = EditorState::new(Lines::from("one two\ntwo one"), "txt");
    state.cursor = Index2::new(0, 5);
    StartSearch.execute(&mut state);
    assert_eq!(state.mode, EditorMode::Search);
    AppendCharToSearch('o').execute(&mut state);
    assert_eq!(state.cursor, Index2::new(0, 6));
    AppendCharToSearch('n').execute(&mut state);
    assert_eq!(state.cursor, Index2::new(1, 4));
    AppendCharToSearch('x').execute(&mut state);
    assert_eq!(state.cursor, Index2::new(1, 4));
    RemoveCharFromSearch.execute(&mut state);
    assert_eq!(state.cursor, Index2::new(1, 4));
    TriggerSearch.execute(&mut state);
    assert_eq!(state.mode, EditorMode::Normal);
    assert_eq!(state.cursor, Index2::new(1, 4));
    FindNext.execute(&mut state);
    assert_eq!(state.cursor, Index2::new(0, 0));
    FindPrevious.execute(&mut state);
    assert_eq!(state.cursor, Index2::new(1, 4));
}

#[test]
fn stop_search_goes_back_to_where_the_search_began() {
    let mut state = EditorState::new(Lines::from("one two\ntwo one"), "txt");
    state.cursor = Index2::new(0, 1);
    StartSearch.execute(&mut state);
    AppendCharToSearch('t').execute(&mut state);
    assert_eq!(state.cursor, Index2::new(0, 4));
    StopSearch.execute(&mut state);
    assert_eq!(state.mode, EditorMode::Normal);
    assert_eq!(state.cursor, Index2::new(0, 1));
    FindNext.execute(&mut state);
    assert_eq!(state.cursor, Index2::new(0, 1));
}
