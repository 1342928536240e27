use edtui::actions::{
    Execute, MoveBackward, MoveDown, MoveForward, MoveToEnd, MoveToFirst, MoveToFirstLine,
    MoveToLastLine, MoveToStart, MoveUp, MoveWordBackward, MoveWordForwardEnd,
    MoveWordForwardStart, SwitchMode,
};
use edtui::helper::{clamp_column, displayed_cursor, len_col, max_col, max_row, set_selection};
use edtui::state::selection::Selection;
use edtui::{EditorMode, EditorState, Index2, Lines};

fn state_on(text: &str) -> EditorState {
    EditorState::new(Lines::from(text), "txt")
}

#[test]
fn move_forward_stops_at_the_last_character_in_normal_mode() {
    let mut state = state_on("Hello\nab");
    MoveForward(3).execute(&mut state);
    assert_eq!(state.cursor, Index2::new(0, 3));
    MoveForward(10).execute(&mut state);
    assert_eq!(state.cursor, Index2::new(0, 4));
    MoveForward(usize::MAX).execute(&mut state);
    assert_eq!(state.cursor, Index2::new(0, 4));
}

#[test]
fn move_forward_reaches_the_end_of_the_row_in_insert_mode() {
    let mut state = state_on("Hello");
    state.mode = EditorMode::Insert;
    MoveForward(10).execute(&mut state);
    assert_eq!(state.cursor, Index2::new(0, 5));
}

#[test]
fn move_backward_stops_at_column_zero() {
    let mut state = state_on("Hello");
    state.cursor = Index2::new(0, 3);
    MoveBackward(2).execute(&mut state);
    assert_eq!(state.cursor, Index2::new(0, 1));
    MoveBackward(5).execute(&mut state);
    assert_eq!(state.cursor, Index2::new(0, 0));
}

#[test]
fn move_backward_clamps_an_outside_column_first() {
    let mut state = state_on("Hello");
    state.cursor = Index2::new(0, 40);
    MoveBackward(1).execute(&mut state);
    assert_eq!(state.cursor, Index2::new(0, 3));
}

#[test]
fn move_up_and_down_clamp_row_and_column() {
    let mut state = state_on("Hello World!\n\n123.");
    state.cursor = Index2::new(0, 8);
    MoveDown(1).execute(&mut state);
    assert_eq!(state.cursor, Index2::new(1, 0));
    MoveDown(5).execute(&mut state);
    assert_eq!(state.cursor, Index2::new(2, 0));
    state.cursor = Index2::new(0, 8);
    MoveDown(2).execute(&mut state);
    assert_eq!(state.cursor, Index2::new(2, 3));
    MoveUp(1).execute(&mut state);
    assert_eq!(state.cursor, Index2::new(1, 0));
    MoveUp(7).execute(&mut state);
    assert_eq!(state.cursor, Index2::new(0, 0));
}

#[test]
fn move_down_reaches_the_row_after_the_last_in_insert_mode() {
    let mut state = state_on("a\nb");
    state.mode = EditorMode::Insert;
    MoveDown(5).execute(&mut state);
    assert_eq!(state.cursor, Index2::new(2, 0));
}

#[test]
fn moves_within_the_row() {
    let mut state = state_on("   abc  ");
    state.cursor = Index2::new(0, 5);
    MoveToStart().execute(&mut state);
    assert_eq!(state.cursor, Index2::new(0, 0));
    MoveToFirst().execute(&mut state);
    assert_eq!(state.cursor, Index2::new(0, 3));
    MoveToEnd().execute(&mut state);
    assert_eq!(state.cursor, Index2::new(0, 7));
    state.mode = EditorMode::Insert;
    MoveToEnd().execute(&mut state);
    assert_eq!(state.cursor, Index2::new(0, 8));
}

#[test]
fn move_to_first_stays_at_column_zero_in_a_blank_row() {
    let mut state = state_on("    ");
    state.cursor = Index2::new(0, 2);
    MoveToFirst().execute(&mut state);
    assert_eq!(state.cursor, Index2::new(0, 0));
}

#[test]
fn moves_to_first_and_last_line() {
    let mut state = state_on("Hello World!\n\n123.");
    state.cursor = Index2::new(1, 0);
    MoveToLastLine().execute(&mut state);
    assert_eq!(state.cursor, Index2::new(2, 0));
    state.cursor = Index2::new(2, 3);
    MoveToFirstLine().execute(&mut state);
    assert_eq!(state.cursor, Index2::new(0, 0));
    let mut empty = state_on("");
    MoveToLastLine().execute(&mut empty);
    assert_eq!(empty.cursor, Index2::new(0, 0));
}

#[test]
fn word_forward_start_goes_to_the_next_word_across_rows() {
    let mut state = state_on("Hello World!\n\n  123. x");
    MoveWordForwardStart(1).execute(&mut state);
    assert_eq!(state.cursor, Index2::new(0, 6));
    MoveWordForwardStart(1).execute(&mut state);
    assert_eq!(state.cursor, Index2::new(2, 2));
    MoveWordForwardStart(1).execute(&mut state);
    assert_eq!(state.cursor, Index2::new(2, 7));
    MoveWordForwardStart(1).execute(&mut state);
    assert_eq!(state.cursor, Index2::new(2, 7));
    state.cursor = Index2::new(0, 0);
    MoveWordForwardStart(3).execute(&mut state);
    assert_eq!(state.cursor, Index2::new(2, 7));
}

#[test]
fn word_forward_saturates_at_the_last_position() {
    let mut state = state_on("ab cd  ");
    state.cursor = Index2::new(0, 3);
    MoveWordForwardStart(1).execute(&mut state);
    assert_eq!(state.cursor, Index2::new(0, 6));
    let mut state = state_on("ab cd  ");
    MoveWordForwardStart(usize::MAX).execute(&mut state);
    assert_eq!(state.cursor, Index2::new(0, 6));
}

#[test]
fn word_forward_end_goes_to_the_end_of_this_or_the_next_word() {
    let mut state = state_on("Hello World!\n 12");
    MoveWordForwardEnd(1).execute(&mut state);
    assert_eq!(state.cursor, Index2::new(0, 4));
    MoveWordForwardEnd(1).execute(&mut state);
    assert_eq!(state.cursor, Index2::new(0, 11));
    MoveWordForwardEnd(1).execute(&mut state);
    assert_eq!(state.cursor, Index2::new(1, 2));
    MoveWordForwardEnd(1).execute(&mut state);
    assert_eq!(state.cursor, Index2::new(1, 2));
}

#[test]
fn word_backward_goes_to_the_start_of_the_word_before() {
    let mut state = state_on("Hello World!\n 12");
    state.cursor = Index2::new(1, 2);
    MoveWordBackward(1).execute(&mut state);
    assert_eq!(state.cursor, Index2::new(1, 1));
    MoveWordBackward(1).execute(&mut state);
    assert_eq!(state.cursor, Index2::new(0, 6));
    MoveWordBackward(1).execute(&mut state);
    assert_eq!(state.cursor, Index2::new(0, 0));
    MoveWordBackward(4).execute(&mut state);
    assert_eq!(state.cursor, Index2::new(0, 0));
}

#[test]
fn word_motions_on_an_empty_buffer_stay_at_the_origin() {
    let mut state = state_on("");
    MoveWordForwardStart(2).execute(&mut state);
    assert_eq!(state.cursor, Index2::new(0, 0));
    MoveWordForwardEnd(2).execute(&mut state);
    assert_eq!(state.cursor, Index2::new(0, 0));
    MoveWordBackward(2).execute(&mut state);
    assert_eq!(state.cursor, Index2::new(0, 0));
}

#[test]
fn motion_in_visual_mode_moves_the_end_of_the_selection() {
    let mut state = state_on("Hello World!");
    state.cursor = Index2::new(0, 2);
    SwitchMode(EditorMode::Visual).execute(&mut state);
    assert_eq!(
        state.selection,
        Some(Selection::new(Index2::new(0, 2), Index2::new(0, 2)))
    );
    MoveForward(3).execute(&mut state);
    assert_eq!(
        state.selection,
        Some(Selection::new(Index2::new(0, 2), Index2::new(0, 5)))
    );
    MoveToStart().execute(&mut state);
    assert_eq!(
        state.selection,
        Some(Selection::new(Index2::new(0, 2), Index2::new(0, 0)))
    );
    SwitchMode(EditorMode::Normal).execute(&mut state);
    assert_eq!(state.selection, None);
}

#[test]
fn limits_of_column_and_row() {
    let lines = Lines::from("Hello\n\nab");
    assert_eq!(max_col(&lines, &Index2::new(0, 0), EditorMode::Normal), 4);
    assert_eq!(max_col(&lines, &Index2::new(0, 0), EditorMode::Visual), 4);
    assert_eq!(max_col(&lines, &Index2::new(0, 0), EditorMode::Insert), 5);
    assert_eq!(max_col(&lines, &Index2::new(0, 0), EditorMode::Search), 5);
    assert_eq!(max_col(&lines, &Index2::new(1, 0), EditorMode::Normal), 0);
    assert_eq!(max_col(&lines, &Index2::new(1, 0), EditorMode::Insert), 0);
    assert_eq!(max_col(&lines, &Index2::new(9, 0), EditorMode::Insert), 0);
    assert_eq!(max_col(&Lines::from(""), &Index2::new(0, 0), EditorMode::Insert), 0);

    let mut state = EditorState::new(lines, "txt");
    assert_eq!(max_row(&state), 2);
    state.mode = EditorMode::Insert;
    assert_eq!(max_row(&state), 3);
    state.cursor = Index2::new(2, 0);
    assert_eq!(len_col(&state), 2);
    state.cursor = Index2::new(7, 0);
    assert_eq!(len_col(&state), 0);
    let empty = EditorState::new(Lines::from(""), "txt");
    assert_eq!(max_row(&empty), 0);
}

#[test]
fn clamping_brings_the_column_into_the_row() {
    let mut state = state_on("Hello");
    state.cursor = Index2::new(0, 9);
    assert_eq!(displayed_cursor(&state), Index2::new(0, 4));
    clamp_column(&mut state);
    assert_eq!(state.cursor, Index2::new(0, 4));
    state.mode = EditorMode::Insert;
    state.cursor = Index2::new(0, 9);
    clamp_column(&mut state);
    assert_eq!(state.cursor, Index2::new(0, 5));
    state.cursor = Index2::new(3, 9);
    clamp_column(&mut state);
    assert_eq!(state.cursor, Index2::new(3, 0));
}

#[test]
fn set_selection_moves_only_the_end() {
    let mut selection = Some(Selection::new(Index2::new(0, 1), Index2::new(0, 2)));
    set_selection(&mut selection, Index2::new(3, 4));
    assert_eq!(
        selection,
        Some(Selection::new(Index2::new(0, 1), Index2::new(3, 4)))
    );
    let mut none: Option<Selection> = None;
    set_selection(&mut none, Index2::new(3, 4));
    assert_eq!(none, None);
}

#[test]
fn switching_from_insert_to_normal_puts_the_cursor_on_the_last_character() {
    let mut state = state_on("ab");
    state.mode = EditorMode::Insert;
    state.cursor = Index2::new(0, 2);
    SwitchMode(EditorMode::Normal).execute(&mut state);
    assert_eq!(state.cursor, Index2::new(0, 1));
    assert_eq!(displayed_cursor(&state), Index2::new(0, 1));
    MoveForward(1).execute(&mut state);
    assert_eq!(state.cursor, Index2::new(0, 1));
}
