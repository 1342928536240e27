use edtui::actions::{
    DeleteChar, DeleteLine, DeleteSelection, Execute, InsertChar, LineBreak, MoveForward, Paste,
    Redo, RemoveChar, Undo,
};
use edtui::state::selection::Selection;
use edtui::{EditorMode, EditorState, Index2, Lines};

fn state_on(text: &str) -> EditorState {
    EditorState::new(Lines::from(text), "txt")
}

#[test]
fn undo_and_redo_without_captures_change_nothing() {
    let mut state = state_on("Hello");
    state.cursor = Index2::new(0, 2);
    Undo.execute(&mut state);
    Redo.execute(&mut state);
    assert_eq!(state.lines, Lines::from("Hello"));
    assert_eq!(state.cursor, Index2::new(0, 2));
    assert_eq!(state.undo.len(), 0);
    assert_eq!(state.redo.len(), 0);
}

#[test]
fn undo_restores_text_cursor_and_mode() {
    let mut state = state_on("Hello\nWorld");
    state.mode = EditorMode::Insert;
    state.cursor = Index2::new(1, 2);
    DeleteLine(1).execute(&mut state);
    assert_eq!(state.lines, Lines::from("Hello"));
    state.mode = EditorMode::Normal;
    Undo.execute(&mut state);
    assert_eq!(state.lines, Lines::from("Hello\nWorld"));
    assert_eq!(state.cursor, Index2::new(1, 2));
    assert_eq!(state.mode, EditorMode::Insert);
    assert_eq!(state.highlighter.engine().atoms.len(), 2);
}

#[test]
fn redo_after_undo_restores_what_the_action_left() {
    let mut state = state_on("Hello");
    state.cursor = Index2::new(0, 5);
    state.mode = EditorMode::Insert;
    InsertChar('!').execute(&mut state);
    LineBreak(1).execute(&mut state);
    assert_eq!(state.lines, Lines::from("Hello!\n"));
    assert_eq!(state.cursor, Index2::new(1, 0));
    Undo.execute(&mut state);
    assert_eq!(state.lines, Lines::from("Hello!"));
    assert_eq!(state.cursor, Index2::new(0, 6));
    Undo.execute(&mut state);
    assert_eq!(state.lines, Lines::from("Hello"));
    assert_eq!(state.cursor, Index2::new(0, 5));
    Redo.execute(&mut state);
    assert_eq!(state.lines, Lines::from("Hello!"));
    assert_eq!(state.cursor, Index2::new(0, 6));
    Redo.execute(&mut state);
    assert_eq!(state.lines, Lines::from("Hello!\n"));
    assert_eq!(state.cursor, Index2::new(1, 0));
    assert_eq!(state.mode, EditorMode::Insert);
    Redo.execute(&mut state);
    assert_eq!(state.lines, Lines::from("Hello!\n"));
}

#[test]
fn a_capture_clears_the_redo_stack() {
    let mut state = state_on("abc");
    RemoveChar(1).execute(&mut state);
    Undo.execute(&mut state);
    assert_eq!(state.redo.len(), 1);
    state.capture();
    assert_eq!(state.redo.len(), 0);
    assert_eq!(state.undo.len(), 1);
    Redo.execute(&mut state);
    assert_eq!(state.lines, Lines::from("abc"));
}

#[test]
fn every_text_changing_action_can_be_undone() {
    let mut state = state_on("Hello World!\n\n123.");
    state.cursor = Index2::new(0, 3);
    RemoveChar(2).execute(&mut state);
    Undo.execute(&mut state);
    assert_eq!(state.lines, Lines::from("Hello World!\n\n123."));
    DeleteChar(2).execute(&mut state);
    Undo.execute(&mut state);
    assert_eq!(state.lines, Lines::from("Hello World!\n\n123."));
    state.selection = Some(Selection::new(Index2::new(0, 1), Index2::new(2, 0)));
    DeleteSelection.execute(&mut state);
    Undo.execute(&mut state);
    assert_eq!(state.lines, Lines::from("Hello World!\n\n123."));
    Paste.execute(&mut state);
    Undo.execute(&mut state);
    assert_eq!(state.lines, Lines::from("Hello World!\n\n123."));
    assert_eq!(state.cursor, Index2::new(0, 3));
}

#[test]
fn motions_capture_nothing() {
    let mut state = state_on("Hello");
    MoveForward(2).execute(&mut state);
    assert_eq!(state.undo.len(), 0);
    Undo.execute(&mut state);
    assert_eq!(state.cursor, Index2::new(0, 2));
}
