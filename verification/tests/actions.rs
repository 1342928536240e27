use edtui::actions::{
    Append, AppendNewline, CopySelection, DeleteChar, DeleteLine, DeleteSelection, Execute,
    InsertChar, InsertNewline, LineBreak, Paste, PushLine, RemoveChar, SwitchMode, Undo,
};
use edtui::clipboard::InternalClipboard;
use edtui::state::selection::Selection;
use edtui::{EditorMode, EditorState, Index2, Lines};

fn test_state() -> EditorState {
    let mut state = EditorState::new(Lines::from("Hello World!\n\n123."), "txt");
    state.set_clipboard(InternalClipboard::default());
    state
}

#[test]
fn test_switch_mode() {
    let mut state = test_state();
    assert_eq!(state.mode, EditorMode::Normal);

    SwitchMode(EditorMode::Insert).execute(&mut state);
    assert_eq!(state.mode, EditorMode::Insert);

    SwitchMode(EditorMode::Visual).execute(&mut state);
    assert_eq!(state.mode, EditorMode::Visual);
}

#[test]
fn test_append() {
    let mut state = test_state();

    Append.execute(&mut state);
    assert_eq!(state.mode, EditorMode::Insert);
    assert_eq!(state.cursor, Index2::new(0, 1));

    state.mode = EditorMode::Normal;
    state.cursor = Index2::new(0, 11);
    Append.execute(&mut state);
    assert_eq!(state.mode, EditorMode::Insert);
    assert_eq!(state.cursor, Index2::new(0, 12));
}

#[test]
fn test_copy_paste() {
    let mut state = test_state();
    let selection = Selection::new(Index2::new(0, 0), Index2::new(0, 2));
    state.selection = Some(selection);

    CopySelection.execute(&mut state);
    Paste.execute(&mut state);

    assert_eq!(state.cursor, Index2::new(0, 3));
    assert_eq!(state.lines, Lines::from("HHelello World!\n\n123."));
}

#[test]
fn test_paste_over_selection() {
    let mut state = test_state();
    state.selection = Some(Selection::new(Index2::new(0, 6), Index2::new(0, 10)));
    state.clip.set_text(String::from("Earth"));
    state.mode = EditorMode::Visual;

    Paste.execute(&mut state);

    assert_eq!(state.lines, Lines::from("Hello Earth!\n\n123."));
    assert_eq!(state.cursor, Index2::new(0, 10));
    assert_eq!(state.mode, EditorMode::Normal);

    Undo.execute(&mut state);

    assert_eq!(state.lines, Lines::from("Hello World!\n\n123."));
    // The capture was taken in visual mode, and an undo restores the mode too.
    assert_eq!(state.mode, EditorMode::Visual);
}

#[test]
fn test_remove() {
    let mut state = test_state();

    state.cursor = Index2::new(0, 4);
    RemoveChar(1).execute(&mut state);
    assert_eq!(state.cursor, Index2::new(0, 4));
    assert_eq!(state.lines, Lines::from("Hell World!\n\n123."));

    state.cursor = Index2::new(0, 10);
    RemoveChar(1).execute(&mut state);
    assert_eq!(state.cursor, Index2::new(0, 9));
    assert_eq!(state.lines, Lines::from("Hell World\n\n123."));
}

#[test]
fn test_delete_char() {
    let mut state = test_state();

    state.cursor = Index2::new(0, 5);
    DeleteChar(1).execute(&mut state);
    assert_eq!(state.cursor, Index2::new(0, 4));
    assert_eq!(state.lines, Lines::from("Hell World!\n\n123."));

    state.cursor = Index2::new(0, 11);
    DeleteChar(1).execute(&mut state);
    assert_eq!(state.cursor, Index2::new(0, 10));
    assert_eq!(state.lines, Lines::from("Hell World\n\n123."));
}

#[test]
fn test_delete_line() {
    let mut state = test_state();
    state.cursor = Index2::new(2, 3);

    DeleteLine(1).execute(&mut state);
    assert_eq!(state.cursor, Index2::new(1, 0));
    assert_eq!(state.lines, Lines::from("Hello World!\n"));

    DeleteLine(1).execute(&mut state);
    assert_eq!(state.cursor, Index2::new(0, 0));
    assert_eq!(state.lines, Lines::from("Hello World!"));

    DeleteLine(1).execute(&mut state);
    assert_eq!(state.cursor, Index2::new(0, 0));
    assert_eq!(state.lines, Lines::from(""));
}

#[test]
fn test_delete_selection() {
    let mut state = test_state();
    let st = Index2::new(0, 1);
    let en = Index2::new(2, 0);
    state.selection = Some(Selection::new(st, en));

    DeleteSelection.execute(&mut state);
    assert_eq!(state.cursor, Index2::new(0, 1));
    assert_eq!(state.lines, Lines::from("H23."));
}

#[test]
fn test_insert_char() {
    let mut state = test_state();

    InsertChar('!').execute(&mut state);
    assert_eq!(state.cursor, Index2::new(0, 1));
    assert_eq!(state.lines, Lines::from("!Hello World!\n\n123."));

    state.cursor = Index2::new(0, 13);
    InsertChar('!').execute(&mut state);
    assert_eq!(state.cursor, Index2::new(0, 14));
    assert_eq!(state.lines, Lines::from("!Hello World!!\n\n123."));
}

#[test]
fn test_linebreak() {
    let mut state = test_state();

    LineBreak(1).execute(&mut state);
    assert_eq!(state.cursor, Index2::new(1, 0));
    assert_eq!(state.lines, Lines::from("\nHello World!\n\n123."));

    state.cursor = Index2::new(1, 5);
    LineBreak(1).execute(&mut state);
    assert_eq!(state.cursor, Index2::new(2, 0));
    assert_eq!(state.lines, Lines::from("\nHello\n World!\n\n123."));
}

#[test]
fn test_append_newline() {
    let mut state = test_state();

    AppendNewline(1).execute(&mut state);
    assert_eq!(state.cursor, Index2::new(1, 0));
    assert_eq!(state.lines, Lines::from("Hello World!\n\n\n123."));
}

#[test]
fn test_insert_newline() {
    let mut state = test_state();

    InsertNewline(1).execute(&mut state);
    assert_eq!(state.cursor, Index2::new(0, 0));
    assert_eq!(state.lines, Lines::from("\nHello World!\n\n123."));

    state.cursor = Index2::new(2, 1);
    InsertNewline(1).execute(&mut state);
    assert_eq!(state.cursor, Index2::new(2, 0));
    assert_eq!(state.lines, Lines::from("\nHello World!\n\n\n123."));
}

#[test]
fn test_push_line() {
    let mut state = test_state();

    PushLine("456.").execute(&mut state);
    assert_eq!(state.lines, Lines::from("Hello World!\n\n123.\n456."));
}
