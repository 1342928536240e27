use edtui::actions::{
    Action, Append, AppendCharToSearch, AppendNewline, CopySelection, DeleteChar, DeleteLine,
    DeleteSelection, Execute, FindNext, InsertChar, InsertNewline, LineBreak, MoveBackward,
    MoveDown, MoveForward, MoveToEnd, MoveToFirst, MoveToLastLine, MoveUp, MoveWordBackward,
    MoveWordForwardEnd, MoveWordForwardStart, Paste, Redo, RemoveChar, SelectBetween,
    StartSearch, SwitchMode, TriggerSearch, Undo,
};
use edtui::bounds::{cursor_within_limits, selection_within_limits, within_limits};
use edtui::input::key::Key;
use edtui::{EditorMode, EditorState, Index2, Input, Lines};

type HostFn = fn(String) -> ();

fn state_on(text: &str) -> EditorState {
    EditorState::new(Lines::from(text), "txt")
}

#[test]
fn limits_of_positions() {
    let lines = Lines::from("ab\n");
    assert!(within_limits(&lines, &Index2::new(0, 1), EditorMode::Normal));
    assert!(!within_limits(&lines, &Index2::new(0, 2), EditorMode::Normal));
    assert!(within_limits(&lines, &Index2::new(0, 2), EditorMode::Insert));
    assert!(!within_limits(&lines, &Index2::new(0, 3), EditorMode::Insert));
    assert!(within_limits(&lines, &Index2::new(1, 0), EditorMode::Visual));
    assert!(!within_limits(&lines, &Index2::new(2, 0), EditorMode::Visual));
    assert!(within_limits(&lines, &Index2::new(2, 0), EditorMode::Insert));
    assert!(!within_limits(&lines, &Index2::new(2, 0), EditorMode::Search));
    assert!(within_limits(&lines, &Index2::new(0, 2), EditorMode::Search));
    assert!(within_limits(&Lines::from(""), &Index2::new(0, 0), EditorMode::Normal));
    assert!(!within_limits(&Lines::from(""), &Index2::new(1, 0), EditorMode::Normal));
}

#[test]
fn the_cursor_stays_within_limits_along_a_run_of_actions() {
    let mut state = state_on("Hello World!\n\n  123. (x) \"y\"");
    state.clip.set_text(String::from("clip\nboard"));
    let actions: Vec<Action<()>> = vec![
        MoveForward(40).into(),
        MoveDown(1).into(),
        MoveDown(9).into(),
        MoveToEnd().into(),
        MoveWordBackward(2).into(),
        MoveUp(1).into(),
        MoveWordForwardStart(3).into(),
        MoveWordForwardEnd(1).into(),
        MoveToFirst().into(),
        RemoveChar(2).into(),
        SwitchMode(EditorMode::Visual).into(),
        MoveForward(3).into(),
        MoveUp(2).into(),
        CopySelection.into(),
        Paste.into(),
        Append.into(),
        InsertChar('a').into(),
        InsertChar('\n').into(),
        LineBreak(2).into(),
        DeleteChar(4).into(),
        AppendNewline(2).into(),
        InsertNewline(1).into(),
        MoveBackward(1).into(),
        Undo.into(),
        Undo.into(),
        Redo.into(),
        MoveToLastLine().into(),
        DeleteLine(2).into(),
        StartSearch.into(),
        AppendCharToSearch('l').into(),
        AppendCharToSearch('o').into(),
        TriggerSearch.into(),
        FindNext.into(),
        SelectBetween(vec![('"', '"'), ('(', ')')]).into(),
        MoveWordForwardEnd(1).into(),
        DeleteSelection.into(),
        MoveToEnd().into(),
    ];
    for action in &actions {
        action.execute(&mut state);
        assert!(cursor_within_limits(&state), "after {:?}", action);
        assert!(selection_within_limits(&state), "after {:?}", action);
        assert_eq!(state.highlighter.engine().atoms.len(), state.lines.len());
    }
}

#[test]
fn the_cursor_stays_within_the_text_along_a_run_of_keys() {
    let mut input: Input<(), HostFn> = Input::default();
    let mut state = state_on("fn main() {\n    let x = \"a b\";\n}\n");
    let keys = "jwwlvey$pGoend\u{1b}kk0xxddu/let\nnciwdiab\u{1b}ggA;\u{1b}Ohi\u{1b}jjj$hrr";
    for ch in keys.chars() {
        let key = match ch {
            '\u{1b}' => Key::Esc,
            '\n' => Key::Enter,
            other => Key::Char(other),
        };
        input.on_key(key, &mut state);
        assert!(
            within_limits(&state.lines, &state.cursor, EditorMode::Insert),
            "after {:?} at {:?}",
            key,
            state.cursor
        );
        assert_eq!(state.highlighter.engine().atoms.len(), state.lines.len());
    }
}

#[test]
fn entering_a_mode_clamps_the_column_by_its_limit() {
    let mut state = state_on("Hello World!\n\n123.");
    state.mode = EditorMode::Insert;
    state.cursor = Index2::new(0, 12);
    SwitchMode(EditorMode::Normal).execute(&mut state);
    assert_eq!(state.mode, EditorMode::Normal);
    assert_eq!(state.cursor, Index2::new(0, 11));
    assert_eq!(state.selection, None);
    assert!(cursor_within_limits(&state));
    SwitchMode(EditorMode::Insert).execute(&mut state);
    assert_eq!(state.cursor, Index2::new(0, 11));

    let mut state = state_on("ab");
    state.mode = EditorMode::Insert;
    state.cursor = Index2::new(0, 2);
    SwitchMode(EditorMode::Visual).execute(&mut state);
    assert_eq!(state.cursor, Index2::new(0, 1));
    assert_eq!(
        state.selection,
        Some(edtui::state::selection::Selection::new(
            Index2::new(0, 1),
            Index2::new(0, 1)
        ))
    );
}

#[test]
fn entering_a_mode_moves_no_row() {
    let mut state = state_on("a");
    state.mode = EditorMode::Insert;
    state.cursor = Index2::new(1, 0);
    SwitchMode(EditorMode::Normal).execute(&mut state);
    assert_eq!(state.cursor, Index2::new(1, 0));
    assert!(!cursor_within_limits(&state));
}

#[test]
fn a_column_within_the_limit_stays_within_it() {
    let mut state = state_on("ab\n");
    state.cursor = Index2::new(1, 0);
    DeleteChar(1).execute(&mut state);
    assert_eq!(state.lines, Lines::from("ab"));
    assert_eq!(state.cursor, Index2::new(0, 1));
    assert!(cursor_within_limits(&state));

    let mut state = state_on("a\n");
    state.cursor = Index2::new(1, 0);
    InsertChar('x').execute(&mut state);
    assert_eq!(state.lines, Lines::from("a\nx"));
    assert_eq!(state.cursor, Index2::new(1, 0));
    assert!(cursor_within_limits(&state));

    let mut state = state_on("Hello");
    state.mode = EditorMode::Visual;
    state.selection = Some(edtui::state::selection::Selection::new(
        Index2::new(0, 3),
        Index2::new(0, 4),
    ));
    DeleteSelection.execute(&mut state);
    assert_eq!(state.lines, Lines::from("Hel"));
    assert_eq!(state.cursor, Index2::new(0, 2));
    assert_eq!(state.mode, EditorMode::Normal);
    assert!(cursor_within_limits(&state));
}

#[test]
fn a_column_past_the_limit_stays_where_the_edit_leaves_it() {
    let mut state = state_on("ab");
    state.cursor = Index2::new(0, 2);
    InsertChar('c').execute(&mut state);
    assert_eq!(state.lines, Lines::from("abc"));
    assert_eq!(state.cursor, Index2::new(0, 3));
    DeleteChar(1).execute(&mut state);
    assert_eq!(state.lines, Lines::from("ab"));
    assert_eq!(state.cursor, Index2::new(0, 2));
}

#[test]
fn a_selection_is_not_moved_along_with_the_text() {
    let mut state = state_on("a\nb");
    state.mode = EditorMode::Visual;
    state.cursor = Index2::new(1, 0);
    state.selection = Some(edtui::state::selection::Selection::new(
        Index2::new(1, 0),
        Index2::new(1, 0),
    ));
    DeleteLine(1).execute(&mut state);
    assert!(cursor_within_limits(&state));
    assert!(!selection_within_limits(&state));
}
