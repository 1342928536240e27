use edtui::actions::{
    Action, Append, AppendNewline, Composed, CopySelection, Custom, DeleteChar, DeleteLine,
    DeleteSelection, Execute, InsertChar, InsertNewline, LineBreak, MoveToEnd, Paste, PushLine,
    RemoveChar, SelectBetween, SwitchMode,
};
use edtui::helper::{insert_char, line_break};
use edtui::highlight::Bridge;
use edtui::state::selection::Selection;
use edtui::{EditorMode, EditorState, Index2, Lines};

fn state_on(text: &str) -> EditorState {
    EditorState::new(Lines::from(text), "txt")
}

fn highlighted_rows(state: &EditorState) -> usize {
    state.highlighter.engine().atoms.len()
}

#[test]
fn insert_into_an_empty_buffer_creates_row_zero() {
    let mut state = state_on("");
    state.mode = EditorMode::Insert;
    assert_eq!(state.lines.len(), 0);
    InsertChar('a').execute(&mut state);
    assert_eq!(state.lines, Lines::from("a"));
    assert_eq!(state.cursor, Index2::new(0, 1));
    assert_eq!(highlighted_rows(&state), 1);

    let mut normal = state_on("");
    InsertChar('a').execute(&mut normal);
    assert_eq!(normal.lines, Lines::from("a"));
    assert_eq!(normal.cursor, Index2::new(0, 0));

    let mut lines = Lines::from("");
    let mut index = Index2::new(0, 0);
    let mut bridge = Bridge::new("", 4);
    insert_char(&mut lines, &mut index, 'a', false, &mut bridge);
    assert_eq!(lines, Lines::from("a"));
    assert_eq!(index, Index2::new(0, 1));
    assert_eq!(bridge.engine().atoms.len(), 1);
}

#[test]
fn insert_below_the_text_creates_the_row() {
    let mut state = state_on("ab");
    state.mode = EditorMode::Insert;
    state.cursor = Index2::new(7, 3);
    InsertChar('x').execute(&mut state);
    assert_eq!(state.lines, Lines::from("ab\nx"));
    assert_eq!(state.cursor, Index2::new(1, 1));
    assert_eq!(highlighted_rows(&state), 2);
}

#[test]
fn insert_line_feed_breaks_the_line() {
    let mut state = state_on("Hello");
    state.cursor = Index2::new(0, 2);
    InsertChar('\n').execute(&mut state);
    assert_eq!(state.lines, Lines::from("He\nllo"));
    assert_eq!(state.cursor, Index2::new(1, 0));
    assert_eq!(highlighted_rows(&state), 2);
}

#[test]
fn insert_char_without_move_keeps_the_column() {
    let mut lines = Lines::from("ab");
    let mut index = Index2::new(0, 1);
    let mut bridge = Bridge::new("", 4);
    bridge.run(&lines);
    insert_char(&mut lines, &mut index, 'x', true, &mut bridge);
    assert_eq!(lines, Lines::from("axb"));
    assert_eq!(index, Index2::new(0, 1));
    insert_char(&mut lines, &mut index, 'y', false, &mut bridge);
    assert_eq!(lines, Lines::from("ayxb"));
    assert_eq!(index, Index2::new(0, 2));
}

#[test]
fn line_break_clamps_a_position_outside_the_text() {
    let mut lines = Lines::from("ab\ncd");
    let mut index = Index2::new(0, 9);
    let mut bridge = Bridge::new("", 4);
    bridge.run(&lines);
    line_break(&mut lines, &mut index, &mut bridge);
    assert_eq!(lines, Lines::from("ab\n\ncd"));
    assert_eq!(index, Index2::new(1, 0));
    let mut index = Index2::new(9, 9);
    line_break(&mut lines, &mut index, &mut bridge);
    assert_eq!(lines, Lines::from("ab\n\ncd\n"));
    assert_eq!(index, Index2::new(4, 0));
    assert_eq!(bridge.engine().atoms.len(), 4);
}

#[test]
fn several_line_breaks_leave_empty_rows_above() {
    let mut state = state_on("Hello");
    state.cursor = Index2::new(0, 2);
    LineBreak(3).execute(&mut state);
    assert_eq!(state.lines, Lines::from("He\n\n\nllo"));
    assert_eq!(state.cursor, Index2::new(3, 0));
    LineBreak(0).execute(&mut state);
    assert_eq!(state.lines, Lines::from("He\n\n\nllo"));
    assert_eq!(state.cursor, Index2::new(3, 0));
    assert_eq!(highlighted_rows(&state), 4);
}

#[test]
fn line_break_then_delete_restores_the_text() {
    for col in 0..7 {
        let mut state = state_on("Hello\nWorld");
        state.mode = EditorMode::Insert;
        state.cursor = Index2::new(1, col);
        LineBreak(1).execute(&mut state);
        assert_eq!(state.cursor.col, 0);
        DeleteChar(1).execute(&mut state);
        assert_eq!(state.lines, Lines::from("Hello\nWorld"));
        assert_eq!(state.cursor, Index2::new(1, col.min(5)));
        assert_eq!(highlighted_rows(&state), 2);
    }
}

#[test]
fn append_newline_goes_to_the_first_new_row() {
    let mut state = state_on("a\nb");
    AppendNewline(2).execute(&mut state);
    assert_eq!(state.lines, Lines::from("a\n\n\nb"));
    assert_eq!(state.cursor, Index2::new(1, 0));
    assert_eq!(state.mode, EditorMode::Insert);
    let mut state = state_on("a\nb");
    state.cursor = Index2::new(1, 1);
    AppendNewline(0).execute(&mut state);
    assert_eq!(state.lines, Lines::from("a\nb"));
    assert_eq!(state.cursor, Index2::new(1, 0));
    assert_eq!(state.mode, EditorMode::Insert);
}

#[test]
fn append_newline_on_an_empty_buffer() {
    let mut state = state_on("");
    AppendNewline(1).execute(&mut state);
    assert_eq!(state.lines, Lines::from("\n"));
    assert_eq!(state.cursor, Index2::new(1, 0));
    assert_eq!(highlighted_rows(&state), 2);
}

#[test]
fn insert_newline_inserts_above() {
    let mut state = state_on("a\nb");
    state.cursor = Index2::new(1, 1);
    InsertNewline(2).execute(&mut state);
    assert_eq!(state.lines, Lines::from("a\n\n\nb"));
    assert_eq!(state.cursor, Index2::new(1, 0));
    assert_eq!(state.mode, EditorMode::Insert);
    let mut empty = state_on("");
    InsertNewline(1).execute(&mut empty);
    assert_eq!(empty.lines.len(), 1);
    assert_eq!(empty.cursor, Index2::new(0, 0));
}

#[test]
fn push_line_keeps_the_cursor() {
    let mut state = state_on("a");
    state.cursor = Index2::new(0, 1);
    PushLine("").execute(&mut state);
    PushLine("xyz").execute(&mut state);
    assert_eq!(state.lines, Lines::from("a\n\nxyz"));
    assert_eq!(state.cursor, Index2::new(0, 1));
    assert_eq!(highlighted_rows(&state), 3);
}

#[test]
fn remove_char_many_times_walks_back_from_the_end() {
    let mut state = state_on("abcdef");
    state.cursor = Index2::new(0, 4);
    RemoveChar(3).execute(&mut state);
    assert_eq!(state.lines, Lines::from("abc"));
    assert_eq!(state.cursor, Index2::new(0, 2));
    RemoveChar(9).execute(&mut state);
    assert_eq!(state.lines.len(), 1);
    assert_eq!(state.lines.len_col(0), Some(0));
    assert_eq!(state.cursor, Index2::new(0, 0));
}

#[test]
fn deletions_on_an_empty_buffer_change_nothing() {
    let mut state = state_on("");
    RemoveChar(2).execute(&mut state);
    DeleteChar(2).execute(&mut state);
    DeleteLine(2).execute(&mut state);
    state.selection = Some(Selection::new(Index2::new(0, 0), Index2::new(3, 3)));
    DeleteSelection.execute(&mut state);
    assert_eq!(state.lines.len(), 0);
    assert_eq!(state.cursor, Index2::new(0, 0));
    assert_eq!(state.mode, EditorMode::Normal);
    assert_eq!(state.clip.get_text(), "");
}

#[test]
fn delete_char_joins_rows_at_column_zero() {
    let mut state = state_on("Hello\nWorld\n!");
    state.cursor = Index2::new(1, 0);
    DeleteChar(1).execute(&mut state);
    assert_eq!(state.lines, Lines::from("HelloWorld\n!"));
    assert_eq!(state.cursor, Index2::new(0, 5));
    assert_eq!(highlighted_rows(&state), 2);
    DeleteChar(7).execute(&mut state);
    assert_eq!(state.lines, Lines::from("World\n!"));
    assert_eq!(state.cursor, Index2::new(0, 0));
}

#[test]
fn delete_char_below_the_text_goes_to_the_end_of_the_last_row() {
    let mut state = state_on("ab");
    state.mode = EditorMode::Insert;
    state.cursor = Index2::new(5, 0);
    DeleteChar(1).execute(&mut state);
    assert_eq!(state.lines, Lines::from("ab"));
    assert_eq!(state.cursor, Index2::new(0, 2));
}

#[test]
fn delete_line_removes_at_most_the_rows_below() {
    let mut state = state_on("a\nb\nc\nd");
    state.cursor = Index2::new(1, 1);
    DeleteLine(2).execute(&mut state);
    assert_eq!(state.lines, Lines::from("a\nd"));
    assert_eq!(state.cursor, Index2::new(1, 0));
    DeleteLine(5).execute(&mut state);
    assert_eq!(state.lines, Lines::from("a"));
    assert_eq!(state.cursor, Index2::new(0, 0));
    assert_eq!(highlighted_rows(&state), 1);
    state.cursor = Index2::new(4, 2);
    DeleteLine(1).execute(&mut state);
    assert_eq!(state.lines, Lines::from("a"));
    assert_eq!(state.cursor, Index2::new(4, 2));
}

#[test]
fn delete_selection_fills_the_clipboard() {
    let mut state = state_on("Hello World!\n\n123.");
    state.mode = EditorMode::Visual;
    state.selection = Some(Selection::new(Index2::new(2, 0), Index2::new(0, 1)));
    DeleteSelection.execute(&mut state);
    assert_eq!(state.lines, Lines::from("H23."));
    assert_eq!(state.cursor, Index2::new(0, 1));
    assert_eq!(state.mode, EditorMode::Normal);
    assert_eq!(state.selection, None);
    assert_eq!(state.clip.get_text(), "ello World!\n\n1");
    assert_eq!(highlighted_rows(&state), 1);
}

#[test]
fn delete_selection_clamps_its_ends() {
    let mut state = state_on("ab\ncd");
    state.selection = Some(Selection::new(Index2::new(0, 1), Index2::new(9, 9)));
    DeleteSelection.execute(&mut state);
    assert_eq!(state.lines, Lines::from("a"));
    assert_eq!(state.cursor, Index2::new(0, 0));
    assert_eq!(state.clip.get_text(), "b\ncd");
}

#[test]
fn copy_selection_extracts_rows_joined_by_line_feeds() {
    let mut state = state_on("Hello World!\n\n123.");
    state.mode = EditorMode::Visual;
    state.selection = Some(Selection::new(Index2::new(0, 6), Index2::new(2, 1)));
    CopySelection.execute(&mut state);
    assert_eq!(state.clip.get_text(), "World!\n\n12");
    assert_eq!(state.mode, EditorMode::Normal);
    assert_eq!(state.selection, None);
    assert_eq!(state.lines, Lines::from("Hello World!\n\n123."));
}

#[test]
fn copy_without_selection_changes_nothing() {
    let mut state = state_on("Hello");
    state.mode = EditorMode::Insert;
    state.clip.set_text(String::from("kept"));
    CopySelection.execute(&mut state);
    assert_eq!(state.clip.get_text(), "kept");
    assert_eq!(state.mode, EditorMode::Insert);
}

#[test]
fn paste_appends_behind_the_cursor() {
    let mut state = state_on("ab");
    state.clip.set_text(String::from("x\ny"));
    state.cursor = Index2::new(0, 0);
    Paste.execute(&mut state);
    assert_eq!(state.lines, Lines::from("ax\nyb"));
    assert_eq!(state.cursor, Index2::new(1, 0));
    assert_eq!(state.mode, EditorMode::Normal);
    assert_eq!(highlighted_rows(&state), 2);
}

#[test]
fn paste_into_an_empty_buffer() {
    let mut state = state_on("");
    state.clip.set_text(String::from("hi"));
    Paste.execute(&mut state);
    assert_eq!(state.lines, Lines::from("hi"));
    assert_eq!(state.cursor, Index2::new(0, 1));
}

#[test]
fn paste_of_an_empty_clipboard_keeps_text_and_cursor() {
    let mut state = state_on("abc");
    state.cursor = Index2::new(0, 1);
    state.clip.set_text(String::new());
    Paste.execute(&mut state);
    assert_eq!(state.lines, Lines::from("abc"));
    assert_eq!(state.cursor, Index2::new(0, 1));
}

#[test]
fn copy_then_paste_appends_the_copied_text() {
    let mut state = state_on("Hello World!\n\n123.");
    state.mode = EditorMode::Visual;
    state.cursor = Index2::new(0, 11);
    state.selection = Some(Selection::new(Index2::new(0, 9), Index2::new(2, 0)));
    CopySelection.execute(&mut state);
    assert_eq!(state.cursor, Index2::new(0, 11));
    Paste.execute(&mut state);
    assert_eq!(state.lines, Lines::from("Hello World!ld!\n\n1\n\n123."));
    assert_eq!(state.cursor, Index2::new(2, 0));
}

#[test]
fn select_between_quotes() {
    let mut state = state_on("say \"hello you\" now");
    state.cursor = Index2::new(0, 8);
    SelectBetween(vec![('"', '"')]).execute(&mut state);
    assert_eq!(
        state.selection,
        Some(Selection::new(Index2::new(0, 5), Index2::new(0, 13)))
    );
    assert_eq!(state.mode, EditorMode::Visual);
    assert_eq!(state.cursor, Index2::new(0, 8));
}

#[test]
fn select_between_across_rows_and_on_a_delimiter() {
    let mut state = state_on(") ab\n\ncd (");
    state.cursor = Index2::new(1, 0);
    SelectBetween(vec![('(', ')')]).execute(&mut state);
    assert_eq!(
        state.selection,
        Some(Selection::new(Index2::new(0, 1), Index2::new(2, 2)))
    );
    let mut state = state_on("a\"b");
    state.cursor = Index2::new(0, 1);
    SelectBetween(vec![('"', '"')]).execute(&mut state);
    assert_eq!(
        state.selection,
        Some(Selection::new(Index2::new(0, 1), Index2::new(0, 1)))
    );
}

#[test]
fn select_between_without_delimiters_changes_nothing() {
    let mut state = state_on("(abc)");
    state.cursor = Index2::new(0, 2);
    SelectBetween(vec![('(', ')')]).execute(&mut state);
    assert_eq!(state.selection, None);
    assert_eq!(state.mode, EditorMode::Normal);
    let mut empty = state_on("");
    SelectBetween(vec![('(', ')')]).execute(&mut empty);
    assert_eq!(empty.selection, None);
    let mut outside = state_on("\"ab\"");
    outside.cursor = Index2::new(0, 9);
    SelectBetween(vec![('"', '"')]).execute(&mut outside);
    assert_eq!(outside.selection, None);
}

#[test]
fn composed_runs_its_actions_in_order() {
    let mut state = state_on("Hello");
    let action: Action<()> = Composed::new(MoveToEnd()).chain(Append).into();
    action.execute(&mut state);
    assert_eq!(state.cursor, Index2::new(0, 5));
    assert_eq!(state.mode, EditorMode::Insert);
    let nested: Composed<()> = Composed::new(InsertChar('!'))
        .chain(Composed::new(SwitchMode(EditorMode::Normal)).chain(InsertChar('?')));
    nested.execute(&mut state);
    assert_eq!(state.lines, Lines::from("Hello?!"));
    assert_eq!(state.cursor, Index2::new(0, 6));
    assert_eq!(state.mode, EditorMode::Normal);
}

#[test]
fn custom_actions_leave_the_state_alone() {
    let mut state = state_on("Hello");
    state.cursor = Index2::new(0, 3);
    let action: Action<u8> = Custom(7u8).into();
    action.execute(&mut state);
    assert_eq!(state.lines, Lines::from("Hello"));
    assert_eq!(state.cursor, Index2::new(0, 3));
    assert_eq!(state.mode, EditorMode::Normal);
}

#[test]
fn selection_within_is_inclusive_and_row_major() {
    let selection = Selection::new(Index2::new(2, 1), Index2::new(0, 3));
    assert_eq!(selection.start(), Index2::new(0, 3));
    assert_eq!(selection.end(), Index2::new(2, 1));
    assert!(selection.within(&Index2::new(0, 3)));
    assert!(selection.within(&Index2::new(0, 99)));
    assert!(selection.within(&Index2::new(1, 0)));
    assert!(selection.within(&Index2::new(2, 1)));
    assert!(!selection.within(&Index2::new(0, 2)));
    assert!(!selection.within(&Index2::new(2, 2)));
    assert!(!selection.within(&Index2::new(3, 0)));
}

#[test]
fn selection_extract_of_one_row_and_of_an_empty_row() {
    let lines = Lines::from("Hello\n\nWorld");
    let one = Selection::new(Index2::new(0, 1), Index2::new(0, 3));
    assert_eq!(one.extract(&lines), "ell");
    let empty_row = Selection::new(Index2::new(1, 0), Index2::new(1, 0));
    assert_eq!(empty_row.extract(&lines), "");
    let to_empty = Selection::new(Index2::new(0, 4), Index2::new(1, 0));
    assert_eq!(to_empty.extract(&lines), "o\n");
    let all = Selection::new(Index2::new(0, 0), Index2::new(9, 9));
    assert_eq!(all.extract(&lines), "Hello\n\nWorld");
    assert_eq!(all.extract(&Lines::from("")), "");
}

#[test]
fn a_clone_of_an_action_is_the_same_action() {
    let nested: Action<u8> = Composed::new(InsertChar('!'))
        .chain(Composed::new(SelectBetween(vec![('(', ')')])).chain(Custom(3u8)))
        .chain(DeleteLine(2))
        .into();
    let copy = nested.clone();
    assert_eq!(copy, nested);
    let list: Composed<u8> = Composed::new(Paste).chain(LineBreak(1));
    assert_eq!(list.clone(), list);

    let mut first = state_on("(ab)");
    let mut second = state_on("(ab)");
    nested.execute(&mut first);
    copy.execute(&mut second);
    assert_eq!(first.lines, second.lines);
    assert_eq!(first.cursor, second.cursor);
    assert_eq!(first.mode, second.mode);
}

#[test]
fn a_line_break_in_a_buffer_without_rows_creates_the_first_row() {
    let mut state = state_on("");
    LineBreak(1).execute(&mut state);
    assert_eq!(state.lines, Lines::from("\n"));
    assert_eq!(state.cursor, Index2::new(1, 0));
    assert_eq!(highlighted_rows(&state), 2);
    let mut state = state_on("");
    LineBreak(3).execute(&mut state);
    assert_eq!(state.lines, Lines::from("\n\n\n"));
    assert_eq!(state.cursor, Index2::new(3, 0));
    assert_eq!(highlighted_rows(&state), 4);
}
