use edtui::actions::cpaste::{paste_text, CopySelection, Paste};
use edtui::actions::{
    AppendCharToCommand, Composed, Execute, RemoveCharFromCommand, StartCommand, StopCommand,
    TriggerCommand,
};
use edtui::clipboard::{Clipboard, ClipboardTrait, InternalClipboard};
use edtui::highlight::Bridge;
use edtui::lines::{
    append, insert_char, insert_row, len, len_col, remove, remove_row, split_at,
};
use edtui::state::selection::{clamp_position, join_rows, Selection};
use edtui::state::undo::{Snapshot, Stack};
use edtui::state::view::ViewState;
use edtui::strings::{chars_of, string_of};
use edtui::{EditorMode, EditorState, Index2, Lines};

#[test]
fn a_new_state_starts_at_the_origin_in_normal_mode() {
    let mut state = EditorState::new(Lines::from("First line\nSecond Line"), "rs");
    assert_eq!(state.cursor, Index2::new(0, 0));
    assert_eq!(state.mode, EditorMode::Normal);
    assert_eq!(state.selection, None);
    assert_eq!(state.command, "");
    assert_eq!(state.clip.get_text(), "");
    assert_eq!(state.highlighter.engine().atoms.len(), 2);
    let empty = EditorState::default();
    assert_eq!(empty.lines.len(), 0);
    assert_eq!(empty.highlighter.engine().atoms.len(), 0);
}

#[test]
fn reset_highlighter_tells_the_text_anew() {
    let mut state = EditorState::new(Lines::from("a"), "txt");
    state.lines = Lines::from("a\nb\nc");
    state.reset_highlighter();
    assert_eq!(state.highlighter.engine().atoms.len(), 3);
}

#[test]
fn the_bridge_counts_the_rows_it_was_told() {
    let mut bridge = Bridge::new("rs", 4);
    assert_eq!(bridge.engine().atoms.len(), 0);
    bridge.append(&vec!['a']);
    bridge.insert_line(0, &vec!['f', 'n']);
    bridge.edit(1, &vec!['b']);
    assert_eq!(bridge.engine().atoms.len(), 2);
    bridge.remove_line(0);
    assert_eq!(bridge.engine().atoms.len(), 1);
    bridge.run(&Lines::from("x\ny\nz"));
    assert_eq!(bridge.engine().atoms.len(), 3);
}

#[test]
fn mode_names() {
    assert_eq!(EditorMode::Normal.name(), "Normal");
    assert_eq!(EditorMode::Insert.name(), "Insert");
    assert_eq!(EditorMode::Visual.name(), "Visual");
    assert_eq!(EditorMode::Search.name(), "Search");
    assert_eq!(EditorMode::Command.name(), "Command");
    assert_eq!(EditorMode::default(), EditorMode::Normal);
}

#[test]
fn the_clipboard_holds_the_last_text_set() {
    let mut internal = InternalClipboard::default();
    assert_eq!(internal.get_text(), "");
    internal.set_text(String::from("one"));
    internal.set_text(String::from("two"));
    assert_eq!(internal.get_text(), "two");
    let mut clipboard = Clipboard::new(internal);
    assert_eq!(clipboard.get_text(), "two");
    clipboard.set_text(String::from("three"));
    assert_eq!(clipboard.get_text(), "three");
    let mut state = EditorState::new(Lines::from(""), "txt");
    state.set_clipboard(InternalClipboard(String::from("kept")));
    assert_eq!(state.clip.get_text(), "kept");
}

#[test]
fn command_actions_edit_the_command_line() {
    let mut state = EditorState::new(Lines::from("Hello"), "txt");
    StartCommand.execute(&mut state);
    assert_eq!(state.mode, EditorMode::Command);
    AppendCharToCommand('w').execute(&mut state);
    AppendCharToCommand('q').execute(&mut state);
    RemoveCharFromCommand.execute(&mut state);
    assert_eq!(state.command, "w");
    TriggerCommand.execute(&mut state);
    assert_eq!(state.mode, EditorMode::Normal);
    assert_eq!(state.command, "");
    RemoveCharFromCommand.execute(&mut state);
    assert_eq!(state.command, "");
    StartCommand.execute(&mut state);
    AppendCharToCommand('x').execute(&mut state);
    StopCommand.execute(&mut state);
    assert_eq!(state.mode, EditorMode::Normal);
    assert_eq!(state.command, "");
    assert_eq!(state.lines, Lines::from("Hello"));
}

#[test]
fn split_at_and_append_are_inverse() {
    for (row, col) in [(0, 0), (0, 3), (0, 5), (1, 0), (2, 2), (2, 4)] {
        let mut lines = Lines::from("Hello\n\n123.");
        let tail = split_at(&mut lines, row, col);
        assert_eq!(lines.len(), row + 1);
        assert_eq!(lines.len_col(row), Some(col));
        assert_eq!(tail.len(), 3 - row);
        append(&mut lines, tail);
        assert_eq!(lines, Lines::from("Hello\n\n123."));
    }
    let mut lines = Lines::from("Hello\nWorld");
    let tail = split_at(&mut lines, 0, 2);
    assert_eq!(lines, Lines::from("He"));
    assert_eq!(tail, Lines::from("llo\nWorld"));
}

#[test]
fn cutting_a_selection_takes_its_rows_out() {
    let mut lines = Lines::from("Hello\n\nWorld");
    let cut = Selection::new(Index2::new(2, 1), Index2::new(0, 3)).cut(&mut lines);
    assert_eq!(lines, Lines::from("Helrld"));
    assert_eq!(cut, Lines::from("lo\n\nWo"));
    assert_eq!(join_rows(&cut), "lo\n\nWo");
    let mut lines = Lines::from("Hello\n\nWorld");
    let cut = Selection::new(Index2::new(1, 0), Index2::new(1, 7)).cut(&mut lines);
    assert_eq!(lines, Lines::from("Hello\n\nWorld"));
    assert_eq!(cut.len(), 1);
    let mut lines = Lines::from("ab");
    let cut = Selection::new(Index2::new(5, 5), Index2::new(9, 0)).cut(&mut lines);
    assert_eq!(lines, Lines::from("a"));
    assert_eq!(cut, Lines::from("b"));
    let mut empty = Lines::from("");
    let cut = Selection::new(Index2::new(0, 0), Index2::new(1, 1)).cut(&mut empty);
    assert_eq!(empty.len(), 0);
    assert_eq!(cut.len(), 0);
    assert_eq!(join_rows(&Lines::from("")), "");
    assert_eq!(join_rows(&Lines::from("a\n")), "a\n");
}

#[test]
fn clamp_position_finds_the_nearest_character() {
    let lines = Lines::from("Hello\n\nab");
    assert_eq!(clamp_position(&lines, Index2::new(0, 2)), Index2::new(0, 2));
    assert_eq!(clamp_position(&lines, Index2::new(0, 9)), Index2::new(0, 4));
    assert_eq!(clamp_position(&lines, Index2::new(1, 9)), Index2::new(1, 0));
    assert_eq!(clamp_position(&lines, Index2::new(7, 0)), Index2::new(2, 1));
    assert_eq!(
        clamp_position(&Lines::from(""), Index2::new(7, 3)),
        Index2::new(0, 0)
    );
}

#[test]
fn strings_and_rows_convert_both_ways() {
    assert_eq!(string_of(&vec!['a', 'ß', '√']), "aß√");
    assert_eq!(string_of(&vec![]), "");
    assert_eq!(chars_of("aß√"), vec!['a', 'ß', '√']);
    assert_eq!(chars_of(""), Vec::<char>::new());
}

#[test]
fn stacks_hold_snapshots_last_in_first_out() {
    let mut stack = Stack::new();
    assert_eq!(stack.len(), 0);
    assert!(stack.pop().is_none());
    stack.push(Snapshot {
        lines: Lines::from("a"),
        cursor: Index2::new(0, 1),
        mode: EditorMode::Insert,
    });
    stack.push(Snapshot {
        lines: Lines::from("b"),
        cursor: Index2::new(0, 0),
        mode: EditorMode::Normal,
    });
    assert_eq!(stack.len(), 2);
    let top = stack.pop().unwrap();
    assert_eq!(top.lines, Lines::from("b"));
    assert_eq!(top.mode, EditorMode::Normal);
    stack.clear();
    assert_eq!(stack.len(), 0);
}

#[test]
fn positions_order_row_major() {
    assert!(Index2::new(0, 9).at_or_before(&Index2::new(1, 0)));
    assert!(Index2::new(1, 2).at_or_before(&Index2::new(1, 2)));
    assert!(!Index2::new(1, 3).at_or_before(&Index2::new(1, 2)));
    assert!(!Index2::new(2, 0).at_or_before(&Index2::new(1, 9)));
    assert_eq!(Index2::default(), Index2::new(0, 0));
}

#[test]
fn the_viewport_follows_the_cursor() {
    let mut view = ViewState::default();
    assert_eq!(view.update_offset((10, 5), Index2::new(0, 0)), (0, 0));
    assert_eq!(view.update_offset((10, 5), Index2::new(4, 9)), (0, 0));
    assert_eq!(view.update_offset((10, 5), Index2::new(5, 10)), (1, 1));
    assert_eq!(view.update_offset((10, 5), Index2::new(20, 30)), (21, 16));
    assert_eq!(view.update_offset((10, 5), Index2::new(18, 25)), (21, 16));
    assert_eq!(view.update_offset((10, 5), Index2::new(3, 2)), (2, 3));
    assert_eq!(view.update_offset((0, 0), Index2::new(7, 8)), (2, 3));
    assert_eq!(view.update_offset((0, 0), Index2::new(1, 1)), (1, 1));
    assert_eq!(view, ViewState { x: 1, y: 1 });
}

#[test]
fn split_at_clamps_and_append_takes_any_tail() {
    let mut lines = Lines::from("Hello\nWorld");
    let tail = split_at(&mut lines, 9, 2);
    assert_eq!(lines, Lines::from("Hello\nWo"));
    assert_eq!(tail, Lines::from("rld"));
    let mut lines = Lines::from("Hello\nWorld");
    let tail = split_at(&mut lines, 0, 40);
    assert_eq!(lines, Lines::from("Hello"));
    assert_eq!(tail, Lines::from("\nWorld"));
    append(&mut lines, tail);
    assert_eq!(lines, Lines::from("Hello\nWorld"));

    let mut empty = Lines::from("");
    let tail = split_at(&mut empty, 3, 3);
    assert_eq!(empty.len(), 0);
    assert_eq!(tail.len(), 0);
    append(&mut empty, Lines::from("a\nb"));
    assert_eq!(empty, Lines::from("a\nb"));
    append(&mut empty, Lines::from(""));
    assert_eq!(empty, Lines::from("a\nb"));
    append(&mut empty, Lines::from("c"));
    assert_eq!(empty, Lines::from("a\nbc"));
}

#[test]
fn buffer_operations_leave_the_text_alone_outside_of_it() {
    let mut lines = Lines::from("ab\n\ncd");
    assert_eq!(len(&lines), 3);
    assert_eq!(len_col(&lines, 0), Some(2));
    assert_eq!(len_col(&lines, 1), Some(0));
    assert_eq!(len_col(&lines, 3), None);

    insert_char(&mut lines, 0, 2, 'x');
    insert_char(&mut lines, 1, 0, 'y');
    insert_char(&mut lines, 1, 5, 'z');
    insert_char(&mut lines, 7, 0, 'z');
    assert_eq!(lines, Lines::from("abx\ny\ncd"));

    assert_eq!(remove(&mut lines, 0, 1), Some('b'));
    assert_eq!(remove(&mut lines, 0, 2), None);
    assert_eq!(remove(&mut lines, 9, 0), None);
    assert_eq!(lines, Lines::from("ax\ny\ncd"));

    insert_row(&mut lines, 1, vec!['n', 'e', 'w']);
    insert_row(&mut lines, 40, vec![]);
    assert_eq!(lines, Lines::from("ax\nnew\ny\ncd\n"));

    assert_eq!(remove_row(&mut lines, 2), Some(vec!['y']));
    assert_eq!(remove_row(&mut lines, 4), None);
    assert_eq!(lines, Lines::from("ax\nnew\ncd\n"));
}

struct Outside;

impl ClipboardTrait for Outside {
    fn set_text(&mut self, _text: String) {}

    fn get_text(&self) -> String {
        String::from("from outside")
    }
}

#[test]
fn paste_takes_the_string_that_the_clipboard_returns() {
    let mut state = EditorState::new(Lines::from("ab"), "txt");
    state.set_clipboard(Outside);
    state.mode = EditorMode::Visual;
    state.selection = Some(Selection::new(Index2::new(0, 0), Index2::new(0, 1)));
    CopySelection.execute(&mut state);
    assert_eq!(state.mode, EditorMode::Normal);
    Paste.execute(&mut state);
    assert_eq!(state.lines, Lines::from("afrom outsideb"));
    assert_eq!(state.cursor, Index2::new(0, 12));

    let mut list = EditorState::new(Lines::from(""), "txt");
    list.set_clipboard(Outside);
    let twice: Composed<u8> = Composed::new(Paste).chain(Paste);
    twice.execute(&mut list);
    assert_eq!(list.lines, Lines::from("from outsidefrom outside"));
}

#[test]
fn paste_of_an_empty_answer_changes_no_text() {
    let mut state = EditorState::new(Lines::from("ab"), "txt");
    state.set_clipboard(InternalClipboard::default());
    Paste.execute(&mut state);
    assert_eq!(state.lines, Lines::from("ab"));
    assert_eq!(state.cursor, Index2::new(0, 0));
}

#[test]
fn paste_text_pastes_the_string_it_is_given() {
    let mut state = EditorState::new(Lines::from("ab"), "txt");
    state.clip.set_text(String::from("kept"));
    paste_text(&mut state, "xy");
    assert_eq!(state.lines, Lines::from("axyb"));
    assert_eq!(state.cursor, Index2::new(0, 2));
    assert_eq!(state.mode, EditorMode::Normal);
    assert_eq!(state.clip.get_text(), "kept");

    let mut state = EditorState::new(Lines::from("abcd"), "txt");
    state.mode = EditorMode::Visual;
    state.selection = Some(Selection::new(Index2::new(0, 1), Index2::new(0, 2)));
    paste_text(&mut state, "x\ny");
    assert_eq!(state.lines, Lines::from("ax\nyd"));
    assert_eq!(state.selection, None);
    assert_eq!(state.mode, EditorMode::Normal);
}

#[test]
fn the_default_clipboard_returns_what_was_copied() {
    let mut state = EditorState::new(Lines::from("Hello World!\n\n123."), "txt");
    state.mode = EditorMode::Visual;
    state.selection = Some(Selection::new(Index2::new(0, 0), Index2::new(0, 2)));
    CopySelection.execute(&mut state);
    assert_eq!(state.cursor, Index2::new(0, 0));
    Paste.execute(&mut state);
    assert_eq!(state.lines, Lines::from("HHelello World!\n\n123."));
    assert_eq!(state.cursor, Index2::new(0, 3));
    assert_eq!(state.clip.get_text(), "Hel");

    let mut clipboard = Clipboard::default();
    assert_eq!(clipboard.get_text(), "");
    clipboard.set_text(String::from("one"));
    clipboard.set_text(String::from("two"));
    assert_eq!(clipboard.get_text(), "two");
    assert_eq!(clipboard.get_text(), "two");
}
