use edtui::actions::{Action, Custom, DeleteLine, MoveForward, RemoveChar};
use edtui::input::key::Key;
use edtui::input::register::{Register, RegisterKey};
use edtui::state::command::{split_command, Command, CommandState};
use edtui::{EditorMode, EditorState, Index2, Input, Lines};

#[derive(Clone, Debug, PartialEq)]
enum Host {
    Quit,
    Save(String),
}

type HostFn = fn(String) -> Host;

fn state_on(text: &str) -> EditorState {
    EditorState::new(Lines::from(text), "txt")
}

fn input() -> Input<Host, HostFn> {
    let mut input: Input<Host, HostFn> = Input::default();
    input.command.add_command(
        String::from("quit"),
        String::from("Quit the app"),
        vec![String::from("q")],
        |_| Host::Quit,
    );
    input.command.add_command(
        String::from("save_as"),
        String::from("Save the current file as a new file"),
        vec![String::from("W"), String::from("q")],
        Host::Save,
    );
    input
}

#[test]
fn a_two_key_sequence_resolves_at_its_second_key() {
    let mut register: Register<()> = Register::new();
    register.insert(
        RegisterKey::n(vec![Key::Char('d'), Key::Char('d')]),
        DeleteLine(1),
    );
    register.insert(RegisterKey::n(vec![Key::Char('x')]), RemoveChar(1));

    assert_eq!(register.get(Key::Char('d'), EditorMode::Normal), None);
    assert_eq!(register.lookup, vec![Key::Char('d')]);
    assert_eq!(
        register.get(Key::Char('d'), EditorMode::Normal),
        Some(&Action::DeleteLine(DeleteLine(1)))
    );
    assert_eq!(register.lookup, vec![]);
    assert_eq!(
        register.get(Key::Char('x'), EditorMode::Normal),
        Some(&Action::RemoveChar(RemoveChar(1)))
    );
    assert_eq!(register.lookup, vec![]);
}

#[test]
fn an_unknown_key_clears_the_lookup() {
    let mut register: Register<()> = Register::new();
    register.insert(
        RegisterKey::n(vec![Key::Char('d'), Key::Char('d')]),
        DeleteLine(1),
    );
    assert_eq!(register.get(Key::Char('d'), EditorMode::Normal), None);
    assert_eq!(register.get(Key::Char('x'), EditorMode::Normal), None);
    assert_eq!(register.lookup, vec![]);
    assert_eq!(register.get(Key::Char('d'), EditorMode::Visual), None);
    assert_eq!(register.lookup, vec![]);
}

#[test]
fn a_sequence_that_another_binding_continues_stays_pending() {
    let mut register: Register<()> = Register::new();
    register.insert(RegisterKey::n(vec![Key::Char('d')]), RemoveChar(1));
    register.insert(
        RegisterKey::n(vec![Key::Char('d'), Key::Char('d')]),
        DeleteLine(1),
    );
    assert_eq!(register.get(Key::Char('d'), EditorMode::Normal), None);
    assert_eq!(register.lookup, vec![Key::Char('d')]);
    assert_eq!(
        register.get(Key::Char('d'), EditorMode::Normal),
        Some(&Action::DeleteLine(DeleteLine(1)))
    );
}

#[test]
fn a_later_insert_replaces_the_binding() {
    let mut register: Register<()> = Register::new();
    register.insert(RegisterKey::n(vec![Key::Char('x')]), RemoveChar(1));
    register.insert(RegisterKey::n(vec![Key::Char('x')]), RemoveChar(3));
    register.insert(RegisterKey::v(vec![Key::Char('x')]), MoveForward(2));
    assert_eq!(register.register.len(), 2);
    assert_eq!(
        register.get(Key::Char('x'), EditorMode::Normal),
        Some(&Action::RemoveChar(RemoveChar(3)))
    );
    assert_eq!(
        register.get(Key::Char('x'), EditorMode::Visual),
        Some(&Action::MoveForward(MoveForward(2)))
    );
}

#[test]
fn resolution_does_not_depend_on_what_was_resolved_before() {
    let mut register: Register<()> = Register::new();
    register.insert(
        RegisterKey::n(vec![Key::Char('d'), Key::Char('d')]),
        DeleteLine(1),
    );
    register.insert(RegisterKey::n(vec![Key::Char('x')]), RemoveChar(1));
    for _ in 0..3 {
        assert_eq!(register.get(Key::Char('q'), EditorMode::Normal), None);
        assert_eq!(register.get(Key::Char('d'), EditorMode::Normal), None);
        assert_eq!(
            register.get(Key::Char('d'), EditorMode::Normal),
            Some(&Action::DeleteLine(DeleteLine(1)))
        );
        assert_eq!(
            register.get(Key::Char('x'), EditorMode::Normal),
            Some(&Action::RemoveChar(RemoveChar(1)))
        );
    }
}

#[test]
fn register_key_constructors_set_the_mode() {
    let keys = vec![Key::Enter];
    assert_eq!(RegisterKey::n(keys.clone()).mode, EditorMode::Normal);
    assert_eq!(RegisterKey::v(keys.clone()).mode, EditorMode::Visual);
    assert_eq!(RegisterKey::i(keys.clone()).mode, EditorMode::Insert);
    assert_eq!(RegisterKey::s(keys.clone()).mode, EditorMode::Search);
    assert_eq!(RegisterKey::c(keys.clone()).mode, EditorMode::Command);
    let key = RegisterKey::new(vec![Key::Up, Key::Down], EditorMode::Search);
    assert_eq!(key.keys, vec![Key::Up, Key::Down]);
    assert_eq!(key.mode, EditorMode::Search);
}

#[test]
fn default_keys_delete_a_line_and_remove_a_character() {
    let mut input = input();
    let mut state = state_on("Hello\nWorld");
    assert_eq!(input.on_key(Key::Char('d'), &mut state), None);
    assert_eq!(state.lines, Lines::from("Hello\nWorld"));
    assert_eq!(input.register.lookup, vec![Key::Char('d')]);
    assert_eq!(input.on_key(Key::Char('d'), &mut state), None);
    assert_eq!(state.lines, Lines::from("World"));
    assert_eq!(input.register.lookup, vec![]);
    assert_eq!(input.on_key(Key::Char('x'), &mut state), None);
    assert_eq!(state.lines, Lines::from("orld"));
}

#[test]
fn default_keys_type_in_insert_mode() {
    let mut input = input();
    let mut state = state_on("");
    input.on_key(Key::Char('i'), &mut state);
    assert_eq!(state.mode, EditorMode::Insert);
    for ch in "hid".chars() {
        input.on_key(Key::Char(ch), &mut state);
    }
    input.on_key(Key::Enter, &mut state);
    input.on_key(Key::Char('x'), &mut state);
    input.on_key(Key::Backspace, &mut state);
    input.on_key(Key::Backspace, &mut state);
    input.on_key(Key::Other, &mut state);
    input.on_key(Key::Esc, &mut state);
    assert_eq!(state.mode, EditorMode::Normal);
    assert_eq!(state.lines, Lines::from("hid"));
    assert_eq!(state.cursor, Index2::new(0, 2));
    input.on_key(Key::Char('h'), &mut state);
    assert_eq!(state.cursor, Index2::new(0, 1));
}

#[test]
fn default_keys_search_and_select() {
    let mut input = input();
    let mut state = state_on("one two\ntwo one");
    input.on_key(Key::Char('/'), &mut state);
    assert_eq!(state.mode, EditorMode::Search);
    input.on_key(Key::Char('t'), &mut state);
    input.on_key(Key::Char('w'), &mut state);
    input.on_key(Key::Enter, &mut state);
    assert_eq!(state.mode, EditorMode::Normal);
    assert_eq!(state.cursor, Index2::new(0, 4));
    input.on_key(Key::Char('n'), &mut state);
    assert_eq!(state.cursor, Index2::new(1, 0));
    input.on_key(Key::Char('N'), &mut state);
    assert_eq!(state.cursor, Index2::new(0, 4));
    input.on_key(Key::Char('v'), &mut state);
    input.on_key(Key::Char('e'), &mut state);
    input.on_key(Key::Char('y'), &mut state);
    assert_eq!(state.clip.get_text(), "two");
    input.on_key(Key::Char('G'), &mut state);
    assert_eq!(state.cursor, Index2::new(1, 0));
    input.on_key(Key::Char('g'), &mut state);
    input.on_key(Key::Char('g'), &mut state);
    assert_eq!(state.cursor, Index2::new(0, 0));
    input.on_key(Key::Char('A'), &mut state);
    assert_eq!(state.mode, EditorMode::Insert);
    assert_eq!(state.cursor, Index2::new(0, 7));
    input.on_key(Key::Esc, &mut state);
    input.on_key(Key::Char('o'), &mut state);
    assert_eq!(state.lines, Lines::from("one two\n\ntwo one"));
    assert_eq!(state.cursor, Index2::new(1, 0));
    input.on_key(Key::Esc, &mut state);
    input.on_key(Key::Char('u'), &mut state);
    assert_eq!(state.lines, Lines::from("one two\ntwo one"));
    input.on_key(Key::Char('r'), &mut state);
    assert_eq!(state.lines, Lines::from("one two\n\ntwo one"));
}

#[test]
fn custom_actions_are_handed_back() {
    let mut input = input();
    let mut state = state_on("Hello");
    input
        .register
        .insert(RegisterKey::n(vec![Key::Char('Z')]), Custom(Host::Quit));
    assert_eq!(
        input.on_key(Key::Char('Z'), &mut state),
        Some(Custom(Host::Quit))
    );
    assert_eq!(state.lines, Lines::from("Hello"));
    assert_eq!(state.mode, EditorMode::Normal);
}

#[test]
fn command_line_dispatches_by_name_and_alias() {
    let mut input = input();
    let mut state = state_on("Hello");
    assert_eq!(input.on_key(Key::Char(':'), &mut state), None);
    assert_eq!(state.mode, EditorMode::Command);
    for ch in "W  my file".chars() {
        assert_eq!(input.on_key(Key::Char(ch), &mut state), None);
    }
    assert_eq!(state.command, "W  my file");
    input.on_key(Key::Char('x'), &mut state);
    input.on_key(Key::Backspace, &mut state);
    assert_eq!(state.command, "W  my file");
    assert_eq!(
        input.on_key(Key::Enter, &mut state),
        Some(Custom(Host::Save(String::from(" my file"))))
    );
    assert_eq!(state.mode, EditorMode::Normal);
    assert_eq!(state.command, "");
    assert_eq!(state.lines, Lines::from("Hello"));

    input.on_key(Key::Char(':'), &mut state);
    input.on_key(Key::Char('q'), &mut state);
    assert_eq!(
        input.on_key(Key::Enter, &mut state),
        Some(Custom(Host::Quit))
    );
}

#[test]
fn unknown_command_and_escape_return_to_normal_mode() {
    let mut input = input();
    let mut state = state_on("Hello");
    input.on_key(Key::Char(':'), &mut state);
    input.on_key(Key::Char('z'), &mut state);
    assert_eq!(input.on_key(Key::Enter, &mut state), None);
    assert_eq!(state.mode, EditorMode::Normal);
    assert_eq!(input.command.command_len(), 0);
    input.on_key(Key::Char(':'), &mut state);
    input.on_key(Key::Char('q'), &mut state);
    assert_eq!(input.on_key(Key::Esc, &mut state), None);
    assert_eq!(state.mode, EditorMode::Normal);
    assert_eq!(state.command, "");
    assert_eq!(state.lines, Lines::from("Hello"));
}

#[test]
fn command_lines_split_at_the_first_whitespace() {
    assert_eq!(
        split_command("open a b"),
        (String::from("open"), String::from("a b"))
    );
    assert_eq!(split_command("quit"), (String::from("quit"), String::new()));
    assert_eq!(split_command(""), (String::new(), String::new()));
    assert_eq!(split_command(" x"), (String::new(), String::from("x")));
    assert_eq!(
        split_command("w\tname"),
        (String::from("w"), String::from("name"))
    );
}

#[test]
fn command_builders_set_their_fields() {
    let action: HostFn = |_| Host::Quit;
    let mut command = Command::new(
        String::from("quit"),
        String::from("Quit the app"),
        vec![String::from("q")],
        action,
    );
    assert_eq!(command.name, "quit");
    assert_eq!(command.description, "Quit the app");
    assert_eq!(command.aliases, vec![String::from("q")]);
    command
        .name(String::from("exit"))
        .description(String::from("Leave"))
        .aliases(vec![String::from("x"), String::from("e")]);
    assert_eq!(command.name, "exit");
    assert_eq!(command.description, "Leave");
    assert_eq!(command.aliases, vec![String::from("x"), String::from("e")]);
    assert!(command.is_called(&String::from("exit")));
    assert!(command.is_called(&String::from("e")));
    assert!(!command.is_called(&String::from("quit")));
    assert_eq!((command.action)(String::new()), Host::Quit);
}

#[test]
fn command_state_finds_the_first_command_of_a_name() {
    let mut commands: CommandState<HostFn> = CommandState::default();
    commands.add_command(String::from("a"), String::new(), vec![], |_| Host::Quit);
    commands.add_command(
        String::from("b"),
        String::new(),
        vec![String::from("a")],
        Host::Save,
    );
    assert_eq!(commands.find(&String::from("a")), Some(0));
    assert_eq!(commands.find(&String::from("b")), Some(1));
    assert_eq!(commands.find(&String::from("c")), None);
    commands.push_char('a');
    commands.push_char('b');
    commands.remove_char();
    assert_eq!(commands.input, "a");
    assert_eq!(commands.command_len(), 1);
    commands.clear();
    assert_eq!(commands.command_len(), 0);
}

#[test]
fn default_keys_follow_the_mode_transitions() {
    let mut input = input();
    for key in ['i', 'a', 'A', 'I', 'o', 'O'] {
        let mut state = state_on("Hello\nWorld");
        input.on_key(Key::Char(key), &mut state);
        assert_eq!(state.mode, EditorMode::Insert, "after {key}");
        input.on_key(Key::Esc, &mut state);
        assert_eq!(state.mode, EditorMode::Normal, "after {key} and escape");
    }
    for (key, mode) in [
        ('v', EditorMode::Visual),
        ('/', EditorMode::Search),
        (':', EditorMode::Command),
    ] {
        let mut state = state_on("Hello\nWorld");
        input.on_key(Key::Char(key), &mut state);
        assert_eq!(state.mode, mode, "after {key}");
        input.on_key(Key::Esc, &mut state);
        assert_eq!(state.mode, EditorMode::Normal, "after {key} and escape");
    }
    for (key, mode) in [
        ('/', EditorMode::Search),
        (':', EditorMode::Command),
    ] {
        let mut state = state_on("Hello\nWorld");
        input.on_key(Key::Char(key), &mut state);
        assert_eq!(state.mode, mode);
        input.on_key(Key::Enter, &mut state);
        assert_eq!(state.mode, EditorMode::Normal, "after {key} and enter");
    }
    for key in ['y', 'd', 'p'] {
        let mut state = state_on("Hello\nWorld");
        input.on_key(Key::Char('v'), &mut state);
        input.on_key(Key::Char('l'), &mut state);
        assert_eq!(state.mode, EditorMode::Visual);
        input.on_key(Key::Char(key), &mut state);
        assert_eq!(state.mode, EditorMode::Normal, "after {key}");
        assert_eq!(state.selection, None);
    }
}

#[test]
fn the_same_keys_get_the_same_answers_once_nothing_is_kept() {
    let mut register: Register<()> = Register::new();
    register.insert(
        RegisterKey::n(vec![Key::Char('g'), Key::Char('g')]),
        MoveForward(1),
    );
    register.insert(
        RegisterKey::n(vec![Key::Char('g'), Key::Char('x'), Key::Char('x')]),
        RemoveChar(1),
    );
    let keys = [Key::Char('g'), Key::Char('x'), Key::Char('g')];
    let mut first = Vec::new();
    for key in keys {
        first.push(register.get(key, EditorMode::Normal).cloned());
    }
    assert_eq!(first, vec![None, None, None]);
    assert!(register.lookup.is_empty());
    let mut second = Vec::new();
    for key in keys {
        second.push(register.get(key, EditorMode::Normal).cloned());
    }
    assert_eq!(second, first);
    assert!(register.lookup.is_empty());
    assert_eq!(register.get(Key::Char('g'), EditorMode::Normal), None);
    assert_eq!(register.lookup, vec![Key::Char('g')]);
    assert_eq!(
        register.get(Key::Char('g'), EditorMode::Normal),
        Some(&Action::MoveForward(MoveForward(1)))
    );
    assert!(register.lookup.is_empty());
}

#[test]
fn escape_from_insert_mode_puts_the_cursor_on_the_last_character() {
    let mut input = input();
    let mut state = state_on("Hello World!\n\n123.");
    state.mode = EditorMode::Insert;
    state.cursor = Index2::new(0, 12);
    assert_eq!(input.on_key(Key::Esc, &mut state), None);
    assert_eq!(state.mode, EditorMode::Normal);
    assert_eq!(state.cursor, Index2::new(0, 11));
    assert_eq!(state.selection, None);

    let mut state = state_on("ab");
    state.mode = EditorMode::Insert;
    state.cursor = Index2::new(1, 0);
    assert_eq!(input.on_key(Key::Esc, &mut state), None);
    assert_eq!(state.mode, EditorMode::Normal);
    assert_eq!(state.cursor, Index2::new(1, 0));
}
