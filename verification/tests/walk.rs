use edtui::actions::{
    Action, Append, AppendCharToSearch, AppendNewline, Composed, CopySelection, DeleteChar,
    DeleteLine, DeleteSelection, Execute, FindNext, FindPrevious, InsertChar, InsertNewline,
    LineBreak, MoveBackward, MoveDown, MoveForward, MoveToEnd, MoveToFirst, MoveToFirstLine,
    MoveToLastLine, MoveToStart, MoveUp, MoveWordBackward, MoveWordForwardEnd,
    MoveWordForwardStart, Paste, Redo, RemoveChar, RemoveCharFromSearch, SelectBetween,
    StartSearch, StopSearch, SwitchMode, TriggerSearch, Undo,
};
use edtui::input::key::Key;
use edtui::state::selection::Selection;
use edtui::{EditorMode, EditorState, Index2, Input, Lines};

/// A small generator of numbers that looks random and is the same on every run.
struct Numbers(u64);

impl Numbers {
    fn next(&mut self) -> u64 {
        self.0 = self.0.wrapping_mul(6364136223846793005).wrapping_add(1442695040888963407);
        self.0 >> 33
    }

    fn below(&mut self, n: u64) -> usize {
        (self.next() % n) as usize
    }

    fn character(&mut self) -> char {
        let characters = ['a', 'b', ' ', '(', ')', '"', '\n', 'ß', '\t', 'x'];
        characters[self.below(characters.len() as u64)]
    }

    fn mode(&mut self) -> EditorMode {
        match self.below(5) {
            0 => EditorMode::Normal,
            1 => EditorMode::Insert,
            2 => EditorMode::Visual,
            3 => EditorMode::Search,
            _ => EditorMode::Command,
        }
    }

    fn action(&mut self) -> Action<()> {
        let n = self.below(4);
        match self.below(37) {
            0 => SwitchMode(self.mode()).into(),
            1 => Append.into(),
            2 => MoveForward(n).into(),
            3 => MoveBackward(n).into(),
            4 => MoveUp(n).into(),
            5 => MoveDown(n).into(),
            6 => MoveWordForwardStart(n).into(),
            7 => MoveWordForwardEnd(n).into(),
            8 => MoveWordBackward(n).into(),
            9 => MoveToStart().into(),
            10 => MoveToFirst().into(),
            11 => MoveToEnd().into(),
            12 => MoveToFirstLine().into(),
            13 => MoveToLastLine().into(),
            14 | 15 | 16 => InsertChar(self.character()).into(),
            17 => LineBreak(n).into(),
            18 => AppendNewline(n).into(),
            19 => InsertNewline(n).into(),
            20 => RemoveChar(n).into(),
            21 => DeleteChar(n).into(),
            22 => DeleteLine(n).into(),
            23 => DeleteSelection.into(),
            24 => SelectBetween(vec![('(', ')'), ('"', '"')]).into(),
            25 => Undo.into(),
            26 => Redo.into(),
            27 => Paste.into(),
            28 => CopySelection.into(),
            29 => Composed::new(MoveToEnd()).chain(InsertChar(self.character())).into(),
            30 => StartSearch.into(),
            31 => StopSearch.into(),
            32 => TriggerSearch.into(),
            33 => FindNext.into(),
            34 => FindPrevious.into(),
            35 => AppendCharToSearch(self.character()).into(),
            _ => RemoveCharFromSearch.into(),
        }
    }
}

fn assert_told(state: &EditorState) {
    let engine = state.highlighter.engine();
    assert_eq!(engine.atoms.len(), state.lines.len());
    assert_eq!(engine.line_ref.len(), state.lines.len());
}

#[test]
fn a_long_walk_of_actions_never_leaves_the_highlighter_behind() {
    let mut numbers = Numbers(7);
    let mut state = EditorState::new(Lines::from("fn main() {\n    (\"a\")\n}"), "rs");
    for step in 0..3000 {
        if step % 17 == 0 {
            state.cursor = Index2::new(numbers.below(9), numbers.below(30));
        }
        if step % 29 == 0 {
            state.selection = Some(Selection::new(
                Index2::new(numbers.below(9), numbers.below(30)),
                Index2::new(numbers.below(9), numbers.below(30)),
            ));
        }
        if state.lines.len() > 40 {
            DeleteLine(30).execute(&mut state);
        }
        let action = numbers.action();
        action.execute(&mut state);
        assert_told(&state);
        for row in 0..state.lines.len() {
            let text: String = state.lines.get(edtui_jagged::index::RowIndex::new(row)).unwrap().iter().collect();
            assert!(!text.contains('\n'), "row {row} holds a line feed after {action:?}");
        }
    }
}

#[test]
fn a_long_walk_of_keys_never_leaves_the_highlighter_behind() {
    let mut numbers = Numbers(11);
    let mut input: Input<(), fn(String) -> ()> = Input::default();
    let mut state = EditorState::new(Lines::from("one two\n\n(three) \"four\""), "txt");
    let keys = [
        Key::Esc,
        Key::Enter,
        Key::Backspace,
        Key::Left,
        Key::Right,
        Key::Up,
        Key::Down,
        Key::Other,
    ];
    let characters: Vec<char> = "iaAIoOv/:nNhjklweb0_$gGxdciwurypt ()\"".chars().collect();
    for _ in 0..4000 {
        let key = if numbers.below(4) == 0 {
            keys[numbers.below(keys.len() as u64)]
        } else {
            Key::Char(characters[numbers.below(characters.len() as u64)])
        };
        if state.lines.len() > 40 {
            DeleteLine(30).execute(&mut state);
        }
        input.on_key(key, &mut state);
        assert_told(&state);
        assert!(state.cursor.row <= state.lines.len(), "after {key:?}");
        let length = state.lines.len_col(state.cursor.row).unwrap_or(0);
        assert!(state.cursor.col <= length, "after {key:?}");
    }
}
