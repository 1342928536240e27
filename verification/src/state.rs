//! The editor's state.
pub mod command;
pub mod mode;
pub mod search;
pub mod selection;
pub mod undo;
pub mod view;

use crate::clipboard::{Clipboard, ClipboardTrait};
use crate::highlight::Bridge;
use crate::index::Index2;
use crate::lines::{rows, Lines};
use crate::state::mode::EditorMode;
use crate::state::search::{SearchState, SearchView};
use crate::state::selection::Selection;
use crate::state::undo::{SnapshotView, Stack};
use vstd::prelude::*;

verus! {

/// What an editor state holds, as plain values.
pub struct StateView {
    pub lines: Seq<Seq<char>>,
    pub cursor: Index2,
    pub mode: EditorMode,
    pub selection: Option<Selection>,
    pub search: SearchView,
    pub undo: Seq<SnapshotView>,
    pub redo: Seq<SnapshotView>,
    /// The string that last passed through the clipboard, written or read.
    pub clip: Seq<char>,
    /// The strings that the clipboard has returned when it was asked, the
    /// last one last.
    pub answers: Seq<Seq<char>>,
    /// Whether the clipboard is the default one in memory, which returns the
    /// string that it was last handed.
    pub in_memory: bool,
    pub command: Seq<char>,
}

/// Represents the state of an editor.
pub struct EditorState {
    /// The text in the editor.
    pub lines: Lines,
    /// The current cursor position in the editor.
    pub cursor: Index2,
    /// The mode of the editor.
    pub mode: EditorMode,
    /// Represents the selection in the editor, if any.
    pub selection: Option<Selection>,
    /// State holding the search results in search mode.
    pub search: SearchState,
    /// Stack for undo operations.
    pub undo: Stack,
    /// Stack for redo operations.
    pub redo: Stack,
    /// Clipboard for yank and paste operations.
    pub clip: Clipboard,
    /// The syntax highlighter, told of every change to the text.
    pub highlighter: Bridge,
    /// The text typed so far in command mode.
    pub command: String,
}

impl View for EditorState {
    type V = StateView;

    open spec fn view(&self) -> StateView {
        StateView {
            lines: rows(self.lines),
            cursor: self.cursor,
            mode: self.mode,
            selection: self.selection,
            search: self.search@,
            undo: self.undo@,
            redo: self.redo@,
            clip: self.clip.text(),
            answers: self.clip.answers(),
            in_memory: self.clip.in_memory(),
            command: self.command@,
        }
    }
}

/// The state of an editor that was just opened on `text`.
pub open spec fn opened(text: Seq<Seq<char>>) -> StateView {
    StateView {
        lines: text,
        cursor: Index2 { row: 0, col: 0 },
        mode: EditorMode::Normal,
        selection: None,
        search: SearchView {
            start_cursor: Index2 { row: 0, col: 0 },
            pattern: Seq::empty(),
            matches: Seq::empty(),
            selected_index: None,
        },
        undo: Seq::empty(),
        redo: Seq::empty(),
        clip: Seq::empty(),
        answers: Seq::empty(),
        in_memory: true,
        command: Seq::empty(),
    }
}

impl EditorState {
    /// The highlighter has been told exactly the text of the buffer. Every
    /// function of the editor keeps this; it is lost only by writing to
    /// `lines` from outside.
    pub open spec fn wf(&self) -> bool {
        &&& self.highlighter.wf()
        &&& self.highlighter.told() == rows(self.lines)
    }

    /// Creates a new editor state on `lines`, highlighted by the rules for the
    /// file extension `ext`.
    #[must_use]
    pub fn new(lines: Lines, ext: &str) -> (state: EditorState)
        ensures
            state.wf(),
            state@ == opened(rows(lines)),
            state.highlighter.log() == seq![crate::highlight::Notice::Run(rows(lines))],
    {
        let mut highlighter = Bridge::new(ext, 4);
        highlighter.run(&lines);
        EditorState {
            lines,
            cursor: Index2 { row: 0, col: 0 },
            mode: EditorMode::Normal,
            selection: None,
            search: SearchState::default(),
            undo: Stack::new(),
            redo: Stack::new(),
            clip: Clipboard::default(),
            highlighter,
            command: String::new(),
        }
    }

    /// Set a custom clipboard. Nothing has passed through it yet, and
    /// nothing is known of what it will return.
    pub fn set_clipboard<C: ClipboardTrait + 'static>(&mut self, clipboard: C)
        ensures
            final(self)@ == (StateView {
                clip: Seq::empty(),
                answers: Seq::empty(),
                in_memory: false,
                ..old(self)@
            }),
            final(self).highlighter == old(self).highlighter,
            old(self).wf() ==> final(self).wf(),
    {
        self.clip = Clipboard::new(clipboard);
    }

    /// Tells the highlighter the whole text anew. This restores
    /// well-formedness after `lines` was written to from outside: such a write
    /// leaves the highlighter itself as it was, well-formed.
    pub fn reset_highlighter(&mut self)
        requires
            old(self).highlighter.wf(),
        ensures
            final(self).wf(),
            final(self)@ == old(self)@,
            final(self).highlighter.log() == old(self).highlighter.log().push(
                crate::highlight::Notice::Run(old(self)@.lines),
            ),
    {
        self.highlighter.run(&self.lines);
    }
}

impl Default for EditorState {
    /// Creates a default `EditorState` with no text.
    fn default() -> (state: EditorState)
        ensures
            state.wf(),
            state@ == opened(Seq::empty()),
    {
        EditorState::new(crate::lines::lines_empty(), "")
    }
}

} // verus!
