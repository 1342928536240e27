//! A modal, vim-inspired text editing core: a line buffer, a cursor, and a
//! closed catalog of editing actions driven by a mode-scoped keymap.
//!
//! Every function states its behaviour over mathematical models (`Seq<Seq<char>>`
//! for the text, plain positions for the cursor) and is proved against it.
pub mod actions;
pub mod bounds;
pub mod clipboard;
pub mod helper;
pub mod highlight;
pub mod index;
pub mod input;
pub mod lines;
pub mod notify;
pub mod state;
pub mod strings;

pub use index::Index2;
pub use input::Input;
pub use lines::Lines;
pub use state::mode::EditorMode;
pub use state::EditorState;
