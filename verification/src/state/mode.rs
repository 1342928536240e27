//! The editor's modes.
use vstd::prelude::*;
use vstd::string::StringExecFns;

verus! {

/// The editor mode.
#[derive(Debug, Clone, Copy, PartialEq, Eq, Hash, Structural)]
pub enum EditorMode {
    Normal,
    Insert,
    Visual,
    Search,
    Command,
}

impl EditorMode {
    /// The name of the mode as a sequence of characters.
    pub open spec fn spec_name(self) -> Seq<char> {
        match self {
            EditorMode::Normal => "Normal"@,
            EditorMode::Insert => "Insert"@,
            EditorMode::Visual => "Visual"@,
            EditorMode::Search => "Search"@,
            EditorMode::Command => "Command"@,
        }
    }

    /// Whether the cursor in this mode sits on a character, not between two:
    /// in these modes the last column of a row is its last character.
    pub open spec fn on_char(self) -> bool {
        self == EditorMode::Normal || self == EditorMode::Visual
    }

    /// Returns the name of the [`EditorMode`] as a string.
    #[must_use]
    pub fn name(&self) -> (name: String)
        ensures
            name@ == self.spec_name(),
    {
        match self {
            EditorMode::Normal => String::from_str("Normal"),
            EditorMode::Insert => String::from_str("Insert"),
            EditorMode::Visual => String::from_str("Visual"),
            EditorMode::Search => String::from_str("Search"),
            EditorMode::Command => String::from_str("Command"),
        }
    }
}

impl Default for EditorMode {
    fn default() -> (mode: EditorMode)
        ensures
            mode == EditorMode::Normal,
    {
        EditorMode::Normal
    }
}

} // verus!
