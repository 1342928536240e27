//! Actions of the command mode, on the command line of the state.
use crate::actions::Execute;
use crate::helper::{enter, entered};
use crate::state::mode::EditorMode;
use crate::state::{EditorState, StateView};
use vstd::prelude::*;

verus! {

/// Appends a character to the command line.
#[derive(Clone, Copy, Debug, PartialEq, Eq)]
pub struct AppendCharToCommand(pub char);

impl Execute for AppendCharToCommand {
    open spec fn applied(&self, s: StateView) -> StateView {
        StateView { command: s.command.push(self.0), ..s }
    }

    fn execute(&self, state: &mut EditorState) {
        state.command.push(self.0);
    }
}

/// Removes the last character of the command line, if there is one.
#[derive(Clone, Copy, Debug, PartialEq, Eq)]
pub struct RemoveCharFromCommand;

impl Execute for RemoveCharFromCommand {
    open spec fn applied(&self, s: StateView) -> StateView {
        StateView {
            command: if s.command.len() > 0 {
                s.command.drop_last()
            } else {
                s.command
            },
            ..s
        }
    }

    fn execute(&self, state: &mut EditorState) {
        let _ = state.command.pop();
    }
}

/// Leaves command mode when the command line is handed over. What the command
/// line says is looked up by the dispatcher, which holds the commands.
#[derive(Clone, Copy, Debug, PartialEq, Eq)]
pub struct TriggerCommand;

impl Execute for TriggerCommand {
    /// The editor enters normal mode with an empty command line, the column
    /// clamped by the limit of normal mode.
    open spec fn applied(&self, s: StateView) -> StateView {
        entered(StateView { command: Seq::empty(), ..s }, EditorMode::Normal)
    }

    fn execute(&self, state: &mut EditorState) {
        state.command.clear();
        enter(state, EditorMode::Normal);
    }
}

/// Enters command mode with an empty command line.
#[derive(Clone, Copy, Debug, PartialEq, Eq)]
pub struct StartCommand;

impl Execute for StartCommand {
    open spec fn applied(&self, s: StateView) -> StateView {
        StateView { mode: EditorMode::Command, command: Seq::empty(), ..s }
    }

    fn execute(&self, state: &mut EditorState) {
        state.mode = EditorMode::Command;
        state.command.clear();
    }
}

/// Leaves command mode and drops the command line.
#[derive(Clone, Copy, Debug, PartialEq, Eq)]
pub struct StopCommand;

impl Execute for StopCommand {
    /// The editor enters normal mode with an empty command line, the column
    /// clamped by the limit of normal mode.
    open spec fn applied(&self, s: StateView) -> StateView {
        entered(StateView { command: Seq::empty(), ..s }, EditorMode::Normal)
    }

    fn execute(&self, state: &mut EditorState) {
        state.command.clear();
        enter(state, EditorMode::Normal);
    }
}

} // verus!
