//! Undo and redo: stacks of snapshots of the text, the cursor and the mode.
//!
//! Both stacks are unbounded: every capture is kept until it is undone or a
//! new capture clears the redo stack.
use crate::helper::steady;
use crate::highlight::Notice;
use crate::index::Index2;
use crate::lines::{lines_clone, rows, Lines};
use crate::state::mode::EditorMode;
use crate::state::{EditorState, StateView};
use vstd::prelude::*;

verus! {

/// What a snapshot holds, as plain values.
pub struct SnapshotView {
    pub lines: Seq<Seq<char>>,
    pub cursor: Index2,
    pub mode: EditorMode,
}

/// The text, the cursor and the mode at one moment.
pub struct Snapshot {
    pub lines: Lines,
    pub cursor: Index2,
    pub mode: EditorMode,
}

impl View for Snapshot {
    type V = SnapshotView;

    open spec fn view(&self) -> SnapshotView {
        SnapshotView { lines: rows(self.lines), cursor: self.cursor, mode: self.mode }
    }
}

/// A stack of snapshots, the latest on top.
pub struct Stack {
    pub snapshots: Vec<Snapshot>,
}

impl View for Stack {
    type V = Seq<SnapshotView>;

    open spec fn view(&self) -> Seq<SnapshotView> {
        Seq::new(self.snapshots@.len(), |i: int| self.snapshots@[i]@)
    }
}

impl Stack {
    /// An empty stack.
    pub fn new() -> (stack: Stack)
        ensures
            stack@ == Seq::<SnapshotView>::empty(),
    {
        let stack = Stack { snapshots: Vec::new() };
        assert(stack@ =~= Seq::<SnapshotView>::empty());
        stack
    }

    /// The number of snapshots held.
    pub fn len(&self) -> (n: usize)
        ensures
            n == self@.len(),
    {
        self.snapshots.len()
    }

    /// Puts a snapshot on top.
    pub fn push(&mut self, snapshot: Snapshot)
        ensures
            final(self)@ == old(self)@.push(snapshot@),
    {
        self.snapshots.push(snapshot);
        assert(self@ =~= old(self)@.push(snapshot@));
    }

    /// Takes the top snapshot off, if there is one.
    pub fn pop(&mut self) -> (top: Option<Snapshot>)
        ensures
            old(self)@.len() == 0 ==> top is None && final(self)@ == old(self)@,
            old(self)@.len() > 0 ==> top is Some && top->0@ == old(self)@.last() && final(self)@
                == old(self)@.drop_last(),
    {
        let top = self.snapshots.pop();
        assert(old(self)@.len() > 0 ==> self@ =~= old(self)@.drop_last());
        assert(old(self)@.len() == 0 ==> self@ =~= old(self)@);
        top
    }

    /// Drops every snapshot.
    pub fn clear(&mut self)
        ensures
            final(self)@ == Seq::<SnapshotView>::empty(),
    {
        self.snapshots = Vec::new();
        assert(self@ =~= Seq::<SnapshotView>::empty());
    }
}

/// The snapshot of a state: its text, cursor and mode.
pub open spec fn snapshot_of(s: StateView) -> SnapshotView {
    SnapshotView { lines: s.lines, cursor: s.cursor, mode: s.mode }
}

/// The state after a capture: its snapshot on top of the undo stack, and an
/// empty redo stack.
pub open spec fn captured(s: StateView) -> StateView {
    StateView { undo: s.undo.push(snapshot_of(s)), redo: Seq::empty(), ..s }
}

/// The state after an undo: the top of the undo stack is restored and the
/// state it replaces goes on the redo stack. With an empty undo stack nothing
/// changes.
pub open spec fn undone(s: StateView) -> StateView {
    if s.undo.len() == 0 {
        s
    } else {
        StateView {
            lines: s.undo.last().lines,
            cursor: s.undo.last().cursor,
            mode: s.undo.last().mode,
            undo: s.undo.drop_last(),
            redo: s.redo.push(snapshot_of(s)),
            ..s
        }
    }
}

/// The state after a redo: the top of the redo stack is restored and the state
/// it replaces goes on the undo stack. With an empty redo stack nothing changes.
pub open spec fn redone(s: StateView) -> StateView {
    if s.redo.len() == 0 {
        s
    } else {
        StateView {
            lines: s.redo.last().lines,
            cursor: s.redo.last().cursor,
            mode: s.redo.last().mode,
            undo: s.undo.push(snapshot_of(s)),
            redo: s.redo.drop_last(),
            ..s
        }
    }
}

/// What the highlighter is told when a snapshot is restored from a stack:
/// the whole text of the snapshot, and nothing where the stack is empty.
pub open spec fn restore_notices(stack: Seq<SnapshotView>) -> Seq<Notice> {
    if stack.len() == 0 {
        Seq::empty()
    } else {
        seq![Notice::Run(stack.last().lines)]
    }
}

impl EditorState {
    /// The snapshot of the state as it is.
    fn snapshot(&self) -> (snapshot: Snapshot)
        ensures
            snapshot@ == snapshot_of(self@),
    {
        Snapshot { lines: lines_clone(&self.lines), cursor: self.cursor, mode: self.mode }
    }

    /// Saves the text, the cursor and the mode on the undo stack, and clears
    /// the redo stack. Every action that changes the text captures first.
    pub fn capture(&mut self)
        requires
            old(self).wf(),
        ensures
            final(self).wf(),
            final(self)@ == captured(old(self)@),
            final(self).highlighter == old(self).highlighter,
            steady(old(self)@) ==> steady(final(self)@),
    {
        let snapshot = self.snapshot();
        self.undo.push(snapshot);
        self.redo.clear();
    }

    /// Restores the latest capture; the state it replaces can be brought back
    /// by [`EditorState::redo`]. Without a capture nothing changes.
    pub fn undo(&mut self)
        requires
            old(self).wf(),
        ensures
            final(self).wf(),
            final(self)@ == undone(old(self)@),
            final(self).highlighter.log() =~= old(self).highlighter.log() + restore_notices(
                old(self)@.undo,
            ),
            steady(old(self)@) ==> steady(final(self)@),
    {
        let current = self.snapshot();
        match self.undo.pop() {
            Some(previous) => {
                self.redo.push(current);
                self.lines = previous.lines;
                self.cursor = previous.cursor;
                self.mode = previous.mode;
                self.highlighter.run(&self.lines);
            },
            None => {},
        }
    }

    /// Restores what the latest undo replaced. Without an undo to take back,
    /// nothing changes.
    pub fn redo(&mut self)
        requires
            old(self).wf(),
        ensures
            final(self).wf(),
            final(self)@ == redone(old(self)@),
            final(self).highlighter.log() =~= old(self).highlighter.log() + restore_notices(
                old(self)@.redo,
            ),
            steady(old(self)@) ==> steady(final(self)@),
    {
        let current = self.snapshot();
        match self.redo.pop() {
            Some(next) => {
                self.undo.push(current);
                self.lines = next.lines;
                self.cursor = next.cursor;
                self.mode = next.mode;
                self.highlighter.run(&self.lines);
            },
            None => {},
        }
    }
}

/// Undo takes back a capture: whatever an action does to the text, the cursor
/// and the mode after it has captured, an undo brings all three back to what
/// they were at the capture, provided the action leaves the undo stack alone.
pub proof fn lemma_undo_restores_capture(before: StateView, after: StateView)
    requires
        after.undo == captured(before).undo,
    ensures
        snapshot_of(undone(after)) == snapshot_of(before),
        undone(after).undo == before.undo,
{
    assert(before.undo.push(snapshot_of(before)).drop_last() =~= before.undo);
}

/// Redo takes back an undo: text, cursor and mode are again what they were
/// before the undo, and so is the undo stack.
pub proof fn lemma_redo_restores_undone(s: StateView)
    requires
        s.undo.len() > 0,
    ensures
        snapshot_of(redone(undone(s))) == snapshot_of(s),
        redone(undone(s)).undo == s.undo,
        redone(undone(s)).redo == s.redo,
{
    let u = undone(s);
    assert(u.redo.last() == snapshot_of(s));
    assert(u.redo.drop_last() =~= s.redo);
    assert(s.undo.drop_last().push(s.undo.last()) =~= s.undo);
}

} // verus!
