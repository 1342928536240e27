//! Editor actions such as move, insert, delete
pub mod command;
pub mod convert;
pub mod cpaste;
pub mod delete;
pub mod insert;
pub mod motion;
pub mod search;
pub mod select;

use crate::helper::{enter, entered, steady};
use crate::highlight::Notice;
use crate::state::mode::EditorMode;
use crate::state::selection::Selection;
use crate::state::undo::{captured, redone, restore_notices, snapshot_of, undone};
use crate::state::{EditorState, StateView};
use vstd::prelude::*;
use vstd::std_specs::convert::IntoSpec;

pub use command::{
    AppendCharToCommand, RemoveCharFromCommand, StartCommand, StopCommand, TriggerCommand,
};
pub use cpaste::{CopySelection, Paste};
pub use delete::{DeleteChar, DeleteLine, DeleteSelection, RemoveChar};
pub use insert::{AppendNewline, InsertChar, InsertNewline, LineBreak, PushLine};
pub use motion::{
    MoveBackward, MoveDown, MoveForward, MoveToEnd, MoveToFirst, MoveToFirstLine, MoveToLastLine,
    MoveToStart, MoveUp, MoveWordBackward, MoveWordForwardEnd, MoveWordForwardStart,
};
pub use search::{
    AppendCharToSearch, FindNext, FindPrevious, RemoveCharFromSearch, StartSearch, StopSearch,
    TriggerSearch,
};
pub use select::SelectBetween;

verus! {

/// An action on the editor state.
///
/// `applied` says, over plain values, what state an action leaves, and
/// `execute` brings a well-formed state into that state and keeps it
/// well-formed. The one thing that an action asks of the outside is the text
/// of the clipboard: an action that does not ask is a function of the state,
/// and of one that does, `leads` says what `execute` makes of the string that
/// the clipboard returned.
pub trait Execute {
    /// The state that the action leaves when run on `s`.
    spec fn applied(&self, s: StateView) -> StateView;

    /// What the action tells the highlighter when run on `s`. An action that
    /// leaves the text alone tells it nothing.
    open spec fn notices(&self, s: StateView) -> Seq<Notice> {
        Seq::empty()
    }

    /// Whether running the action on `before` may leave `after`, the
    /// highlighter having been told `told` before and `told_after` by then.
    /// An action that does not read the clipboard leaves what `applied` says
    /// and tells what `notices` says.
    open spec fn leads(
        &self,
        before: StateView,
        after: StateView,
        told: Seq<Notice>,
        told_after: Seq<Notice>,
    ) -> bool {
        &&& after == self.applied(before)
        &&& told_after =~= told + self.notices(before)
    }

    /// Runs the action on `state`.
    fn execute(&self, state: &mut EditorState)
        requires
            old(state).wf(),
        ensures
            final(state).wf(),
            self.leads(
                old(state)@,
                final(state)@,
                old(state).highlighter.log(),
                final(state).highlighter.log(),
            ),
            steady(old(state)@) ==> steady(final(state)@),
    ;
}

/// Switches the editor mode.
#[derive(Clone, Copy, Debug, PartialEq, Eq)]
pub struct SwitchMode(pub EditorMode);

impl Execute for SwitchMode {
    /// The column is clamped by the limit of the mode that is entered; the
    /// row stays. Entering normal mode drops the selection; entering visual
    /// mode starts one at the cursor.
    open spec fn applied(&self, s: StateView) -> StateView {
        let c = entered(s, self.0);
        StateView {
            selection: match self.0 {
                EditorMode::Normal => None,
                EditorMode::Visual => Some(Selection { start: c.cursor, end: c.cursor }),
                _ => c.selection,
            },
            ..c
        }
    }

    fn execute(&self, state: &mut EditorState) {
        enter(state, self.0);
        match self.0 {
            EditorMode::Normal => {
                state.selection = None;
            },
            EditorMode::Visual => {
                state.selection = Some(Selection::new(state.cursor, state.cursor));
            },
            EditorMode::Insert | EditorMode::Search | EditorMode::Command => {},
        }
        assert(self.leads(
            old(state)@,
            state@,
            old(state).highlighter.log(),
            state.highlighter.log(),
        ));
    }
}

/// Switch to insert mode and move one character forward
#[derive(Clone, Copy, Debug, PartialEq, Eq)]
pub struct Append;

impl Execute for Append {
    open spec fn applied(&self, s: StateView) -> StateView {
        MoveForward(1).applied(SwitchMode(EditorMode::Insert).applied(s))
    }

    fn execute(&self, state: &mut EditorState) {
        SwitchMode(EditorMode::Insert).execute(state);
        MoveForward(1).execute(state);
    }
}

/// Restores the latest capture.
#[derive(Clone, Copy, Debug, PartialEq, Eq)]
pub struct Undo;

impl Execute for Undo {
    open spec fn applied(&self, s: StateView) -> StateView {
        undone(s)
    }

    /// The whole text that is restored, where there is a capture.
    open spec fn notices(&self, s: StateView) -> Seq<Notice> {
        restore_notices(s.undo)
    }

    fn execute(&self, state: &mut EditorState) {
        state.undo();
    }
}

/// Restores what the latest undo replaced.
#[derive(Clone, Copy, Debug, PartialEq, Eq)]
pub struct Redo;

impl Execute for Redo {
    open spec fn applied(&self, s: StateView) -> StateView {
        redone(s)
    }

    /// The whole text that is restored, where there is an undo to take back.
    open spec fn notices(&self, s: StateView) -> Seq<Notice> {
        restore_notices(s.redo)
    }

    fn execute(&self, state: &mut EditorState) {
        state.redo();
    }
}

/// An action of the host: the editor hands it back and does not run it.
#[derive(Clone, Debug, PartialEq, Eq)]
pub struct Custom<I>(pub I);

impl<I> Execute for Custom<I> {
    /// The state stays as it is.
    open spec fn applied(&self, s: StateView) -> StateView {
        s
    }

    open spec fn notices(&self, s: StateView) -> Seq<Notice> {
        Seq::empty()
    }

    fn execute(&self, state: &mut EditorState) {
    }
}

/// Executes multiple actions one after the other.
#[derive(Debug, PartialEq, Eq)]
pub struct Composed<I>(pub Vec<Action<I>>);

/// The closed set of actions.
#[derive(Debug, PartialEq, Eq)]
pub enum Action<I> {
    SwitchMode(SwitchMode),
    Append(Append),
    MoveForward(MoveForward),
    MoveBackward(MoveBackward),
    MoveUp(MoveUp),
    MoveDown(MoveDown),
    MoveWordForwardStart(MoveWordForwardStart),
    MoveWordForwardEnd(MoveWordForwardEnd),
    MoveWordBackward(MoveWordBackward),
    MoveToStart(MoveToStart),
    MoveToFirst(MoveToFirst),
    MoveToEnd(MoveToEnd),
    MoveToFirstLine(MoveToFirstLine),
    MoveToLastLine(MoveToLastLine),
    InsertChar(InsertChar),
    LineBreak(LineBreak),
    AppendNewline(AppendNewline),
    InsertNewline(InsertNewline),
    RemoveChar(RemoveChar),
    DeleteChar(DeleteChar),
    DeleteLine(DeleteLine),
    DeleteSelection(DeleteSelection),
    SelectBetween(SelectBetween),
    Undo(Undo),
    Redo(Redo),
    Paste(Paste),
    CopySelection(CopySelection),
    Composed(Composed<I>),
    StartSearch(StartSearch),
    StopSearch(StopSearch),
    TriggerSearch(TriggerSearch),
    FindNext(FindNext),
    FindPrevious(FindPrevious),
    AppendCharToSearch(AppendCharToSearch),
    RemoveCharFromSearch(RemoveCharFromSearch),
    Custom(Custom<I>),
}

/// The state that an action of the catalog leaves when run on `s`.
pub open spec fn action_applied<I>(action: Action<I>, s: StateView) -> StateView
    decreases action,
{
    match action {
        Action::SwitchMode(a) => a.applied(s),
        Action::Append(a) => a.applied(s),
        Action::MoveForward(a) => a.applied(s),
        Action::MoveBackward(a) => a.applied(s),
        Action::MoveUp(a) => a.applied(s),
        Action::MoveDown(a) => a.applied(s),
        Action::MoveWordForwardStart(a) => a.applied(s),
        Action::MoveWordForwardEnd(a) => a.applied(s),
        Action::MoveWordBackward(a) => a.applied(s),
        Action::MoveToStart(a) => a.applied(s),
        Action::MoveToFirst(a) => a.applied(s),
        Action::MoveToEnd(a) => a.applied(s),
        Action::MoveToFirstLine(a) => a.applied(s),
        Action::MoveToLastLine(a) => a.applied(s),
        Action::InsertChar(a) => a.applied(s),
        Action::LineBreak(a) => a.applied(s),
        Action::AppendNewline(a) => a.applied(s),
        Action::InsertNewline(a) => a.applied(s),
        Action::RemoveChar(a) => a.applied(s),
        Action::DeleteChar(a) => a.applied(s),
        Action::DeleteLine(a) => a.applied(s),
        Action::DeleteSelection(a) => a.applied(s),
        Action::SelectBetween(a) => a.applied(s),
        Action::Undo(a) => a.applied(s),
        Action::Redo(a) => a.applied(s),
        Action::Paste(a) => a.applied(s),
        Action::CopySelection(a) => a.applied(s),
        Action::Composed(a) => all_applied(a.0@, s),
        Action::StartSearch(a) => a.applied(s),
        Action::StopSearch(a) => a.applied(s),
        Action::TriggerSearch(a) => a.applied(s),
        Action::FindNext(a) => a.applied(s),
        Action::FindPrevious(a) => a.applied(s),
        Action::AppendCharToSearch(a) => a.applied(s),
        Action::RemoveCharFromSearch(a) => a.applied(s),
        Action::Custom(a) => s,
    }
}

/// What an action of the catalog tells the highlighter when run on `s`.
pub open spec fn action_notices<I>(action: Action<I>, s: StateView) -> Seq<Notice>
    decreases action,
{
    match action {
        Action::InsertChar(a) => a.notices(s),
        Action::LineBreak(a) => a.notices(s),
        Action::AppendNewline(a) => a.notices(s),
        Action::InsertNewline(a) => a.notices(s),
        Action::RemoveChar(a) => a.notices(s),
        Action::DeleteChar(a) => a.notices(s),
        Action::DeleteLine(a) => a.notices(s),
        Action::DeleteSelection(a) => a.notices(s),
        Action::Undo(a) => a.notices(s),
        Action::Redo(a) => a.notices(s),
        Action::Paste(a) => a.notices(s),
        Action::Composed(a) => all_notices(a.0@, s),
        _ => Seq::empty(),
    }
}

/// What a list of actions tells the highlighter when they run on `s` one
/// after the other.
pub open spec fn all_notices<I>(actions: Seq<Action<I>>, s: StateView) -> Seq<Notice>
    decreases actions,
{
    if actions.len() == 0 {
        Seq::empty()
    } else {
        all_notices(actions.drop_last(), s) + action_notices(
            actions.last(),
            all_applied(actions.drop_last(), s),
        )
    }
}

/// The state that a list of actions leaves when they run on `s` one after
/// the other, each on the state the one before has left.
pub open spec fn all_applied<I>(actions: Seq<Action<I>>, s: StateView) -> StateView
    decreases actions,
{
    if actions.len() == 0 {
        s
    } else {
        action_applied(actions.last(), all_applied(actions.drop_last(), s))
    }
}

/// Whether running an action of the catalog on `before` may leave `after`,
/// the highlighter having been told `told` before and `told_after` by then.
/// [`Paste`] works on the string that the clipboard returned, and a list may
/// hold it; every other action leaves what `action_applied` says.
pub open spec fn action_leads<I>(
    action: Action<I>,
    before: StateView,
    after: StateView,
    told: Seq<Notice>,
    told_after: Seq<Notice>,
) -> bool
    decreases action,
{
    match action {
        Action::Paste(a) => a.leads(before, after, told, told_after),
        Action::Composed(a) => all_lead(a.0@, before, after, told, told_after),
        _ => {
            &&& after == action_applied(action, before)
            &&& told_after =~= told + action_notices(action, before)
        },
    }
}

/// Whether running a list of actions on `before`, one after the other, may
/// leave `after`: each action leads from the state that the one before has
/// left to the next.
pub open spec fn all_lead<I>(
    actions: Seq<Action<I>>,
    before: StateView,
    after: StateView,
    told: Seq<Notice>,
    told_after: Seq<Notice>,
) -> bool
    decreases actions,
{
    if actions.len() == 0 {
        after == before && told_after =~= told
    } else {
        exists|between: StateView, told_between: Seq<Notice>|
            {
                &&& #[trigger] on_the_way(between, told_between)
                &&& all_lead(actions.drop_last(), before, between, told, told_between)
                &&& action_leads(actions.last(), between, after, told_between, told_after)
            }
    }
}

/// Marks a state, and what the highlighter was told by then, as one that a
/// list of actions passes between two of its actions. It holds of every
/// state: it is what the state on the way is found by.
pub open spec fn on_the_way(between: StateView, told_between: Seq<Notice>) -> bool {
    true
}

/// Whether an action of the catalog asks the clipboard for its text:
/// [`Paste`] does, and a list that holds an action that does.
pub open spec fn reads_clipboard<I>(action: Action<I>) -> bool
    decreases action,
{
    match action {
        Action::Paste(a) => true,
        Action::Composed(a) => any_reads_clipboard(a.0@),
        _ => false,
    }
}

/// Whether one action of a list asks the clipboard for its text.
pub open spec fn any_reads_clipboard<I>(actions: Seq<Action<I>>) -> bool
    decreases actions,
{
    actions.len() > 0 && (any_reads_clipboard(actions.drop_last()) || reads_clipboard(
        actions.last(),
    ))
}

/// An action that does not ask the clipboard is a function of the state: it
/// leads from a state to the one that `applied` gives, telling the
/// highlighter what `notices` gives, and to no other.
pub proof fn lemma_leads_exactly<I>(
    action: Action<I>,
    before: StateView,
    after: StateView,
    told: Seq<Notice>,
    told_after: Seq<Notice>,
)
    requires
        !reads_clipboard(action),
    ensures
        action.leads(before, after, told, told_after) <==> after == action.applied(before)
            && told_after == told + action.notices(before),
    decreases action,
{
    match action {
        Action::Composed(a) => lemma_all_lead_exactly(a.0@, before, after, told, told_after),
        _ => {},
    }
}

/// A list of actions of which none asks the clipboard is a function of the
/// state.
pub proof fn lemma_all_lead_exactly<I>(
    actions: Seq<Action<I>>,
    before: StateView,
    after: StateView,
    told: Seq<Notice>,
    told_after: Seq<Notice>,
)
    requires
        !any_reads_clipboard(actions),
    ensures
        all_lead(actions, before, after, told, told_after) <==> after == all_applied(
            actions,
            before,
        ) && told_after == told + all_notices(actions, before),
    decreases actions,
{
    if actions.len() == 0 {
        assert(told + Seq::<Notice>::empty() =~= told);
    } else {
        let rest = actions.drop_last();
        let between = all_applied(rest, before);
        let told_between = told + all_notices(rest, before);
        assert forall|b: StateView, t: Seq<Notice>| #[trigger]
            on_the_way(b, t) && all_lead(rest, before, b, told, t) implies b == between && t
            == told_between by {
            lemma_all_lead_exactly(rest, before, b, told, t);
        }
        lemma_all_lead_exactly(rest, before, between, told, told_between);
        lemma_leads_exactly(actions.last(), between, after, told_between, told_after);
        assert(told_between + action_notices(actions.last(), between) =~= told + all_notices(
            actions,
            before,
        ));
        if after == all_applied(actions, before) && told_after == told + all_notices(
            actions,
            before,
        ) {
            assert(on_the_way(between, told_between));
        }
    }
}

/// A list leads where its last action leads from where the others have led.
pub proof fn lemma_leads_on<I>(
    actions: Seq<Action<I>>,
    before: StateView,
    between: StateView,
    after: StateView,
    told: Seq<Notice>,
    told_between: Seq<Notice>,
    told_after: Seq<Notice>,
)
    requires
        actions.len() > 0,
        all_lead(actions.drop_last(), before, between, told, told_between),
        action_leads(actions.last(), between, after, told_between, told_after),
    ensures
        all_lead(actions, before, after, told, told_after),
{
    assert(on_the_way(between, told_between));
}

/// Runs an action of the catalog.
fn run<I>(action: &Action<I>, state: &mut EditorState)
    requires
        old(state).wf(),
    ensures
        final(state).wf(),
        action_leads(
            *action,
            old(state)@,
            final(state)@,
            old(state).highlighter.log(),
            final(state).highlighter.log(),
        ),
        steady(old(state)@) ==> steady(final(state)@),
    decreases action,
{
    match action {
        Action::SwitchMode(a) => a.execute(state),
        Action::Append(a) => a.execute(state),
        Action::MoveForward(a) => a.execute(state),
        Action::MoveBackward(a) => a.execute(state),
        Action::MoveUp(a) => a.execute(state),
        Action::MoveDown(a) => a.execute(state),
        Action::MoveWordForwardStart(a) => a.execute(state),
        Action::MoveWordForwardEnd(a) => a.execute(state),
        Action::MoveWordBackward(a) => a.execute(state),
        Action::MoveToStart(a) => a.execute(state),
        Action::MoveToFirst(a) => a.execute(state),
        Action::MoveToEnd(a) => a.execute(state),
        Action::MoveToFirstLine(a) => a.execute(state),
        Action::MoveToLastLine(a) => a.execute(state),
        Action::InsertChar(a) => a.execute(state),
        Action::LineBreak(a) => a.execute(state),
        Action::AppendNewline(a) => a.execute(state),
        Action::InsertNewline(a) => a.execute(state),
        Action::RemoveChar(a) => a.execute(state),
        Action::DeleteChar(a) => a.execute(state),
        Action::DeleteLine(a) => a.execute(state),
        Action::DeleteSelection(a) => a.execute(state),
        Action::SelectBetween(a) => a.execute(state),
        Action::Undo(a) => a.execute(state),
        Action::Redo(a) => a.execute(state),
        Action::Paste(a) => a.execute(state),
        Action::CopySelection(a) => a.execute(state),
        Action::Composed(a) => {
            let mut i: usize = 0;
            assert(a.0@.take(0) =~= Seq::<Action<I>>::empty());
            while i < a.0.len()
                invariant
                    i <= a.0.len(),
                    *action == Action::Composed(*a),
                    state.wf(),
                    all_lead(
                        a.0@.take(i as int),
                        old(state)@,
                        state@,
                        old(state).highlighter.log(),
                        state.highlighter.log(),
                    ),
                    steady(old(state)@) ==> steady(state@),
                decreases a.0.len() - i,
            {
                let ghost before = state@;
                let ghost told = state.highlighter.log();
                proof {
                    vstd::std_specs::vec::axiom_vec_index_decreases(a.0, i as int);
                    assert(action->Composed_0 == *a);
                    assert(decreases_to!(*action => action->Composed_0));
                }
                run(&a.0[i], state);
                i += 1;
                assert(a.0@.take(i as int).drop_last() =~= a.0@.take(i - 1));
                assert(a.0@.take(i as int).last() == a.0@[i - 1]);
                assert(all_lead(
                    a.0@.take(i as int).drop_last(),
                    old(state)@,
                    before,
                    old(state).highlighter.log(),
                    told,
                ));
                proof {
                    lemma_leads_on(
                        a.0@.take(i as int),
                        old(state)@,
                        before,
                        state@,
                        old(state).highlighter.log(),
                        told,
                        state.highlighter.log(),
                    );
                }
            }
            assert(a.0@.take(a.0.len() as int) =~= a.0@);
        },
        Action::StartSearch(a) => a.execute(state),
        Action::StopSearch(a) => a.execute(state),
        Action::TriggerSearch(a) => a.execute(state),
        Action::FindNext(a) => a.execute(state),
        Action::FindPrevious(a) => a.execute(state),
        Action::AppendCharToSearch(a) => a.execute(state),
        Action::RemoveCharFromSearch(a) => a.execute(state),
        Action::Custom(a) => {},
    }
}

impl<I> Execute for Action<I> {
    open spec fn applied(&self, s: StateView) -> StateView {
        action_applied(*self, s)
    }

    open spec fn notices(&self, s: StateView) -> Seq<Notice> {
        action_notices(*self, s)
    }

    open spec fn leads(
        &self,
        before: StateView,
        after: StateView,
        told: Seq<Notice>,
        told_after: Seq<Notice>,
    ) -> bool {
        action_leads(*self, before, after, told, told_after)
    }

    fn execute(&self, state: &mut EditorState) {
        run(self, state);
    }
}

impl<I> Composed<I> {
    /// A list of one action.
    #[must_use]
    pub fn new<A: Into<Action<I>>>(action: A) -> (composed: Composed<I>)
        ensures
            composed.0@.len() == 1,
            <A as IntoSpec<Action<I>>>::obeys_into_spec() ==> composed.0@ == seq![
                action.into_spec(),
            ],
    {
        let mut actions = Vec::new();
        actions.push(action.into());
        Composed(actions)
    }

    /// The list with one more action at its end.
    #[must_use]
    pub fn chain<A: Into<Action<I>>>(self, action: A) -> (composed: Composed<I>)
        ensures
            composed.0@.len() == self.0@.len() + 1,
            composed.0@.drop_last() == self.0@,
            <A as IntoSpec<Action<I>>>::obeys_into_spec() ==> composed.0@ == self.0@.push(
                action.into_spec(),
            ),
    {
        let mut actions = self.0;
        actions.push(action.into());
        assert(actions@.drop_last() =~= self.0@);
        Composed(actions)
    }
}

impl<I> Execute for Composed<I> {
    /// The actions run in the order of the list, each on the state the one
    /// before has left. The list itself captures nothing: each action that
    /// changes the text captures for itself.
    open spec fn applied(&self, s: StateView) -> StateView {
        all_applied(self.0@, s)
    }

    open spec fn notices(&self, s: StateView) -> Seq<Notice> {
        all_notices(self.0@, s)
    }

    open spec fn leads(
        &self,
        before: StateView,
        after: StateView,
        told: Seq<Notice>,
        told_after: Seq<Notice>,
    ) -> bool {
        all_lead(self.0@, before, after, told, told_after)
    }

    fn execute(&self, state: &mut EditorState) {
        let mut i: usize = 0;
        assert(self.0@.take(0) =~= Seq::<Action<I>>::empty());
        while i < self.0.len()
            invariant
                i <= self.0.len(),
                state.wf(),
                all_lead(
                    self.0@.take(i as int),
                    old(state)@,
                    state@,
                    old(state).highlighter.log(),
                    state.highlighter.log(),
                ),
                steady(old(state)@) ==> steady(state@),
            decreases self.0.len() - i,
        {
            let ghost before = state@;
            let ghost told = state.highlighter.log();
            run(&self.0[i], state);
            i += 1;
            assert(self.0@.take(i as int).drop_last() =~= self.0@.take(i - 1));
            assert(self.0@.take(i as int).last() == self.0@[i - 1]);
            assert(all_lead(
                self.0@.take(i as int).drop_last(),
                old(state)@,
                before,
                old(state).highlighter.log(),
                told,
            ));
            proof {
                lemma_leads_on(
                    self.0@.take(i as int),
                    old(state)@,
                    before,
                    state@,
                    old(state).highlighter.log(),
                    told,
                    state.highlighter.log(),
                );
            }
        }
        assert(self.0@.take(self.0.len() as int) =~= self.0@);
    }
}

/// Whether the action captures the state before it changes the text.
pub open spec fn captures<I>(action: Action<I>) -> bool {
    ||| action is InsertChar
    ||| action is LineBreak
    ||| action is AppendNewline
    ||| action is InsertNewline
    ||| action is RemoveChar
    ||| action is DeleteChar
    ||| action is DeleteLine
    ||| action is DeleteSelection
    ||| action is Paste
}

/// An action that captures leaves the capture on top of the undo stack and
/// the redo stack empty, whatever else it does.
pub proof fn lemma_capture_on_top<I>(action: Action<I>, s: StateView)
    requires
        captures(action),
    ensures
        action.applied(s).undo == captured(s).undo,
        action.applied(s).redo == captured(s).redo,
{
}

/// Undo is a left inverse of every action that captures: after the action
/// and an undo, the text, the cursor and the mode are what they were before
/// the action, and so is the undo stack.
pub proof fn lemma_undo_inverts<I>(action: Action<I>, s: StateView)
    requires
        captures(action),
    ensures
        snapshot_of(undone(action.applied(s))) == snapshot_of(s),
        undone(action.applied(s)).undo == s.undo,
{
    lemma_capture_on_top(action, s);
    crate::state::undo::lemma_undo_restores_capture(s, action.applied(s));
}

/// Redo after undo restores the state that an action has left: its text, its
/// cursor, its mode, and both stacks.
pub proof fn lemma_redo_inverts_undo<I>(action: Action<I>, s: StateView)
    requires
        captures(action),
    ensures
        snapshot_of(redone(undone(action.applied(s)))) == snapshot_of(action.applied(s)),
        redone(undone(action.applied(s))).undo == action.applied(s).undo,
        redone(undone(action.applied(s))).redo == action.applied(s).redo,
{
    lemma_capture_on_top(action, s);
    crate::state::undo::lemma_redo_restores_undone(action.applied(s));
}

/// The mode that an action of the catalog leaves the editor in.
///
/// The modes change by actions alone: a change of mode names the mode it
/// enters; appending and opening a row enter insert mode; starting a search
/// enters search mode; selecting between delimiters enters visual mode where
/// it finds something to select; copying, deleting and pasting a selection
/// and the actions that end a search return to normal mode; undo and redo
/// restore the mode of the snapshot. Every other action keeps the mode.
pub open spec fn mode_after<I>(action: Action<I>, s: StateView) -> EditorMode
    decreases action,
{
    match action {
        Action::SwitchMode(a) => a.0,
        Action::Append(a) => EditorMode::Insert,
        Action::AppendNewline(a) => EditorMode::Insert,
        Action::InsertNewline(a) => EditorMode::Insert,
        Action::DeleteSelection(a) => EditorMode::Normal,
        Action::Paste(a) => EditorMode::Normal,
        Action::CopySelection(a) => if s.selection is Some {
            EditorMode::Normal
        } else {
            s.mode
        },
        Action::SelectBetween(a) => if select::has_between(s.lines, a.0@, s.cursor) {
            EditorMode::Visual
        } else {
            s.mode
        },
        Action::Undo(a) => if s.undo.len() > 0 {
            s.undo.last().mode
        } else {
            s.mode
        },
        Action::Redo(a) => if s.redo.len() > 0 {
            s.redo.last().mode
        } else {
            s.mode
        },
        Action::Composed(a) => all_applied(a.0@, s).mode,
        Action::StartSearch(a) => EditorMode::Search,
        Action::StopSearch(a) => EditorMode::Normal,
        Action::TriggerSearch(a) => EditorMode::Normal,
        Action::FindNext(a) => EditorMode::Normal,
        Action::FindPrevious(a) => EditorMode::Normal,
        _ => s.mode,
    }
}

/// An action leaves the editor in the mode that [`mode_after`] names.
#[verifier::spinoff_prover]
#[verifier::rlimit(80)]
pub proof fn lemma_mode_after<I>(action: Action<I>, s: StateView)
    ensures
        action.applied(s).mode == mode_after(action, s),
{
    match action {
        Action::InsertChar(a) => {
            assert(a.applied(s).mode == s.mode);
        },
        Action::DeleteChar(a) => {
            assert(a.applied(s).mode == s.mode);
        },
        Action::RemoveChar(a) => {
            assert(a.applied(s).mode == s.mode);
        },
        Action::LineBreak(a) => {
            assert(a.applied(s).mode == s.mode);
        },
        Action::DeleteLine(a) => {
            assert(a.applied(s).mode == s.mode);
        },
        Action::Paste(a) => {
            assert(a.applied(s).mode == EditorMode::Normal);
        },
        Action::DeleteSelection(a) => {
            assert(a.applied(s).mode == EditorMode::Normal);
        },
        Action::AppendCharToSearch(a) => {
            assert(a.applied(s).mode == s.mode);
        },
        Action::RemoveCharFromSearch(a) => {
            assert(a.applied(s).mode == s.mode);
        },
        _ => {},
    }
}

/// Whether `copy` is a clone of `action`: the same action, with a payload of
/// the host that is a clone of the payload, and with a list of actions that
/// are clones of the actions, one by one.
pub open spec fn is_clone<I: Clone>(action: Action<I>, copy: Action<I>) -> bool
    decreases action,
{
    match (action, copy) {
        (Action::SelectBetween(a), Action::SelectBetween(b)) => a.0@ == b.0@,
        (Action::Composed(a), Action::Composed(b)) => are_clones(a.0@, b.0@),
        (Action::Custom(a), Action::Custom(b)) => cloned(a.0, b.0),
        _ => action == copy,
    }
}

/// Whether the actions of `copies` are clones of the actions of `actions`,
/// one by one.
pub open spec fn are_clones<I: Clone>(actions: Seq<Action<I>>, copies: Seq<Action<I>>) -> bool
    decreases actions,
{
    if actions.len() == 0 {
        copies.len() == 0
    } else {
        &&& copies.len() == actions.len()
        &&& are_clones(actions.drop_last(), copies.drop_last())
        &&& is_clone(actions.last(), copies.last())
    }
}

/// A clone of an action does to every state what the action does, and tells
/// the highlighter the same.
#[verifier::spinoff_prover]
#[verifier::rlimit(80)]
pub proof fn lemma_clone_acts_alike<I: Clone>(action: Action<I>, copy: Action<I>, s: StateView)
    requires
        is_clone(action, copy),
    ensures
        copy.applied(s) == action.applied(s),
        copy.notices(s) == action.notices(s),
    decreases action,
{
    match (action, copy) {
        (Action::Composed(a), Action::Composed(b)) => lemma_clones_act_alike(a.0@, b.0@, s),
        _ => {},
    }
}

/// Clones of the actions of a list do to every state what the list does.
pub proof fn lemma_clones_act_alike<I: Clone>(
    actions: Seq<Action<I>>,
    copies: Seq<Action<I>>,
    s: StateView,
)
    requires
        are_clones(actions, copies),
    ensures
        all_applied(copies, s) == all_applied(actions, s),
        all_notices(copies, s) == all_notices(actions, s),
    decreases actions,
{
    if actions.len() > 0 {
        lemma_clones_act_alike(actions.drop_last(), copies.drop_last(), s);
        lemma_clone_acts_alike(
            actions.last(),
            copies.last(),
            all_applied(actions.drop_last(), s),
        );
    }
}

/// Clones an action of the catalog.
fn duplicate<I: Clone>(action: &Action<I>) -> (copy: Action<I>)
    ensures
        is_clone(*action, copy),
    decreases action,
{
    match action {
        Action::SwitchMode(a) => Action::SwitchMode(*a),
        Action::Append(a) => Action::Append(*a),
        Action::MoveForward(a) => Action::MoveForward(*a),
        Action::MoveBackward(a) => Action::MoveBackward(*a),
        Action::MoveUp(a) => Action::MoveUp(*a),
        Action::MoveDown(a) => Action::MoveDown(*a),
        Action::MoveWordForwardStart(a) => Action::MoveWordForwardStart(*a),
        Action::MoveWordForwardEnd(a) => Action::MoveWordForwardEnd(*a),
        Action::MoveWordBackward(a) => Action::MoveWordBackward(*a),
        Action::MoveToStart(a) => Action::MoveToStart(*a),
        Action::MoveToFirst(a) => Action::MoveToFirst(*a),
        Action::MoveToEnd(a) => Action::MoveToEnd(*a),
        Action::MoveToFirstLine(a) => Action::MoveToFirstLine(*a),
        Action::MoveToLastLine(a) => Action::MoveToLastLine(*a),
        Action::InsertChar(a) => Action::InsertChar(*a),
        Action::LineBreak(a) => Action::LineBreak(*a),
        Action::AppendNewline(a) => Action::AppendNewline(*a),
        Action::InsertNewline(a) => Action::InsertNewline(*a),
        Action::RemoveChar(a) => Action::RemoveChar(*a),
        Action::DeleteChar(a) => Action::DeleteChar(*a),
        Action::DeleteLine(a) => Action::DeleteLine(*a),
        Action::DeleteSelection(a) => Action::DeleteSelection(*a),
        Action::SelectBetween(a) => {
            let mut pairs: Vec<(char, char)> = Vec::new();
            let mut i: usize = 0;
            while i < a.0.len()
                invariant
                    i <= a.0.len(),
                    pairs@ == a.0@.take(i as int),
                decreases a.0.len() - i,
            {
                pairs.push(a.0[i]);
                i += 1;
                assert(a.0@.take(i as int) =~= a.0@.take(i - 1).push(a.0@[i - 1]));
            }
            assert(a.0@.take(a.0.len() as int) =~= a.0@);
            Action::SelectBetween(SelectBetween(pairs))
        },
        Action::Undo(a) => Action::Undo(*a),
        Action::Redo(a) => Action::Redo(*a),
        Action::Paste(a) => Action::Paste(*a),
        Action::CopySelection(a) => Action::CopySelection(*a),
        Action::Composed(a) => {
            let mut copies: Vec<Action<I>> = Vec::new();
            let mut i: usize = 0;
            assert(a.0@.take(0) =~= Seq::<Action<I>>::empty());
            while i < a.0.len()
                invariant
                    i <= a.0.len(),
                    *action == Action::Composed(*a),
                    are_clones(a.0@.take(i as int), copies@),
                decreases a.0.len() - i,
            {
                proof {
                    vstd::std_specs::vec::axiom_vec_index_decreases(a.0, i as int);
                    assert(action->Composed_0 == *a);
                    assert(decreases_to!(*action => action->Composed_0));
                }
                let ghost before = copies@;
                copies.push(duplicate(&a.0[i]));
                i += 1;
                assert(a.0@.take(i as int).drop_last() =~= a.0@.take(i - 1));
                assert(copies@.drop_last() =~= before);
            }
            assert(a.0@.take(a.0.len() as int) =~= a.0@);
            Action::Composed(Composed(copies))
        },
        Action::StartSearch(a) => Action::StartSearch(*a),
        Action::StopSearch(a) => Action::StopSearch(*a),
        Action::TriggerSearch(a) => Action::TriggerSearch(*a),
        Action::FindNext(a) => Action::FindNext(*a),
        Action::FindPrevious(a) => Action::FindPrevious(*a),
        Action::AppendCharToSearch(a) => Action::AppendCharToSearch(*a),
        Action::RemoveCharFromSearch(a) => Action::RemoveCharFromSearch(*a),
        Action::Custom(a) => Action::Custom(Custom(a.0.clone())),
    }
}

impl<I: Clone> Clone for Action<I> {
    /// A clone does what the action does: see [`lemma_clone_acts_alike`].
    fn clone(&self) -> (copy: Action<I>)
        ensures
            is_clone(*self, copy),
    {
        duplicate(self)
    }
}

impl<I: Clone> Clone for Composed<I> {
    /// A clone runs clones of the actions of the list: see
    /// [`lemma_clones_act_alike`].
    fn clone(&self) -> (copy: Composed<I>)
        ensures
            are_clones(self.0@, copy.0@),
    {
        let mut copies: Vec<Action<I>> = Vec::new();
        let mut i: usize = 0;
        assert(self.0@.take(0) =~= Seq::<Action<I>>::empty());
        while i < self.0.len()
            invariant
                i <= self.0.len(),
                are_clones(self.0@.take(i as int), copies@),
            decreases self.0.len() - i,
        {
            let ghost before = copies@;
            copies.push(duplicate(&self.0[i]));
            i += 1;
            assert(self.0@.take(i as int).drop_last() =~= self.0@.take(i - 1));
            assert(copies@.drop_last() =~= before);
        }
        assert(self.0@.take(self.0.len() as int) =~= self.0@);
        Composed(copies)
    }
}

} // verus!
