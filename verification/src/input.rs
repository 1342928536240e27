//! Handles key input events
pub mod key;
pub mod register;

use crate::actions::{
    Action, Append, AppendCharToSearch, AppendNewline, Composed, CopySelection, Custom, DeleteChar,
    DeleteLine, DeleteSelection, Execute, FindNext, FindPrevious, InsertChar, InsertNewline,
    LineBreak, MoveBackward, MoveDown, MoveForward, MoveToEnd, MoveToFirst, MoveToFirstLine,
    MoveToLastLine, MoveToStart, MoveUp, MoveWordBackward, MoveWordForwardEnd,
    MoveWordForwardStart, Paste, Redo, RemoveChar, RemoveCharFromSearch, SelectBetween,
    StartSearch, StopSearch, SwitchMode, TriggerSearch, Undo,
};
use crate::bounds::{
    admits_on_the_way, lemma_sound_after, lemma_sound_after_taken, lemma_sound_where_led, roomy,
    sound,
};
use crate::helper::{enter, entered, steady};
use crate::highlight::Notice;
use crate::input::key::Key;
use crate::input::register::{kept, resolve, Register, RegisterKey, Resolution};
use crate::state::command::{head_of, is_first_called, split_command, tail_of, CommandState};
use crate::state::mode::EditorMode;
use crate::state::{EditorState, StateView};
use vstd::prelude::*;

verus! {

/// The bindings of a mode and key sequences to actions.
pub type Bindings<I> = Map<(EditorMode, Seq<Key>), Action<I>>;

/// The bindings with one more, for a single key.
pub open spec fn bound<I>(m: Bindings<I>, mode: EditorMode, key: Key, action: Action<I>) -> Bindings<
    I,
> {
    m.insert((mode, seq![key]), action)
}

/// Binds a single key.
fn bind<I>(r: &mut Register<I>, mode: EditorMode, key: Key, action: Action<I>)
    requires
        old(r).wf(),
    ensures
        final(r).wf(),
        final(r).lookup@ == old(r).lookup@,
        final(r).bindings() == bound(old(r).bindings(), mode, key, action),
{
    let mut keys = Vec::new();
    keys.push(key);
    assert(keys@ =~= seq![key]);
    r.bind(RegisterKey::new(keys, mode), action);
}

/// The bindings that change the mode and drive the search.
pub open spec fn with_modes<I>(m: Bindings<I>) -> Bindings<I> {
    let m = bound(m, EditorMode::Insert, Key::Esc, Action::SwitchMode(SwitchMode(EditorMode::Normal)));
    let m = bound(m, EditorMode::Visual, Key::Esc, Action::SwitchMode(SwitchMode(EditorMode::Normal)));
    let m = bound(
        m,
        EditorMode::Normal,
        Key::Char('i'),
        Action::SwitchMode(SwitchMode(EditorMode::Insert)),
    );
    let m = bound(
        m,
        EditorMode::Normal,
        Key::Char('v'),
        Action::SwitchMode(SwitchMode(EditorMode::Visual)),
    );
    let m = bound(m, EditorMode::Normal, Key::Char('/'), Action::StartSearch(StartSearch));
    let m = bound(m, EditorMode::Search, Key::Enter, Action::TriggerSearch(TriggerSearch));
    let m = bound(m, EditorMode::Normal, Key::Char('n'), Action::FindNext(FindNext));
    let m = bound(m, EditorMode::Normal, Key::Char('N'), Action::FindPrevious(FindPrevious));
    let m = bound(m, EditorMode::Search, Key::Esc, Action::StopSearch(StopSearch));
    let m = bound(
        m,
        EditorMode::Search,
        Key::Backspace,
        Action::RemoveCharFromSearch(RemoveCharFromSearch),
    );
    bound(m, EditorMode::Normal, Key::Char('a'), Action::Append(Append))
}

/// Binds the keys that change the mode and drive the search.
fn bind_modes<I>(r: &mut Register<I>)
    requires
        old(r).wf(),
    ensures
        final(r).wf(),
        final(r).lookup@ == old(r).lookup@,
        final(r).bindings() == with_modes(old(r).bindings()),
{
    bind(r, EditorMode::Insert, Key::Esc, Action::SwitchMode(SwitchMode(EditorMode::Normal)));
    bind(r, EditorMode::Visual, Key::Esc, Action::SwitchMode(SwitchMode(EditorMode::Normal)));
    bind(r, EditorMode::Normal, Key::Char('i'), Action::SwitchMode(SwitchMode(EditorMode::Insert)));
    bind(r, EditorMode::Normal, Key::Char('v'), Action::SwitchMode(SwitchMode(EditorMode::Visual)));
    bind(r, EditorMode::Normal, Key::Char('/'), Action::StartSearch(StartSearch));
    bind(r, EditorMode::Search, Key::Enter, Action::TriggerSearch(TriggerSearch));
    bind(r, EditorMode::Normal, Key::Char('n'), Action::FindNext(FindNext));
    bind(r, EditorMode::Normal, Key::Char('N'), Action::FindPrevious(FindPrevious));
    bind(r, EditorMode::Search, Key::Esc, Action::StopSearch(StopSearch));
    bind(r, EditorMode::Search, Key::Backspace, Action::RemoveCharFromSearch(RemoveCharFromSearch));
    bind(r, EditorMode::Normal, Key::Char('a'), Action::Append(Append));
}

/// The bindings of a letter and an arrow key to one motion: both in normal
/// and in visual mode, the arrow key in insert mode too.
pub open spec fn with_motion<I>(m: Bindings<I>, letter: char, arrow: Key, action: Action<I>) -> Bindings<
    I,
> {
    let m = bound(m, EditorMode::Normal, Key::Char(letter), action);
    let m = bound(m, EditorMode::Normal, arrow, action);
    let m = bound(m, EditorMode::Visual, Key::Char(letter), action);
    let m = bound(m, EditorMode::Visual, arrow, action);
    bound(m, EditorMode::Insert, arrow, action)
}

/// The bindings that move the cursor by one column or row.
pub open spec fn with_steps<I>(m: Bindings<I>) -> Bindings<I> {
    let m = with_motion(m, 'l', Key::Right, Action::MoveForward(MoveForward(1)));
    let m = with_motion(m, 'h', Key::Left, Action::MoveBackward(MoveBackward(1)));
    let m = with_motion(m, 'k', Key::Up, Action::MoveUp(MoveUp(1)));
    with_motion(m, 'j', Key::Down, Action::MoveDown(MoveDown(1)))
}

/// Binds the keys that move the cursor by one column or row.
fn bind_steps<I>(r: &mut Register<I>)
    requires
        old(r).wf(),
    ensures
        final(r).wf(),
        final(r).lookup@ == old(r).lookup@,
        final(r).bindings() == with_steps(old(r).bindings()),
{
    bind(r, EditorMode::Normal, Key::Char('l'), Action::MoveForward(MoveForward(1)));
    bind(r, EditorMode::Normal, Key::Right, Action::MoveForward(MoveForward(1)));
    bind(r, EditorMode::Visual, Key::Char('l'), Action::MoveForward(MoveForward(1)));
    bind(r, EditorMode::Visual, Key::Right, Action::MoveForward(MoveForward(1)));
    bind(r, EditorMode::Insert, Key::Right, Action::MoveForward(MoveForward(1)));
    bind(r, EditorMode::Normal, Key::Char('h'), Action::MoveBackward(MoveBackward(1)));
    bind(r, EditorMode::Normal, Key::Left, Action::MoveBackward(MoveBackward(1)));
    bind(r, EditorMode::Visual, Key::Char('h'), Action::MoveBackward(MoveBackward(1)));
    bind(r, EditorMode::Visual, Key::Left, Action::MoveBackward(MoveBackward(1)));
    bind(r, EditorMode::Insert, Key::Left, Action::MoveBackward(MoveBackward(1)));
    bind(r, EditorMode::Normal, Key::Char('k'), Action::MoveUp(MoveUp(1)));
    bind(r, EditorMode::Normal, Key::Up, Action::MoveUp(MoveUp(1)));
    bind(r, EditorMode::Visual, Key::Char('k'), Action::MoveUp(MoveUp(1)));
    bind(r, EditorMode::Visual, Key::Up, Action::MoveUp(MoveUp(1)));
    bind(r, EditorMode::Insert, Key::Up, Action::MoveUp(MoveUp(1)));
    bind(r, EditorMode::Normal, Key::Char('j'), Action::MoveDown(MoveDown(1)));
    bind(r, EditorMode::Normal, Key::Down, Action::MoveDown(MoveDown(1)));
    bind(r, EditorMode::Visual, Key::Char('j'), Action::MoveDown(MoveDown(1)));
    bind(r, EditorMode::Visual, Key::Down, Action::MoveDown(MoveDown(1)));
    bind(r, EditorMode::Insert, Key::Down, Action::MoveDown(MoveDown(1)));
}

/// The bindings that move the cursor by words and within the row, in normal
/// and in visual mode, and to the first and the last row in normal mode.
pub open spec fn with_jumps<I>(m: Bindings<I>) -> Bindings<I> {
    let forward = Action::MoveWordForwardStart(MoveWordForwardStart(1));
    let end = Action::MoveWordForwardEnd(MoveWordForwardEnd(1));
    let backward = Action::MoveWordBackward(MoveWordBackward(1));
    let m = bound(m, EditorMode::Normal, Key::Char('w'), forward);
    let m = bound(m, EditorMode::Normal, Key::Char('e'), end);
    let m = bound(m, EditorMode::Normal, Key::Char('b'), backward);
    let m = bound(m, EditorMode::Visual, Key::Char('w'), forward);
    let m = bound(m, EditorMode::Visual, Key::Char('e'), end);
    let m = bound(m, EditorMode::Visual, Key::Char('b'), backward);
    let m = bound(m, EditorMode::Normal, Key::Char('0'), Action::MoveToStart(MoveToStart()));
    let m = bound(m, EditorMode::Normal, Key::Char('_'), Action::MoveToFirst(MoveToFirst()));
    let m = bound(m, EditorMode::Normal, Key::Char('$'), Action::MoveToEnd(MoveToEnd()));
    let m = bound(m, EditorMode::Visual, Key::Char('0'), Action::MoveToStart(MoveToStart()));
    let m = bound(m, EditorMode::Visual, Key::Char('_'), Action::MoveToFirst(MoveToFirst()));
    let m = bound(m, EditorMode::Visual, Key::Char('$'), Action::MoveToEnd(MoveToEnd()));
    let m = m.insert(
        (EditorMode::Normal, seq![Key::Char('g'), Key::Char('g')]),
        Action::MoveToFirstLine(MoveToFirstLine()),
    );
    bound(m, EditorMode::Normal, Key::Char('G'), Action::MoveToLastLine(MoveToLastLine()))
}

/// Binds the keys that move the cursor by words, within the row, and to the
/// first and the last row.
fn bind_jumps<I>(r: &mut Register<I>)
    requires
        old(r).wf(),
    ensures
        final(r).wf(),
        final(r).lookup@ == old(r).lookup@,
        final(r).bindings() == with_jumps(old(r).bindings()),
{
    bind(r, EditorMode::Normal, Key::Char('w'), Action::MoveWordForwardStart(MoveWordForwardStart(1)));
    bind(r, EditorMode::Normal, Key::Char('e'), Action::MoveWordForwardEnd(MoveWordForwardEnd(1)));
    bind(r, EditorMode::Normal, Key::Char('b'), Action::MoveWordBackward(MoveWordBackward(1)));
    bind(r, EditorMode::Visual, Key::Char('w'), Action::MoveWordForwardStart(MoveWordForwardStart(1)));
    bind(r, EditorMode::Visual, Key::Char('e'), Action::MoveWordForwardEnd(MoveWordForwardEnd(1)));
    bind(r, EditorMode::Visual, Key::Char('b'), Action::MoveWordBackward(MoveWordBackward(1)));
    bind(r, EditorMode::Normal, Key::Char('0'), Action::MoveToStart(MoveToStart()));
    bind(r, EditorMode::Normal, Key::Char('_'), Action::MoveToFirst(MoveToFirst()));
    bind(r, EditorMode::Normal, Key::Char('$'), Action::MoveToEnd(MoveToEnd()));
    bind(r, EditorMode::Visual, Key::Char('0'), Action::MoveToStart(MoveToStart()));
    bind(r, EditorMode::Visual, Key::Char('_'), Action::MoveToFirst(MoveToFirst()));
    bind(r, EditorMode::Visual, Key::Char('$'), Action::MoveToEnd(MoveToEnd()));
    let mut keys = Vec::new();
    keys.push(Key::Char('g'));
    keys.push(Key::Char('g'));
    assert(keys@ =~= seq![Key::Char('g'), Key::Char('g')]);
    r.bind(RegisterKey::n(keys), Action::MoveToFirstLine(MoveToFirstLine()));
    bind(r, EditorMode::Normal, Key::Char('G'), Action::MoveToLastLine(MoveToLastLine()));
}

/// The actions of the default bindings that are lists: what `I`, `A`, `o`,
/// `O` and `c i w` are bound to in normal mode.
pub struct Listed<I> {
    pub insert_first: Action<I>,
    pub append_end: Action<I>,
    pub open_below: Action<I>,
    pub open_above: Action<I>,
    pub select_inner: Action<I>,
}

/// Whether `action` runs the two given actions one after the other.
pub open spec fn is_pair<I>(action: Action<I>, first: Action<I>, second: Action<I>) -> bool {
    action is Composed && action->Composed_0.0@ == seq![first, second]
}

/// The pairs of delimiters that `c i w` selects between.
pub open spec fn inner_pairs() -> Seq<(char, char)> {
    seq![('(', ')'), ('[', ']'), ('{', '}'), ('<', '>'), ('"', '"'), ('\'', '\'')]
}

impl<I> Listed<I> {
    /// The listed actions are those of the default bindings.
    pub open spec fn wf(self) -> bool {
        &&& is_pair(
            self.insert_first,
            Action::MoveToFirst(MoveToFirst()),
            Action::SwitchMode(SwitchMode(EditorMode::Insert)),
        )
        &&& is_pair(self.append_end, Action::MoveToEnd(MoveToEnd()), Action::Append(Append))
        &&& is_pair(
            self.open_below,
            Action::AppendNewline(AppendNewline(1)),
            Action::SwitchMode(SwitchMode(EditorMode::Insert)),
        )
        &&& is_pair(
            self.open_above,
            Action::InsertNewline(InsertNewline(1)),
            Action::SwitchMode(SwitchMode(EditorMode::Insert)),
        )
        &&& self.select_inner is SelectBetween
        &&& self.select_inner->SelectBetween_0.0@ == inner_pairs()
    }
}

/// The bindings that change the text, select, copy and paste.
pub open spec fn with_edits<I>(m: Bindings<I>, listed: Listed<I>) -> Bindings<I> {
    let m = bound(m, EditorMode::Normal, Key::Char('I'), listed.insert_first);
    let m = bound(m, EditorMode::Normal, Key::Char('A'), listed.append_end);
    let m = bound(m, EditorMode::Normal, Key::Char('o'), listed.open_below);
    let m = bound(m, EditorMode::Normal, Key::Char('O'), listed.open_above);
    let m = bound(m, EditorMode::Insert, Key::Enter, Action::LineBreak(LineBreak(1)));
    let m = bound(m, EditorMode::Normal, Key::Char('x'), Action::RemoveChar(RemoveChar(1)));
    let m = bound(m, EditorMode::Insert, Key::Backspace, Action::DeleteChar(DeleteChar(1)));
    let m = m.insert(
        (EditorMode::Normal, seq![Key::Char('d'), Key::Char('d')]),
        Action::DeleteLine(DeleteLine(1)),
    );
    let m = bound(m, EditorMode::Visual, Key::Char('d'), Action::DeleteSelection(DeleteSelection));
    let m = m.insert(
        (EditorMode::Normal, seq![Key::Char('c'), Key::Char('i'), Key::Char('w')]),
        listed.select_inner,
    );
    let m = bound(m, EditorMode::Normal, Key::Char('u'), Action::Undo(Undo));
    let m = bound(m, EditorMode::Normal, Key::Char('r'), Action::Redo(Redo));
    let m = bound(m, EditorMode::Visual, Key::Char('y'), Action::CopySelection(CopySelection));
    let m = bound(m, EditorMode::Normal, Key::Char('p'), Action::Paste(Paste));
    bound(m, EditorMode::Visual, Key::Char('p'), Action::Paste(Paste))
}

/// An action that runs two actions one after the other.
fn pair<I>(first: Action<I>, second: Action<I>) -> (action: Action<I>)
    ensures
        is_pair(action, first, second),
{
    let mut actions = Vec::new();
    actions.push(first);
    actions.push(second);
    assert(actions@ =~= seq![first, second]);
    Action::Composed(Composed(actions))
}

/// Binds the keys that change the text, select, copy and paste, and returns
/// the actions among them that are lists.
fn bind_edits<I>(r: &mut Register<I>) -> (listed: Ghost<Listed<I>>)
    requires
        old(r).wf(),
    ensures
        listed@.wf(),
        final(r).wf(),
        final(r).lookup@ == old(r).lookup@,
        final(r).bindings() == with_edits(old(r).bindings(), listed@),
{
    let insert_first = pair(
        Action::MoveToFirst(MoveToFirst()),
        Action::SwitchMode(SwitchMode(EditorMode::Insert)),
    );
    let append_end = pair(Action::MoveToEnd(MoveToEnd()), Action::Append(Append));
    let open_below = pair(
        Action::AppendNewline(AppendNewline(1)),
        Action::SwitchMode(SwitchMode(EditorMode::Insert)),
    );
    let open_above = pair(
        Action::InsertNewline(InsertNewline(1)),
        Action::SwitchMode(SwitchMode(EditorMode::Insert)),
    );
    let mut pairs: Vec<(char, char)> = Vec::new();
    pairs.push(('(', ')'));
    pairs.push(('[', ']'));
    pairs.push(('{', '}'));
    pairs.push(('<', '>'));
    pairs.push(('"', '"'));
    pairs.push(('\'', '\''));
    assert(pairs@ =~= inner_pairs());
    let select_inner = Action::SelectBetween(SelectBetween(pairs));
    let listed = Ghost(Listed { insert_first, append_end, open_below, open_above, select_inner });
    bind(r, EditorMode::Normal, Key::Char('I'), insert_first);
    bind(r, EditorMode::Normal, Key::Char('A'), append_end);
    bind(r, EditorMode::Normal, Key::Char('o'), open_below);
    bind(r, EditorMode::Normal, Key::Char('O'), open_above);
    bind(r, EditorMode::Insert, Key::Enter, Action::LineBreak(LineBreak(1)));
    bind(r, EditorMode::Normal, Key::Char('x'), Action::RemoveChar(RemoveChar(1)));
    bind(r, EditorMode::Insert, Key::Backspace, Action::DeleteChar(DeleteChar(1)));
    let mut keys = Vec::new();
    keys.push(Key::Char('d'));
    keys.push(Key::Char('d'));
    assert(keys@ =~= seq![Key::Char('d'), Key::Char('d')]);
    r.bind(RegisterKey::n(keys), Action::DeleteLine(DeleteLine(1)));
    bind(r, EditorMode::Visual, Key::Char('d'), Action::DeleteSelection(DeleteSelection));
    let mut keys = Vec::new();
    keys.push(Key::Char('c'));
    keys.push(Key::Char('i'));
    keys.push(Key::Char('w'));
    assert(keys@ =~= seq![Key::Char('c'), Key::Char('i'), Key::Char('w')]);
    r.bind(RegisterKey::n(keys), select_inner);
    bind(r, EditorMode::Normal, Key::Char('u'), Action::Undo(Undo));
    bind(r, EditorMode::Normal, Key::Char('r'), Action::Redo(Redo));
    bind(r, EditorMode::Visual, Key::Char('y'), Action::CopySelection(CopySelection));
    bind(r, EditorMode::Normal, Key::Char('p'), Action::Paste(Paste));
    bind(r, EditorMode::Visual, Key::Char('p'), Action::Paste(Paste));
    listed
}

/// The default bindings, given the actions among them that are lists.
pub open spec fn default_bindings<I>(listed: Listed<I>) -> Bindings<I> {
    with_edits(with_jumps(with_steps(with_modes(Map::empty()))), listed)
}

/// The register together with the command line.
pub struct Input<I, F> {
    pub register: Register<I>,
    pub command: CommandState<F>,
}

impl<I, F> Default for Input<I, F> {
    /// The default bindings, no key received yet, and no command registered.
    fn default() -> (input: Input<I, F>)
        ensures
            input.register.wf(),
            input.register.lookup@ == Seq::<Key>::empty(),
            exists|listed: Listed<I>|
                listed.wf() && input.register.bindings() == default_bindings(listed),
            input.command.input@ == Seq::<char>::empty(),
            input.command.available_commands@ == Seq::<crate::state::command::Command<F>>::empty(),
    {
        let mut r = Register::<I>::new();
        bind_modes(&mut r);
        bind_steps(&mut r);
        bind_jumps(&mut r);
        let listed = bind_edits(&mut r);
        assert(listed@.wf() && r.bindings() == default_bindings(listed@));
        Input { register: r, command: CommandState::default() }
    }
}

/// Whether the command line takes the key itself, before the register is
/// asked, whatever the key is bound to: the colon that opens it in
/// normal mode, and in command mode the characters typed, backspace, escape
/// and enter.
pub open spec fn takes_key(mode: EditorMode, key: Key) -> bool {
    match mode {
        EditorMode::Normal => key == Key::Char(':'),
        EditorMode::Command => key is Char || key == Key::Backspace || key == Key::Esc || key
            == Key::Enter,
        _ => false,
    }
}

/// The command line after it took the key: empty when it is opened, left or
/// handed over, and else longer or shorter by one character.
pub open spec fn line_after(mode: EditorMode, line: Seq<char>, key: Key) -> Seq<char> {
    match key {
        Key::Char(c) if mode == EditorMode::Command => line.push(c),
        Key::Backspace => if line.len() > 0 {
            line.drop_last()
        } else {
            line
        },
        _ => Seq::empty(),
    }
}

/// The state after a key that no binding of the mode begins with: in insert
/// mode a character is inserted, in search mode it is added to the pattern,
/// and any other key changes nothing.
pub open spec fn typed(s: StateView, key: Key) -> StateView {
    match (s.mode, key) {
        (EditorMode::Insert, Key::Char(c)) => InsertChar(c).applied(s),
        (EditorMode::Search, Key::Char(c)) => AppendCharToSearch(c).applied(s),
        _ => s,
    }
}

/// What the highlighter is told of a key that no binding of the mode begins
/// with: of the character inserted in insert mode, and else nothing.
pub open spec fn typed_notices(s: StateView, key: Key) -> Seq<Notice> {
    match (s.mode, key) {
        (EditorMode::Insert, Key::Char(c)) => InsertChar(c).notices(s),
        _ => Seq::empty(),
    }
}

/// The inputs on which a key keeps the cursor within the limits of the mode:
/// a key that ends a bound sequence, on the inputs that
/// [`admits_on_the_way`] does not leave out for the action bound to it; a
/// character that is typed into the text, where the text has room for it; and
/// every key that the command line takes, that the register keeps, or that
/// does nothing.
pub open spec fn key_admitted<I>(
    bindings: Map<(EditorMode, Seq<Key>), Action<I>>,
    lookup: Seq<Key>,
    before: StateView,
    after: StateView,
    key: Key,
) -> bool {
    takes_key(before.mode, key) || match resolve(bindings, before.mode, lookup.push(key)) {
        Resolution::Resolved(action) => admits_on_the_way(action, before, after),
        Resolution::Pending => true,
        Resolution::Unknown => before.mode == EditorMode::Insert && key is Char ==> roomy(
            before.lines,
            2,
        ),
    }
}

/// Whether `answer` is what the first command that goes by the name on the
/// command line gives for the argument on it.
pub open spec fn answers_line<I, F: Fn(String) -> I>(
    commands: Seq<crate::state::command::Command<F>>,
    line: Seq<char>,
    answer: I,
) -> bool {
    exists|i: int, args: String|
        {
            &&& is_first_called(commands, head_of(line), i)
            &&& args@ == tail_of(line)
            &&& #[trigger] call_ensures(commands[i].action, (args,), answer)
        }
}

impl<I: Clone, F: Fn(String) -> I> Input<I, F> {
    /// The bindings have distinct keys, and every registered command can be
    /// called on every argument.
    pub open spec fn wf(&self) -> bool {
        &&& self.register.wf()
        &&& forall|i: int, args: String|
            0 <= i < self.command.available_commands@.len() ==> #[trigger] call_requires(
                self.command.available_commands@[i].action,
                (args,),
            )
    }

    /// Hands the command line to the first command that goes by the name on
    /// it, with what follows the name as its argument, and clears the line.
    pub fn dispatch(&mut self) -> (answer: Option<I>)
        requires
            old(self).wf(),
        ensures
            final(self).wf(),
            final(self).register == old(self).register,
            final(self).command.available_commands == old(self).command.available_commands,
            final(self).command.input@ == Seq::<char>::empty(),
            answer is Some <==> exists|i: int|
                is_first_called(
                    old(self).command.available_commands@,
                    head_of(old(self).command.input@),
                    i,
                ),
            answer is Some ==> answers_line(
                old(self).command.available_commands@,
                old(self).command.input@,
                answer->0,
            ),
    {
        let (head, args) = split_command(self.command.input.as_str());
        self.command.clear();
        match self.command.find(&head) {
            Some(i) => {
                let ghost given = args;
                let answer = (self.command.available_commands[i].action)(args);
                assert(call_ensures(
                    old(self).command.available_commands@[i as int].action,
                    (given,),
                    answer,
                ));
                assert(given@ == tail_of(old(self).command.input@));
                assert(is_first_called(
                    old(self).command.available_commands@,
                    head_of(old(self).command.input@),
                    i as int,
                ));
                Some(answer)
            },
            None => None,
        }
    }

    /// Takes a key and does what it stands for in the mode of the editor.
    ///
    /// The command line takes its own keys, as [`takes_key`] says. Every other
    /// key goes to the register: a key sequence that it resolves runs its
    /// action on the state, or is handed back to the host if it is a
    /// [`Custom`] action; a key that begins no binding is typed into the text
    /// or the search pattern, as [`typed`] says.
    ///
    /// Whatever the key, the columns of a steady state stay within their
    /// limits, and on the inputs that [`key_admitted`] does not leave out a
    /// sound state stays sound: the cursor, row and column, is within the
    /// limits of the mode that the editor is in afterwards.
    #[verifier::rlimit(60)]
    pub fn on_key(&mut self, key: Key, state: &mut EditorState) -> (answer: Option<Custom<I>>)
        requires
            old(self).wf(),
            old(state).wf(),
        ensures
            final(self).wf(),
            final(state).wf(),
            final(self).register.register == old(self).register.register,
            final(self).command.available_commands == old(self).command.available_commands,
            takes_key(old(state)@.mode, key) ==> {
                &&& final(state).highlighter == old(state).highlighter
                &&& final(self).register.lookup == old(self).register.lookup
                &&& final(self).command.input@ == line_after(
                    old(state)@.mode,
                    old(self).command.input@,
                    key,
                )
                &&& final(state)@ == entered(
                    StateView { command: final(self).command.input@, ..old(state)@ },
                    if old(state)@.mode == EditorMode::Normal {
                        EditorMode::Command
                    } else if key == Key::Esc || key == Key::Enter {
                        EditorMode::Normal
                    } else {
                        EditorMode::Command
                    },
                )
                &&& key != Key::Enter ==> answer is None
                &&& key == Key::Enter ==> (answer is Some <==> exists|i: int|
                    is_first_called(
                        old(self).command.available_commands@,
                        head_of(old(self).command.input@),
                        i,
                    ))
                &&& key == Key::Enter && answer is Some ==> answers_line(
                    old(self).command.available_commands@,
                    old(self).command.input@,
                    (answer->0).0,
                )
            },
            !takes_key(old(state)@.mode, key) ==> {
                &&& final(self).command.input == old(self).command.input
                &&& final(self).register.lookup@ == kept(
                    old(self).register.bindings(),
                    old(state)@.mode,
                    old(self).register.lookup@.push(key),
                )
                &&& match resolve(
                    old(self).register.bindings(),
                    old(state)@.mode,
                    old(self).register.lookup@.push(key),
                ) {
                    Resolution::Resolved(Action::Custom(custom)) => {
                        &&& answer is Some
                        &&& cloned(custom.0, (answer->0).0)
                        &&& final(state)@ == old(state)@
                        &&& final(state).highlighter == old(state).highlighter
                    },
                    Resolution::Resolved(action) => {
                        &&& answer is None
                        &&& action.leads(
                            old(state)@,
                            final(state)@,
                            old(state).highlighter.log(),
                            final(state).highlighter.log(),
                        )
                    },
                    Resolution::Pending => {
                        &&& answer is None
                        &&& final(state)@ == old(state)@
                        &&& final(state).highlighter == old(state).highlighter
                    },
                    Resolution::Unknown => {
                        &&& answer is None
                        &&& final(state)@ == typed(old(state)@, key)
                        &&& final(state).highlighter.log() =~= old(state).highlighter.log()
                            + typed_notices(old(state)@, key)
                    },
                }
            },
            steady(old(state)@) ==> steady(final(state)@),
            sound(old(state)@) && key_admitted(
                old(self).register.bindings(),
                old(self).register.lookup@,
                old(state)@,
                final(state)@,
                key,
            ) ==> sound(final(state)@),
    {
        let mode = state.mode;
        proof {
            if sound(state@) && takes_key(state@.mode, key) {
                let line = line_after(state@.mode, self.command.input@, key);
                lemma_sound_after_taken(state@, line, EditorMode::Normal);
                lemma_sound_after_taken(state@, line, EditorMode::Command);
            }
        }
        match mode {
            EditorMode::Normal => {
                if key == Key::Char(':') {
                    self.command.clear();
                    state.command = self.command.input.clone();
                    enter(state, EditorMode::Command);
                    return None;
                }
            },
            EditorMode::Command => {
                match key {
                    Key::Char(c) => {
                        self.command.push_char(c);
                        state.command = self.command.input.clone();
                        enter(state, EditorMode::Command);
                        return None;
                    },
                    Key::Backspace => {
                        self.command.remove_char();
                        state.command = self.command.input.clone();
                        enter(state, EditorMode::Command);
                        return None;
                    },
                    Key::Esc => {
                        self.command.clear();
                        state.command = self.command.input.clone();
                        enter(state, EditorMode::Normal);
                        return None;
                    },
                    Key::Enter => {
                        let answer = self.dispatch();
                        state.command = self.command.input.clone();
                        enter(state, EditorMode::Normal);
                        return match answer {
                            Some(host) => Some(Custom(host)),
                            None => None,
                        };
                    },
                    _ => {},
                }
            },
            _ => {},
        }
        match self.register.resolve_key(key, mode) {
            Some(index) => {
                match self.register.action(index) {
                    Action::Custom(custom) => Some(Custom(custom.0.clone())),
                    action => {
                        action.execute(state);
                        proof {
                            if sound(old(state)@) && key_admitted(
                                old(self).register.bindings(),
                                old(self).register.lookup@,
                                old(state)@,
                                state@,
                                key,
                            ) {
                                lemma_sound_where_led(
                                    *action,
                                    old(state)@,
                                    state@,
                                    old(state).highlighter.log(),
                                    state.highlighter.log(),
                                );
                            }
                        }
                        None
                    },
                }
            },
            None => {
                if self.register.lookup.len() == 0 {
                    match (mode, key) {
                        (EditorMode::Insert, Key::Char(c)) => {
                            InsertChar(c).execute(state);
                            proof {
                                if sound(old(state)@) && roomy(old(state)@.lines, 2) {
                                    lemma_sound_after(
                                        Action::<I>::InsertChar(InsertChar(c)),
                                        old(state)@,
                                    );
                                }
                            }
                        },
                        (EditorMode::Search, Key::Char(c)) => {
                            AppendCharToSearch(c).execute(state);
                            proof {
                                if sound(old(state)@) {
                                    lemma_sound_after(
                                        Action::<I>::AppendCharToSearch(AppendCharToSearch(c)),
                                        old(state)@,
                                    );
                                }
                            }
                        },
                        _ => {},
                    }
                }
                None
            },
        }
    }
}

} // verus!
