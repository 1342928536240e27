//! The command line: what is typed in command mode, and the commands that the
//! host has registered.
use crate::helper::{is_space, is_whitespace};
use crate::index::Index2;
use crate::strings::chars_of;
use vstd::prelude::*;

verus! {

/// Represents a command that can be executed in command mode.
///
/// The action is a function of the host from the argument string to what the
/// host wants handed back.
pub struct Command<F> {
    pub name: String,
    pub aliases: Vec<String>,
    pub description: String,
    pub action: F,
}

impl<F> Command<F> {
    /// Whether the command goes by the name `head`: as its name or as one of
    /// its aliases.
    pub open spec fn answers(&self, head: Seq<char>) -> bool {
        self.name@ == head || exists|i: int|
            0 <= i < self.aliases@.len() && (#[trigger] self.aliases@[i])@ == head
    }

    /// A command with the given name, description, aliases and action.
    pub fn new(name: String, description: String, aliases: Vec<String>, action: F) -> (command:
        Command<F>)
        ensures
            command.name == name,
            command.description == description,
            command.aliases == aliases,
            command.action == action,
    {
        Command { name, aliases, description, action }
    }

    /// Sets the name.
    pub fn name(&mut self, name: String) -> (this: &mut Self)
        ensures
            this.name == name,
            this.aliases == old(self).aliases,
            this.description == old(self).description,
            this.action == old(self).action,
            *final(self) == *final(this),
    {
        self.name = name;
        self
    }

    /// Sets the description.
    pub fn description(&mut self, description: String) -> (this: &mut Self)
        ensures
            this.name == old(self).name,
            this.aliases == old(self).aliases,
            this.description == description,
            this.action == old(self).action,
            *final(self) == *final(this),
    {
        self.description = description;
        self
    }

    /// Sets the aliases.
    pub fn aliases(&mut self, aliases: Vec<String>) -> (this: &mut Self)
        ensures
            this.name == old(self).name,
            this.aliases == aliases,
            this.description == old(self).description,
            this.action == old(self).action,
            *final(self) == *final(this),
    {
        self.aliases = aliases;
        self
    }

    /// Whether the command goes by the name `head`.
    pub fn is_called(&self, head: &String) -> (b: bool)
        ensures
            b == self.answers(head@),
    {
        if self.name == *head {
            return true;
        }
        let mut i: usize = 0;
        while i < self.aliases.len()
            invariant
                i <= self.aliases.len(),
                forall|j: int| 0 <= j < i ==> (#[trigger] self.aliases@[j])@ != head@,
            decreases self.aliases.len() - i,
        {
            if self.aliases[i] == *head {
                return true;
            }
            i += 1;
        }
        false
    }
}

/// The number of characters before the first whitespace of the input, or the
/// length of the input if it holds none.
pub open spec fn head_len(input: Seq<char>) -> int
    decreases input.len(),
{
    if input.len() == 0 || is_space(input[0]) {
        0
    } else {
        1 + head_len(input.drop_first())
    }
}

/// The name on a command line: what comes before the first whitespace.
pub open spec fn head_of(input: Seq<char>) -> Seq<char> {
    input.take(head_len(input))
}

/// The argument on a command line: what comes behind the first whitespace.
pub open spec fn tail_of(input: Seq<char>) -> Seq<char> {
    if head_len(input) < input.len() {
        input.skip(head_len(input) + 1)
    } else {
        Seq::empty()
    }
}

/// Whether the command at `index` is the first one that goes by `head`.
pub open spec fn is_first_called<F>(commands: Seq<Command<F>>, head: Seq<char>, index: int) -> bool {
    &&& 0 <= index < commands.len()
    &&& commands[index].answers(head)
    &&& forall|j: int| 0 <= j < index ==> !(#[trigger] commands[j]).answers(head)
}

/// Splits a command line into its name and its argument.
pub fn split_command(input: &str) -> (parts: (String, String))
    ensures
        parts.0@ == head_of(input@),
        parts.1@ == tail_of(input@),
{
    let chars = chars_of(input);
    let mut head = String::new();
    let mut tail = String::new();
    let mut i: usize = 0;
    assert(chars@.skip(0) =~= chars@);
    while i < chars.len() && !is_whitespace(chars[i])
        invariant
            i <= chars.len(),
            chars@ == input@,
            head@ == chars@.take(i as int),
            tail@ == Seq::<char>::empty(),
            head_len(chars@) == i + head_len(chars@.skip(i as int)),
        decreases chars.len() - i,
    {
        head.push(chars[i]);
        assert(chars@.skip(i as int).drop_first() =~= chars@.skip(i + 1));
        i += 1;
        assert(chars@.take(i as int) =~= chars@.take(i - 1).push(chars@[i - 1]));
    }
    assert(head_len(chars@) == i) by {
        if i < chars.len() {
            assert(chars@.skip(i as int)[0] == chars@[i as int]);
        }
    }
    if i < chars.len() {
        let start = i + 1;
        let mut j = start;
        assert(chars@.subrange(start as int, start as int) =~= Seq::<char>::empty());
        while j < chars.len()
            invariant
                start <= j <= chars.len(),
                tail@ == chars@.subrange(start as int, j as int),
            decreases chars.len() - j,
        {
            tail.push(chars[j]);
            j += 1;
            assert(chars@.subrange(start as int, j as int) =~= chars@.subrange(
                start as int,
                j - 1,
            ).push(chars@[j - 1]));
        }
        assert(chars@.subrange(start as int, chars.len() as int) =~= chars@.skip(start as int));
    }
    (head, tail)
}

/// Represents the state of the command mode.
pub struct CommandState<F> {
    pub start_cursor: Index2,
    pub input: String,
    pub available_commands: Vec<Command<F>>,
}

impl<F> Default for CommandState<F> {
    fn default() -> (state: CommandState<F>)
        ensures
            state.input@ == Seq::<char>::empty(),
            state.available_commands@ == Seq::<Command<F>>::empty(),
    {
        CommandState {
            start_cursor: Index2 { row: 0, col: 0 },
            input: String::new(),
            available_commands: Vec::new(),
        }
    }
}

impl<F> CommandState<F> {
    /// Returns the length of the current command line.
    pub fn command_len(&self) -> (n: usize)
        ensures
            n == self.input@.len(),
    {
        self.input.as_str().unicode_len()
    }

    /// Clears the command line.
    pub fn clear(&mut self)
        ensures
            final(self).input@ == Seq::<char>::empty(),
            final(self).available_commands == old(self).available_commands,
            final(self).start_cursor == old(self).start_cursor,
    {
        self.input.clear();
    }

    /// Appends a character to the command.
    pub fn push_char(&mut self, ch: char)
        ensures
            final(self).input@ == old(self).input@.push(ch),
            final(self).available_commands == old(self).available_commands,
            final(self).start_cursor == old(self).start_cursor,
    {
        self.input.push(ch);
    }

    /// Removes the last character from the command.
    pub fn remove_char(&mut self)
        ensures
            final(self).input@ == if old(self).input@.len() > 0 {
                old(self).input@.drop_last()
            } else {
                old(self).input@
            },
            final(self).available_commands == old(self).available_commands,
            final(self).start_cursor == old(self).start_cursor,
    {
        let _ = self.input.pop();
    }

    /// Registers a command behind those registered before.
    pub fn add_command(
        &mut self,
        name: String,
        description: String,
        aliases: Vec<String>,
        action: F,
    )
        ensures
            final(self).available_commands@ == old(self).available_commands@.push(
                Command { name, aliases, description, action },
            ),
            final(self).input == old(self).input,
            final(self).start_cursor == old(self).start_cursor,
    {
        self.available_commands.push(Command { name, aliases, description, action });
    }

    /// Finds the first command that goes by `head`.
    pub fn find(&self, head: &String) -> (found: Option<usize>)
        ensures
            found is Some ==> is_first_called(self.available_commands@, head@, found->0 as int),
            found is None ==> forall|j: int|
                0 <= j < self.available_commands@.len() ==> !(
                #[trigger] self.available_commands@[j]).answers(head@),
    {
        let mut i: usize = 0;
        while i < self.available_commands.len()
            invariant
                i <= self.available_commands.len(),
                forall|j: int| 0 <= j < i ==> !(#[trigger] self.available_commands@[j]).answers(head@),
            decreases self.available_commands.len() - i,
        {
            if self.available_commands[i].is_called(head) {
                return Some(i);
            }
            i += 1;
        }
        None
    }
}

} // verus!
