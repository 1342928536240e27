//! The clipboard: one string, written by copy and delete, read by paste.
use vstd::prelude::*;

verus! {

/// A place to keep the copied text. The editor calls both methods
/// synchronously and keeps no borrow across calls.
///
/// Nothing is asked of an implementation: one that stands for a clipboard
/// outside the program may drop what it is given and may hand back a text
/// that was never set. What the editor pastes is the string that `get_text`
/// returned, whatever it is.
pub trait ClipboardTrait {
    /// Takes `text` to keep.
    fn set_text(&mut self, text: String);

    /// Returns the text to paste.
    fn get_text(&self) -> String;
}

/// The default clipboard: a string in memory that holds the last text set.
#[derive(Debug)]
pub struct InternalClipboard(pub String);

impl InternalClipboard {
    /// The text that the clipboard holds.
    pub open spec fn text(&self) -> Seq<char> {
        self.0@
    }
}

impl ClipboardTrait for InternalClipboard {
    /// Keeps `text` in place of what was held.
    fn set_text(&mut self, text: String)
        ensures
            final(self).text() == text@,
    {
        self.0 = text;
    }

    /// A copy of the string that is held.
    fn get_text(&self) -> (text: String)
        ensures
            text@ == self.text(),
    {
        self.0.clone()
    }
}

impl Default for InternalClipboard {
    fn default() -> (clipboard: InternalClipboard)
        ensures
            clipboard.text() == Seq::<char>::empty(),
    {
        InternalClipboard(String::new())
    }
}

/// What stands behind the clipboard of an editor state.
enum Device {
    /// The default clipboard, in memory.
    Memory(InternalClipboard),
    /// A clipboard that the host has set.
    Outside(Box<dyn ClipboardTrait>),
}

/// The clipboard of an editor state: the default clipboard in memory or any
/// [`ClipboardTrait`] that the host has set, behind one type, with a record
/// of the strings that have passed through it.
pub struct Clipboard {
    device: Device,
    passed: Ghost<Seq<char>>,
    answered: Ghost<Seq<Seq<char>>>,
}

impl Clipboard {
    /// The string that last passed through this value: the one last handed
    /// to `set_text` or returned by `get_text`, whichever came later, and the
    /// empty string before either was called. Of a clipboard that the host
    /// has set it says nothing of what that clipboard holds.
    pub closed spec fn text(&self) -> Seq<char> {
        match self.device {
            Device::Memory(held) => held.text(),
            Device::Outside(_) => self.passed@,
        }
    }

    /// The strings that `get_text` has returned so far, the last one last.
    pub closed spec fn answers(&self) -> Seq<Seq<char>> {
        self.answered@
    }

    /// Whether this is the default clipboard in memory, which returns the
    /// string that it was last handed.
    pub closed spec fn in_memory(&self) -> bool {
        self.device is Memory
    }

    /// Puts `clipboard` behind the common type. Nothing has passed through
    /// it yet.
    pub fn new<C: ClipboardTrait + 'static>(clipboard: C) -> (c: Clipboard)
        ensures
            c.text() == Seq::<char>::empty(),
            c.answers() == Seq::<Seq<char>>::empty(),
            !c.in_memory(),
    {
        Clipboard {
            device: Device::Outside(Box::new(clipboard)),
            passed: Ghost(Seq::empty()),
            answered: Ghost(Seq::empty()),
        }
    }

    /// Hands `text` to the clipboard behind this value.
    pub fn set_text(&mut self, text: String)
        ensures
            final(self).text() == text@,
            final(self).answers() == old(self).answers(),
            final(self).in_memory() == old(self).in_memory(),
    {
        self.passed = Ghost(text@);
        match &mut self.device {
            Device::Memory(held) => held.set_text(text),
            Device::Outside(outside) => outside.set_text(text),
        }
    }

    /// Asks the clipboard behind this value for its text and returns what it
    /// answers: the default clipboard in memory answers with the string that
    /// it was last handed.
    pub fn get_text(&mut self) -> (text: String)
        ensures
            final(self).text() == text@,
            final(self).answers() == old(self).answers().push(text@),
            final(self).in_memory() == old(self).in_memory(),
            old(self).in_memory() ==> text@ == old(self).text(),
    {
        let text = match &self.device {
            Device::Memory(held) => held.get_text(),
            Device::Outside(outside) => outside.get_text(),
        };
        self.passed = Ghost(text@);
        self.answered = Ghost(self.answered@.push(text@));
        text
    }
}

impl Default for Clipboard {
    /// The default clipboard in memory, holding the empty string.
    fn default() -> (c: Clipboard)
        ensures
            c.text() == Seq::<char>::empty(),
            c.answers() == Seq::<Seq<char>>::empty(),
            c.in_memory(),
    {
        Clipboard {
            device: Device::Memory(InternalClipboard(String::new())),
            passed: Ghost(Seq::empty()),
            answered: Ghost(Seq::empty()),
        }
    }
}

} // verus!
