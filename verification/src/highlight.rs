//! The bridge to the syntax highlighter.
//!
//! The editor tells the highlighter of every change to the text, row by row, so
//! that it can rebuild its tokens for the rows that changed. The highlighter is
//! `synoptic::Highlighter`; what its methods do to the number of rows it holds
//! is stated here without proof. [`Bridge`] records, as ghost state, the
//! notifications sent and the text that the highlighter has been told by
//! them, and the editor's well-formedness says that this text is the buffer's.
use crate::lines::{lines_len, lines_row, rows, Lines};
use crate::strings::string_of;
use synoptic::Highlighter;
use vstd::prelude::*;

verus! {

/// `synoptic::Highlighter`. Nothing is known of a value of it but what the
/// functions below state.
#[verifier::external_type_specification]
#[verifier::external_body]
pub struct ExHighlighter(Highlighter);

/// The number of rows that a highlighter holds tokens for: the length of its
/// `atoms`.
pub uninterp spec fn highlighted_rows(h: Highlighter) -> nat;

/// Whether a highlighter's tables agree with each other: `line_ref` has one
/// entry for each row of `atoms`, and every atom in `atoms` and every
/// definition in `atom_def` that names a bounded definition names one that
/// `bounded_def` holds. The methods below index these tables without a test.
pub uninterp spec fn well_tokenized(h: Highlighter) -> bool;

/// `Highlighter::new`: a highlighter without rules and without rows.
#[verifier::external_body]
fn highlighter_new(tab_width: usize) -> (h: Highlighter)
    ensures
        highlighted_rows(h) == 0,
        well_tokenized(h),
{
    Highlighter::new(tab_width)
}

/// `synoptic::from_extension`: a highlighter with the rules for a file
/// extension, if there is one. It holds no rows yet.
#[verifier::external_body]
fn highlighter_for(ext: &str, tab_width: usize) -> (h: Option<Highlighter>)
    ensures
        h is Some ==> highlighted_rows(h->0) == 0 && well_tokenized(h->0),
{
    synoptic::from_extension(ext, tab_width)
}

/// `Highlighter::run`: the highlighter forgets its rows and takes the given
/// ones. Left out: a highlighter whose definitions name a bounded definition
/// that it does not hold, on which indexing panics.
#[verifier::external_body]
fn highlighter_run(h: &mut Highlighter, lines: &Vec<String>)
    requires
        well_tokenized(*old(h)),
    ensures
        highlighted_rows(*final(h)) == lines.len(),
        well_tokenized(*final(h)),
{
    h.run(lines);
}

/// `Highlighter::edit`: the row is read anew; the number of rows stays. Left
/// out: a row that the highlighter does not hold, on which indexing panics.
#[verifier::external_body]
fn highlighter_edit(h: &mut Highlighter, row: usize, line: &String)
    requires
        well_tokenized(*old(h)),
        row < highlighted_rows(*old(h)),
    ensures
        highlighted_rows(*final(h)) == highlighted_rows(*old(h)),
        well_tokenized(*final(h)),
{
    h.edit(row, line);
}

/// `Highlighter::insert_line`: one row more. Left out: an index past the number
/// of rows, on which `Vec::insert` panics.
#[verifier::external_body]
fn highlighter_insert_line(h: &mut Highlighter, row: usize, line: &String)
    requires
        well_tokenized(*old(h)),
        row <= highlighted_rows(*old(h)),
    ensures
        highlighted_rows(*final(h)) == highlighted_rows(*old(h)) + 1,
        well_tokenized(*final(h)),
{
    h.insert_line(row, line);
}

/// `Highlighter::remove_line`: one row less. Left out: a row that the
/// highlighter does not hold, on which `Vec::remove` panics.
#[verifier::external_body]
fn highlighter_remove_line(h: &mut Highlighter, row: usize)
    requires
        well_tokenized(*old(h)),
        row < highlighted_rows(*old(h)),
    ensures
        highlighted_rows(*final(h)) == highlighted_rows(*old(h)) - 1,
        well_tokenized(*final(h)),
{
    h.remove_line(row);
}

/// `Highlighter::append`: one row more, at the end.
#[verifier::external_body]
fn highlighter_append(h: &mut Highlighter, line: &String)
    requires
        well_tokenized(*old(h)),
    ensures
        highlighted_rows(*final(h)) == highlighted_rows(*old(h)) + 1,
        well_tokenized(*final(h)),
{
    h.append(line);
}

/// A notification to the highlighter.
pub enum Notice {
    /// The row now reads the text.
    Edit(int, Seq<char>),
    /// A row that reads the text was inserted at the index.
    InsertLine(int, Seq<char>),
    /// The row was removed.
    RemoveLine(int),
    /// A row that reads the text was added at the end.
    Append(Seq<char>),
    /// The whole text, anew.
    Run(Seq<Seq<char>>),
}

/// The text as a highlighter knows it after a notification.
pub open spec fn noticed(told: Seq<Seq<char>>, notice: Notice) -> Seq<Seq<char>> {
    match notice {
        Notice::Edit(row, text) => told.update(row, text),
        Notice::InsertLine(row, text) => told.insert(row, text),
        Notice::RemoveLine(row) => told.remove(row),
        Notice::Append(text) => told.push(text),
        Notice::Run(text) => text,
    }
}

/// The text as a highlighter knows it after a sequence of notifications.
pub open spec fn replayed(told: Seq<Seq<char>>, notices: Seq<Notice>) -> Seq<Seq<char>>
    decreases notices.len(),
{
    if notices.len() == 0 {
        told
    } else {
        noticed(replayed(told, notices.drop_last()), notices.last())
    }
}

/// Replaying two sequences of notifications one after the other is replaying
/// them joined.
pub proof fn lemma_replayed_joined(told: Seq<Seq<char>>, first: Seq<Notice>, second: Seq<Notice>)
    ensures
        replayed(told, first + second) == replayed(replayed(told, first), second),
    decreases second.len(),
{
    if second.len() == 0 {
        assert(first + second =~= first);
    } else {
        lemma_replayed_joined(told, first, second.drop_last());
        assert((first + second).drop_last() =~= first + second.drop_last());
        assert((first + second).last() == second.last());
    }
}

/// The highlighter together with the text it has been told.
pub struct Bridge {
    engine: Highlighter,
    told: Ghost<Seq<Seq<char>>>,
    log: Ghost<Seq<Notice>>,
}

impl Bridge {
    /// The text as the highlighter knows it from the notifications so far.
    pub closed spec fn told(&self) -> Seq<Seq<char>> {
        self.told@
    }

    /// The notifications that the highlighter has been sent, in their order.
    pub closed spec fn log(&self) -> Seq<Notice> {
        self.log@
    }

    /// The highlighter holds one row of tokens for each row it was told.
    pub closed spec fn wf(&self) -> bool {
        &&& well_tokenized(self.engine)
        &&& highlighted_rows(self.engine) == self.told@.len()
    }

    /// A highlighter for files with the given extension, or one without rules
    /// where the extension is unknown. It has been told no rows.
    pub fn new(ext: &str, tab_width: usize) -> (bridge: Bridge)
        ensures
            bridge.wf(),
            bridge.told() == Seq::<Seq<char>>::empty(),
            bridge.log() == Seq::<Notice>::empty(),
    {
        let engine = match highlighter_for(ext, tab_width) {
            Some(h) => h,
            None => highlighter_new(tab_width),
        };
        Bridge { engine, told: Ghost(Seq::empty()), log: Ghost(Seq::empty()) }
    }

    /// The highlighter itself, for reading tokens. Where the bridge is
    /// well-formed it holds one row of tokens for each row it was told.
    pub fn engine(&self) -> (engine: &Highlighter)
        ensures
            self.wf() ==> well_tokenized(*engine) && highlighted_rows(*engine) == self.told().len(),
    {
        &self.engine
    }

    /// Tells the highlighter the whole text anew.
    pub fn run(&mut self, lines: &Lines)
        requires
            old(self).wf(),
        ensures
            final(self).wf(),
            final(self).told() == rows(*lines),
            final(self).log() == old(self).log().push(Notice::Run(rows(*lines))),
    {
        let n = lines_len(lines);
        let mut texts: Vec<String> = Vec::new();
        let mut i: usize = 0;
        while i < n
            invariant
                i <= n,
                n == rows(*lines).len(),
                texts.len() == i,
            decreases n - i,
        {
            match lines_row(lines, i) {
                Some(row) => texts.push(string_of(row)),
                None => texts.push(String::new()),
            }
            i += 1;
        }
        highlighter_run(&mut self.engine, &texts);
        self.told = Ghost(rows(*lines));
        self.log = Ghost(self.log@.push(Notice::Run(rows(*lines))));
    }

    /// Tells the highlighter that `row` now reads `text`.
    pub fn edit(&mut self, row: usize, text: &Vec<char>)
        requires
            old(self).wf(),
            row < old(self).told().len(),
        ensures
            final(self).wf(),
            final(self).told() == old(self).told().update(row as int, text@),
            final(self).log() == old(self).log().push(Notice::Edit(row as int, text@)),
    {
        let line = string_of(text);
        highlighter_edit(&mut self.engine, row, &line);
        self.told = Ghost(self.told@.update(row as int, text@));
        self.log = Ghost(self.log@.push(Notice::Edit(row as int, text@)));
    }

    /// Tells the highlighter that a row reading `text` was inserted at `row`.
    pub fn insert_line(&mut self, row: usize, text: &Vec<char>)
        requires
            old(self).wf(),
            row <= old(self).told().len(),
        ensures
            final(self).wf(),
            final(self).told() == old(self).told().insert(row as int, text@),
            final(self).log() == old(self).log().push(Notice::InsertLine(row as int, text@)),
    {
        let line = string_of(text);
        highlighter_insert_line(&mut self.engine, row, &line);
        self.told = Ghost(self.told@.insert(row as int, text@));
        self.log = Ghost(self.log@.push(Notice::InsertLine(row as int, text@)));
    }

    /// Tells the highlighter that the row at `row` was removed.
    pub fn remove_line(&mut self, row: usize)
        requires
            old(self).wf(),
            row < old(self).told().len(),
        ensures
            final(self).wf(),
            final(self).told() == old(self).told().remove(row as int),
            final(self).log() == old(self).log().push(Notice::RemoveLine(row as int)),
    {
        highlighter_remove_line(&mut self.engine, row);
        self.told = Ghost(self.told@.remove(row as int));
        self.log = Ghost(self.log@.push(Notice::RemoveLine(row as int)));
    }

    /// Tells the highlighter that a row reading `text` was added at the end.
    pub fn append(&mut self, text: &Vec<char>)
        requires
            old(self).wf(),
        ensures
            final(self).wf(),
            final(self).told() == old(self).told().push(text@),
            final(self).log() == old(self).log().push(Notice::Append(text@)),
    {
        let line = string_of(text);
        highlighter_append(&mut self.engine, &line);
        self.told = Ghost(self.told@.push(text@));
        self.log = Ghost(self.log@.push(Notice::Append(text@)));
    }
}

} // verus!
