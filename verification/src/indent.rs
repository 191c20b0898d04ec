//! The indentation state that is threaded through a run over siblings.

use vstd::prelude::*;
use vstd::string::*;
use crate::keyword::{Keyword, Role};

verus! {

/// Number of spaces per indentation level.
pub const INDENT_SIZE: usize = 2;

/// The leading spaces of a line at `level`.
pub open spec fn indent(level: int) -> Seq<char> {
    Seq::new((level * INDENT_SIZE) as nat, |i: int| ' ')
}

/// Appends the leading spaces of a line at `level`.
pub fn push_indent(out: &mut String, level: usize)
    ensures
        final(out)@ == old(out)@ + indent(level as int),
{
    let mut done: usize = 0;
    while done < level
        invariant
            done <= level,
            out@ == old(out)@ + indent(done as int),
        decreases level - done,
    {
        let ghost line = out@;
        let mut written: usize = 0;
        while written < INDENT_SIZE
            invariant
                written <= INDENT_SIZE,
                out@ == line + Seq::new(written as nat, |i: int| ' '),
            decreases INDENT_SIZE - written,
        {
            proof {
                reveal_strlit(" ");
            }
            out.append(" ");
            written += 1;
            assert(out@ =~= line + Seq::new(written as nat, |i: int| ' '));
        }
        done += 1;
        assert(out@ =~= old(out)@ + indent(done as int));
    }
    assert(out@ =~= old(out)@ + indent(level as int));
}

/// The change that a sibling classified as `keyword` makes to the level of
/// the siblings after it: one up for an opener, one down for a closer.
pub open spec fn delta(keyword: Option<Keyword>) -> int {
    match keyword {
        Some(k) => match k.role() {
            Role::Opener => 1,
            Role::Mid => 0,
            Role::Closer => -1,
        },
        None => 0,
    }
}

/// How far a sibling classified as `keyword` is itself pulled back from
/// the level in force when it is reached: one level for a branch and for
/// a closer.
pub open spec fn outdent(keyword: Option<Keyword>) -> int {
    match keyword {
        Some(k) => match k.role() {
            Role::Opener => 0,
            Role::Mid => 1,
            Role::Closer => 1,
        },
        None => 0,
    }
}

/// The two counters of a run: the level of the line that is being emitted,
/// and the level that applies from the next sibling on.
///
/// Between siblings the two are equal. They differ only while one sibling
/// is being handled, from `enter` to `leave`.
#[derive(Clone, Copy, Debug, PartialEq, Eq, Structural)]
pub struct IndentState {
    pub current: usize,
    pub pending: usize,
}

impl IndentState {
    /// The state between two siblings: both counters agree.
    pub open spec fn settled(self) -> bool {
        self.current == self.pending
    }

    /// A sibling classified as `keyword` can be entered: no counter would
    /// leave the range of its type.
    pub open spec fn admits(self, keyword: Option<Keyword>) -> bool {
        &&& 0 <= self.current - outdent(keyword)
        &&& 0 <= self.pending + delta(keyword) <= usize::MAX
    }

    /// The state in which a sibling classified as `keyword` is emitted.
    pub open spec fn entered(self, keyword: Option<Keyword>) -> IndentState {
        IndentState {
            current: (self.current - outdent(keyword)) as usize,
            pending: (self.pending + delta(keyword)) as usize,
        }
    }

    /// The state before the first sibling.
    pub fn new() -> (state: IndentState)
        ensures
            state.current == 0,
            state.pending == 0,
    {
        IndentState { current: 0, pending: 0 }
    }

    /// Whether a sibling classified as `keyword` can be entered.
    pub fn can_enter(self, keyword: Option<Keyword>) -> (ok: bool)
        ensures
            ok == self.admits(keyword),
    {
        match keyword {
            Some(k) => match k.role() {
                Role::Opener => self.pending < usize::MAX,
                Role::Mid => self.current >= 1,
                Role::Closer => self.current >= 1 && self.pending >= 1,
            },
            None => true,
        }
    }

    /// Takes up a sibling classified as `keyword`. An opener raises the
    /// level of what follows and is itself emitted at the level in force;
    /// a branch is emitted one level back and leaves what follows alone; a
    /// closer is emitted one level back and lowers what follows. Any other
    /// sibling changes nothing.
    pub fn enter(self, keyword: Option<Keyword>) -> (state: IndentState)
        requires
            self.admits(keyword),
        ensures
            state == self.entered(keyword),
            keyword is None ==> state == self,
    {
        match keyword {
            Some(k) => match k.role() {
                Role::Opener => IndentState { current: self.current, pending: self.pending + 1 },
                Role::Mid => IndentState { current: self.current - 1, pending: self.pending },
                Role::Closer => IndentState {
                    current: self.current - 1,
                    pending: self.pending - 1,
                },
            },
            None => self,
        }
    }

    /// Finishes a sibling: the level of the next line is the pending one.
    pub fn leave(self) -> (state: IndentState)
        ensures
            state.current == self.pending,
            state.pending == self.pending,
            state.settled(),
    {
        IndentState { current: self.pending, pending: self.pending }
    }
}

} // verus!
