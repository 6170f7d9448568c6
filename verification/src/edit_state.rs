//! The edit cursor and the places it has been.

use vstd::prelude::*;

verus! {

/// The edit cursor with its history.
///
/// The history holds, before `cursor_history_current`, the places that going
/// back leads to, latest last, and from it on the places that going forward
/// leads to, nearest first.
#[derive(Clone, Debug, PartialEq, Eq)]
pub struct EditState {
    /// Offset of the byte being edited.
    pub cursor: usize,
    pub cursor_history: Vec<usize>,
    pub cursor_history_current: usize,
}

impl EditState {
    /// The history position lies inside the history.
    pub open spec fn wf(&self) -> bool {
        self.cursor_history_current <= self.cursor_history@.len()
    }

    /// The places that going back leads to, latest last.
    pub open spec fn behind(&self) -> Seq<usize> {
        self.cursor_history@.take(self.cursor_history_current as int)
    }

    /// The places that going forward leads to, nearest first.
    pub open spec fn ahead(&self) -> Seq<usize> {
        self.cursor_history@.skip(self.cursor_history_current as int)
    }

    /// The cursor at the first byte, with no history.
    pub fn new() -> (s: EditState)
        ensures
            s.wf(),
            s.cursor == 0,
            s.behind() =~= Seq::empty(),
            s.ahead() =~= Seq::empty(),
    {
        EditState { cursor: 0, cursor_history: Vec::new(), cursor_history_current: 0 }
    }

    /// Moves the cursor to `offset` and remembers where it was. What lay
    /// ahead is forgotten.
    pub fn set_cursor(&mut self, offset: usize)
        requires
            old(self).wf(),
            old(self).cursor_history_current < usize::MAX,
        ensures
            final(self).wf(),
            final(self).cursor == offset,
            final(self).behind() =~= old(self).behind().push(old(self).cursor),
            final(self).ahead() =~= Seq::empty(),
    {
        self.cursor_history.truncate(self.cursor_history_current);
        self.cursor_history.push(self.cursor);
        self.cursor_history_current = self.cursor_history_current + 1;
        self.cursor = offset;
    }

    /// Moves the cursor to `offset` and leaves the history as it is.
    pub fn set_cursor_no_history(&mut self, offset: usize)
        ensures
            *final(self) == (EditState { cursor: offset, ..*old(self) }),
    {
        self.cursor = offset;
    }

    /// Takes the cursor back to where it was before, if it was anywhere, and
    /// tells whether it moved. The place left lies ahead afterwards.
    pub fn cursor_history_back(&mut self) -> (moved: bool)
        requires
            old(self).wf(),
        ensures
            final(self).wf(),
            moved == (old(self).behind().len() > 0),
            !moved ==> *final(self) == *old(self),
            moved ==> {
                &&& final(self).cursor == old(self).behind().last()
                &&& final(self).behind() =~= old(self).behind().drop_last()
                &&& final(self).ahead() =~= seq![old(self).cursor] + old(self).ahead()
            },
    {
        if self.cursor_history_current > 0 {
            let at = self.cursor_history_current - 1;
            let prev = self.cursor_history[at];
            self.cursor_history.set(at, self.cursor);
            self.cursor_history_current = at;
            self.cursor = prev;
            true
        } else {
            false
        }
    }

    /// Takes the cursor forward to where it came back from, if it came back
    /// from anywhere, and tells whether it moved. The place left lies
    /// behind afterwards.
    pub fn cursor_history_forward(&mut self) -> (moved: bool)
        requires
            old(self).wf(),
        ensures
            final(self).wf(),
            moved == (old(self).ahead().len() > 0),
            !moved ==> *final(self) == *old(self),
            moved ==> {
                &&& final(self).cursor == old(self).ahead()[0]
                &&& final(self).behind() =~= old(self).behind().push(old(self).cursor)
                &&& final(self).ahead() =~= old(self).ahead().skip(1)
            },
    {
        if self.cursor_history_current < self.cursor_history.len() {
            let at = self.cursor_history_current;
            let next = self.cursor_history[at];
            self.cursor_history.set(at, self.cursor);
            self.cursor_history_current = at + 1;
            self.cursor = next;
            true
        } else {
            false
        }
    }
}

} // verus!
