//! The in-cell editor's state: a commit that carries the cursor's next step,
//! a value the column cannot hold refused in place, and a blur that commits
//! only an edit not already finished.

use vstd::prelude::*;

verus! {

/// How an edit ended.
#[derive(PartialEq, Eq, Debug)]
pub enum EditOutcome {
    /// Keep `value` and move the cursor by `(rows, columns)`.
    Commit { value: String, move_by: (isize, isize) },
    /// Leave the cell as it was.
    Cancel,
}

/// A key the editor answers.
#[derive(Clone, Copy, PartialEq, Eq, Debug, Structural)]
pub enum EditKey {
    Enter,
    Tab { shift: bool },
    Escape,
    Other,
}

/// The editor: what is typed, whether the last commit was refused, and
/// whether the edit is over.
pub struct CellEdit {
    pub value: String,
    pub invalid: bool,
    pub finished: bool,
}

/// Where a key moves the cursor once it commits: Enter down, Tab right,
/// Shift+Tab left.
pub open spec fn key_move(key: EditKey) -> Option<(isize, isize)> {
    match key {
        EditKey::Enter => Some((1isize, 0isize)),
        EditKey::Tab { shift } => if shift { Some((0isize, -1isize)) } else { Some((0isize, 1isize)) },
        _ => None,
    }
}

impl CellEdit {
    /// An editor opened on a cell holding `initial`.
    pub fn new(initial: String) -> (e: Self)
        ensures
            e.value == initial,
            !e.invalid,
            !e.finished,
    {
        CellEdit { value: initial, invalid: false, finished: false }
    }

    /// The user typed: a refusal clears once the text changes.
    pub fn input(&mut self, value: String)
        ensures
            final(self).value == value,
            !final(self).invalid,
            final(self).finished == old(self).finished,
    {
        self.value = value;
        self.invalid = false;
    }

    /// Commit with the cursor moving by `move_by`; `parses` says whether the
    /// column's type can hold the text. A refused value stays in the editor,
    /// marked invalid.
    pub fn commit(&mut self, move_by: (isize, isize), parses: bool) -> (r: Option<EditOutcome>)
        ensures
            final(self).value == old(self).value,
            parses ==> r == Some(EditOutcome::Commit { value: old(self).value, move_by })
                && final(self).finished && final(self).invalid == old(self).invalid,
            !parses ==> r is None && final(self).invalid && final(self).finished == old(self).finished,
    {
        if !parses {
            self.invalid = true;
            return None;
        }
        self.finished = true;
        Some(EditOutcome::Commit { value: self.value.clone(), move_by })
    }

    /// A key in the editor: Escape cancels, Enter and Tab commit with their
    /// move, anything else is the field's.
    pub fn key(&mut self, key: EditKey, parses: bool) -> (r: Option<EditOutcome>)
        ensures
            key == EditKey::Escape ==> r == Some(EditOutcome::Cancel) && final(self).finished
                && final(self).value == old(self).value && final(self).invalid == old(self).invalid,
            key == EditKey::Other ==> r is None && *final(self) == *old(self),
            key_move(key) matches Some(m) ==> (parses ==> r == Some(EditOutcome::Commit { value: old(self).value, move_by: m })
                && final(self).finished) && (!parses ==> r is None && final(self).invalid),
            final(self).value == old(self).value,
    {
        match key {
            EditKey::Escape => {
                self.finished = true;
                Some(EditOutcome::Cancel)
            },
            EditKey::Enter => self.commit((1, 0), parses),
            EditKey::Tab { shift } => if shift { self.commit((0, -1), parses) } else { self.commit((0, 1), parses) },
            EditKey::Other => None,
        }
    }

    /// Focus left the editor: an edit not yet over commits in place.
    pub fn blur(&mut self, parses: bool) -> (r: Option<EditOutcome>)
        ensures
            old(self).finished ==> r is None && *final(self) == *old(self),
            !old(self).finished && parses ==> r == Some(EditOutcome::Commit { value: old(self).value, move_by: (0isize, 0isize) }),
            !old(self).finished && !parses ==> r is None && final(self).invalid,
    {
        if self.finished {
            return None;
        }
        self.commit((0, 0), parses)
    }
}

} // verus!
