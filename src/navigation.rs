//! The two row cursors, one per column, and how they move.

use vstd::prelude::*;

verus! {

/// The row selected after moving down one row in a column of `len` rows:
/// the first row from nothing or from the last row, the next row otherwise;
/// nothing at all in an empty column.
pub open spec fn next_selection(selected: Option<usize>, len: nat) -> Option<usize> {
    if len == 0 {
        None
    } else {
        match selected {
            None => Some(0),
            Some(i) => if i >= len - 1 {
                Some(0)
            } else {
                Some((i + 1) as usize)
            },
        }
    }
}

/// The row selected after moving up one row in a column of `len` rows:
/// the first row from nothing, the last row from the first, the row above
/// otherwise; nothing at all in an empty column.
pub open spec fn previous_selection(selected: Option<usize>, len: nat) -> Option<usize> {
    if len == 0 {
        None
    } else {
        match selected {
            None => Some(0),
            Some(i) => if i == 0 {
                Some((len - 1) as usize)
            } else {
                Some((i - 1) as usize)
            },
        }
    }
}

/// Moves a cursor down one row of a column of `len` rows, wrapping to the top.
pub fn next_row_index(selected: Option<usize>, len: usize) -> (r: Option<usize>)
    ensures
        r == next_selection(selected, len as nat),
{
    if len == 0 {
        return None;
    }
    match selected {
        None => Some(0),
        Some(i) => if i >= len - 1 {
            Some(0)
        } else {
            Some(i + 1)
        },
    }
}

/// Moves a cursor up one row of a column of `len` rows, wrapping to the bottom.
pub fn previous_row_index(selected: Option<usize>, len: usize) -> (r: Option<usize>)
    ensures
        r == previous_selection(selected, len as nat),
{
    if len == 0 {
        return None;
    }
    match selected {
        None => Some(0),
        Some(i) => if i == 0 {
            Some(len - 1)
        } else {
            Some(i - 1)
        },
    }
}

/// Within a column, moving down one row and then up one row gives back the
/// row that was selected; so does moving up and then down.
pub proof fn lemma_next_then_previous(i: usize, len: nat)
    requires
        i < len,
        len <= usize::MAX,
    ensures
        previous_selection(next_selection(Some(i), len), len) == Some(i),
        next_selection(previous_selection(Some(i), len), len) == Some(i),
{
}

/// The selected row of the left column and of the right column.
#[derive(Clone, Copy, Debug, PartialEq, Eq, Structural)]
pub struct DiffState {
    old_diff: Option<usize>,
    current_diff: Option<usize>,
}

impl View for DiffState {
    type V = (Option<usize>, Option<usize>);

    closed spec fn view(&self) -> (Option<usize>, Option<usize>) {
        (self.old_diff, self.current_diff)
    }
}

impl DiffState {
    /// Both cursors on the first row.
    pub fn new() -> (r: DiffState)
        ensures
            r@ == (Some(0usize), Some(0usize)),
    {
        DiffState { old_diff: Some(0), current_diff: Some(0) }
    }

    /// The selected row of the left column.
    pub fn old_diff(&self) -> (r: Option<usize>)
        ensures
            r == self@.0,
    {
        self.old_diff
    }

    /// The selected row of the right column.
    pub fn current_diff(&self) -> (r: Option<usize>)
        ensures
            r == self@.1,
    {
        self.current_diff
    }

    /// Puts both cursors on the given rows.
    pub fn select(&mut self, old_diff: Option<usize>, current_diff: Option<usize>)
        ensures
            final(self)@ == (old_diff, current_diff),
    {
        self.old_diff = old_diff;
        self.current_diff = current_diff;
    }

    /// Puts both cursors back on the first row.
    pub fn reset_row_state(&mut self)
        ensures
            final(self)@ == (Some(0usize), Some(0usize)),
    {
        self.select(Some(0), Some(0));
    }
}

} // verus!
