use vstd::prelude::*;

verus! {

/// The highlighted row of a list or a table on screen.
///
/// The views keep only which row is highlighted; scrolling the drawn list so
/// that this row is visible is left to the terminal widgets.
#[derive(Clone, Copy, Debug)]
pub struct ListSelection {
    pub selected: Option<usize>,
}

impl ListSelection {
    /// A selection with no highlighted row.
    pub fn new() -> (s: Self)
        ensures
            s.selected is None,
    {
        ListSelection { selected: None }
    }

    /// The highlighted row, if any.
    pub fn selected(&self) -> (r: Option<usize>)
        ensures
            r == self.selected,
    {
        self.selected
    }

    /// Highlights `index`, or nothing when it is `None`.
    pub fn select(&mut self, index: Option<usize>)
        ensures
            final(self).selected == index,
    {
        self.selected = index;
    }
}

} // verus!
