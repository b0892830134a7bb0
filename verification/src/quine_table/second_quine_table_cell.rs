use vstd::prelude::*;

verus! {

/// One cell of the covering table: whether the row's die covers the column's
/// term, and the selection state the cell has reached.
#[derive(Clone, Copy)]
pub struct SecondQuineTableCell {
    pub entry: bool,
    state: CellState,
}

/// The selection states a covering-table cell can pass through while a
/// minimal cover is chosen.
#[derive(Clone, Copy)]
pub enum CellState {
    NA,
    Prime,
    DominatingRow,
    DominatingColumn,
}

impl SecondQuineTableCell {
    /// True iff the row's die covers the column's term.
    pub closed spec fn spec_entry(&self) -> bool {
        self.entry
    }

    /// True iff the cell still carries its initial, unconsidered state.
    pub closed spec fn is_unconsidered(&self) -> bool {
        self.state is NA
    }
}

impl Default for SecondQuineTableCell {
    fn default() -> (ret: Self)
        ensures
            !ret.spec_entry(),
            ret.is_unconsidered(),
    {
        Self { entry: false, state: CellState::NA }
    }
}

} // verus!
