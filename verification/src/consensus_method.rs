use vstd::prelude::*;

use crate::consensus_table::consensus_table::{
    spec_dont_care_entry, spec_initial_table, spec_solve_rel, ConesnsusTable,
};
use crate::dice::die::Die;

verus! {

/// Solves the given function in die form using the consensus method: the
/// required and don't-care dice become the initial table, and the fixpoint
/// merge-and-mark pass is run over it. When there is no required die at all
/// the don't-care entries are returned as they are, without solving. The
/// caller renders or further selects from the returned table.
pub fn solve_using_consensus_method<const N: usize>(
    dice: Vec<Die<N>>,
    dont_care: Vec<Die<N>>,
) -> (ret: ConesnsusTable<N>)
    requires
        forall|i: int| 0 <= i < dice@.len() ==> (#[trigger] dice@[i]).wf(),
        forall|i: int| 0 <= i < dont_care@.len() ==> (#[trigger] dont_care@[i]).wf(),
        dice@.len() + dont_care@.len() <= usize::MAX,
    ensures
        dice@.len() == 0 ==> ret@.len() == dont_care@.len() && (forall|i: int|
            0 <= i < dont_care@.len() ==> ret@[i] == spec_dont_care_entry(dont_care@[i], i)),
        dice@.len() > 0 ==> spec_solve_rel(spec_initial_table(dice@, dont_care@), ret@),
{
    let ghost dice_view = dice@;
    let ghost dont_care_view = dont_care@;
    let dice_empty = dice.is_empty();
    let mut table = ConesnsusTable::new(dice, dont_care);
    if dice_empty {
        return table;
    }
    proof {
        assert(table@ =~= spec_initial_table(dice_view, dont_care_view));
    }
    table.solve();
    table
}

} // verus!
