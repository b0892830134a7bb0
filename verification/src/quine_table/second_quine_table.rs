use vstd::prelude::*;
use vstd::string::StringExecFns;

use crate::dice::die::spec_die_text;
use crate::text::spec_padded;

use super::second_quine_table_entry::SecondQuineTableEntry;

verus! {

/// The covering table: one row per die of the solved function, one column
/// per minterm value, intended for the final selection of a minimal cover.
pub struct SecondQuineTable<const N: usize> {
    entries: Vec<SecondQuineTableEntry<N>>,
}

impl<const N: usize> View for SecondQuineTable<N> {
    type V = Seq<SecondQuineTableEntry<N>>;

    closed spec fn view(&self) -> Seq<SecondQuineTableEntry<N>> {
        self.entries@
    }
}

/// One rendered cell of a row: a marker column holding `X` when the row's
/// die covers the column's term, padded to the passed width.
pub open spec fn spec_quine_cell(covered: bool, pad: nat) -> Seq<char> {
    seq!['┃', ' '] + spec_padded(
        seq![
            if covered {
                'X'
            } else {
                ' '
            },
        ],
        pad,
    ) + seq![' ']
}

/// The first `i` cells of a row, one per term, in the terms' order.
pub open spec fn spec_quine_cells<const N: usize>(
    entry: SecondQuineTableEntry<N>,
    terms: Seq<usize>,
    pad: nat,
    i: int,
) -> Seq<char>
    decreases i,
{
    if i <= 0 {
        Seq::empty()
    } else {
        spec_quine_cells(entry, terms, pad, i - 1) + spec_quine_cell(
            entry.covers@.contains(terms[i - 1]),
            pad,
        )
    }
}

/// One rendered row of the covering table: the die, then one marker cell
/// per term.
pub open spec fn spec_quine_row<const N: usize>(
    entry: SecondQuineTableEntry<N>,
    terms: Seq<usize>,
    pad: nat,
) -> Seq<char> {
    seq![' '] + spec_die_text(entry.die@) + seq![' '] + spec_quine_cells(
        entry,
        terms,
        pad,
        terms.len() as int,
    )
}

impl<const N: usize> SecondQuineTable<N> {
    /// Renders one row of the table: the entry's die, then for every term
    /// one cell marked `X` when the die covers it.
    pub fn entry_to_string(
        &self,
        entry: &SecondQuineTableEntry<N>,
        pad: usize,
        terms: &Vec<usize>,
    ) -> (ret: String)
        requires
            entry.die.wf(),
        ensures
            ret@ == spec_quine_row(*entry, terms@, pad as nat),
    {
        let mut ret = String::from_str(" ");
        ret.append(entry.die.to_string().as_str());
        ret.append(" ");
        proof {
            reveal_strlit(" ");
            assert(ret@ =~= seq![' '] + spec_die_text(entry.die@) + seq![' ']
                + spec_quine_cells(*entry, terms@, pad as nat, 0));
        }
        let mut i: usize = 0;
        while i < terms.len()
            invariant
                0 <= i <= terms@.len(),
                entry.die.wf(),
                ret@ == seq![' '] + spec_die_text(entry.die@) + seq![' '] + spec_quine_cells(
                    *entry,
                    terms@,
                    pad as nat,
                    i as int,
                ),
            decreases terms@.len() - i,
        {
            ret.append("┃ ");
            if entry.covers(terms[i]) {
                ret.append(crate::text::pad_right(String::from_str("X"), pad).as_str());
            } else {
                ret.append(crate::text::pad_right(String::from_str(" "), pad).as_str());
            }
            ret.append(" ");
            i += 1;
            proof {
                reveal_strlit(" ");
                reveal_strlit("X");
                reveal_strlit("┃ ");
                assert(ret@ =~= seq![' '] + spec_die_text(entry.die@) + seq![' ']
                    + spec_quine_cells(*entry, terms@, pad as nat, i as int));
            }
        }
        ret
    }

    /// The table's rows, for rendering or selection by the caller.
    pub fn entries(&self) -> (ret: &Vec<SecondQuineTableEntry<N>>)
        ensures
            ret@ == self@,
    {
        &self.entries
    }
}

impl<const N: usize> From<Vec<SecondQuineTableEntry<N>>> for SecondQuineTable<N> {
    fn from(entries: Vec<SecondQuineTableEntry<N>>) -> (ret: Self) {
        SecondQuineTable { entries }
    }
}

impl<const N: usize> vstd::std_specs::convert::FromSpecImpl<Vec<SecondQuineTableEntry<N>>> for SecondQuineTable<N> {
    open spec fn obeys_from_spec() -> bool {
        true
    }

    closed spec fn from_spec(v: Vec<SecondQuineTableEntry<N>>) -> Self {
        SecondQuineTable { entries: v }
    }
}

/// The view of a table built straight from a row list is that row list.
pub broadcast proof fn lemma_quine_from_entries_view<const N: usize>(
    v: Vec<SecondQuineTableEntry<N>>,
)
    ensures
        (#[trigger] <SecondQuineTable<N> as vstd::std_specs::convert::FromSpec<
            Vec<SecondQuineTableEntry<N>>,
        >>::from_spec(v))@ == v@,
{
}

} // verus!
