use vstd::prelude::*;
use vstd::string::StringExecFns;

use crate::dice::die::{spec_die_text, spec_merged, spec_mergeable, Die};
use crate::text::{decimal_string, pad_right, spec_decimal, spec_padded};

verus! {

/// One row of the consensus table: a numeric identity (absent while the entry
/// is a pending merge candidate), the ids of the two entries merged to produce
/// it (absent for entries built from raw input terms), the die itself, a
/// coverage marker, and the don't-care flag.
///
/// The `covered` marker has three meaningful states: `None` (the entry is a
/// prime-implicant candidate), `Some(own id)` (an optional entry presumed
/// unused), and `Some(other id)` (properly subsumed by that entry).
#[derive(Debug, PartialEq, Eq)]
pub struct ConsensusTableEntry<const N: usize> {
    pub num: Option<usize>,
    pub creators: Option<[usize; 2]>,
    pub die: Die<N>,
    pub covered: Option<usize>,
    pub dont_care: bool,
}

impl<const N: usize> ConsensusTableEntry<N> {
    pub fn new(num: Option<usize>, die: Die<N>, dont_care: bool) -> (ret: Self)
        ensures
            ret == (ConsensusTableEntry {
                num,
                creators: None::<[usize; 2]>,
                die,
                covered: None::<usize>,
                dont_care,
            }),
    {
        ConsensusTableEntry { num, creators: None, die, covered: None, dont_care }
    }

    /// Attempts to merge two table entries according to the dice's merge
    /// implementation. If successful it returns a new pending entry whose
    /// creators are the two entries' ids, else `None`.
    pub fn merge(a: &ConsensusTableEntry<N>, b: &ConsensusTableEntry<N>) -> (ret: Option<Self>)
        requires
            a.die.wf(),
            b.die.wf(),
            a.num is Some,
            b.num is Some,
        ensures
            ret is Some <==> spec_mergeable(a.die@, b.die@),
            ret matches Some(e) ==> {
                &&& e.num is None
                &&& e.creators == Some([a.num->0, b.num->0])
                &&& e.die@ == spec_merged(a.die@, b.die@)
                &&& e.die.wf()
                &&& e.covered is None
                &&& !e.dont_care
            },
    {
        if let Some(merged_die) = a.die.merge(&b.die) {
            return Some(
                ConsensusTableEntry {
                    num: None,
                    creators: Some([a.num.unwrap(), b.num.unwrap()]),
                    die: merged_die,
                    covered: None,
                    dont_care: false,
                },
            );
        }
        None
    }

    /// Converts the entry to one table row of the form
    /// ` <num> ┃ <creators> ┃ <die> ┃ <covered> `, each column padded with
    /// spaces to the passed width. The last column is the three-way coverage
    /// indicator: empty for a prime-implicant candidate, `X` for an entry
    /// covered by its own id (an unused optional term), and `⊆ <id>` for one
    /// properly subsumed by another entry.
    pub fn to_string(
        &self,
        pad_num: usize,
        pad_creators: usize,
        pad_die: usize,
        pad_covered: usize,
    ) -> (ret: String)
        requires
            self.die.wf(),
        ensures
            ret@ == spec_row_text(
                *self,
                pad_num as nat,
                pad_creators as nat,
                pad_die as nat,
                pad_covered as nat,
            ),
    {
        let covered = match self.covered {
            Some(val) => {
                let is_own = match self.num {
                    Some(num) => num == val,
                    None => false,
                };
                if is_own {
                    proof {
                        reveal_strlit("X");
                    }
                    String::from_str("X")
                } else {
                    proof {
                        reveal_strlit("⊆ ");
                    }
                    let mut s = String::from_str("⊆ ");
                    s.append(decimal_string(val).as_str());
                    s
                }
            },
            None => String::new(),
        };
        proof {
            assert(covered@ =~= spec_covered_text(*self));
        }

        let num = match self.num {
            Some(val) => decimal_string(val),
            None => String::new(),
        };
        proof {
            assert(num@ =~= spec_num_text(*self));
        }

        let creators = match self.creators {
            Some(c) => {
                let mut s = decimal_string(c[0]);
                s.append(", ");
                s.append(decimal_string(c[1]).as_str());
                proof {
                    reveal_strlit(", ");
                }
                s
            },
            None => String::new(),
        };
        proof {
            assert(creators@ =~= spec_creators_text(*self));
        }

        let mut out = String::from_str(" ");
        out.append(pad_right(num, pad_num).as_str());
        out.append(" ┃ ");
        out.append(pad_right(creators, pad_creators).as_str());
        out.append(" ┃ ");
        out.append(pad_right(self.die.to_string(), pad_die).as_str());
        out.append(" ┃ ");
        out.append(pad_right(covered, pad_covered).as_str());
        out.append(" ");
        proof {
            reveal_strlit(" ");
            reveal_strlit(" ┃ ");
            assert(out@ =~= spec_row_text(
                *self,
                pad_num as nat,
                pad_creators as nat,
                pad_die as nat,
                pad_covered as nat,
            ));
        }
        out
    }
}

/// The three-way coverage indicator of an entry: empty while the entry is a
/// prime-implicant candidate, `X` for the self-marked unused optional entry,
/// `⊆ <id>` for an entry properly subsumed by the entry with that id.
pub open spec fn spec_covered_text<const N: usize>(e: ConsensusTableEntry<N>) -> Seq<char> {
    match e.covered {
        Some(val) => if e.num == Some(val) {
            seq!['X']
        } else {
            seq!['⊆', ' '] + spec_decimal(val as nat)
        },
        None => Seq::empty(),
    }
}

/// The id column of an entry: its decimal id, or empty while none is
/// assigned.
pub open spec fn spec_num_text<const N: usize>(e: ConsensusTableEntry<N>) -> Seq<char> {
    match e.num {
        Some(val) => spec_decimal(val as nat),
        None => Seq::empty(),
    }
}

/// The provenance column of an entry: the two parent ids separated by a
/// comma, or empty for an entry built from an input term.
pub open spec fn spec_creators_text<const N: usize>(e: ConsensusTableEntry<N>) -> Seq<char> {
    match e.creators {
        Some(c) => spec_decimal(c[0] as nat) + seq![',', ' '] + spec_decimal(c[1] as nat),
        None => Seq::empty(),
    }
}

/// One rendered table row, each column padded to the passed width.
pub open spec fn spec_row_text<const N: usize>(
    e: ConsensusTableEntry<N>,
    pad_num: nat,
    pad_creators: nat,
    pad_die: nat,
    pad_covered: nat,
) -> Seq<char> {
    seq![' '] + spec_padded(spec_num_text(e), pad_num) + seq![' ', '┃', ' '] + spec_padded(
        spec_creators_text(e),
        pad_creators,
    ) + seq![' ', '┃', ' '] + spec_padded(spec_die_text(e.die@), pad_die) + seq![' ', '┃', ' ']
        + spec_padded(spec_covered_text(e), pad_covered) + seq![' ']
}

} // verus!
