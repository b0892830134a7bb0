use vstd::prelude::*;

verus! {

/// The values a die's side can have: a concrete `Zero` or `One`, or the
/// wildcard `DontCare` that stands for either concrete value.
#[derive(Clone, Copy, Debug, PartialEq, Eq, Structural)]
pub enum DieSide {
    Zero,
    One,
    DontCare,
}

impl DieSide {
    /// True iff this side holds a concrete value rather than the wildcard.
    pub open spec fn is_concrete(self) -> bool {
        self != DieSide::DontCare
    }

    /// The character that denotes this side in the raw input notation.
    pub open spec fn spec_char(self) -> char {
        match self {
            DieSide::Zero => '0',
            DieSide::One => '1',
            DieSide::DontCare => '-',
        }
    }

    /// The side denoted by an input character; only meaningful for `0`, `1`, `-`.
    pub open spec fn spec_of_char(c: char) -> DieSide {
        match c {
            '0' => DieSide::Zero,
            '1' => DieSide::One,
            _ => DieSide::DontCare,
        }
    }

    /// True iff `c` is one of the three accepted input characters.
    pub open spec fn spec_valid_char(c: char) -> bool {
        c == '0' || c == '1' || c == '-'
    }
}

} // verus!
