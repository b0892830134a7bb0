use vstd::prelude::*;
use vstd::string::StringExecFns;

use super::die_side::DieSide;

verus! {

/// A boolean algebraic die: a fixed-width vector of `N` ternary sides,
/// representing one generalized input combination (a cube) of an `N`-variable
/// boolean function.
#[derive(Debug, PartialEq, Eq)]
pub struct Die<const N: usize> {
    pub content: Vec<DieSide>,
}

/// The error conditions raised when a die is constructed from a raw string.
#[derive(Clone, Copy, Debug, PartialEq, Eq, Structural)]
pub enum DieError {
    /// The string's length differs from the die's width `N`.
    InvalidWidth,
    /// The string holds a character other than `0`, `1` and `-`.
    InvalidSymbol,
}

impl<const N: usize> View for Die<N> {
    type V = Seq<DieSide>;

    open spec fn view(&self) -> Seq<DieSide> {
        self.content@
    }
}

/// `a` covers `b`: wherever `a` holds a concrete side, `b` holds the identical
/// concrete side; `DontCare` sides of `a` match anything in `b`.
pub open spec fn spec_covers(a: Seq<DieSide>, b: Seq<DieSide>) -> bool {
    forall|i: int|
        0 <= i < a.len() ==> (#[trigger] a[i] == DieSide::DontCare || a[i] == b[i])
}

/// `a` and `b` hold differing concrete sides at coordinate `i`.
pub open spec fn spec_diff_at(a: Seq<DieSide>, b: Seq<DieSide>, i: int) -> bool {
    a[i] != DieSide::DontCare && b[i] != DieSide::DontCare && a[i] != b[i]
}

/// Coordinate `i` is the only one where `a` and `b` hold differing concrete
/// sides.
pub open spec fn spec_unique_diff(a: Seq<DieSide>, b: Seq<DieSide>, i: int) -> bool {
    &&& 0 <= i < a.len()
    &&& spec_diff_at(a, b, i)
    &&& forall|j: int| 0 <= j < a.len() && j != i ==> !(#[trigger] spec_diff_at(a, b, j))
}

/// `a` and `b` can be merged: they have the same width and differ in exactly
/// one coordinate holding concrete sides, ignoring `DontCare` coordinates.
pub open spec fn spec_mergeable(a: Seq<DieSide>, b: Seq<DieSide>) -> bool {
    a.len() == b.len() && exists|i: int| #[trigger] spec_unique_diff(a, b, i)
}

/// The merge of `a` and `b`: the single differing coordinate becomes
/// `DontCare`; elsewhere a concrete side of either die is kept.
pub open spec fn spec_merged(a: Seq<DieSide>, b: Seq<DieSide>) -> Seq<DieSide> {
    Seq::new(
        a.len(),
        |i: int|
            if spec_diff_at(a, b, i) {
                DieSide::DontCare
            } else if a[i] == DieSide::DontCare {
                b[i]
            } else {
                a[i]
            },
    )
}

/// The raw `{0,1,-}` notation of a die's sides.
pub open spec fn spec_binary_chars(s: Seq<DieSide>) -> Seq<char> {
    Seq::new(s.len(), |i: int| s[i].spec_char())
}

/// The first `i` sides of a die in the `(s1 s2 ... sN)` notation, without
/// the parentheses: the sides' characters separated by single spaces.
pub open spec fn spec_die_body(s: Seq<DieSide>, i: int) -> Seq<char>
    decreases i,
{
    if i <= 0 {
        Seq::empty()
    } else if i == 1 {
        seq![s[0].spec_char()]
    } else {
        spec_die_body(s, i - 1) + seq![' ', s[i - 1].spec_char()]
    }
}

/// The canonical `(s1 s2 ... sN)` notation of a die.
pub open spec fn spec_die_text(s: Seq<DieSide>) -> Seq<char> {
    seq!['('] + spec_die_body(s, s.len() as int) + seq![')']
}

/// Covering is reflexive: every die covers itself.
pub proof fn lemma_covers_reflexive(a: Seq<DieSide>)
    ensures
        spec_covers(a, a),
{
}

/// Covering is transitive: if `a` covers `b` and `b` covers `c`, then `a`
/// covers `c`.
pub proof fn lemma_covers_transitive(a: Seq<DieSide>, b: Seq<DieSide>, c: Seq<DieSide>)
    requires
        a.len() == b.len(),
        b.len() == c.len(),
        spec_covers(a, b),
        spec_covers(b, c),
    ensures
        spec_covers(a, c),
{
    assert forall|i: int|
        0 <= i < a.len() implies (#[trigger] a[i] == DieSide::DontCare || a[i] == c[i]) by {
        if a[i] != DieSide::DontCare {
            assert(a[i] == b[i]);
        }
    }
}

/// Merging does not depend on the order of its arguments: the two dice are
/// mergeable either way round, and both orders yield the identical die.
pub proof fn lemma_merge_symmetric(a: Seq<DieSide>, b: Seq<DieSide>)
    requires
        a.len() == b.len(),
    ensures
        spec_mergeable(a, b) == spec_mergeable(b, a),
        spec_mergeable(a, b) ==> spec_merged(a, b) == spec_merged(b, a),
{
    if spec_mergeable(a, b) {
        let i = choose|i: int| #[trigger] spec_unique_diff(a, b, i);
        assert(spec_unique_diff(b, a, i)) by {
            assert forall|j: int| 0 <= j < b.len() && j != i implies !(#[trigger] spec_diff_at(
                b,
                a,
                j,
            )) by {
                assert(!spec_diff_at(a, b, j));
            }
        }
        assert(spec_mergeable(b, a));
        assert(spec_merged(a, b) =~= spec_merged(b, a));
    }
    if spec_mergeable(b, a) {
        let i = choose|i: int| #[trigger] spec_unique_diff(b, a, i);
        assert(spec_unique_diff(a, b, i)) by {
            assert forall|j: int| 0 <= j < a.len() && j != i implies !(#[trigger] spec_diff_at(
                a,
                b,
                j,
            )) by {
                assert(!spec_diff_at(b, a, j));
            }
        }
        assert(spec_mergeable(a, b));
    }
}

/// When two dice with `DontCare` sides at the same positions merge, the
/// merged die covers both of them. (With differing wildcard positions this
/// can fail: `(1 - 1 0)` and `(0 0 1 -)` merge to `(- 0 1 0)`, whose concrete
/// second side does not match the wildcard of the first die.)
pub proof fn lemma_merged_covers_both(a: Seq<DieSide>, b: Seq<DieSide>)
    requires
        spec_mergeable(a, b),
        forall|i: int|
            0 <= i < a.len() ==> ((#[trigger] a[i] == DieSide::DontCare) <==> b[i]
                == DieSide::DontCare),
    ensures
        spec_covers(spec_merged(a, b), a),
        spec_covers(spec_merged(a, b), b),
{
}

impl<const N: usize> Die<N> {
    /// A die is well formed when it holds exactly `N` sides.
    pub open spec fn wf(&self) -> bool {
        self.content@.len() == N
    }

    /// Builds a die from the raw `N`-character `{0,1,-}` notation. The input
    /// must already have been validated: `try_new` accepts any string and
    /// reports `InvalidWidth` and `InvalidSymbol` conditions instead.
    pub fn new(value: &str) -> (ret: Die<N>)
        requires
            value@.len() == N,
            forall|i: int|
                0 <= i < value@.len() ==> DieSide::spec_valid_char(#[trigger] value@[i]),
        ensures
            ret.wf(),
            forall|i: int| 0 <= i < N ==> ret@[i] == DieSide::spec_of_char(value@[i]),
    {
        let mut content: Vec<DieSide> = Vec::new();
        let mut i: usize = 0;
        while i < N
            invariant
                0 <= i <= N,
                value@.len() == N,
                forall|j: int|
                    0 <= j < value@.len() ==> DieSide::spec_valid_char(#[trigger] value@[j]),
                content@.len() == i,
                forall|j: int| 0 <= j < i ==> content@[j] == DieSide::spec_of_char(value@[j]),
            decreases N - i,
        {
            let c = value.get_char(i);
            if c == '0' {
                content.push(DieSide::Zero);
            } else if c == '1' {
                content.push(DieSide::One);
            } else {
                content.push(DieSide::DontCare);
            }
            i += 1;
        }
        Die { content }
    }

    /// Validates the raw notation and builds a die. Fails with
    /// `InvalidWidth` when the string's length is not `N`, and with
    /// `InvalidSymbol` when the length fits but a character outside
    /// `{0,1,-}` occurs.
    pub fn try_new(value: &str) -> (ret: Result<Die<N>, DieError>)
        ensures
            match ret {
                Ok(d) => {
                    &&& value@.len() == N
                    &&& forall|i: int|
                        0 <= i < value@.len() ==> DieSide::spec_valid_char(#[trigger] value@[i])
                    &&& d.wf()
                    &&& forall|i: int| 0 <= i < N ==> d@[i] == DieSide::spec_of_char(value@[i])
                },
                Err(e) => {
                    &&& (e == DieError::InvalidWidth <==> value@.len() != N)
                    &&& (e == DieError::InvalidSymbol <==> (value@.len() == N && exists|i: int|
                        0 <= i < value@.len() && !DieSide::spec_valid_char(#[trigger] value@[i])))
                },
            },
            ret is Err <==> (value@.len() != N || exists|i: int|
                0 <= i < value@.len() && !DieSide::spec_valid_char(#[trigger] value@[i])),
    {
        if value.unicode_len() != N {
            return Err(DieError::InvalidWidth);
        }
        let mut i: usize = 0;
        while i < N
            invariant
                0 <= i <= N,
                value@.len() == N,
                forall|j: int|
                    0 <= j < i ==> DieSide::spec_valid_char(#[trigger] value@[j]),
            decreases N - i,
        {
            let c = value.get_char(i);
            if !(c == '0' || c == '1' || c == '-') {
                return Err(DieError::InvalidSymbol);
            }
            i += 1;
        }
        Ok(Self::new(value))
    }

    /// Tries to merge two dice. Two dice are mergeable when they differ in
    /// exactly one side, ignoring `DontCare` sides. If the dice are mergeable
    /// the merged die is returned, else `None`.
    ///
    /// Example: `(1 - 1 0)` and `(0 0 1 -)` merge to `(- 0 1 0)`.
    pub fn merge(&self, other: &Die<N>) -> (ret: Option<Die<N>>)
        requires
            self.wf(),
            other.wf(),
        ensures
            ret is Some <==> spec_mergeable(self@, other@),
            ret matches Some(d) ==> d@ == spec_merged(self@, other@) && d.wf(),
    {
        // check how many differing sides the dice have, ignoring DontCares
        let mut diffs: Vec<usize> = Vec::new();
        let mut i: usize = 0;
        while i < N
            invariant
                0 <= i <= N,
                self.wf(),
                other.wf(),
                forall|k: int|
                    0 <= k < diffs@.len() ==> 0 <= #[trigger] diffs@[k] < i && spec_diff_at(
                        self@,
                        other@,
                        diffs@[k] as int,
                    ),
                forall|k1: int, k2: int|
                    0 <= k1 < k2 < diffs@.len() ==> diffs@[k1] < diffs@[k2],
                forall|j: int|
                    0 <= j < i && spec_diff_at(self@, other@, j) ==> exists|k: int|
                        0 <= k < diffs@.len() && #[trigger] diffs@[k] == j,
            decreases N - i,
        {
            let ghost prev = diffs@;
            if self.content[i] != DieSide::DontCare && other.content[i] != DieSide::DontCare
                && self.content[i] != other.content[i] {
                diffs.push(i);
            }
            proof {
                assert forall|j: int|
                    0 <= j < i + 1 && spec_diff_at(self@, other@, j) implies exists|k: int|
                    0 <= k < diffs@.len() && #[trigger] diffs@[k] == j by {
                    if j == i as int {
                        assert(diffs@[diffs@.len() - 1] == i);
                    } else {
                        let k = choose|k: int| 0 <= k < prev.len() && #[trigger] prev[k] == j;
                        assert(diffs@[k] == j);
                    }
                }
            }
            i += 1;
        }

        // if there is not exactly one difference, the dice can't be merged
        if diffs.len() != 1 {
            proof {
                assert(!spec_mergeable(self@, other@)) by {
                    if spec_mergeable(self@, other@) {
                        let d = choose|d: int| #[trigger] spec_unique_diff(self@, other@, d);
                        assert(spec_diff_at(self@, other@, d));
                        assert(exists|k: int|
                            0 <= k < diffs@.len() && #[trigger] diffs@[k] == d);
                        if diffs@.len() >= 2 {
                            let other_diff: int = if diffs@[0] as int == d {
                                diffs@[1] as int
                            } else {
                                diffs@[0] as int
                            };
                            assert(spec_diff_at(self@, other@, other_diff));
                            assert(other_diff != d);
                        }
                    }
                }
            }
            return None;
        }

        let mut merged: Vec<DieSide> = Vec::new();
        let mut i: usize = 0;
        while i < N
            invariant
                0 <= i <= N,
                self.wf(),
                other.wf(),
                merged@.len() == i,
                forall|j: int| 0 <= j < i ==> #[trigger] merged@[j] == spec_merged(self@, other@)[j],
            decreases N - i,
        {
            if self.content[i] != DieSide::DontCare && other.content[i] != DieSide::DontCare
                && self.content[i] != other.content[i] {
                // the one difference becomes DontCare
                merged.push(DieSide::DontCare);
            } else if self.content[i] == DieSide::DontCare {
                // this die has a DontCare: copy the other die's side
                merged.push(other.content[i]);
            } else {
                // either both sides are equal or the other one is a DontCare:
                // this die's side can be kept
                merged.push(self.content[i]);
            }
            i += 1;
        }

        proof {
            let d0 = diffs@[0] as int;
            assert(spec_unique_diff(self@, other@, d0)) by {
                assert forall|j: int|
                    0 <= j < self@.len() && j != d0 implies !(#[trigger] spec_diff_at(
                    self@,
                    other@,
                    j,
                )) by {
                    if spec_diff_at(self@, other@, j) {
                        let k = choose|k: int| 0 <= k < diffs@.len() && #[trigger] diffs@[k] == j;
                        assert(k == 0);
                    }
                }
            }
            assert(spec_mergeable(self@, other@));
            assert(merged@ =~= spec_merged(self@, other@));
        }
        Some(Die { content: merged })
    }

    /// Checks if this die covers the passed die: every side is the same, or
    /// `DontCare` on this die.
    ///
    /// Example: `(- 0 1)` covers `(1 0 1)`.
    pub fn covers(&self, other: &Die<N>) -> (ret: bool)
        requires
            self.wf(),
            other.wf(),
        ensures
            ret == spec_covers(self@, other@),
    {
        let mut i: usize = 0;
        while i < N
            invariant
                0 <= i <= N,
                self.wf(),
                other.wf(),
                forall|j: int|
                    0 <= j < i ==> (#[trigger] self@[j] == DieSide::DontCare || self@[j]
                        == other@[j]),
            decreases N - i,
        {
            if self.content[i] != DieSide::DontCare && self.content[i] != other.content[i] {
                return false;
            }
            i += 1;
        }
        true
    }

    /// The die's sides as one `{0,1,-}` character each, the raw input
    /// notation.
    pub fn as_binary_string(&self) -> (ret: String)
        requires
            self.wf(),
        ensures
            ret@ == spec_binary_chars(self@),
    {
        let mut out = String::new();
        let mut i: usize = 0;
        while i < N
            invariant
                0 <= i <= N,
                self.wf(),
                out@.len() == i,
                forall|j: int| 0 <= j < i ==> out@[j] == self@[j].spec_char(),
            decreases N - i,
        {
            out.append(side_str(&self.content[i]));
            i += 1;
        }
        proof {
            assert(out@ =~= spec_binary_chars(self@));
        }
        out
    }

    /// The die as text in the canonical `(s1 s2 ... sN)` notation.
    pub fn to_string(&self) -> (ret: String)
        requires
            self.wf(),
        ensures
            ret@ == spec_die_text(self@),
    {
        let mut out = String::from_str("(");
        proof {
            reveal_strlit("(");
            assert(out@ =~= seq!['('] + spec_die_body(self@, 0));
        }
        let mut i: usize = 0;
        while i < N
            invariant
                0 <= i <= N,
                self.wf(),
                out@ == seq!['('] + spec_die_body(self@, i as int),
            decreases N - i,
        {
            if i > 0 {
                out.append(" ");
            }
            out.append(side_str(&self.content[i]));
            i += 1;
            proof {
                reveal_strlit(" ");
                assert(out@ =~= seq!['('] + spec_die_body(self@, i as int));
            }
        }
        out.append(")");
        proof {
            reveal_strlit(")");
            assert(out@ =~= spec_die_text(self@));
        }
        out
    }
}

/// The one-character notation of one side.
fn side_str(side: &DieSide) -> (ret: &'static str)
    ensures
        ret@ == seq![side.spec_char()],
{
    proof {
        reveal_strlit("0");
        reveal_strlit("1");
        reveal_strlit("-");
    }
    match side {
        DieSide::Zero => "0",
        DieSide::One => "1",
        DieSide::DontCare => "-",
    }
}

} // verus!
