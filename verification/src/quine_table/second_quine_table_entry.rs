use vstd::prelude::*;
use vstd::arithmetic::power2::{
    lemma_pow2_pos, lemma_pow2_strictly_increases, lemma_pow2_unfold, pow2,
};

use crate::dice::die::Die;
use crate::dice::die_side::DieSide;

verus! {

/// One row of the covering table: a die together with the list of minterm
/// values it covers.
pub struct SecondQuineTableEntry<const N: usize> {
    pub die: Die<N>,
    pub covers: Vec<usize>,
}

/// The minterm values a run of sides covers, in the order the table lists
/// them: each `DontCare` side ranges over both bits, earlier sides being
/// more significant, and the wildcards' bit patterns counted upward.
pub open spec fn spec_term_values(s: Seq<DieSide>) -> Seq<int>
    decreases s.len(),
{
    if s.len() == 0 {
        seq![0]
    } else {
        let rest = spec_term_values(s.drop_first());
        let weight = pow2((s.len() - 1) as nat) as int;
        match s[0] {
            DieSide::Zero => rest,
            DieSide::One => rest.map_values(|v: int| v + weight),
            DieSide::DontCare => rest + rest.map_values(|v: int| v + weight),
        }
    }
}

impl<const N: usize> SecondQuineTableEntry<N> {
    /// Builds the covering-table row of a die: the die itself and every
    /// minterm value it covers, enumerated in the canonical order.
    pub fn from_die(die: Die<N>) -> (ret: Self)
        requires
            die.wf(),
            pow2(N as nat) <= usize::MAX,
        ensures
            ret.die == die,
            ret.covers@.len() == spec_term_values(die@).len(),
            forall|k: int|
                0 <= k < ret.covers@.len() ==> ret.covers@[k] as int == spec_term_values(die@)[k],
    {
        let mut values: Vec<usize> = Vec::new();
        values.push(0);
        let mut w: usize = 1;
        let mut pos: usize = N;
        proof {
            assert(die@.subrange(N as int, N as int) =~= Seq::<DieSide>::empty());
            vstd::arithmetic::power2::lemma2_to64();
        }
        while pos > 0
            invariant
                0 <= pos <= N,
                die.wf(),
                pow2(N as nat) <= usize::MAX,
                w == pow2((N - pos) as nat),
                values@.len() == spec_term_values(die@.subrange(pos as int, N as int)).len(),
                forall|k: int|
                    0 <= k < values@.len() ==> (#[trigger] values@[k]) as int == spec_term_values(
                        die@.subrange(pos as int, N as int),
                    )[k],
                forall|k: int| 0 <= k < values@.len() ==> (#[trigger] values@[k]) < w,
            decreases pos,
        {
            pos -= 1;
            let ghost s = die@.subrange(pos as int, N as int);
            let ghost rest = die@.subrange(pos as int + 1, N as int);
            proof {
                assert(s.drop_first() =~= rest);
                assert(s[0] == die@[pos as int]);
                lemma_pow2_pos((N - pos - 1) as nat);
                lemma_pow2_unfold((N - pos) as nat);
                if ((N - pos) as nat) < (N as nat) {
                    lemma_pow2_strictly_increases((N - pos) as nat, N as nat);
                }
                assert(w + w <= usize::MAX);
            }
            match die.content[pos] {
                DieSide::Zero => {
                    proof {
                        assert(spec_term_values(s) == spec_term_values(rest));
                    }
                },
                DieSide::One => {
                    let ghost prev = values@;
                    let mut k: usize = 0;
                    while k < values.len()
                        invariant
                            0 <= k <= values@.len(),
                            values@.len() == prev.len(),
                            w + w <= usize::MAX,
                            forall|j: int| 0 <= j < prev.len() ==> (#[trigger] prev[j]) < w,
                            forall|j: int| k <= j < values@.len() ==> values@[j] == prev[j],
                            forall|j: int| 0 <= j < k ==> values@[j] == prev[j] + w,
                        decreases values@.len() - k,
                    {
                        let v = values[k];
                        proof {
                            assert(values@[k as int] == prev[k as int]);
                            assert(prev[k as int] < w);
                        }
                        values[k] = v + w;
                        k += 1;
                    }
                    proof {
                        assert forall|j: int|
                            0 <= j < values@.len() implies (#[trigger] values@[j]) as int
                            == spec_term_values(s)[j] by {
                            assert(values@[j] == prev[j] + w);
                            assert(prev[j] as int == spec_term_values(rest)[j]);
                        }
                        assert forall|j: int|
                            0 <= j < values@.len() implies (#[trigger] values@[j]) < w + w by {
                            assert(values@[j] == prev[j] + w);
                        }
                    }
                },
                DieSide::DontCare => {
                    let base_len = values.len();
                    let ghost prev = values@;
                    let mut k: usize = 0;
                    while k < base_len
                        invariant
                            0 <= k <= base_len,
                            base_len == prev.len(),
                            w + w <= usize::MAX,
                            forall|j: int| 0 <= j < prev.len() ==> (#[trigger] prev[j]) < w,
                            values@.len() == prev.len() + k,
                            forall|j: int| 0 <= j < prev.len() ==> values@[j] == prev[j],
                            forall|j: int|
                                0 <= j < k ==> values@[prev.len() + j] == prev[j] + w,
                        decreases base_len - k,
                    {
                        let v = values[k];
                        proof {
                            assert(values@[k as int] == prev[k as int]);
                            assert(prev[k as int] < w);
                        }
                        let grown = v + w;
                        values.push(grown);
                        k += 1;
                    }
                    proof {
                        assert forall|j: int|
                            0 <= j < values@.len() implies (#[trigger] values@[j]) < w + w by {
                            if j < prev.len() {
                                assert(values@[j] == prev[j]);
                            } else {
                                assert(values@[j] == prev[j - prev.len()] + w);
                            }
                        }
                        assert forall|j: int|
                            0 <= j < values@.len() implies (#[trigger] values@[j]) as int
                            == spec_term_values(s)[j] by {
                            if j < prev.len() {
                                assert(values@[j] == prev[j]);
                                assert(prev[j] as int == spec_term_values(rest)[j]);
                            } else {
                                assert(values@[j] == prev[j - prev.len()] + w);
                                assert(prev[j - prev.len()] as int == spec_term_values(
                                    rest,
                                )[j - prev.len()]);
                            }
                        }
                    }
                },
            }
            w = w * 2;
        }
        proof {
            assert(die@.subrange(0, N as int) =~= die@);
        }
        SecondQuineTableEntry { die, covers: values }
    }

    /// Checks if the die covers a term.
    pub fn covers(&self, term: usize) -> (ret: bool)
        ensures
            ret == self.covers@.contains(term),
    {
        let mut i: usize = 0;
        while i < self.covers.len()
            invariant
                0 <= i <= self.covers@.len(),
                forall|j: int| 0 <= j < i ==> self.covers@[j] != term,
            decreases self.covers@.len() - i,
        {
            if self.covers[i] == term {
                proof {
                    assert(self.covers@.contains(term));
                }
                return true;
            }
            i += 1;
        }
        false
    }
}

} // verus!
