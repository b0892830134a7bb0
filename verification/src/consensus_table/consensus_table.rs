use vstd::prelude::*;

use crate::dice::die::{spec_covers, spec_merged, spec_mergeable, Die};
use crate::dice::die_side::DieSide;

use super::consensus_table_entry::ConsensusTableEntry;

verus! {

/// A consensus table used for simplifying the input function: an ordered,
/// growing list of entries addressed by id, where an entry's id equals its
/// index at the time it was admitted.
#[derive(Debug, PartialEq, Eq)]
pub struct ConesnsusTable<const N: usize> {
    entries: Vec<ConsensusTableEntry<N>>,
}

impl<const N: usize> View for ConesnsusTable<N> {
    type V = Seq<ConsensusTableEntry<N>>;

    closed spec fn view(&self) -> Seq<ConsensusTableEntry<N>> {
        self.entries@
    }
}

/// Entry `i` is properly subsumed: its marker names an id other than its own.
/// Both an unmarked entry and a self-marked one (the sentinel for an unused
/// optional entry) count as live comparison candidates.
pub open spec fn spec_properly_covered<const N: usize>(
    s: Seq<ConsensusTableEntry<N>>,
    i: int,
) -> bool {
    match s[i].covered {
        Some(j) => j as int != i,
        None => false,
    }
}

/// Entry `i` is still eligible as a merge and coverage candidate.
pub open spec fn spec_eligible<const N: usize>(s: Seq<ConsensusTableEntry<N>>, i: int) -> bool {
    !spec_properly_covered(s, i)
}

/// The structural invariant of one table row.
///
/// Ids are dense (the id equals the index), dice are well formed, an optional
/// entry always carries a marker (its own id until a real generalization
/// subsumes it), a proper marker names a later entry whose die covers this
/// one, and a merged entry records two earlier parents whose dice merge to
/// exactly this entry's die, the entry being optional iff both parents are.
pub open spec fn spec_entry_valid<const N: usize>(
    s: Seq<ConsensusTableEntry<N>>,
    i: int,
) -> bool {
    &&& s[i].num == Some(i as usize)
    &&& s[i].die.wf()
    &&& (s[i].dont_care ==> s[i].covered is Some)
    &&& match s[i].covered {
        Some(j) => j as int == i || (i < j as int && (j as int) < s.len() && spec_covers(
            s[j as int].die@,
            s[i].die@,
        )),
        None => true,
    }
    &&& match s[i].creators {
        Some(c) => {
            &&& c[0] < i
            &&& c[1] < i
            &&& spec_mergeable(s[c[0] as int].die@, s[c[1] as int].die@)
            &&& s[i].die@ == spec_merged(s[c[0] as int].die@, s[c[1] as int].die@)
            &&& (s[i].dont_care <==> s[c[0] as int].dont_care && s[c[1] as int].dont_care)
        },
        None => true,
    }
}

/// The structural invariant of the whole table.
pub open spec fn spec_table_valid<const N: usize>(s: Seq<ConsensusTableEntry<N>>) -> bool {
    forall|i: int| 0 <= i < s.len() ==> #[trigger] spec_entry_valid(s, i)
}

/// No merge of two eligible entries yields a die that escapes every entry in
/// the table: the solved state, in which another solver pass admits nothing.
pub open spec fn spec_saturated<const N: usize>(s: Seq<ConsensusTableEntry<N>>) -> bool {
    forall|i: int, j: int|
        0 <= i < s.len() && 0 <= j < s.len() && i != j && spec_eligible(s, i) && spec_eligible(
            s,
            j,
        ) && #[trigger] spec_mergeable(s[i].die@, s[j].die@) ==> exists|k: int|
            0 <= k < s.len() && spec_covers(#[trigger] s[k].die@, spec_merged(s[i].die@, s[j].die@))
}

/// Ids are dense: every entry's id equals its index.
pub open spec fn spec_nums_dense<const N: usize>(s: Seq<ConsensusTableEntry<N>>) -> bool {
    forall|i: int| 0 <= i < s.len() ==> (#[trigger] s[i]).num == Some(i as usize)
}

/// Every entry's die holds exactly `N` sides.
pub open spec fn spec_dies_wf<const N: usize>(s: Seq<ConsensusTableEntry<N>>) -> bool {
    forall|i: int| 0 <= i < s.len() ==> (#[trigger] s[i]).die.wf()
}

/// The entry a don't-care input die is converted to: its marker starts out as
/// its own id, the sentinel for an optional entry that nothing has used yet.
pub open spec fn spec_dont_care_entry<const N: usize>(die: Die<N>, i: int) -> ConsensusTableEntry<
    N,
> {
    ConsensusTableEntry {
        num: Some(i as usize),
        creators: None,
        die,
        covered: Some(i as usize),
        dont_care: true,
    }
}

/// The entry a required input die is converted to.
pub open spec fn spec_required_entry<const N: usize>(die: Die<N>, i: int) -> ConsensusTableEntry<
    N,
> {
    ConsensusTableEntry { num: Some(i as usize), creators: None, die, covered: None, dont_care: false }
}

/// The table the input dice are converted to before solving: don't-care
/// entries first, required entries after them, ids in that order.
pub open spec fn spec_initial_table<const N: usize>(
    dice: Seq<Die<N>>,
    dont_care: Seq<Die<N>>,
) -> Seq<ConsensusTableEntry<N>> {
    Seq::new(
        dont_care.len() + dice.len(),
        |i: int|
            if i < dont_care.len() {
                spec_dont_care_entry(dont_care[i], i)
            } else {
                spec_required_entry(dice[i - dont_care.len()], i)
            },
    )
}

/// How a row that was already in the table before a solver pass may change
/// during it: id, provenance, die and the optional flag are frozen; the
/// marker either stays as it was, or — only for a row that was not yet
/// properly subsumed — moves to the id of a row admitted during the pass.
pub open spec fn spec_entry_evolves<const N: usize>(
    t0: Seq<ConsensusTableEntry<N>>,
    t1: Seq<ConsensusTableEntry<N>>,
    i: int,
) -> bool {
    &&& t1[i].num == t0[i].num
    &&& t1[i].creators == t0[i].creators
    &&& t1[i].die == t0[i].die
    &&& t1[i].dont_care == t0[i].dont_care
    &&& (t1[i].covered == t0[i].covered || (spec_eligible(t0, i) && (t1[i].covered matches Some(c)
        && t0.len() <= c as int && (c as int) < t1.len())))
}

/// What one solver pass guarantees: the table only grows, stays valid, the
/// rows that were present evolve as `spec_entry_evolves` says, every row
/// added by the pass is a merge (it records its two parents), and the final
/// table is saturated.
pub open spec fn spec_solve_rel<const N: usize>(
    t0: Seq<ConsensusTableEntry<N>>,
    t1: Seq<ConsensusTableEntry<N>>,
) -> bool {
    &&& t1.len() >= t0.len()
    &&& spec_table_valid(t1)
    &&& forall|i: int| 0 <= i < t0.len() ==> #[trigger] spec_entry_evolves(t0, t1, i)
    &&& forall|i: int|
        t0.len() <= i < t1.len() ==> ((#[trigger] t1[i]).creators matches Some(c) && c[0] > c[1])
    &&& spec_admitted_fresh(t0.len() as int, t1)
    &&& spec_saturated(t1)
}

/// Every row from index `start` on holds a die that no earlier row holds: a
/// merged die the table already held is never admitted.
pub open spec fn spec_admitted_fresh<const N: usize>(
    start: int,
    s: Seq<ConsensusTableEntry<N>>,
) -> bool {
    forall|i: int, j: int|
        start <= i < s.len() && 0 <= j < i ==> (#[trigger] s[i]).die@ != (#[trigger] s[j]).die@
}

/// The merge of the dice of the entry pair `(i, j)` — in either order — is
/// covered by some die in the table, or the pair cannot merge at all.
pub open spec fn spec_pair_done<const N: usize>(
    s: Seq<ConsensusTableEntry<N>>,
    i: int,
    j: int,
) -> bool {
    (spec_eligible(s, i) && spec_eligible(s, j) && spec_mergeable(s[i].die@, s[j].die@))
        ==> exists|k: int|
        0 <= k < s.len() && spec_covers(#[trigger] s[k].die@, spec_merged(s[i].die@, s[j].die@))
}

/// The numeric value of one side, for the ternary encoding of a die.
pub open spec fn spec_side_val(s: DieSide) -> int {
    match s {
        DieSide::Zero => 0,
        DieSide::One => 1,
        DieSide::DontCare => 2,
    }
}

/// Third powers, the number of distinct dice of a given width.
pub open spec fn pow3(n: nat) -> nat
    decreases n,
{
    if n == 0 {
        1
    } else {
        3 * pow3((n - 1) as nat)
    }
}

/// The ternary encoding of a die's sides: an integer below three to the
/// width, distinct for distinct dice. It bounds how many rows a solver pass
/// can admit, since an admitted die differs from every die in the table.
pub open spec fn spec_enc(s: Seq<DieSide>) -> int
    decreases s.len(),
{
    if s.len() == 0 {
        0
    } else {
        spec_side_val(s[0]) + 3 * spec_enc(s.drop_first())
    }
}

proof fn lemma_enc_bounds(s: Seq<DieSide>)
    ensures
        0 <= spec_enc(s) < pow3(s.len()),
    decreases s.len(),
{
    if s.len() > 0 {
        lemma_enc_bounds(s.drop_first());
    }
}

proof fn lemma_enc_injective(a: Seq<DieSide>, b: Seq<DieSide>)
    requires
        a.len() == b.len(),
        spec_enc(a) == spec_enc(b),
    ensures
        a == b,
    decreases a.len(),
{
    if a.len() > 0 {
        assert(0 <= spec_side_val(a[0]) <= 2);
        assert(0 <= spec_side_val(b[0]) <= 2);
        assert(spec_side_val(a[0]) == spec_side_val(b[0]) && spec_enc(a.drop_first()) == spec_enc(
            b.drop_first(),
        )) by {
            assert(spec_side_val(a[0]) - spec_side_val(b[0]) == 3 * (spec_enc(b.drop_first())
                - spec_enc(a.drop_first())));
        }
        assert(a[0] == b[0]);
        lemma_enc_injective(a.drop_first(), b.drop_first());
        assert forall|i: int| 0 <= i < a.len() implies a[i] == b[i] by {
            if i > 0 {
                assert(a[i] == a.drop_first()[i - 1]);
                assert(b[i] == b.drop_first()[i - 1]);
            }
        }
        assert(a =~= b);
    } else {
        assert(a =~= b);
    }
}

/// A table whose ordered pairs are all done is saturated: the unordered
/// condition follows since merging is symmetric.
proof fn lemma_saturated_from_pairs<const N: usize>(s: Seq<ConsensusTableEntry<N>>)
    requires
        spec_dies_wf(s),
        forall|i: int, j: int| 0 <= i < j < s.len() ==> #[trigger] spec_pair_done(s, i, j),
    ensures
        spec_saturated(s),
{
    assert forall|i: int, j: int|
        0 <= i < s.len() && 0 <= j < s.len() && i != j && spec_eligible(s, i) && spec_eligible(
            s,
            j,
        ) && #[trigger] spec_mergeable(s[i].die@, s[j].die@) implies exists|k: int|
        0 <= k < s.len() && spec_covers(
            #[trigger] s[k].die@,
            spec_merged(s[i].die@, s[j].die@),
        ) by {
        if i < j {
            assert(spec_pair_done(s, i, j));
        } else {
            crate::dice::die::lemma_merge_symmetric(s[j].die@, s[i].die@);
            assert(spec_pair_done(s, j, i));
            let k = choose|k: int|
                0 <= k < s.len() && spec_covers(
                    #[trigger] s[k].die@,
                    spec_merged(s[j].die@, s[i].die@),
                );
            assert(spec_covers(s[k].die@, spec_merged(s[i].die@, s[j].die@)));
        }
    }
}

/// Doneness of a pair survives any step that freezes dice and ids, only
/// grows the table, and never revives a properly subsumed row.
proof fn lemma_pairs_preserved<const N: usize>(
    s0: Seq<ConsensusTableEntry<N>>,
    s1: Seq<ConsensusTableEntry<N>>,
    i: int,
    j: int,
)
    requires
        s1.len() >= s0.len(),
        0 <= i < s0.len(),
        0 <= j < s0.len(),
        forall|k: int| 0 <= k < s0.len() ==> (#[trigger] s1[k]).die == s0[k].die,
        forall|k: int|
            0 <= k < s0.len() && spec_eligible(s1, k) ==> spec_eligible(s0, k),
        spec_pair_done(s0, i, j),
    ensures
        spec_pair_done(s1, i, j),
{
    if spec_eligible(s1, i) && spec_eligible(s1, j) && spec_mergeable(s1[i].die@, s1[j].die@) {
        let k = choose|k: int|
            0 <= k < s0.len() && spec_covers(
                #[trigger] s0[k].die@,
                spec_merged(s0[i].die@, s0[j].die@),
            );
        assert(spec_covers(s1[k].die@, spec_merged(s1[i].die@, s1[j].die@)));
    }
}

/// A valid table's ids are dense and its dice well formed.
proof fn lemma_valid_parts<const N: usize>(s: Seq<ConsensusTableEntry<N>>)
    requires
        spec_table_valid(s),
    ensures
        spec_nums_dense(s),
        spec_dies_wf(s),
{
    assert forall|i: int|
        0 <= i < s.len() implies (#[trigger] s[i]).num == Some(i as usize) && s[i].die.wf() by {
        assert(spec_entry_valid(s, i));
    }
}

/// A die covered by any entry of a valid table is covered by an eligible one.
proof fn lemma_any_cover_to_eligible<const N: usize>(
    s: Seq<ConsensusTableEntry<N>>,
    m: Seq<DieSide>,
)
    requires
        spec_table_valid(s),
        m.len() == N,
        exists|k: int| 0 <= k < s.len() && spec_covers(#[trigger] s[k].die@, m),
    ensures
        exists|k: int|
            0 <= k < s.len() && spec_eligible(s, k) && spec_covers(#[trigger] s[k].die@, m),
{
    let k = choose|k: int| 0 <= k < s.len() && spec_covers(#[trigger] s[k].die@, m);
    lemma_eligible_cover(s, k);
    let k2 = choose|k2: int|
        0 <= k2 < s.len() && spec_eligible(s, k2) && spec_covers(#[trigger] s[k2].die@, s[k].die@);
    assert(spec_entry_valid(s, k));
    assert(spec_entry_valid(s, k2));
    crate::dice::die::lemma_covers_transitive(s[k2].die@, s[k].die@, m);
}

/// Every properly subsumed entry is covered by some eligible entry: markers
/// name later rows, so chasing them upward ends at a live cover.
pub proof fn lemma_eligible_cover<const N: usize>(s: Seq<ConsensusTableEntry<N>>, i: int)
    requires
        spec_table_valid(s),
        0 <= i < s.len(),
    ensures
        exists|k: int|
            0 <= k < s.len() && spec_eligible(s, k) && spec_covers(
                #[trigger] s[k].die@,
                s[i].die@,
            ),
    decreases s.len() - i,
{
    if spec_eligible(s, i) {
        assert(spec_covers(s[i].die@, s[i].die@));
    } else {
        let j = s[i].covered->0 as int;
        assert(spec_entry_valid(s, i));
        assert(spec_entry_valid(s, j));
        lemma_eligible_cover(s, j);
        let k = choose|k: int|
            0 <= k < s.len() && spec_eligible(s, k) && spec_covers(#[trigger] s[k].die@, s[j].die@);
        assert(spec_entry_valid(s, k));
        crate::dice::die::lemma_covers_transitive(s[k].die@, s[j].die@, s[i].die@);
    }
}

impl<const N: usize> ConesnsusTable<N> {
    /// Converts the input dice to table entries: don't-care dice first, each
    /// marked as covered by itself (the unused-optional sentinel), the
    /// required dice after them, unmarked. Ids are assigned in that order.
    pub fn new(dice: Vec<Die<N>>, dont_care: Vec<Die<N>>) -> (ret: Self)
        requires
            forall|i: int| 0 <= i < dice@.len() ==> (#[trigger] dice@[i]).wf(),
            forall|i: int| 0 <= i < dont_care@.len() ==> (#[trigger] dont_care@[i]).wf(),
            dice@.len() + dont_care@.len() <= usize::MAX,
        ensures
            ret@.len() == dont_care@.len() + dice@.len(),
            forall|i: int|
                0 <= i < dont_care@.len() ==> ret@[i] == spec_dont_care_entry(dont_care@[i], i),
            forall|i: int|
                dont_care@.len() <= i < ret@.len() ==> ret@[i] == spec_required_entry(
                    dice@[i - dont_care@.len()],
                    i,
                ),
            spec_table_valid(ret@),
    {
        let ghost dc_orig = dont_care@;
        let ghost dice_orig = dice@;
        let mut dont_care = dont_care;
        let mut dice = dice;
        let mut entries: Vec<ConsensusTableEntry<N>> = Vec::new();
        let mut count: usize = 0;

        // convert all don't-care dice to table entries
        while dont_care.len() > 0
            invariant
                count == entries@.len(),
                entries@.len() + dont_care@.len() == dc_orig.len(),
                dc_orig.len() + dice_orig.len() <= usize::MAX,
                dont_care@ == dc_orig.subrange(count as int, dc_orig.len() as int),
                forall|i: int|
                    0 <= i < count ==> entries@[i] == spec_dont_care_entry(dc_orig[i], i),
            decreases dont_care@.len(),
        {
            let die = dont_care.remove(0);
            let mut entry = ConsensusTableEntry::new(Some(count), die, true);
            // mark optional entries as covered by themselves: this saves a
            // separate pass over the finished table to find unused don't-cares
            entry.covered = Some(count);
            entries.push(entry);
            count += 1;
            proof {
                assert(dont_care@ =~= dc_orig.subrange(count as int, dc_orig.len() as int));
            }
        }

        // convert all required dice to table entries
        while dice.len() > 0
            invariant
                count == entries@.len(),
                dc_orig.len() <= count,
                count + dice@.len() == dc_orig.len() + dice_orig.len(),
                dc_orig.len() + dice_orig.len() <= usize::MAX,
                dice@ == dice_orig.subrange(
                    count - dc_orig.len(),
                    dice_orig.len() as int,
                ),
                forall|i: int|
                    0 <= i < dc_orig.len() ==> entries@[i] == spec_dont_care_entry(dc_orig[i], i),
                forall|i: int|
                    dc_orig.len() <= i < count ==> entries@[i] == spec_required_entry(
                        dice_orig[i - dc_orig.len()],
                        i,
                    ),
            decreases dice@.len(),
        {
            let ghost prev = dice@;
            let die = dice.remove(0);
            let entry = ConsensusTableEntry::new(Some(count), die, false);
            entries.push(entry);
            count += 1;
            proof {
                assert(dice@ =~= prev.subrange(1, prev.len() as int));
                assert(dice@ =~= dice_orig.subrange(count - dc_orig.len(), dice_orig.len() as int));
            }
        }

        let ret = ConesnsusTable { entries };
        proof {
            assert forall|i: int| 0 <= i < ret@.len() implies #[trigger] spec_entry_valid(
                ret@,
                i,
            ) by {
                if i < dc_orig.len() {
                    assert(ret@[i] == spec_dont_care_entry(dc_orig[i], i));
                } else {
                    assert(ret@[i] == spec_required_entry(dice_orig[i - dc_orig.len()], i));
                }
            }
        }
        ret
    }

    /// The table's rows, for rendering or selection by the caller.
    pub fn entries(&self) -> (ret: &Vec<ConsensusTableEntry<N>>)
        ensures
            ret@ == self@,
    {
        &self.entries
    }

    /// Checks if the entry at index `i` is properly subsumed, ignoring
    /// don't-care entries that carry their own id as the unused sentinel.
    fn is_covered(&self, i: usize) -> (ret: bool)
        requires
            i < self@.len(),
            self@[i as int].num == Some(i),
        ensures
            ret == spec_properly_covered(self@, i as int),
    {
        match self.entries[i].covered {
            Some(val) => match self.entries[i].num {
                Some(num) if val != num => true,
                _ => false,
            },
            _ => false,
        }
    }

    /// Checks if some eligible entry in the table covers the passed pending
    /// entry and, if one does, marks the subject as covered by the first such
    /// entry's id.
    fn table_covers_die(&self, subject: &mut ConsensusTableEntry<N>)
        requires
            spec_nums_dense(self@),
            spec_dies_wf(self@),
            old(subject).die.wf(),
        ensures
            final(subject).num == old(subject).num,
            final(subject).creators == old(subject).creators,
            final(subject).die == old(subject).die,
            final(subject).dont_care == old(subject).dont_care,
            (exists|k: int|
                0 <= k < self@.len() && spec_eligible(self@, k) && spec_covers(
                    #[trigger] self@[k].die@,
                    old(subject).die@,
                )) ==> exists|k: int|
                {
                    &&& 0 <= k < self@.len()
                    &&& spec_eligible(self@, k)
                    &&& spec_covers(#[trigger] self@[k].die@, old(subject).die@)
                    &&& final(subject).covered == Some(k as usize)
                    &&& forall|k2: int|
                        0 <= k2 < k ==> !(spec_eligible(self@, k2) && spec_covers(
                            #[trigger] self@[k2].die@,
                            old(subject).die@,
                        ))
                },
            !(exists|k: int|
                0 <= k < self@.len() && spec_eligible(self@, k) && spec_covers(
                    #[trigger] self@[k].die@,
                    old(subject).die@,
                )) ==> final(subject).covered == old(subject).covered,
    {
        let mut i: usize = 0;
        while i < self.entries.len()
            invariant
                0 <= i <= self@.len(),
                spec_nums_dense(self@),
                spec_dies_wf(self@),
                subject == old(subject),
                old(subject).die.wf(),
                forall|k2: int|
                    0 <= k2 < i ==> !(spec_eligible(self@, k2) && spec_covers(
                        #[trigger] self@[k2].die@,
                        old(subject).die@,
                    )),
            decreases self@.len() - i,
        {
            let eligible = match self.entries[i].covered {
                Some(val) => match self.entries[i].num {
                    Some(num) => val == num,
                    None => false,
                },
                None => true,
            };
            if eligible {
                if self.entries[i].die.covers(&subject.die) {
                    subject.covered = Some(self.entries[i].num.unwrap());
                    return ;
                }
            }
            i += 1;
        }
    }

    /// Adds a pending entry to the table, first marking every eligible entry
    /// the new entry covers as covered by the new entry's id.
    fn add_entry_to_table(&mut self, subject: ConsensusTableEntry<N>)
        requires
            spec_nums_dense(old(self)@),
            spec_dies_wf(old(self)@),
            subject.num is Some,
            subject.die.wf(),
        ensures
            final(self)@.len() == old(self)@.len() + 1,
            final(self)@[old(self)@.len() as int] == subject,
            forall|i: int|
                0 <= i < old(self)@.len() ==> {
                    &&& (#[trigger] final(self)@[i]).num == old(self)@[i].num
                    &&& final(self)@[i].creators == old(self)@[i].creators
                    &&& final(self)@[i].die == old(self)@[i].die
                    &&& final(self)@[i].dont_care == old(self)@[i].dont_care
                    &&& final(self)@[i].covered == if spec_eligible(old(self)@, i) && spec_covers(
                        subject.die@,
                        old(self)@[i].die@,
                    ) {
                        Some(subject.num->0)
                    } else {
                        old(self)@[i].covered
                    }
                },
    {
        let subject_num = subject.num.unwrap();
        let mut i: usize = 0;
        while i < self.entries.len()
            invariant
                0 <= i <= self@.len(),
                self@.len() == old(self)@.len(),
                spec_nums_dense(old(self)@),
                spec_dies_wf(old(self)@),
                subject.die.wf(),
                forall|k: int|
                    i <= k < self@.len() ==> #[trigger] self@[k] == old(self)@[k],
                forall|k: int|
                    0 <= k < i ==> {
                        &&& (#[trigger] self@[k]).num == old(self)@[k].num
                        &&& self@[k].creators == old(self)@[k].creators
                        &&& self@[k].die == old(self)@[k].die
                        &&& self@[k].dont_care == old(self)@[k].dont_care
                        &&& self@[k].covered == if spec_eligible(old(self)@, k) && spec_covers(
                            subject.die@,
                            old(self)@[k].die@,
                        ) {
                            Some(subject_num)
                        } else {
                            old(self)@[k].covered
                        }
                    },
            decreases self@.len() - i,
        {
            let eligible = match self.entries[i].covered {
                Some(val) => match self.entries[i].num {
                    Some(num) => val == num,
                    None => false,
                },
                None => true,
            };
            if eligible {
                proof {
                    assert(self@[i as int] == old(self)@[i as int]);
                }
                if subject.die.covers(&self.entries[i].die) {
                    self.entries[i].covered = Some(subject_num);
                }
            }
            i += 1;
        }
        self.entries.push(subject);
    }

    /// The fixpoint merge-and-mark loop, the heart of the solver.
    ///
    /// An index walks down the growing table. Each entry that is not yet
    /// properly subsumed is merged pairwise with every earlier such entry. A
    /// merged die that an eligible entry already covers adds nothing and is
    /// discarded without a trace; otherwise the pending entry is admitted
    /// with the next id — marked optional, and as its own cover, when both
    /// parents are optional — and every eligible entry its die covers is
    /// marked as subsumed by it. Newly admitted entries are visited in turn
    /// as the index reaches them; the pass ends when the index passes the
    /// last entry.
    ///
    /// The table it leaves is saturated, and a pass over an already
    /// saturated table leaves the table exactly as it was.
    pub fn solve(&mut self)
        requires
            spec_table_valid(old(self)@),
        ensures
            spec_solve_rel(old(self)@, final(self)@),
            spec_saturated(old(self)@) ==> final(self)@ == old(self)@,
    {
        let ghost t0 = self@;
        if self.entries.len() > 1 {
            let ghost mut used: Set<int> = Set::empty();
            let mut curr: usize = 1;
            // start at the second entry, and walk down the list
            while curr < self.entries.len()
                invariant
                    1 <= curr <= self@.len(),
                    t0.len() <= self@.len(),
                    self@.len() <= t0.len() + pow3(N as nat),
                    spec_table_valid(t0),
                    spec_table_valid(self@),
                    forall|i: int|
                        0 <= i < t0.len() ==> #[trigger] spec_entry_evolves(t0, self@, i),
                    forall|i: int|
                        t0.len() <= i < self@.len() ==> ((#[trigger] self@[i]).creators matches
                            Some(c) && c[0] > c[1]),
                    spec_admitted_fresh(t0.len() as int, self@),
                    forall|i: int, j: int|
                        0 <= i < j < curr && j < self@.len() ==> #[trigger] spec_pair_done(
                            self@,
                            i,
                            j,
                        ),
                    used.finite(),
                    used.len() == self@.len() - t0.len(),
                    forall|v: int|
                        used.contains(v) ==> exists|i: int|
                            t0.len() <= i < self@.len() && v == spec_enc(
                                #[trigger] self@[i].die@,
                            ),
                    used.subset_of(vstd::set_lib::set_int_range(0, pow3(N as nat) as int)),
                    spec_saturated(t0) ==> self@ == t0,
                decreases t0.len() + pow3(N as nat) - curr,
            {
                proof {
                    lemma_valid_parts(self@);
                    assert(spec_entry_valid(self@, curr as int));
                }
                if !self.is_covered(curr) {
                    // compare all previous entries to the current one
                    let mut comp: usize = 0;
                    while comp < curr
                        invariant
                            0 <= comp <= curr,
                            curr < self@.len(),
                            t0.len() <= self@.len(),
                            self@.len() <= t0.len() + pow3(N as nat),
                            spec_table_valid(t0),
                            spec_table_valid(self@),
                            forall|i: int|
                                0 <= i < t0.len() ==> #[trigger] spec_entry_evolves(t0, self@, i),
                            forall|i: int|
                                t0.len() <= i < self@.len() ==> ((#[trigger] self@[i]).creators
                                    matches Some(c) && c[0] > c[1]),
                            spec_admitted_fresh(t0.len() as int, self@),
                            forall|i: int, j: int|
                                0 <= i < j < curr && j < self@.len() ==> #[trigger] spec_pair_done(
                                    self@,
                                    i,
                                    j,
                                ),
                            forall|i: int|
                                0 <= i < comp ==> #[trigger] spec_pair_done(
                                    self@,
                                    i,
                                    curr as int,
                                ),
                            used.finite(),
                            used.len() == self@.len() - t0.len(),
                            forall|v: int|
                                used.contains(v) ==> exists|i: int|
                                    t0.len() <= i < self@.len() && v == spec_enc(
                                        #[trigger] self@[i].die@,
                                    ),
                            used.subset_of(vstd::set_lib::set_int_range(0, pow3(N as nat) as int)),
                            spec_saturated(t0) ==> self@ == t0 && spec_eligible(t0, curr as int),
                        decreases curr - comp,
                    {
                        proof {
                            lemma_valid_parts(self@);
                            assert(spec_entry_valid(self@, comp as int));
                            assert(spec_entry_valid(self@, curr as int));
                        }
                        if !self.is_covered(comp) {
                            let merged_opt = ConsensusTableEntry::merge(
                                &self.entries[curr],
                                &self.entries[comp],
                            );
                            proof {
                                if merged_opt is None {
                                    // the pair cannot merge in either order
                                    crate::dice::die::lemma_merge_symmetric(
                                        self@[comp as int].die@,
                                        self@[curr as int].die@,
                                    );
                                    assert(spec_pair_done(self@, comp as int, curr as int));
                                }
                            }
                            if let Some(mut new_entry) = merged_opt {
                                let ghost m = new_entry.die@;
                                self.table_covers_die(&mut new_entry);
                                if new_entry.covered.is_some() {
                                    // the merged die adds nothing: an
                                    // eligible entry already covers it, so it
                                    // is dropped without being given an id
                                    proof {
                                        crate::dice::die::lemma_merge_symmetric(
                                            self@[comp as int].die@,
                                            self@[curr as int].die@,
                                        );
                                        assert(exists|k: int|
                                            0 <= k < self@.len() && spec_covers(
                                                #[trigger] self@[k].die@,
                                                m,
                                            ));
                                        assert(spec_pair_done(self@, comp as int, curr as int));
                                    }
                                } else {
                                    // the merged die is new: admit it under the next id
                                    let new_num = self.entries.len();
                                    new_entry.num = Some(new_num);
                                    // a die merged from two don't-cares is
                                    // itself optional and starts as its own
                                    // cover, exactly like an input don't-care
                                    if self.entries[curr].dont_care
                                        && self.entries[comp].dont_care {
                                        new_entry.dont_care = true;
                                        new_entry.covered = Some(new_num);
                                    }
                                    proof {
                                        assert(!(exists|k: int|
                                            0 <= k < self@.len() && spec_eligible(self@, k)
                                                && spec_covers(#[trigger] self@[k].die@, m)));
                                        assert forall|i: int|
                                            0 <= i < self@.len() implies self@[i].die@ != m by {
                                            if self@[i].die@ == m {
                                                lemma_eligible_cover(self@, i);
                                            }
                                        }
                                        assert(!spec_saturated(t0)) by {
                                            if spec_saturated(t0) {
                                                assert(spec_mergeable(
                                                    self@[curr as int].die@,
                                                    self@[comp as int].die@,
                                                ));
                                                lemma_any_cover_to_eligible(self@, m);
                                            }
                                        }
                                        assert(!used.contains(spec_enc(m))) by {
                                            if used.contains(spec_enc(m)) {
                                                let i = choose|i: int|
                                                    t0.len() <= i < self@.len() && spec_enc(m)
                                                        == spec_enc(#[trigger] self@[i].die@);
                                                assert(spec_entry_valid(self@, i));
                                                lemma_enc_injective(self@[i].die@, m);
                                            }
                                        }
                                        lemma_enc_bounds(m);
                                        used = used.insert(spec_enc(m));
                                        vstd::set_lib::lemma_int_range(0, pow3(N as nat) as int);
                                        assert(used.subset_of(
                                            vstd::set_lib::set_int_range(
                                                0,
                                                pow3(N as nat) as int,
                                            ),
                                        ));
                                        vstd::set_lib::lemma_len_subset(
                                            used,
                                            vstd::set_lib::set_int_range(0, pow3(N as nat) as int),
                                        );
                                    }
                                    let ghost s_pre = self@;
                                    self.add_entry_to_table(new_entry);
                                    proof {
                                        let s_new = self@;
                                        let lp = s_pre.len() as int;
                                        assert(s_new[lp].die@ == m);
                                        assert forall|i: int|
                                            0 <= i < s_new.len() implies #[trigger] spec_entry_valid(
                                            s_new,
                                            i,
                                        ) by {
                                            if i < lp {
                                                assert(spec_entry_valid(s_pre, i));
                                            }
                                        }
                                        assert forall|i: int|
                                            0 <= i < t0.len() implies #[trigger] spec_entry_evolves(
                                            t0,
                                            s_new,
                                            i,
                                        ) by {
                                            assert(spec_entry_evolves(t0, s_pre, i));
                                        }
                                        assert forall|i: int, j: int|
                                            0 <= i < j < curr && j < s_new.len() implies #[trigger] spec_pair_done(
                                            s_new,
                                            i,
                                            j,
                                        ) by {
                                            lemma_pairs_preserved(s_pre, s_new, i, j);
                                        }
                                        assert forall|i: int|
                                            0 <= i < comp implies #[trigger] spec_pair_done(
                                            s_new,
                                            i,
                                            curr as int,
                                        ) by {
                                            lemma_pairs_preserved(s_pre, s_new, i, curr as int);
                                        }
                                        crate::dice::die::lemma_merge_symmetric(
                                            s_new[comp as int].die@,
                                            s_new[curr as int].die@,
                                        );
                                        assert(spec_covers(s_new[lp].die@, spec_merged(
                                            s_new[comp as int].die@,
                                            s_new[curr as int].die@,
                                        )));
                                        assert(spec_pair_done(s_new, comp as int, curr as int));
                                        assert forall|i: int, j: int|
                                            t0.len() <= i < s_new.len() && 0 <= j
                                                < i implies (#[trigger] s_new[i]).die@ != (
                                        #[trigger] s_new[j]).die@ by {
                                            if i == lp {
                                                assert(s_pre[j].die@ != m);
                                                assert(s_new[j].die@ == s_pre[j].die@);
                                            } else {
                                                assert(s_new[i].die@ == s_pre[i].die@);
                                                assert(s_new[j].die@ == s_pre[j].die@);
                                            }
                                        }
                                        assert forall|v: int|
                                            used.contains(v) implies exists|i: int|
                                            t0.len() <= i < s_new.len() && v == spec_enc(
                                                #[trigger] s_new[i].die@,
                                            ) by {
                                            if v == spec_enc(m) {
                                                assert(s_new[lp].die@ == m);
                                            } else {
                                                let i = choose|i: int|
                                                    t0.len() <= i < s_pre.len() && v == spec_enc(
                                                        #[trigger] s_pre[i].die@,
                                                    );
                                                assert(s_new[i].die@ == s_pre[i].die@);
                                            }
                                        }
                                    }
                                }
                            }
                        }
                        proof {
                            assert(spec_pair_done(self@, comp as int, curr as int));
                        }
                        comp += 1;
                    }
                    proof {
                        assert forall|i: int, j: int|
                            0 <= i < j < curr + 1 && j < self@.len() implies #[trigger] spec_pair_done(
                            self@,
                            i,
                            j,
                        ) by {
                            if j == curr as int {
                                assert(spec_pair_done(self@, i, curr as int));
                            }
                        }
                    }
                } else {
                    proof {
                        // the current entry is properly subsumed: every pair
                        // with it is vacuously done
                        assert forall|i: int, j: int|
                            0 <= i < j < curr + 1 && j < self@.len() implies #[trigger] spec_pair_done(
                            self@,
                            i,
                            j,
                        ) by {}
                    }
                }
                curr += 1;
            }
            proof {
                lemma_valid_parts(self@);
                lemma_saturated_from_pairs(self@);
            }
        } else {
            proof {
                assert(spec_saturated(self@));
            }
        }
    }
}

impl<const N: usize> From<Vec<ConsensusTableEntry<N>>> for ConesnsusTable<N> {
    fn from(entries: Vec<ConsensusTableEntry<N>>) -> (ret: Self) {
        ConesnsusTable { entries }
    }
}

impl<const N: usize> vstd::std_specs::convert::FromSpecImpl<Vec<ConsensusTableEntry<N>>> for ConesnsusTable<N> {
    open spec fn obeys_from_spec() -> bool {
        true
    }

    closed spec fn from_spec(v: Vec<ConsensusTableEntry<N>>) -> Self {
        ConesnsusTable { entries: v }
    }
}

/// The view of a table built straight from a row list is that row list.
pub broadcast proof fn lemma_from_entries_view<const N: usize>(v: Vec<ConsensusTableEntry<N>>)
    ensures
        (#[trigger] <ConesnsusTable<N> as vstd::std_specs::convert::FromSpec<
            Vec<ConsensusTableEntry<N>>,
        >>::from_spec(v))@ == v@,
{
}

/// An optional entry never stands in the prime-implicant partition of a
/// valid table: it always carries a marker — its own id while unused, or the
/// id of a later entry whose die covers it once a real generalization
/// subsumes it.
pub proof fn lemma_optional_never_prime<const N: usize>(s: Seq<ConsensusTableEntry<N>>, i: int)
    requires
        spec_table_valid(s),
        0 <= i < s.len(),
        s[i].dont_care,
    ensures
        s[i].covered is Some,
        s[i].covered matches Some(c) ==> (c as int == i || (i < c as int && (c as int) < s.len()
            && spec_covers(s[c as int].die@, s[i].die@))),
{
    assert(spec_entry_valid(s, i));
}

/// An optional term with no consuming merge remains self-covered: when no
/// row admitted during a pass covers it, an entry that went in marked with
/// its own id comes out marked with its own id.
pub proof fn lemma_unused_optional_stays_self_covered<const N: usize>(
    t0: Seq<ConsensusTableEntry<N>>,
    t1: Seq<ConsensusTableEntry<N>>,
    i: int,
)
    requires
        spec_solve_rel(t0, t1),
        0 <= i < t0.len(),
        t0[i].covered == Some(i as usize),
        forall|j: int|
            t0.len() <= j < t1.len() ==> !spec_covers((#[trigger] t1[j]).die@, t1[i].die@),
    ensures
        t1[i].covered == Some(i as usize),
{
    assert(spec_entry_evolves(t0, t1, i));
    if t1[i].covered != t0[i].covered {
        let c = t1[i].covered->0 as int;
        assert(spec_entry_valid(t1, i));
        assert(spec_covers(t1[c].die@, t1[i].die@));
    }
}

} // verus!
