//! Ordering candidates by suspicion.

use vstd::prelude::*;
use crate::fault_localization::extract::{fault_locs_view, FaultLoc, FaultLocView, Score};
use crate::fx::{count_of, counted, new_tally, set_count};

verus! {

/// What candidates are ordered by.
#[derive(Clone, Copy, Debug, PartialEq, Eq, Structural)]
pub enum SortKey {
    /// The depth, smaller first.
    Depth,
    /// The score, smaller first.
    Score,
}

/// Whether the score of `a` is at most that of `b`, as fractions.
pub open spec fn score_le(a: FaultLocView, b: FaultLocView) -> bool {
    a.score_num * b.score_den <= b.score_num * a.score_den
}

/// Whether `a` may stand before `b` under a key.
pub open spec fn key_le(key: SortKey, a: FaultLocView, b: FaultLocView) -> bool {
    match key {
        SortKey::Depth => a.depth <= b.depth,
        SortKey::Score => score_le(a, b),
    }
}

/// `s` with `x` put in: behind the last candidate that may stand before
/// it, so behind its equals.
pub open spec fn inserted(s: Seq<FaultLocView>, x: FaultLocView, key: SortKey) -> Seq<FaultLocView>
    decreases s.len(),
{
    if s.len() == 0 {
        seq![x]
    } else if key_le(key, s.last(), x) {
        s.push(x)
    } else {
        inserted(s.drop_last(), x, key).push(s.last())
    }
}

/// The candidates in the order of a key, equals in the order they came
/// in: each candidate in turn is put in among those before it.
pub open spec fn stably_sorted(s: Seq<FaultLocView>, key: SortKey) -> Seq<FaultLocView>
    decreases s.len(),
{
    if s.len() == 0 {
        Seq::empty()
    } else {
        inserted(stably_sorted(s.drop_last(), key), s.last(), key)
    }
}

/// The place at which `inserted` puts `x` into `s`.
pub open spec fn place(s: Seq<FaultLocView>, x: FaultLocView, key: SortKey) -> int
    decreases s.len(),
{
    if s.len() == 0 {
        0
    } else if key_le(key, s.last(), x) {
        s.len() as int
    } else {
        place(s.drop_last(), x, key)
    }
}

/// Putting in is inserting at `place`: nothing behind that place may stand
/// before the newcomer, and what stands just before the place may.
pub proof fn lemma_inserted_is_insert(s: Seq<FaultLocView>, x: FaultLocView, key: SortKey)
    ensures
        0 <= place(s, x, key) <= s.len(),
        inserted(s, x, key) == s.insert(place(s, x, key), x),
        forall|j: int| place(s, x, key) <= j < s.len() ==> !key_le(key, #[trigger] s[j], x),
        place(s, x, key) > 0 ==> key_le(key, s[place(s, x, key) - 1], x),
    decreases s.len(),
{
    if s.len() == 0 {
        assert(seq![x] =~= s.insert(0, x));
    } else if key_le(key, s.last(), x) {
        assert(s.push(x) =~= s.insert(s.len() as int, x));
    } else {
        lemma_inserted_is_insert(s.drop_last(), x, key);
        let p = place(s.drop_last(), x, key);
        assert(s.drop_last().insert(p, x).push(s.last()) =~= s.insert(p, x));
        assert forall|j: int| p <= j < s.len() implies !key_le(key, #[trigger] s[j], x) by {
            if j < s.len() - 1 {
                assert(s.drop_last()[j] == s[j]);
            }
        }
        if p > 0 {
            assert(s.drop_last()[p - 1] == s[p - 1]);
        }
    }
}

/// Whether `a` may stand before `b` under a key.
fn may_precede(key: SortKey, a: &FaultLoc, b: &FaultLoc) -> (r: bool)
    ensures
        r == key_le(key, a@, b@),
{
    match key {
        SortKey::Depth => a.depth <= b.depth,
        SortKey::Score => {
            assert((a.score.num as u128) * (b.score.den as u128) <= u128::MAX) by (nonlinear_arith)
                requires
                    a.score.num <= u64::MAX,
                    b.score.den <= u64::MAX,
            ;
            assert((b.score.num as u128) * (a.score.den as u128) <= u128::MAX) by (nonlinear_arith)
                requires
                    b.score.num <= u64::MAX,
                    a.score.den <= u64::MAX,
            ;
            let left: u128 = (a.score.num as u128) * (b.score.den as u128);
            let right: u128 = (b.score.num as u128) * (a.score.den as u128);
            assert(left == a@.score_num * b@.score_den) by (nonlinear_arith)
                requires
                    left == (a.score.num as u128) * (b.score.den as u128),
                    a@.score_num == a.score.num,
                    b@.score_den == b.score.den,
            ;
            assert(right == b@.score_num * a@.score_den) by (nonlinear_arith)
                requires
                    right == (b.score.num as u128) * (a.score.den as u128),
                    b@.score_num == b.score.num,
                    a@.score_den == a.score.den,
            ;
            left <= right
        },
    }
}

/// The candidates in the order of a key, equals in the order they came in.
pub fn stable_sort(v: &Vec<FaultLoc>, key: SortKey) -> (r: Vec<FaultLoc>)
    ensures
        fault_locs_view(r@) == stably_sorted(fault_locs_view(v@), key),
        r@.len() == v@.len(),
{
    let mut out: Vec<FaultLoc> = Vec::new();
    let mut i: usize = 0;
    assert(fault_locs_view(v@).take(0) =~= Seq::empty());
    assert(fault_locs_view(out@) =~= Seq::empty());
    while i < v.len()
        invariant
            i <= v@.len(),
            out@.len() == i,
            fault_locs_view(out@) == stably_sorted(fault_locs_view(v@).take(i as int), key),
        decreases v@.len() - i,
    {
        let x = v[i].duplicate();
        let ghost before = fault_locs_view(out@);
        let mut p: usize = out.len();
        while p > 0 && !may_precede(key, &out[p - 1], &x)
            invariant
                p <= out@.len(),
                before == fault_locs_view(out@),
                forall|j: int| p <= j < before.len() ==> !key_le(key, #[trigger] before[j], x@),
            decreases p,
        {
            p -= 1;
        }
        proof {
            lemma_inserted_is_insert(before, x@, key);
            let q = place(before, x@, key);
            if q > 0 && (p as int) < q {
                assert(!key_le(key, before[q - 1], x@));
            }
            if p > 0 && q < p as int {
                assert(!key_le(key, before[p - 1], x@));
            }
            assert(p as int == q);
            assert(fault_locs_view(v@).take(i as int + 1).drop_last() =~= fault_locs_view(
                v@,
            ).take(i as int));
            assert(fault_locs_view(v@).take(i as int + 1).last() == x@);
        }
        out.insert(p, x);
        assert(fault_locs_view(out@) =~= before.insert(p as int, x@));
        i += 1;
    }
    assert(fault_locs_view(v@).take(i as int) =~= fault_locs_view(v@));
    out
}

/// The candidates with their depths made dense: the depth of each becomes
/// its place in the list, counted from one.
pub open spec fn renumbered(s: Seq<FaultLocView>) -> Seq<FaultLocView> {
    Seq::new(s.len(), |i: int| FaultLocView { depth: i + 1, ..s[i] })
}

/// How many of the first `n` candidates lie in the file `path`.
pub open spec fn occurrences(s: Seq<FaultLocView>, path: Seq<char>, n: nat) -> nat
    decreases n,
{
    if n == 0 {
        0
    } else {
        occurrences(s, path, (n - 1) as nat) + if s[n - 1].file_path == path {
            1nat
        } else {
            0nat
        }
    }
}

/// The score of a candidate among `s`: its depth over the number of
/// candidates in its file, and half of that if it is a dependency.
pub open spec fn scored_one(s: Seq<FaultLocView>, c: FaultLocView) -> FaultLocView {
    FaultLocView {
        score_num: c.depth as nat,
        score_den: occurrences(s, c.file_path, s.len()) * if c.is_dep {
            2nat
        } else {
            1nat
        },
        ..c
    }
}

/// The candidates, each with its score among them.
pub open spec fn scored(s: Seq<FaultLocView>) -> Seq<FaultLocView> {
    Seq::new(s.len(), |i: int| scored_one(s, s[i]))
}

/// The candidates in depth order with dense depths: what ranking leaves
/// in the list.
pub open spec fn tuned(s: Seq<FaultLocView>) -> Seq<FaultLocView> {
    renumbered(stably_sorted(s, SortKey::Depth))
}

/// The ranking: depth order, dense depths, scores, score order.
pub open spec fn ranked(s: Seq<FaultLocView>) -> Seq<FaultLocView> {
    stably_sorted(scored(tuned(s)), SortKey::Score)
}

/// No file holds more of the first `n` candidates than `n`.
proof fn lemma_occurrences_bound(s: Seq<FaultLocView>, path: Seq<char>, n: nat)
    ensures
        occurrences(s, path, n) <= n,
    decreases n,
{
    if n > 0 {
        lemma_occurrences_bound(s, path, (n - 1) as nat);
    }
}

/// A file that holds one of the first `n` candidates is counted.
proof fn lemma_occurrences_positive(s: Seq<FaultLocView>, i: int, n: nat)
    requires
        0 <= i < n,
    ensures
        occurrences(s, s[i].file_path, n) >= 1,
    decreases n,
{
    if i < n - 1 {
        lemma_occurrences_positive(s, i, (n - 1) as nat);
    }
}

/// A list of candidates to rank.
pub struct RankList {
    pub rk_list: Vec<FaultLoc>,
}

impl RankList {
    /// A list of the given candidates, in the order given.
    pub fn new(fault_locs: Vec<FaultLoc>) -> (r: Self)
        ensures
            r.rk_list == fault_locs,
    {
        RankList { rk_list: fault_locs }
    }

    /// Puts the list in depth order and makes the depths dense.
    pub fn tune_depth(&mut self)
        requires
            old(self).rk_list@.len() <= i32::MAX,
        ensures
            fault_locs_view(final(self).rk_list@) == tuned(fault_locs_view(old(self).rk_list@)),
            final(self).rk_list@.len() == old(self).rk_list@.len(),
    {
        let mut sorted = stable_sort(&self.rk_list, SortKey::Depth);
        let ghost in_order = fault_locs_view(sorted@);
        let mut index: usize = 0;
        while index < sorted.len()
            invariant
                index <= sorted@.len(),
                sorted@.len() == in_order.len(),
                sorted@.len() <= i32::MAX,
                forall|j: int|
                    0 <= j < index ==> (#[trigger] fault_locs_view(sorted@)[j]) == renumbered(
                        in_order,
                    )[j],
                forall|j: int|
                    index <= j < sorted@.len() ==> (#[trigger] fault_locs_view(sorted@)[j])
                        == in_order[j],
            decreases sorted@.len() - index,
        {
            let mut fault_loc = sorted[index].duplicate();
            assert(fault_locs_view(sorted@)[index as int] == sorted@[index as int]@);
            assert(fault_loc@ == in_order[index as int]);
            fault_loc.depth = (index + 1) as i32;
            assert(fault_loc@ == renumbered(in_order)[index as int]);
            let ghost before = fault_locs_view(sorted@);
            sorted.set(index, fault_loc);
            assert(fault_locs_view(sorted@) =~= before.update(index as int, fault_loc@));
            index += 1;
        }
        assert(fault_locs_view(sorted@) =~= renumbered(in_order));
        self.rk_list = sorted;
    }

    /// Ranks the candidates, most suspicious first. The list itself is
    /// left in depth order with dense depths; the ranking is handed back.
    /// It stands in the order of its scores, and ranking it again would
    /// give it back as it is.
    pub fn rank(&mut self) -> (res: Vec<FaultLoc>)
        requires
            old(self).rk_list@.len() <= i32::MAX,
        ensures
            fault_locs_view(final(self).rk_list@) == tuned(fault_locs_view(old(self).rk_list@)),
            fault_locs_view(res@) == ranked(fault_locs_view(old(self).rk_list@)),
            res@.len() == old(self).rk_list@.len(),
            ordered(fault_locs_view(res@), SortKey::Score),
            ranked(fault_locs_view(res@)) == fault_locs_view(res@),
    {
        self.tune_depth();
        let ghost all = fault_locs_view(self.rk_list@);
        assert(all.len() == old(self).rk_list@.len());
        let mut file_path_counts = new_tally();
        let mut i: usize = 0;
        while i < self.rk_list.len()
            invariant
                i <= self.rk_list@.len(),
                all == fault_locs_view(self.rk_list@),
                forall|path: Seq<char>|
                    #[trigger] counted(file_path_counts, path) == occurrences(all, path, i as nat),
            decreases self.rk_list@.len() - i,
        {
            let fault_loc = &self.rk_list[i];
            proof {
                lemma_occurrences_bound(all, fault_loc.file_path@, i as nat);
                assert(all[i as int] == fault_loc@);
            }
            let ghost before = file_path_counts;
            let so_far: usize = match count_of(&file_path_counts, &fault_loc.file_path) {
                Some(count) => count,
                None => 0,
            };
            assert(so_far == counted(file_path_counts, fault_loc.file_path@));
            set_count(&mut file_path_counts, &fault_loc.file_path, so_far + 1);
            assert forall|path: Seq<char>| #[trigger]
                counted(file_path_counts, path) == occurrences(all, path, (i + 1) as nat) by {
                assert(counted(before, path) == occurrences(all, path, i as nat));
            }
            i += 1;
        }
        let mut res: Vec<FaultLoc> = Vec::new();
        let mut k: usize = 0;
        while k < self.rk_list.len()
            invariant
                k <= self.rk_list@.len(),
                res@.len() == k,
                all == fault_locs_view(self.rk_list@),
                all.len() <= i32::MAX,
                all == tuned(fault_locs_view(old(self).rk_list@)),
                forall|path: Seq<char>|
                    #[trigger] counted(file_path_counts, path) == occurrences(
                        all,
                        path,
                        all.len(),
                    ),
                forall|j: int|
                    0 <= j < k ==> (#[trigger] fault_locs_view(res@)[j]) == scored_one(
                        all,
                        all[j],
                    ),
            decreases self.rk_list@.len() - k,
        {
            let mut fault_loc = self.rk_list[k].duplicate();
            proof {
                assert(all[k as int] == fault_loc@);
                lemma_occurrences_positive(all, k as int, all.len());
                lemma_occurrences_bound(all, fault_loc.file_path@, all.len());
                assert(counted(file_path_counts, fault_loc.file_path@) == occurrences(
                    all,
                    fault_loc.file_path@,
                    all.len(),
                ));
                assert(fault_loc.depth == k + 1);
            }
            let count: usize = match count_of(&file_path_counts, &fault_loc.file_path) {
                Some(count) => count,
                None => 0,
            };
            let den: u64 = if fault_loc.is_dep {
                count as u64 * 2
            } else {
                count as u64
            };
            fault_loc.score = Score { num: fault_loc.depth as u64, den };
            let ghost before = fault_locs_view(res@);
            res.push(fault_loc);
            assert(fault_locs_view(res@) =~= before.push(fault_loc@));
            k += 1;
        }
        assert(fault_locs_view(res@) =~= scored(all));
        proof {
            lemma_rank_is_idempotent(fault_locs_view(old(self).rk_list@));
            lemma_scores_are_proper(all);
            lemma_sorted_is_ordered(scored(all), SortKey::Score);
        }
        stable_sort(&res, SortKey::Score)
    }
}

/// Whether every candidate of `x` is one of `y`.
pub open spec fn all_among(x: Seq<FaultLocView>, y: Seq<FaultLocView>) -> bool {
    forall|j: int| 0 <= j < x.len() ==> y.contains(#[trigger] x[j])
}

/// Whether no two of the candidates have the same depth.
pub open spec fn distinct_depths(s: Seq<FaultLocView>) -> bool {
    forall|i: int, j: int|
        0 <= i < j < s.len() ==> (#[trigger] s[i]).depth != (#[trigger] s[j]).depth
}

/// Whether the list is in the order of a key: each candidate may stand
/// before every one behind it.
pub open spec fn ordered(s: Seq<FaultLocView>, key: SortKey) -> bool {
    forall|i: int, j: int| 0 <= i < j < s.len() ==> key_le(key, #[trigger] s[i], #[trigger] s[j])
}

/// Whether every score is a fraction: its denominator is not zero.
pub open spec fn proper_scores(s: Seq<FaultLocView>) -> bool {
    forall|i: int| 0 <= i < s.len() ==> (#[trigger] s[i]).score_den > 0
}

/// Whether a key compares the candidates of a list as an order does.
/// Depths always do; scores do where they are fractions.
pub open spec fn comparable(s: Seq<FaultLocView>, key: SortKey) -> bool {
    key == SortKey::Score ==> proper_scores(s)
}

/// If `a` may stand before `b` and `b` before `c`, then `a` may stand
/// before `c`.
pub proof fn lemma_key_le_is_transitive(
    key: SortKey,
    a: FaultLocView,
    b: FaultLocView,
    c: FaultLocView,
)
    requires
        key == SortKey::Score ==> b.score_den > 0,
        key_le(key, a, b),
        key_le(key, b, c),
    ensures
        key_le(key, a, c),
{
    if key == SortKey::Score {
        let (an, ad) = (a.score_num as int, a.score_den as int);
        let (bn, bd) = (b.score_num as int, b.score_den as int);
        let (cn, cd) = (c.score_num as int, c.score_den as int);
        assert(an * cd <= cn * ad) by (nonlinear_arith)
            requires
                an * bd <= bn * ad,
                bn * cd <= cn * bd,
                bd > 0,
                an >= 0,
                ad >= 0,
                bn >= 0,
                cn >= 0,
                cd >= 0,
        {
            assert((an * bd) * cd <= (bn * ad) * cd);
            assert((bn * cd) * ad <= (cn * bd) * ad);
            assert((an * cd) * bd == (an * bd) * cd);
            assert((bn * ad) * cd == (bn * cd) * ad);
            assert((cn * bd) * ad == (cn * ad) * bd);
            assert((an * cd) * bd <= (cn * ad) * bd);
        }
    }
}

/// Ordering keeps the candidates: as many come out as went in, each that
/// comes out went in, and if no two that went in had the same depth, no
/// two that come out have.
pub proof fn lemma_sorted_keeps(s: Seq<FaultLocView>, key: SortKey)
    ensures
        stably_sorted(s, key).len() == s.len(),
        all_among(stably_sorted(s, key), s),
        all_among(s, stably_sorted(s, key)),
        distinct_depths(s) ==> distinct_depths(stably_sorted(s, key)),
    decreases s.len(),
{
    if s.len() > 0 {
        let head = s.drop_last();
        let x = s.last();
        let before = stably_sorted(head, key);
        lemma_sorted_keeps(head, key);
        lemma_inserted_is_insert(before, x, key);
        let p = place(before, x, key);
        let after = before.insert(p, x);
        assert forall|j: int| 0 <= j < after.len() implies s.contains(#[trigger] after[j]) by {
            if j == p {
                assert(s[s.len() - 1] == x);
            } else {
                let k = if j < p {
                    j
                } else {
                    j - 1
                };
                assert(after[j] == before[k]);
                assert(head.contains(before[k]));
                let i = choose|i: int| 0 <= i < head.len() && head[i] == before[k];
                assert(s[i] == before[k]);
            }
        }
        assert forall|j: int| 0 <= j < s.len() implies after.contains(#[trigger] s[j]) by {
            if j == s.len() - 1 {
                assert(after[p] == x);
            } else {
                assert(head[j] == s[j]);
                assert(before.contains(head[j]));
                let k = choose|k: int| 0 <= k < before.len() && before[k] == head[j];
                if k < p {
                    assert(after[k] == s[j]);
                } else {
                    assert(after[k + 1] == s[j]);
                }
            }
        }
        if distinct_depths(s) {
            assert(distinct_depths(head)) by {
                assert forall|i: int, j: int| 0 <= i < j < head.len() implies (#[trigger] head[i]).depth
                    != (#[trigger] head[j]).depth by {
                    assert(head[i] == s[i] && head[j] == s[j]);
                }
            }
            assert forall|k: int| 0 <= k < before.len() implies (#[trigger] before[k]).depth
                != x.depth by {
                assert(head.contains(before[k]));
                let i = choose|i: int| 0 <= i < head.len() && head[i] == before[k];
                assert(s[i] == before[k]);
                assert(s[i].depth != s[s.len() - 1].depth);
            }
            assert forall|i: int, j: int| 0 <= i < j < after.len() implies (#[trigger] after[i]).depth
                != (#[trigger] after[j]).depth by {
                let a = if i < p {
                    i
                } else {
                    i - 1
                };
                let b = if j < p {
                    j
                } else {
                    j - 1
                };
                if i == p {
                    assert(after[j] == before[b]);
                } else if j == p {
                    assert(after[i] == before[a]);
                } else {
                    assert(after[i] == before[a] && after[j] == before[b]);
                }
            }
        }
    }
}

/// Ordering by a key orders by that key: in what comes out, each
/// candidate may stand before every one behind it.
pub proof fn lemma_sorted_is_ordered(s: Seq<FaultLocView>, key: SortKey)
    requires
        comparable(s, key),
    ensures
        ordered(stably_sorted(s, key), key),
    decreases s.len(),
{
    if s.len() > 0 {
        let head = s.drop_last();
        let before = stably_sorted(head, key);
        let x = s.last();
        assert(comparable(head, key)) by {
            assert forall|i: int| 0 <= i < head.len() implies #[trigger] head[i] == s[i] by {}
        }
        lemma_sorted_is_ordered(head, key);
        lemma_sorted_keeps(head, key);
        lemma_inserted_is_insert(before, x, key);
        let p = place(before, x, key);
        let after = before.insert(p, x);
        assert forall|i: int, j: int| 0 <= i < j < after.len() implies key_le(
            key,
            #[trigger] after[i],
            #[trigger] after[j],
        ) by {
            if i == p {
                assert(after[j] == before[j - 1]);
                assert(!key_le(key, before[j - 1], x));
            } else if j == p {
                assert(after[i] == before[i]);
                if i < p - 1 {
                    assert(key_le(key, before[i], before[p - 1]));
                    assert(head.contains(before[p - 1]));
                    let k = choose|k: int| 0 <= k < head.len() && head[k] == before[p - 1];
                    assert(head[k] == s[k]);
                    lemma_key_le_is_transitive(key, before[i], before[p - 1], x);
                }
            } else {
                let a = if i < p {
                    i
                } else {
                    i - 1
                };
                let b = if j < p {
                    j
                } else {
                    j - 1
                };
                assert(after[i] == before[a] && after[j] == before[b]);
            }
        }
    }
}

/// The test for a tie with `x` under a key: each of the two may stand
/// before the other.
pub open spec fn ties_with(x: FaultLocView, key: SortKey) -> spec_fn(FaultLocView) -> bool {
    |c: FaultLocView| key_le(key, c, x) && key_le(key, x, c)
}

/// Ordering is stable: the candidates that tie with one another come out
/// in the order in which they went in. For every `x`, those that tie with
/// `x` are the same list before and after.
pub proof fn lemma_sorted_is_stable(s: Seq<FaultLocView>, x: FaultLocView, key: SortKey)
    requires
        comparable(s, key),
        key == SortKey::Score ==> x.score_den > 0,
    ensures
        stably_sorted(s, key).filter(ties_with(x, key)) == s.filter(ties_with(x, key)),
    decreases s.len(),
{
    let pred = ties_with(x, key);
    if s.len() > 0 {
        let head = s.drop_last();
        let last = s.last();
        let before = stably_sorted(head, key);
        assert(comparable(head, key)) by {
            assert forall|i: int| 0 <= i < head.len() implies #[trigger] head[i] == s[i] by {}
        }
        lemma_sorted_is_stable(head, x, key);
        lemma_inserted_is_insert(before, last, key);
        let p = place(before, last, key);
        let lo = before.take(p);
        let hi = before.skip(p);
        assert(before =~= lo + hi);
        assert(before.insert(p, last) =~= lo.push(last) + hi);
        assert(s =~= head.push(last));
        Seq::filter_distributes_over_add(lo, hi, pred);
        Seq::filter_distributes_over_add(lo.push(last), hi, pred);
        lo.lemma_filter_push(last, pred);
        head.lemma_filter_push(last, pred);
        if pred(last) {
            assert forall|k: int| 0 <= k < hi.len() implies !pred(#[trigger] hi[k]) by {
                assert(hi[k] == before[p + k]);
                assert(!key_le(key, before[p + k], last));
                if pred(hi[k]) {
                    lemma_key_le_is_transitive(key, hi[k], x, last);
                }
            }
            assert(hi.all(|c: FaultLocView| !pred(c)));
            hi.lemma_all_neg_filter_empty(pred);
            assert(hi.filter(pred) =~= Seq::empty());
            assert(lo.filter(pred) + hi.filter(pred) =~= lo.filter(pred));
            assert(lo.filter(pred).push(last) + hi.filter(pred) =~= lo.filter(pred).push(last));
        }
    } else {
        assert(stably_sorted(s, key) =~= s);
    }
}

/// Ordering keeps every candidate as often as it came: what comes out is
/// a rearrangement of what went in.
pub proof fn lemma_sorted_is_rearranged(s: Seq<FaultLocView>, key: SortKey)
    ensures
        stably_sorted(s, key).to_multiset() == s.to_multiset(),
    decreases s.len(),
{
    if s.len() > 0 {
        let head = s.drop_last();
        let before = stably_sorted(head, key);
        lemma_sorted_is_rearranged(head, key);
        lemma_inserted_is_insert(before, s.last(), key);
        vstd::seq_lib::to_multiset_insert(before, place(before, s.last(), key), s.last());
        vstd::seq_lib::to_multiset_build(head, s.last());
        assert(s =~= head.push(s.last()));
    } else {
        assert(stably_sorted(s, key) =~= s);
    }
}

/// Whether the depth of each candidate is its place in the list, counted
/// from one.
pub open spec fn dense(s: Seq<FaultLocView>) -> bool {
    forall|i: int| 0 <= i < s.len() ==> (#[trigger] s[i]).depth == i + 1
}

/// A list whose depths rise strictly, from one at least to its length at
/// most, has dense depths.
proof fn lemma_rising_is_dense(d: Seq<FaultLocView>, i: int)
    requires
        ordered(d, SortKey::Depth),
        distinct_depths(d),
        forall|j: int| 0 <= j < d.len() ==> 1 <= (#[trigger] d[j]).depth <= d.len(),
        0 <= i < d.len(),
    ensures
        d[i].depth == i + 1,
{
    lemma_rising_below(d, i);
    lemma_rising_above(d, i);
}

/// Depths that rise strictly from one at least are at least the place.
proof fn lemma_rising_below(d: Seq<FaultLocView>, i: int)
    requires
        ordered(d, SortKey::Depth),
        distinct_depths(d),
        forall|j: int| 0 <= j < d.len() ==> 1 <= (#[trigger] d[j]).depth,
        0 <= i < d.len(),
    ensures
        d[i].depth >= i + 1,
    decreases i,
{
    if i > 0 {
        lemma_rising_below(d, i - 1);
        assert(key_le(SortKey::Depth, d[i - 1], d[i]));
        assert(d[i - 1].depth != d[i].depth);
    }
}

/// Depths that rise strictly to the length at most are at most the place.
proof fn lemma_rising_above(d: Seq<FaultLocView>, i: int)
    requires
        ordered(d, SortKey::Depth),
        distinct_depths(d),
        forall|j: int| 0 <= j < d.len() ==> (#[trigger] d[j]).depth <= d.len(),
        0 <= i < d.len(),
    ensures
        d[i].depth <= i + 1,
    decreases d.len() - i,
{
    if i < d.len() - 1 {
        lemma_rising_above(d, i + 1);
        assert(key_le(SortKey::Depth, d[i], d[i + 1]));
        assert(d[i].depth != d[i + 1].depth);
    }
}

/// Ordering a rearrangement of a dense list by depth gives the dense list
/// back.
proof fn lemma_depth_order_restores(r: Seq<FaultLocView>, s: Seq<FaultLocView>)
    requires
        dense(s),
        r.len() == s.len(),
        all_among(r, s),
        distinct_depths(r),
    ensures
        stably_sorted(r, SortKey::Depth) == s,
{
    let d = stably_sorted(r, SortKey::Depth);
    lemma_sorted_keeps(r, SortKey::Depth);
    lemma_sorted_is_ordered(r, SortKey::Depth);
    assert forall|j: int| 0 <= j < d.len() implies 1 <= (#[trigger] d[j]).depth <= d.len() && d[j]
        == s[d[j].depth - 1] by {
        assert(r.contains(d[j]));
        let k = choose|k: int| 0 <= k < r.len() && r[k] == d[j];
        assert(s.contains(r[k]));
        let i = choose|i: int| 0 <= i < s.len() && s[i] == r[k];
        assert(s[i].depth == i + 1);
    }
    assert forall|j: int| 0 <= j < d.len() implies d[j] == s[j] by {
        lemma_rising_is_dense(d, j);
    }
    assert(d =~= s);
}

/// The number of candidates in a file depends on the files alone.
proof fn lemma_occurrences_same_files(
    a: Seq<FaultLocView>,
    b: Seq<FaultLocView>,
    path: Seq<char>,
    n: nat,
)
    requires
        n <= a.len(),
        a.len() == b.len(),
        forall|i: int| 0 <= i < a.len() ==> (#[trigger] a[i]).file_path == b[i].file_path,
    ensures
        occurrences(a, path, n) == occurrences(b, path, n),
    decreases n,
{
    if n > 0 {
        lemma_occurrences_same_files(a, b, path, (n - 1) as nat);
        assert(a[n - 1].file_path == b[n - 1].file_path);
    }
}

/// Ranking what has been ranked changes nothing: the ranking of a ranking
/// is that ranking, candidate for candidate, in the same order.
pub proof fn lemma_rank_is_idempotent(s: Seq<FaultLocView>)
    ensures
        ranked(ranked(s)) == ranked(s),
{
    let t = tuned(s);
    let sc = scored(t);
    let r = stably_sorted(sc, SortKey::Score);
    lemma_sorted_keeps(s, SortKey::Depth);
    assert(dense(sc));
    assert(distinct_depths(sc));
    lemma_sorted_keeps(sc, SortKey::Score);
    lemma_depth_order_restores(r, sc);
    assert(renumbered(sc) =~= sc);
    assert(tuned(r) == sc);
    assert forall|i: int| 0 <= i < sc.len() implies scored_one(sc, #[trigger] sc[i]) == sc[i] by {
        lemma_occurrences_same_files(sc, t, sc[i].file_path, sc.len());
        assert(sc[i] == scored_one(t, t[i]));
    }
    assert(scored(sc) =~= sc);
}

/// After the depths are tuned they are dense: the candidate at place `i`,
/// counted from zero, has depth `i + 1`; and the depths the candidates
/// came with never fall along the list.
pub proof fn lemma_tuned_is_dense(s: Seq<FaultLocView>)
    ensures
        tuned(s).len() == s.len(),
        dense(tuned(s)),
        ordered(stably_sorted(s, SortKey::Depth), SortKey::Depth),
{
    lemma_sorted_keeps(s, SortKey::Depth);
    lemma_sorted_is_ordered(s, SortKey::Depth);
}

/// Every score that ranking gives is a fraction.
pub proof fn lemma_scores_are_proper(s: Seq<FaultLocView>)
    ensures
        proper_scores(scored(s)),
{
    assert forall|i: int| 0 <= i < scored(s).len() implies (#[trigger] scored(s)[i]).score_den
        > 0 by {
        lemma_occurrences_positive(s, i, s.len());
        let n = occurrences(s, s[i].file_path, s.len());
        assert(n * 2 > 0 && n * 1 > 0) by (nonlinear_arith)
            requires
                n >= 1,
        ;
    }
}

/// A ranking is in the order of its scores, lowest first, and holds the
/// scored candidates, each as often as it came; candidates with the same
/// score stand in depth order, which is the order of the trace among
/// candidates that came with the same depth.
pub proof fn lemma_ranking_orders_by_score(s: Seq<FaultLocView>, x: FaultLocView)
    requires
        x.score_den > 0,
    ensures
        ordered(ranked(s), SortKey::Score),
        ranked(s).to_multiset() == scored(tuned(s)).to_multiset(),
        ranked(s).filter(ties_with(x, SortKey::Score)) == scored(tuned(s)).filter(
            ties_with(x, SortKey::Score),
        ),
{
    lemma_scores_are_proper(tuned(s));
    lemma_sorted_is_ordered(scored(tuned(s)), SortKey::Score);
    lemma_sorted_is_rearranged(scored(tuned(s)), SortKey::Score);
    lemma_sorted_is_stable(scored(tuned(s)), x, SortKey::Score);
}

} // verus!
