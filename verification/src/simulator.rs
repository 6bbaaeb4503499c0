//! The balance-testing harness: plays many independent synthetic games with
//! a greedy heuristic over freshly generated grids and aggregates the
//! outcomes into balance statistics and a qualitative verdict.
//!
//! The simulated economy deliberately diverges from the live one: a flat
//! per-candidate movement cost, a flat non-compounding x1.2 combo bonus
//! after the first fix, a flat +50 adjacency bonus, and no decay or
//! neighbour effects. It is a documented approximation used only for
//! balance estimation.

use vstd::prelude::*;

use crate::catalog::{spec_avg_savings, spec_fix_sprints, spec_waste_cost, ResourceType};
use crate::economy::{spec_burn_rate, spec_waste_pct_tenths, spec_win_numbers, Difficulty, GameData, MAX_INITIAL_BUDGET, MAX_MONTHLY_SAVINGS};
use crate::game::spec_base_waste_sum;
use crate::grid::{count_resources, generate_random_grid};
use crate::rng::seeded_rng;

verus! {

broadcast use vstd::seq_lib::group_to_multiset_ensures, vstd::seq_lib::to_multiset_update;

/// One fixable resource the greedy strategy considers: its base waste, its
/// average savings, its fix duration, and its position in the enumeration
/// order (the deterministic tie-break).
#[derive(Clone, Copy)]
pub struct Candidate {
    pub waste: i64,
    pub avg: i64,
    pub fix: u8,
    pub ord: u32,
}

/// Numeric sanity of a candidate: table bounds and a positive duration.
pub open spec fn cand_wf(c: Candidate) -> bool {
    &&& 0 <= c.waste <= 450
    &&& 0 <= c.avg <= 675
    &&& 1 <= c.fix <= 3
}

/// Greedy priority: `a` comes no later than `b` when its efficiency
/// `(waste + avg) / fix` is higher (compared as exact rationals by cross
/// multiplication), with ties broken by enumeration order. A deterministic
/// total order.
pub open spec fn cand_le(a: Candidate, b: Candidate) -> bool {
    let l = (a.waste + a.avg) * b.fix;
    let r = (b.waste + b.avg) * a.fix;
    l > r || (l == r && a.ord <= b.ord)
}

/// The greedy priority is total.
proof fn lemma_cand_le_total(a: Candidate, b: Candidate)
    ensures
        cand_le(a, b) || cand_le(b, a),
{
}

/// The greedy priority is transitive.
proof fn lemma_cand_le_trans(a: Candidate, b: Candidate, c: Candidate)
    requires
        cand_wf(a),
        cand_wf(b),
        cand_wf(c),
        cand_le(a, b),
        cand_le(b, c),
    ensures
        cand_le(a, c),
{
    let ab = (a.waste + a.avg) * b.fix;
    let ba = (b.waste + b.avg) * a.fix;
    let bc = (b.waste + b.avg) * c.fix;
    let cb = (c.waste + c.avg) * b.fix;
    let ac = (a.waste + a.avg) * c.fix;
    let ca = (c.waste + c.avg) * a.fix;
    assert(ab >= ba && bc >= cb ==> ac >= ca) by (nonlinear_arith)
        requires
            ab == (a.waste + a.avg) * b.fix,
            ba == (b.waste + b.avg) * a.fix,
            bc == (b.waste + b.avg) * c.fix,
            cb == (c.waste + c.avg) * b.fix,
            ac == (a.waste + a.avg) * c.fix,
            ca == (c.waste + c.avg) * a.fix,
            1 <= a.fix,
            1 <= b.fix,
            1 <= c.fix,
    ;
    assert(ab > ba && bc >= cb ==> ac > ca) by (nonlinear_arith)
        requires
            ab == (a.waste + a.avg) * b.fix,
            ba == (b.waste + b.avg) * a.fix,
            bc == (b.waste + b.avg) * c.fix,
            cb == (c.waste + c.avg) * b.fix,
            ac == (a.waste + a.avg) * c.fix,
            ca == (c.waste + c.avg) * a.fix,
            1 <= a.fix,
            1 <= b.fix,
            1 <= c.fix,
    ;
    assert(ab >= ba && bc > cb ==> ac > ca) by (nonlinear_arith)
        requires
            ab == (a.waste + a.avg) * b.fix,
            ba == (b.waste + b.avg) * a.fix,
            bc == (b.waste + b.avg) * c.fix,
            cb == (c.waste + c.avg) * b.fix,
            ac == (a.waste + a.avg) * c.fix,
            ca == (c.waste + c.avg) * a.fix,
            1 <= a.fix,
            1 <= b.fix,
            1 <= c.fix,
    ;
}

/// Executable form of the greedy priority.
fn cand_le_exec(a: &Candidate, b: &Candidate) -> (r: bool)
    requires
        cand_wf(*a),
        cand_wf(*b),
    ensures
        r == cand_le(*a, *b),
{
    proof {
        assert((a.waste + a.avg) * (b.fix as i64) <= 3375 && (a.waste + a.avg) * (b.fix as i64)
            >= 0) by (nonlinear_arith)
            requires
                0 <= a.waste + a.avg <= 1125,
                1 <= b.fix <= 3,
        ;
        assert((b.waste + b.avg) * (a.fix as i64) <= 3375 && (b.waste + b.avg) * (a.fix as i64)
            >= 0) by (nonlinear_arith)
            requires
                0 <= b.waste + b.avg <= 1125,
                1 <= a.fix <= 3,
        ;
    }
    let l = (a.waste + a.avg) * b.fix as i64;
    let r = (b.waste + b.avg) * a.fix as i64;
    l > r || (l == r && a.ord <= b.ord)
}

/// Sorts the candidate list by the greedy priority: descending efficiency,
/// ties in enumeration order (what a stable descending sort produces).
/// Insertion sort; the output is a permutation of the input.
fn sort_candidates(v: &mut Vec<Candidate>)
    requires
        forall|t: int| 0 <= t < old(v)@.len() ==> cand_wf(#[trigger] old(v)@[t]),
    ensures
        final(v)@.len() == old(v)@.len(),
        final(v)@.to_multiset() == old(v)@.to_multiset(),
        forall|t: int| 0 <= t < final(v)@.len() ==> cand_wf(#[trigger] final(v)@[t]),
        forall|p: int, q: int|
            0 <= p < q < final(v)@.len() ==> cand_le(final(v)@[p], final(v)@[q]),
{
    let n = v.len();
    if n == 0 {
        return ;
    }
    let mut i: usize = 1;
    while i < n
        invariant
            1 <= i <= n,
            n == v@.len(),
            v@.to_multiset() == old(v)@.to_multiset(),
            forall|t: int| 0 <= t < n ==> cand_wf(#[trigger] v@[t]),
            forall|p: int, q: int| 0 <= p < q < i ==> cand_le(v@[p], v@[q]),
        decreases n - i,
    {
        let mut j: usize = i;
        while j > 0 && !cand_le_exec(&v[j - 1], &v[j])
            invariant
                0 <= j <= i < n,
                n == v@.len(),
                v@.to_multiset() == old(v)@.to_multiset(),
                forall|t: int| 0 <= t < n ==> cand_wf(#[trigger] v@[t]),
                forall|p: int, q: int| 0 <= p < q <= i && q != j ==> cand_le(v@[p], v@[q]),
                forall|q: int| j < q <= i ==> cand_le(v@[j as int], v@[q]),
            decreases j,
        {
            proof {
                lemma_cand_le_total(v@[j - 1], v@[j as int]);
            }
            let a = v[j - 1];
            let b = v[j];
            let ghost pre = v@;
            v[j - 1] = b;
            v[j] = a;
            proof {
                assert(v@.to_multiset() =~= pre.to_multiset());
            }
            j = j - 1;
        }
        proof {
            assert forall|p: int, q: int| 0 <= p < q <= i implies cand_le(v@[p], v@[q]) by {
                if q == j && p < j - 1 {
                    lemma_cand_le_trans(v@[p], v@[j - 1], v@[j as int]);
                }
            }
        }
        i = i + 1;
    }
}

/// Sum of the base waste of the candidates from index `i` on.
pub open spec fn spec_cand_waste_suffix(c: Seq<Candidate>, i: int) -> int
    decreases c.len() - i,
{
    if i < 0 || i >= c.len() {
        0
    } else {
        c[i].waste + spec_cand_waste_suffix(c, i + 1)
    }
}

/// The candidate list the greedy strategy starts from: one entry per
/// non-`Empty` cell of the first `n`, in enumeration order, carrying the
/// cell's table data and its index as the deterministic tie-break.
pub open spec fn spec_candidates_prefix(kinds: Seq<ResourceType>, n: int) -> Seq<Candidate>
    decreases n,
{
    if n <= 0 {
        Seq::empty()
    } else if kinds[n - 1] !is Empty {
        spec_candidates_prefix(kinds, n - 1).push(
            Candidate {
                waste: spec_waste_cost(kinds[n - 1]) as i64,
                avg: spec_avg_savings(kinds[n - 1]) as i64,
                fix: spec_fix_sprints(kinds[n - 1]) as u8,
                ord: (n - 1) as u32,
            },
        )
    } else {
        spec_candidates_prefix(kinds, n - 1)
    }
}

/// The full candidate list of a grid.
pub open spec fn spec_candidates(kinds: Seq<ResourceType>) -> Seq<Candidate> {
    spec_candidates_prefix(kinds, kinds.len() as int)
}

/// Sorted by the greedy priority: descending efficiency, ties in
/// enumeration order.
pub open spec fn spec_sorted_cands(s: Seq<Candidate>) -> bool {
    forall|p: int, q: int| 0 <= p < q < s.len() ==> cand_le(s[p], s[q])
}

/// The state of one simulated game while the greedy strategy runs.
pub struct TrialState {
    pub budget: int,
    pub sprints: int,
    pub waste: int,
    pub savings: int,
    pub adjacency: int,
    pub fixed: int,
    pub won: bool,
    pub aborted: bool,
}

/// Where every trial starts: the fixed budget, no progress, and the
/// ground-truth waste of the whole candidate list.
pub open spec fn spec_trial_init(cs: Seq<Candidate>) -> TrialState {
    TrialState {
        budget: 30000,
        sprints: 0,
        waste: spec_cand_waste_suffix(cs, 0),
        savings: 0,
        adjacency: 0,
        fixed: 0,
        won: false,
        aborted: false,
    }
}

/// One greedy step: a finished trial is left alone; otherwise the flat
/// movement cost and the two burn-rate sprints (reveal, fix) are charged,
/// aborting the moment the budget is exhausted; a landed fix removes the
/// candidate's base waste, accrues its savings (flat x1.2 after the first
/// fix), credits the flat adjacency bonus, and wins the trial at once if
/// the win numbers hold from sprint 5 on.
pub open spec fn spec_trial_step(s: TrialState, c: Candidate) -> TrialState {
    if s.won || s.aborted {
        s
    } else {
        let b1 = s.budget - 60;
        if b1 <= 0 {
            TrialState { budget: b1, aborted: true, ..s }
        } else {
            let b2 = b1 - spec_burn_rate(s.waste);
            if b2 <= 0 {
                TrialState { budget: b2, sprints: s.sprints + 1, aborted: true, ..s }
            } else {
                let b3 = b2 - spec_burn_rate(s.waste);
                if b3 <= 0 {
                    TrialState { budget: b3, sprints: s.sprints + 2, aborted: true, ..s }
                } else {
                    let w = s.waste - c.waste;
                    let sav = s.savings + if s.fixed > 0 {
                        c.avg * 6 / 5
                    } else {
                        c.avg as int
                    };
                    TrialState {
                        budget: b3,
                        sprints: s.sprints + 2,
                        waste: w,
                        savings: sav,
                        adjacency: s.adjacency + if s.fixed > 0 {
                            50int
                        } else {
                            0int
                        },
                        fixed: s.fixed + 1,
                        won: s.sprints + 2 >= 5 && spec_win_numbers(w, sav),
                        aborted: false,
                    }
                }
            }
        }
    }
}

/// The whole greedy run: the candidates consumed in order, each through
/// one `spec_trial_step`.
pub open spec fn spec_trial_fold(s: TrialState, cs: Seq<Candidate>) -> TrialState
    decreases cs.len(),
{
    if cs.len() == 0 {
        s
    } else {
        spec_trial_fold(spec_trial_step(s, cs[0]), cs.drop_first())
    }
}

/// A finished trial stays finished: the fold is the identity from the
/// moment a win or an abort is reached.
pub proof fn lemma_trial_fold_stopped(s: TrialState, cs: Seq<Candidate>)
    requires
        s.won || s.aborted,
    ensures
        spec_trial_fold(s, cs) == s,
    decreases cs.len(),
{
    if cs.len() > 0 {
        lemma_trial_fold_stopped(s, cs.drop_first());
    }
}

/// Candidate waste suffix sums stay within the table bounds.
proof fn lemma_cand_suffix_bounds(c: Seq<Candidate>, i: int)
    requires
        0 <= i <= c.len(),
        forall|u: int| 0 <= u < c.len() ==> cand_wf(#[trigger] c[u]),
    ensures
        0 <= spec_cand_waste_suffix(c, i) <= (c.len() - i) * 450,
    decreases c.len() - i,
{
    if i < c.len() {
        lemma_cand_suffix_bounds(c, i + 1);
    }
}

/// The outcome of one simulated game. `waste_percentage` is in tenths of a
/// percent; `final_budget` is floored at zero.
#[derive(Clone, Copy, Debug, PartialEq, Eq, Structural)]
pub struct SimulationResult {
    pub won: bool,
    pub sprints: u32,
    pub final_budget: i64,
    pub final_waste: i64,
    pub final_savings: i64,
    pub waste_percentage: i64,
}

/// Extracts every resource-bearing cell as a greedy candidate, in
/// enumeration order.
fn collect_candidates(kinds: &Vec<ResourceType>) -> (v: Vec<Candidate>)
    requires
        kinds@.len() <= 65025,
    ensures
        v@ == spec_candidates(kinds@),
        v@.len() == count_resources(kinds@),
        v@.len() <= kinds@.len(),
        forall|t: int| 0 <= t < v@.len() ==> cand_wf(#[trigger] v@[t]),
{
    let n = kinds.len();
    let mut v: Vec<Candidate> = Vec::new();
    let mut i: usize = 0;
    while i < n
        invariant
            i <= n,
            n == kinds@.len(),
            n <= 65025,
            v@.len() <= i,
            v@ == spec_candidates_prefix(kinds@, i as int),
            v@.len() == count_resources(kinds@.take(i as int)),
            forall|t: int| 0 <= t < v@.len() ==> cand_wf(#[trigger] v@[t]),
        decreases n - i,
    {
        let k = kinds[i];
        if k != ResourceType::Empty {
            let waste = k.waste_cost() as i64;
            let avg = k.avg_savings() as i64;
            let fix = k.fix_sprints();
            proof {
                assert(spec_fix_sprints(kinds@[i as int]) >= 1);
            }
            v.push(Candidate { waste, avg, fix, ord: i as u32 });
        }
        proof {
            assert(kinds@.take(i as int + 1).drop_last() =~= kinds@.take(i as int));
            assert(kinds@.take(i as int + 1).last() == kinds@[i as int]);
        }
        i = i + 1;
    }
    proof {
        assert(kinds@.take(n as int) =~= kinds@);
    }
    v
}

/// Candidate ordinals are the cell indices, so the extraction carries them
/// strictly increasing.
proof fn lemma_candidates_prefix_ords(kinds: Seq<ResourceType>, n: int)
    requires
        0 <= n <= kinds.len(),
        kinds.len() <= 65025,
    ensures
        forall|p: int, q: int|
            0 <= p < q < spec_candidates_prefix(kinds, n).len() ==> spec_candidates_prefix(
                kinds,
                n,
            )[p].ord < spec_candidates_prefix(kinds, n)[q].ord,
        forall|p: int|
            0 <= p < spec_candidates_prefix(kinds, n).len() ==> spec_candidates_prefix(
                kinds,
                n,
            )[p].ord < n,
    decreases n,
{
    if n > 0 {
        lemma_candidates_prefix_ords(kinds, n - 1);
        let pre = spec_candidates_prefix(kinds, n - 1);
        let cur = spec_candidates_prefix(kinds, n);
        if kinds[n - 1] !is Empty {
            assert(cur.len() == pre.len() + 1);
            assert(forall|p: int| 0 <= p < pre.len() ==> cur[p] == pre[p]);
            assert(cur[cur.len() - 1].ord == n - 1);
        }
    }
}

/// Pairwise-distinct ordinals survive any permutation: a sequence with the
/// same multiset as an ordinal-distinct one is ordinal-distinct itself.
proof fn lemma_ords_distinct_transfer(base: Seq<Candidate>, s: Seq<Candidate>)
    requires
        s.to_multiset() == base.to_multiset(),
        forall|p: int, q: int| 0 <= p < q < base.len() ==> base[p].ord != base[q].ord,
    ensures
        forall|p: int, q: int| 0 <= p < q < s.len() ==> s[p].ord != s[q].ord,
{
    assert(base.no_duplicates()) by {
        assert(forall|p: int, q: int|
            0 <= p < base.len() && 0 <= q < base.len() && p != q ==> base[p].ord != base[q].ord);
    }
    base.lemma_multiset_has_no_duplicates();
    s.lemma_multiset_has_no_duplicates_conv();
    assert forall|p: int, q: int| 0 <= p < q < s.len() implies s[p].ord != s[q].ord by {
        assert(s[p] != s[q]);
        assert(s.contains(s[p]) && s.contains(s[q]));
        assert(base.to_multiset().count(s[p]) > 0 && base.to_multiset().count(s[q]) > 0);
        assert(base.contains(s[p]) && base.contains(s[q]));
        let a = choose|a: int| 0 <= a < base.len() && base[a] == s[p];
        let b = choose|b: int| 0 <= b < base.len() && base[b] == s[q];
        assert(a != b);
    }
}

/// Mutual priority forces equal efficiency and equal ordinals.
proof fn lemma_cand_le_antisym_ord(a: Candidate, b: Candidate)
    requires
        cand_le(a, b),
        cand_le(b, a),
    ensures
        a.ord == b.ord,
{
}

/// Two sorted sequences over the same ordinal-distinct multiset are equal:
/// the greedy order is total and its ties are broken by the unique
/// ordinals, so the sorted permutation is unique.
proof fn lemma_sorted_distinct_ords_unique(s1: Seq<Candidate>, s2: Seq<Candidate>)
    requires
        s1.to_multiset() == s2.to_multiset(),
        spec_sorted_cands(s1),
        spec_sorted_cands(s2),
        forall|p: int, q: int| 0 <= p < q < s1.len() ==> s1[p].ord != s1[q].ord,
    ensures
        s1 == s2,
    decreases s1.len(),
{
    broadcast use vstd::seq_lib::group_to_multiset_ensures;

    assert(s1.len() == s1.to_multiset().len());
    assert(s2.len() == s2.to_multiset().len());
    if s1.len() == 0 {
        assert(s1 =~= s2);
    } else {
        // Each head is contained in the other sequence, so the heads bound
        // each other in both directions.
        assert(s1.contains(s1[0]) && s2.contains(s2[0]));
        assert(s2.to_multiset().count(s1[0]) > 0 && s1.to_multiset().count(s2[0]) > 0);
        assert(s2.contains(s1[0]) && s1.contains(s2[0]));
        let j = choose|j: int| 0 <= j < s2.len() && s2[j] == s1[0];
        let k = choose|k: int| 0 <= k < s1.len() && s1[k] == s2[0];
        assert(cand_le(s2[0], s1[0])) by {
            if j > 0 {
                assert(cand_le(s2[0], s2[j]));
            }
        }
        assert(cand_le(s1[0], s2[0])) by {
            if k > 0 {
                assert(cand_le(s1[0], s1[k]));
            }
        }
        lemma_cand_le_antisym_ord(s1[0], s2[0]);
        assert(k == 0) by {
            if k > 0 {
                assert(s1[0].ord != s1[k].ord);
            }
        }
        assert(s1[0] == s2[0]);

        let d1 = s1.drop_first();
        let d2 = s2.drop_first();
        assert(s1.remove(0) =~= d1);
        assert(s2.remove(0) =~= d2);
        assert(d1.to_multiset() == s1.to_multiset().remove(s1[0]));
        assert(d2.to_multiset() == s2.to_multiset().remove(s2[0]));
        assert(d1.to_multiset() == d2.to_multiset());
        assert(spec_sorted_cands(d1)) by {
            assert(forall|p: int, q: int|
                0 <= p < q < d1.len() ==> d1[p] == s1[p + 1] && d1[q] == s1[q + 1]);
        }
        assert(spec_sorted_cands(d2)) by {
            assert(forall|p: int, q: int|
                0 <= p < q < d2.len() ==> d2[p] == s2[p + 1] && d2[q] == s2[q + 1]);
        }
        assert(forall|p: int, q: int| 0 <= p < q < d1.len() ==> d1[p].ord != d1[q].ord) by {
            assert(forall|p: int, q: int|
                0 <= p < q < d1.len() ==> d1[p] == s1[p + 1] && d1[q] == s1[q + 1]);
        }
        lemma_sorted_distinct_ords_unique(d1, d2);
        assert(s1 =~= s2) by {
            assert(forall|t: int| 1 <= t < s1.len() ==> s1[t] == d1[t - 1] && s2[t] == d2[t - 1]);
        }
    }
}

/// The sorted candidate sequence of a grid is unique: any two witnesses of
/// `simulate_single_game`'s contract are equal, so the contract determines
/// the trial's result as a function of the grid.
pub proof fn lemma_trial_witness_unique(
    kinds: Seq<ResourceType>,
    sc1: Seq<Candidate>,
    sc2: Seq<Candidate>,
)
    requires
        kinds.len() <= 65025,
        sc1.to_multiset() == spec_candidates(kinds).to_multiset(),
        sc2.to_multiset() == spec_candidates(kinds).to_multiset(),
        spec_sorted_cands(sc1),
        spec_sorted_cands(sc2),
    ensures
        sc1 == sc2,
{
    lemma_candidates_prefix_ords(kinds, kinds.len() as int);
    lemma_ords_distinct_transfer(spec_candidates(kinds), sc1);
    lemma_sorted_distinct_ords_unique(sc1, sc2);
}

/// Dropping the head shifts the waste suffix sums by one.
proof fn lemma_suffix_sum_shift(s: Seq<Candidate>, i: int)
    requires
        0 <= i <= s.len() - 1,
    ensures
        spec_cand_waste_suffix(s.drop_first(), i) == spec_cand_waste_suffix(s, i + 1),
    decreases s.len() - i,
{
    if i < s.len() - 1 {
        lemma_suffix_sum_shift(s, i + 1);
    }
}

/// Appending a candidate adds its waste to every suffix sum.
proof fn lemma_suffix_sum_push(s: Seq<Candidate>, c: Candidate, i: int)
    requires
        0 <= i <= s.len(),
    ensures
        spec_cand_waste_suffix(s.push(c), i) == spec_cand_waste_suffix(s, i) + c.waste,
    decreases s.len() - i,
{
    if i < s.len() {
        lemma_suffix_sum_push(s, c, i + 1);
        assert(s.push(c)[i] == s[i]);
        assert(spec_cand_waste_suffix(s.push(c), i) == s[i].waste + spec_cand_waste_suffix(
            s.push(c),
            i + 1,
        ));
        assert(spec_cand_waste_suffix(s, i) == s[i].waste + spec_cand_waste_suffix(s, i + 1));
    } else {
        assert(s.push(c)[i] == c);
        assert(spec_cand_waste_suffix(s.push(c), i) == c.waste + spec_cand_waste_suffix(
            s.push(c),
            i + 1,
        ));
        assert(spec_cand_waste_suffix(s.push(c), i + 1) == 0);
        assert(spec_cand_waste_suffix(s, i) == 0);
    }
}

/// Removing one candidate subtracts exactly its waste from the total.
proof fn lemma_suffix_sum_remove(s: Seq<Candidate>, j: int)
    requires
        0 <= j < s.len(),
    ensures
        spec_cand_waste_suffix(s, 0) == s[j].waste + spec_cand_waste_suffix(s.remove(j), 0),
    decreases j,
{
    assert(spec_cand_waste_suffix(s, 0) == s[0].waste + spec_cand_waste_suffix(s, 1));
    if j == 0 {
        assert(s.remove(0) =~= s.drop_first());
        if s.len() > 1 {
            lemma_suffix_sum_shift(s, 0);
        } else {
            assert(spec_cand_waste_suffix(s, 1) == 0);
            assert(spec_cand_waste_suffix(s.remove(0), 0) == 0);
        }
    } else {
        let d = s.drop_first();
        let r = s.remove(j);
        assert(r.drop_first() =~= d.remove(j - 1));
        lemma_suffix_sum_remove(d, j - 1);
        lemma_suffix_sum_shift(s, 0);
        assert(r[0] == s[0]);
        assert(spec_cand_waste_suffix(r, 0) == r[0].waste + spec_cand_waste_suffix(r, 1));
        if r.len() > 1 {
            lemma_suffix_sum_shift(r, 0);
        } else {
            assert(spec_cand_waste_suffix(r, 1) == 0);
            assert(r.drop_first().len() == 0);
            assert(spec_cand_waste_suffix(r.drop_first(), 0) == 0);
        }
        assert(d[j - 1] == s[j]);
    }
}

/// The total base waste of a candidate list depends only on its multiset:
/// sorting never changes it.
proof fn lemma_suffix_sum_multiset(s1: Seq<Candidate>, s2: Seq<Candidate>)
    requires
        s1.to_multiset() == s2.to_multiset(),
    ensures
        spec_cand_waste_suffix(s1, 0) == spec_cand_waste_suffix(s2, 0),
    decreases s1.len(),
{
    broadcast use vstd::seq_lib::group_to_multiset_ensures;

    assert(s1.len() == s1.to_multiset().len());
    assert(s2.len() == s2.to_multiset().len());
    if s1.len() > 0 {
        assert(s1.contains(s1[0]));
        assert(s2.to_multiset().count(s1[0]) > 0);
        assert(s2.contains(s1[0]));
        let j = choose|j: int| 0 <= j < s2.len() && s2[j] == s1[0];
        lemma_suffix_sum_remove(s2, j);
        let d1 = s1.drop_first();
        assert(s1.remove(0) =~= d1);
        assert(d1.to_multiset() == s1.to_multiset().remove(s1[0]));
        assert(s2.remove(j).to_multiset() == s2.to_multiset().remove(s2[j]));
        lemma_suffix_sum_multiset(d1, s2.remove(j));
        if s1.len() > 1 {
            lemma_suffix_sum_shift(s1, 0);
        }
    }
}

/// The candidate list carries exactly the grid's base waste.
proof fn lemma_candidates_prefix_waste(kinds: Seq<ResourceType>, n: int)
    requires
        0 <= n <= kinds.len(),
    ensures
        spec_cand_waste_suffix(spec_candidates_prefix(kinds, n), 0) == spec_base_waste_sum(
            kinds,
            n,
        ),
    decreases n,
{
    if n > 0 {
        lemma_candidates_prefix_waste(kinds, n - 1);
        if kinds[n - 1] !is Empty {
            let c = Candidate {
                waste: spec_waste_cost(kinds[n - 1]) as i64,
                avg: spec_avg_savings(kinds[n - 1]) as i64,
                fix: spec_fix_sprints(kinds[n - 1]) as u8,
                ord: (n - 1) as u32,
            };
            lemma_suffix_sum_push(spec_candidates_prefix(kinds, n - 1), c, 0);
            assert(0 <= spec_waste_cost(kinds[n - 1]) <= 450);
        }
    }
}

/// Every trial witness starts from the grid's ground-truth waste: the sum
/// of the base waste costs over all placed resources, revealed or not.
pub proof fn lemma_trial_starts_at_ground_truth(kinds: Seq<ResourceType>, sc: Seq<Candidate>)
    requires
        sc.to_multiset() == spec_candidates(kinds).to_multiset(),
    ensures
        spec_trial_init(sc).waste == spec_base_waste_sum(kinds, kinds.len() as int),
{
    lemma_suffix_sum_multiset(sc, spec_candidates(kinds));
    lemma_candidates_prefix_waste(kinds, kinds.len() as int);
}

/// The trial state as the executable greedy loop carries it.
spec fn trial_obs(d: GameData, sprints: u32, fixed: u32, aborted: bool) -> TrialState {
    TrialState {
        budget: d.budget as int,
        sprints: sprints as int,
        waste: d.total_waste as int,
        savings: d.monthly_savings as int,
        adjacency: d.adjacency_bonus as int,
        fixed: fixed as int,
        won: d.game_won,
        aborted,
    }
}

/// Plays one synthetic game over the given grid with the greedy strategy:
/// candidates are consumed in descending efficiency order; each costs a
/// flat movement charge and two burn-rate sprints (reveal, fix); the trial
/// aborts as a loss the moment the budget hits zero; fixing removes the
/// candidate's base waste and accrues its (flatly combo-boosted) savings;
/// from sprint 5 on a win ends the trial at once. Deterministic in the
/// grid: the randomness lives entirely in grid generation.
///
/// The contract states the whole run: the result equals `spec_trial_fold`
/// over the sorted candidate list of the grid, starting from the
/// ground-truth waste. `lemma_trial_witness_unique` shows that sorted list
/// is unique, so the contract fixes the result as a function of the grid.
pub fn simulate_single_game(kinds: &Vec<ResourceType>, difficulty: Difficulty) -> (r:
    SimulationResult)
    requires
        kinds@.len() == 64,
    ensures
        0 <= r.final_budget <= 30000,
        0 <= r.final_waste <= 28800,
        0 <= r.final_savings <= 86400,
        r.waste_percentage == spec_waste_pct_tenths(r.final_waste as int),
        0 <= r.waste_percentage <= 2500,
        r.won ==> r.sprints >= 5 && spec_win_numbers(r.final_waste as int, r.final_savings as int)
            && r.final_budget >= 1,
        !r.won ==> r.final_budget == 0 || r.final_waste == 0,
        !r.won ==> r.final_budget == 0 || r.sprints < 5 || !spec_win_numbers(
            r.final_waste as int,
            r.final_savings as int,
        ),
        count_resources(kinds@) == 0 ==> !r.won && r.sprints == 0 && r.final_budget == 30000
            && r.final_waste == 0 && r.final_savings == 0,
        count_resources(kinds@) > 0 ==> r.final_budget <= 29910,
        r.sprints <= 2 * count_resources(kinds@),
        exists|sc: Seq<Candidate>|
            {
                &&& sc.to_multiset() == spec_candidates(kinds@).to_multiset()
                &&& spec_sorted_cands(sc)
                &&& spec_trial_init(sc).waste == spec_base_waste_sum(
                    kinds@,
                    kinds@.len() as int,
                )
                &&& ({
                    let end = spec_trial_fold(spec_trial_init(sc), sc);
                    &&& r.won == end.won
                    &&& r.sprints as int == end.sprints
                    &&& r.final_budget as int == (if end.budget > 0 {
                        end.budget
                    } else {
                        0
                    })
                    &&& r.final_waste as int == end.waste
                    &&& r.final_savings as int == end.savings
                })
            },
{
    let mut game_data = GameData::new(difficulty);
    let mut cands = collect_candidates(kinds);
    sort_candidates(&mut cands);
    let m = cands.len();

    let mut initial: i64 = 0;
    let mut t: usize = m;
    while t > 0
        invariant
            t <= m,
            m == cands@.len(),
            m <= 64,
            forall|u: int| 0 <= u < m ==> cand_wf(#[trigger] cands@[u]),
            initial == spec_cand_waste_suffix(cands@, t as int),
            0 <= initial <= (m - t) * 450,
        decreases t,
    {
        t = t - 1;
        initial = initial + cands[t].waste;
    }
    game_data.total_waste = initial;

    let mut sprints: u32 = 0;
    let mut fixed_count: u32 = 0;
    let mut aborted: bool = false;
    let mut i: usize = 0;
    let ghost end_state = spec_trial_fold(spec_trial_init(cands@), cands@);
    proof {
        assert(cands@.skip(0) =~= cands@);
        assert(trial_obs(game_data, sprints, fixed_count, aborted) == spec_trial_init(cands@));
    }
    while i < m && !aborted && !game_data.game_won
        invariant
            i <= m,
            m == cands@.len(),
            m <= 64,
            forall|u: int| 0 <= u < m ==> cand_wf(#[trigger] cands@[u]),
            game_data.total_waste == spec_cand_waste_suffix(cands@, i as int),
            0 <= game_data.total_waste <= 28800,
            game_data.budget <= 30000,
            game_data.budget >= -30000,
            i == 0 ==> !aborted && !game_data.game_won && game_data.budget == 30000
                && sprints == 0,
            i > 0 || aborted ==> game_data.budget <= 29910,
            game_data.game_won ==> i > 0,
            !aborted ==> game_data.budget >= 1,
            aborted ==> game_data.budget <= 0,
            !game_data.game_lost,
            aborted ==> !game_data.game_won,
            game_data.game_won ==> sprints >= 5 && spec_win_numbers(
                game_data.total_waste as int,
                game_data.monthly_savings as int,
            ),
            !game_data.game_won && !aborted ==> sprints < 5 || !spec_win_numbers(
                game_data.total_waste as int,
                game_data.monthly_savings as int,
            ),
            !aborted ==> sprints <= 2 * i,
            aborted ==> sprints <= 2 * i + 2,
            0 <= game_data.monthly_savings <= 1350 * i,
            fixed_count <= i,
            game_data.sprint <= sprints,
            game_data.combo_multiplier == 10,
            game_data.grid_size == 8,
            0 <= game_data.adjacency_bonus <= 50 * i,
            game_data.last_decay_sprint == 0,
            game_data.combo_weighted_savings == 0,
            game_data.player_x == 4 && game_data.player_y == 4,
            aborted ==> i < m,
            end_state == spec_trial_fold(spec_trial_init(cands@), cands@),
            spec_trial_fold(
                trial_obs(game_data, sprints, fixed_count, aborted),
                cands@.skip(i as int),
            ) == end_state,
        decreases m - i + if aborted {
            0int
        } else {
            1int
        },
    {
        let c = cands[i];
        let ghost i0 = i as int;
        let ghost pre = trial_obs(game_data, sprints, fixed_count, aborted);
        // Flat movement-cost approximation: three moves at 20 each.
        game_data.budget = game_data.budget - 60;
        if game_data.budget <= 0 {
            aborted = true;
        } else {
            // One burn-rate sprint to reveal.
            sprints = sprints + 1;
            let burn1 = game_data.calculate_burn_rate();
            game_data.budget = game_data.budget - burn1;
            if game_data.budget <= 0 {
                aborted = true;
            } else {
                // One burn-rate sprint to fix.
                sprints = sprints + 1;
                let burn2 = game_data.calculate_burn_rate();
                game_data.budget = game_data.budget - burn2;
                if game_data.budget <= 0 {
                    aborted = true;
                } else {
                    // The fix lands: its base waste disappears from the model.
                    proof {
                        assert(spec_cand_waste_suffix(cands@, i as int) == cands@[i as int].waste
                            + spec_cand_waste_suffix(cands@, i as int + 1));
                        lemma_cand_suffix_bounds(cands@, i as int + 1);
                    }
                    game_data.total_waste = game_data.total_waste - c.waste;
                    // Flat, non-compounding combo bonus after the first fix.
                    let effective: i64 = if fixed_count > 0 {
                        c.avg * 6 / 5
                    } else {
                        c.avg
                    };
                    game_data.monthly_savings = game_data.monthly_savings + effective;
                    if fixed_count > 0 {
                        game_data.adjacency_bonus = game_data.adjacency_bonus + 50;
                    }
                    fixed_count = fixed_count + 1;
                    game_data.sprint = sprints;
                    if sprints >= 5 {
                        game_data.check_win_condition();
                    }
                    i = i + 1;
                }
            }
        }
        proof {
            let post = trial_obs(game_data, sprints, fixed_count, aborted);
            assert(cands@.skip(i0)[0] == cands@[i0]);
            assert(post == spec_trial_step(pre, c));
            assert(cands@.skip(i0).drop_first() =~= cands@.skip(i0 + 1));
            assert(spec_trial_fold(pre, cands@.skip(i0)) == spec_trial_fold(
                post,
                cands@.skip(i0 + 1),
            ));
            if i == i0 {
                lemma_trial_fold_stopped(post, cands@.skip(i0));
                lemma_trial_fold_stopped(post, cands@.skip(i0 + 1));
            }
        }
    }

    let final_budget: i64 = if game_data.budget > 0 {
        game_data.budget
    } else {
        0
    };
    let wp = game_data.waste_percentage();
    proof {
        crate::economy::lemma_waste_pct_bounded(game_data.total_waste as int);
        let cur = trial_obs(game_data, sprints, fixed_count, aborted);
        if i == m {
            assert(cands@.skip(m as int) =~= Seq::<Candidate>::empty());
        } else {
            lemma_trial_fold_stopped(cur, cands@.skip(i as int));
        }
        assert(end_state == cur);
        assert(cands@.to_multiset() == spec_candidates(kinds@).to_multiset());
        assert(spec_sorted_cands(cands@));
        lemma_trial_starts_at_ground_truth(kinds@, cands@);
    }
    SimulationResult {
        won: game_data.game_won,
        sprints,
        final_budget,
        final_waste: game_data.total_waste,
        final_savings: game_data.monthly_savings,
        waste_percentage: wp,
    }
}

/// Validity of one recorded outcome: the ranges every trial guarantees.
pub open spec fn spec_result_wf(r: SimulationResult) -> bool {
    &&& 0 <= r.final_budget <= MAX_INITIAL_BUDGET
    &&& 0 <= r.final_savings <= MAX_MONTHLY_SAVINGS
    &&& 0 <= r.waste_percentage <= 2500
    &&& 0 <= r.final_waste
}

/// Number of wins among the first `n` outcomes.
pub open spec fn spec_wins(s: Seq<SimulationResult>, n: int) -> int
    decreases n,
{
    if n <= 0 {
        0
    } else {
        spec_wins(s, n - 1) + if s[n - 1].won {
            1int
        } else {
            0int
        }
    }
}

/// Sum of a won/lost-filtered field over the first `n` outcomes: sprints of
/// wins.
pub open spec fn spec_sum_sprints_won(s: Seq<SimulationResult>, n: int) -> int
    decreases n,
{
    if n <= 0 {
        0
    } else {
        spec_sum_sprints_won(s, n - 1) + if s[n - 1].won {
            s[n - 1].sprints as int
        } else {
            0
        }
    }
}

/// Sprints summed over losses.
pub open spec fn spec_sum_sprints_lost(s: Seq<SimulationResult>, n: int) -> int
    decreases n,
{
    if n <= 0 {
        0
    } else {
        spec_sum_sprints_lost(s, n - 1) + if s[n - 1].won {
            0
        } else {
            s[n - 1].sprints as int
        }
    }
}

/// Final budget summed over wins.
pub open spec fn spec_sum_budget_won(s: Seq<SimulationResult>, n: int) -> int
    decreases n,
{
    if n <= 0 {
        0
    } else {
        spec_sum_budget_won(s, n - 1) + if s[n - 1].won {
            s[n - 1].final_budget as int
        } else {
            0
        }
    }
}

/// Final budget summed over losses.
pub open spec fn spec_sum_budget_lost(s: Seq<SimulationResult>, n: int) -> int
    decreases n,
{
    if n <= 0 {
        0
    } else {
        spec_sum_budget_lost(s, n - 1) + if s[n - 1].won {
            0
        } else {
            s[n - 1].final_budget as int
        }
    }
}

/// Waste percentage (tenths) summed over wins.
pub open spec fn spec_sum_wp_won(s: Seq<SimulationResult>, n: int) -> int
    decreases n,
{
    if n <= 0 {
        0
    } else {
        spec_sum_wp_won(s, n - 1) + if s[n - 1].won {
            s[n - 1].waste_percentage as int
        } else {
            0
        }
    }
}

/// Final savings summed over wins.
pub open spec fn spec_sum_savings_won(s: Seq<SimulationResult>, n: int) -> int
    decreases n,
{
    if n <= 0 {
        0
    } else {
        spec_sum_savings_won(s, n - 1) + if s[n - 1].won {
            s[n - 1].final_savings as int
        } else {
            0
        }
    }
}

/// Fewest sprints among wins in the first `n` outcomes; the `u32` maximum
/// when there is none.
pub open spec fn spec_min_sprints_won(s: Seq<SimulationResult>, n: int) -> int
    decreases n,
{
    if n <= 0 {
        0xffff_ffff
    } else if s[n - 1].won && s[n - 1].sprints < spec_min_sprints_won(s, n - 1) {
        s[n - 1].sprints as int
    } else {
        spec_min_sprints_won(s, n - 1)
    }
}

/// Most sprints among wins in the first `n` outcomes; 0 when there is none.
pub open spec fn spec_max_sprints_won(s: Seq<SimulationResult>, n: int) -> int
    decreases n,
{
    if n <= 0 {
        0
    } else if s[n - 1].won && s[n - 1].sprints > spec_max_sprints_won(s, n - 1) {
        s[n - 1].sprints as int
    } else {
        spec_max_sprints_won(s, n - 1)
    }
}

/// Aggregate balance statistics over a batch of simulated games. Rates and
/// sprint averages are in tenths; waste percentages in tenths of a percent;
/// integer averages are floored, and win-only (or loss-only) figures are 0
/// when there was no win (or no loss).
#[derive(Clone, Copy, Debug, PartialEq, Eq, Structural)]
pub struct SimulationReport {
    pub total_games: u32,
    pub wins: u32,
    pub losses: u32,
    /// Tenths of a percent: wins x 1000 / games.
    pub win_rate: u64,
    /// Tenths of a sprint.
    pub avg_sprints_to_win: u64,
    /// Tenths of a sprint.
    pub avg_sprints_to_lose: u64,
    pub min_sprints_to_win: u32,
    pub max_sprints_to_win: u32,
    pub avg_final_budget_win: i64,
    pub avg_final_budget_lose: i64,
    /// Tenths of a percent.
    pub avg_waste_percentage_win: i64,
    pub avg_savings_win: i64,
}

/// The qualitative difficulty verdict the aggregator attaches to a win
/// rate.
#[derive(Clone, Copy, Debug, PartialEq, Eq, Structural)]
pub enum BalanceVerdict {
    TooHard,
    Hard,
    Target,
    SlightlyEasy,
    TooEasy,
}

/// Banding of a win rate (in tenths of a percent): under 10% is too hard,
/// 10% up to (but excluding) 20% is hard, 20% through 30% is the target,
/// above 30% through 40% is slightly easy, and above 40% is too easy.
pub open spec fn spec_verdict(win_rate_tenths: int) -> BalanceVerdict {
    if win_rate_tenths < 100 {
        BalanceVerdict::TooHard
    } else if win_rate_tenths < 200 {
        BalanceVerdict::Hard
    } else if win_rate_tenths <= 300 {
        BalanceVerdict::Target
    } else if win_rate_tenths <= 400 {
        BalanceVerdict::SlightlyEasy
    } else {
        BalanceVerdict::TooEasy
    }
}

/// Bands a win rate in tenths of a percent into the qualitative verdict.
pub fn verdict_for(win_rate_tenths: u64) -> (v: BalanceVerdict)
    ensures
        v == spec_verdict(win_rate_tenths as int),
{
    if win_rate_tenths < 100 {
        BalanceVerdict::TooHard
    } else if win_rate_tenths < 200 {
        BalanceVerdict::Hard
    } else if win_rate_tenths <= 300 {
        BalanceVerdict::Target
    } else if win_rate_tenths <= 400 {
        BalanceVerdict::SlightlyEasy
    } else {
        BalanceVerdict::TooEasy
    }
}

/// Banding of the exact rational win rate `wins / total x 100`: the same
/// bands as `spec_verdict`, compared without the flooring that the stored
/// tenths figure carries, so rates strictly inside a band edge (30.0% and
/// 40.0% exclusive) band correctly.
pub open spec fn spec_verdict_exact(wins: int, total: int) -> BalanceVerdict {
    if wins * 10 < total {  // rate < 10%
        BalanceVerdict::TooHard
    } else if wins * 5 < total {  // rate < 20%
        BalanceVerdict::Hard
    } else if wins * 10 <= 3 * total {  // rate <= 30%
        BalanceVerdict::Target
    } else if wins * 5 <= 2 * total {  // rate <= 40%
        BalanceVerdict::SlightlyEasy
    } else {
        BalanceVerdict::TooEasy
    }
}

impl SimulationReport {
    /// The qualitative verdict for this report, banded on the exact
    /// rational win rate `wins / total_games`.
    pub fn verdict(&self) -> (v: BalanceVerdict)
        requires
            self.total_games >= 1,
        ensures
            v == spec_verdict_exact(self.wins as int, self.total_games as int),
    {
        let w: u64 = self.wins as u64;
        let t: u64 = self.total_games as u64;
        if w * 10 < t {
            BalanceVerdict::TooHard
        } else if w * 5 < t {
            BalanceVerdict::Hard
        } else if w * 10 <= 3 * t {
            BalanceVerdict::Target
        } else if w * 5 <= 2 * t {
            BalanceVerdict::SlightlyEasy
        } else {
            BalanceVerdict::TooEasy
        }
    }
}

/// Summarizes a batch of trial outcomes: win counts and rate, sprint and
/// budget averages split by outcome, and win-only waste and savings
/// statistics. Every figure is given exactly by the corresponding sum or
/// extremum over the outcome list.
pub fn aggregate_results(results: &Vec<SimulationResult>) -> (r: SimulationReport)
    requires
        1 <= results@.len() <= 100_000_000,
        forall|t: int| 0 <= t < results@.len() ==> spec_result_wf(#[trigger] results@[t]),
    ensures
        ({
            let s = results@;
            let n = s.len() as int;
            let w = spec_wins(s, n);
            &&& r.total_games == n
            &&& r.wins == w
            &&& r.losses == n - w
            &&& r.win_rate == w * 1000 / n
            &&& r.avg_sprints_to_win == if w > 0 {
                spec_sum_sprints_won(s, n) * 10 / w
            } else {
                0
            }
            &&& r.avg_sprints_to_lose == if n - w > 0 {
                spec_sum_sprints_lost(s, n) * 10 / (n - w)
            } else {
                0
            }
            &&& r.min_sprints_to_win == if w > 0 {
                spec_min_sprints_won(s, n)
            } else {
                0
            }
            &&& r.max_sprints_to_win == spec_max_sprints_won(s, n)
            &&& r.avg_final_budget_win == if w > 0 {
                spec_sum_budget_won(s, n) / w
            } else {
                0
            }
            &&& r.avg_final_budget_lose == if n - w > 0 {
                spec_sum_budget_lost(s, n) / (n - w)
            } else {
                0
            }
            &&& r.avg_waste_percentage_win == if w > 0 {
                spec_sum_wp_won(s, n) / w
            } else {
                0
            }
            &&& r.avg_savings_win == if w > 0 {
                spec_sum_savings_won(s, n) / w
            } else {
                0
            }
        }),
{
    let n = results.len();
    let mut wins: u32 = 0;
    let mut sum_sprints_w: u64 = 0;
    let mut sum_sprints_l: u64 = 0;
    let mut min_w: u32 = 0xffff_ffff;
    let mut max_w: u32 = 0;
    let mut sum_budget_w: i64 = 0;
    let mut sum_budget_l: i64 = 0;
    let mut sum_wp_w: i64 = 0;
    let mut sum_sav_w: i64 = 0;
    let mut i: usize = 0;
    while i < n
        invariant
            i <= n,
            n == results@.len(),
            n <= 100_000_000,
            forall|t: int| 0 <= t < n ==> spec_result_wf(#[trigger] results@[t]),
            wins == spec_wins(results@, i as int),
            wins <= i,
            sum_sprints_w == spec_sum_sprints_won(results@, i as int),
            sum_sprints_w <= i * 0xffff_ffff,
            sum_sprints_l == spec_sum_sprints_lost(results@, i as int),
            sum_sprints_l <= i * 0xffff_ffff,
            min_w == spec_min_sprints_won(results@, i as int),
            max_w == spec_max_sprints_won(results@, i as int),
            sum_budget_w == spec_sum_budget_won(results@, i as int),
            0 <= sum_budget_w <= i * MAX_INITIAL_BUDGET,
            sum_budget_l == spec_sum_budget_lost(results@, i as int),
            0 <= sum_budget_l <= i * MAX_INITIAL_BUDGET,
            sum_wp_w == spec_sum_wp_won(results@, i as int),
            0 <= sum_wp_w <= i * 2500,
            sum_sav_w == spec_sum_savings_won(results@, i as int),
            0 <= sum_sav_w <= i * MAX_MONTHLY_SAVINGS,
        decreases n - i,
    {
        let res = results[i];
        if res.won {
            wins = wins + 1;
            sum_sprints_w = sum_sprints_w + res.sprints as u64;
            if res.sprints < min_w {
                min_w = res.sprints;
            }
            if res.sprints > max_w {
                max_w = res.sprints;
            }
            sum_budget_w = sum_budget_w + res.final_budget;
            sum_wp_w = sum_wp_w + res.waste_percentage;
            sum_sav_w = sum_sav_w + res.final_savings;
        } else {
            sum_sprints_l = sum_sprints_l + res.sprints as u64;
            sum_budget_l = sum_budget_l + res.final_budget;
        }
        i = i + 1;
    }
    let losses: u32 = (n as u32) - wins;
    let win_rate: u64 = wins as u64 * 1000 / n as u64;
    let avg_sprints_win: u64 = if wins > 0 {
        sum_sprints_w * 10 / wins as u64
    } else {
        0
    };
    let avg_sprints_lose: u64 = if losses > 0 {
        sum_sprints_l * 10 / losses as u64
    } else {
        0
    };
    let avg_budget_win: i64 = if wins > 0 {
        sum_budget_w / wins as i64
    } else {
        0
    };
    let avg_budget_lose: i64 = if losses > 0 {
        sum_budget_l / losses as i64
    } else {
        0
    };
    let avg_wp_win: i64 = if wins > 0 {
        sum_wp_w / wins as i64
    } else {
        0
    };
    let avg_sav_win: i64 = if wins > 0 {
        sum_sav_w / wins as i64
    } else {
        0
    };
    SimulationReport {
        total_games: n as u32,
        wins,
        losses,
        win_rate,
        avg_sprints_to_win: avg_sprints_win,
        avg_sprints_to_lose: avg_sprints_lose,
        min_sprints_to_win: if wins > 0 {
            min_w
        } else {
            0
        },
        max_sprints_to_win: max_w,
        avg_final_budget_win: avg_budget_win,
        avg_final_budget_lose: avg_budget_lose,
        avg_waste_percentage_win: avg_wp_win,
        avg_savings_win: avg_sav_win,
    }
}

/// Runs `num_simulations` independent synthetic games, each over a fresh
/// randomly generated grid drawn from the seeded generator, and aggregates
/// the outcomes. With the same seed the whole suite is deterministic.
pub fn run_simulation_suite(num_simulations: u32, difficulty: Difficulty, seed: u64) -> (r:
    SimulationReport)
    requires
        1 <= num_simulations <= 100_000_000,
    ensures
        r.total_games == num_simulations,
        r.losses == num_simulations - r.wins,
        r.wins <= num_simulations,
        r.win_rate == r.wins as int * 1000 / num_simulations as int,
{
    let mut rng = seeded_rng(seed);
    let mut results: Vec<SimulationResult> = Vec::new();
    let mut i: u32 = 0;
    while i < num_simulations
        invariant
            i <= num_simulations,
            num_simulations <= 100_000_000,
            results@.len() == i,
            forall|t: int| 0 <= t < results@.len() ==> spec_result_wf(#[trigger] results@[t]),
        decreases num_simulations - i,
    {
        let grid = generate_random_grid(8, &mut rng);
        let res = simulate_single_game(&grid, difficulty);
        results.push(res);
        i = i + 1;
    }
    let report = aggregate_results(&results);
    proof {
        lemma_wins_le(results@, results@.len() as int);
    }
    report
}

/// There are never more wins than games.
proof fn lemma_wins_le(s: Seq<SimulationResult>, n: int)
    requires
        0 <= n,
    ensures
        0 <= spec_wins(s, n) <= n,
    decreases n,
{
    if n > 0 {
        lemma_wins_le(s, n - 1);
    }
}

} // verus!
