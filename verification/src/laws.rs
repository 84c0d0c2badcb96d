//! Laws of the solver, stated over its mathematical model and proved once
//! and for all.

use vstd::prelude::*;
use vstd::arithmetic::div_mod::lemma_div_of0;
use crate::fixed::SCALE;
use crate::fixed::fx_abs;
use crate::fixed::fx_mul_spec;
use crate::fixed::recip_spec;
use crate::fixed::activation_spec;
use crate::solver::SolveResult;
use crate::solver::SolveStatus;
use crate::solver::ints;
use crate::solver::zero_seq;
use crate::solver::margin_term_spec;
use crate::solver::row_score_upto;
use crate::solver::next_scores;
use crate::solver::sum_abs;
use crate::solver::sum_abs_upto;
use crate::solver::run_from;
use crate::solver::clamp_cap;
use crate::solver::solve_model;
use crate::solver::result_matches;
use crate::table::MatchupTable;

verus! {

/// Determinism: the solver's outcome is a function of the table and the
/// parameters alone, so any two results that satisfy its contract for the
/// same inputs are identical, field for field.
pub proof fn lemma_solve_deterministic(
    t: MatchupTable,
    max: int,
    thr: int,
    cap: int,
    r1: SolveResult,
    r2: SolveResult,
)
    requires
        result_matches(r1, t, max, thr, cap),
        result_matches(r2, t, max, thr, cap),
    ensures
        r1.label == r2.label,
        r1.iterations == r2.iterations,
        r1.grand_multiplier == r2.grand_multiplier,
        r1.scores@ == r2.scores@,
        r1.status == r2.status,
{
    assert(ints(r1.scores@) == ints(r2.scores@));
    assert(ints(r1.scores@).len() == r1.scores@.len());
    assert(ints(r2.scores@).len() == r2.scores@.len());
    assert forall|k: int| 0 <= k < r1.scores@.len() implies r1.scores@[k] == r2.scores@[k] by {
        assert(ints(r1.scores@)[k] == r1.scores@[k] as int);
        assert(ints(r2.scores@)[k] == r2.scores@[k] as int);
        assert(ints(r1.scores@)[k] == ints(r2.scores@)[k]);
    }
    assert(r1.scores@ =~= r2.scores@);
}

/// Each recursion of the loop runs at least one more round and never
/// passes the budget.
proof fn lemma_run_from_round_bound(
    rows: Seq<Seq<Option<u32>>>,
    cap: int,
    thr: int,
    max: int,
    s: Seq<int>,
    m: int,
    done: int,
)
    requires
        0 <= done < max,
    ensures
        done < run_from(rows, cap, thr, max, s, m, done).iterations <= max,
    decreases max - done,
{
    let ns = next_scores(rows, s, cap, m);
    let sum = sum_abs(ns);
    let nm = if sum != 0 {
        recip_spec(sum)
    } else {
        m
    };
    if sum != 0 && fx_abs(m - nm) < thr {
    } else if done + 1 >= max {
    } else if sum == 0 {
    } else {
        lemma_run_from_round_bound(rows, cap, thr, max, ns, nm, done + 1);
    }
}

/// Termination: with a round budget of `max`, solving any table stops
/// after at least one and at most `max` rounds.
pub proof fn lemma_solver_round_bound(t: MatchupTable, max: int, thr: int, cap: int)
    requires
        max >= 1,
    ensures
        1 <= solve_model(t, max, thr, cap).iterations <= max,
{
    lemma_run_from_round_bound(
        t.rows(),
        clamp_cap(cap),
        thr,
        max,
        zero_seq(t.entities@.len() as int),
        SCALE as int,
        0,
    );
}

/// Every recorded win-rate of the table is exactly even: each entry is
/// either absent or five hundred thousandths.
pub open spec fn all_even(rows: Seq<Seq<Option<u32>>>) -> bool {
    forall|i: int, j: int|
        0 <= i < rows.len() && 0 <= j < rows[i].len() ==> ((#[trigger] rows[i][j])
            == Option::Some(500u32) || rows[i][j] == Option::<u32>::None)
}

/// An even matchup contributes nothing: its margin is zero.
proof fn lemma_even_term_zero(act: int, m: int)
    ensures
        margin_term_spec(500, act, m) == 0,
{
    lemma_div_of0(1000);
    assert((2 * 500 - 1000) * fx_mul_spec(act, m) == 0) by (nonlinear_arith);
}

/// A row of even matchups accumulates a score of zero.
proof fn lemma_even_row_zero(
    i: int,
    row: Seq<Option<u32>>,
    old: Seq<int>,
    cap: int,
    m: int,
    k: int,
)
    requires
        0 <= k <= row.len(),
        forall|j: int|
            0 <= j < row.len() ==> ((#[trigger] row[j]) == Option::Some(500u32) || row[j]
                == Option::<u32>::None),
    ensures
        row_score_upto(i, row, old, cap, m, k) == 0,
    decreases k,
{
    if k <= 0 {
    } else {
        lemma_even_row_zero(i, row, old, cap, m, k - 1);
        match row[k - 1] {
            Some(w) => {
                lemma_even_term_zero(activation_spec(cap, old[k - 1]), m);
            },
            None => {},
        }
    }
}

/// With every matchup even, a whole round yields the all-zero vector.
proof fn lemma_even_next_zero(rows: Seq<Seq<Option<u32>>>, old: Seq<int>, cap: int, m: int)
    requires
        all_even(rows),
    ensures
        next_scores(rows, old, cap, m) == zero_seq(old.len() as int),
{
    let ns = next_scores(rows, old, cap, m);
    assert forall|i: int| 0 <= i < old.len() implies ns[i] == 0 by {
        if i < rows.len() {
            lemma_even_row_zero(i, rows[i], old, cap, m, rows[i].len() as int);
        }
    }
    assert(ns =~= zero_seq(old.len() as int));
}

/// The saturating absolute sum of an all-zero vector is zero.
proof fn lemma_sum_abs_zero(s: Seq<int>, k: int)
    requires
        0 <= k <= s.len(),
        forall|t: int| 0 <= t < s.len() ==> #[trigger] s[t] == 0,
    ensures
        sum_abs_upto(s, k) == 0,
    decreases k,
{
    if k <= 0 {
    } else {
        lemma_sum_abs_zero(s, k - 1);
    }
}

/// With every matchup even, the very first round produces all-zero scores
/// and no finite multiplier, so the solve ends after exactly one round:
/// as a detected collapse when the budget allows a second round, and as an
/// exhausted budget when it was one round anyway. The reported multiplier
/// is the last finite one, the initial one.
pub proof fn lemma_even_table_first_round(t: MatchupTable, max: int, thr: int, cap: int)
    requires
        all_even(t.rows()),
        max >= 1,
    ensures
        ({
            let out = solve_model(t, max, thr, cap);
            &&& out.iterations == 1
            &&& out.multiplier == SCALE as int
            &&& out.scores == zero_seq(t.entities@.len() as int)
            &&& (max >= 2 ==> out.status == SolveStatus::Collapsed)
            &&& (max == 1 ==> out.status == SolveStatus::IterationLimit)
        }),
{
    let n = t.entities@.len() as int;
    let s0 = zero_seq(n);
    lemma_even_next_zero(t.rows(), s0, clamp_cap(cap), SCALE as int);
    let ns = next_scores(t.rows(), s0, clamp_cap(cap), SCALE as int);
    lemma_sum_abs_zero(ns, ns.len() as int);
}

/// Collapse detection: a table whose every recorded win-rate is exactly
/// even zeroes out every score in the first round, and with a budget of at
/// least two rounds this is reported as numerical collapse after exactly
/// one round, never as silent success.
pub proof fn lemma_even_table_collapses(t: MatchupTable, max: int, thr: int, cap: int)
    requires
        all_even(t.rows()),
        max >= 2,
    ensures
        ({
            let out = solve_model(t, max, thr, cap);
            &&& out.status == SolveStatus::Collapsed
            &&& out.iterations == 1
            &&& out.multiplier == SCALE as int
            &&& out.scores == zero_seq(t.entities@.len() as int)
        }),
{
    lemma_even_table_first_round(t, max, thr, cap);
}

/// A two-entity table with a perfectly even matchup treats both entities
/// alike: their final scores are equal (both zero).
pub proof fn lemma_even_pair_equal_scores(t: MatchupTable, max: int, thr: int, cap: int)
    requires
        t.entities@.len() == 2,
        all_even(t.rows()),
        max >= 1,
    ensures
        ({
            let out = solve_model(t, max, thr, cap);
            out.scores.len() == 2 && out.scores[0] == out.scores[1]
        }),
{
    lemma_even_table_first_round(t, max, thr, cap);
}

} // verus!
