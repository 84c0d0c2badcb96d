//! The tier solver: a bounded fixed-point iteration over one matchup table.
//!
//! Every entity's score starts at zero and the grand multiplier at one.
//! Each round recomputes the whole score vector from the whole previous
//! vector: every opponent's score is passed through the bounded activation
//! curve, weighted by the win margin against that opponent, and scaled by
//! the previous round's grand multiplier. The new multiplier is the
//! reciprocal of the sum of absolute scores, and the iteration stops when
//! the multiplier settles, when the round budget runs out, or when every
//! score collapses to zero (which leaves no finite multiplier).

use vstd::prelude::*;
use crate::fixed::SCALE;
use crate::fixed::FX_MAX;
use crate::fixed::fx_clamp;
use crate::fixed::fx_abs;
use crate::fixed::fx_in_range;
use crate::fixed::sdiv;
use crate::fixed::fx_mul_spec;
use crate::fixed::recip_spec;
use crate::fixed::activation_spec;
use crate::fixed::fx_mul;
use crate::fixed::fx_add;
use crate::fixed::fx_abs_exec;
use crate::fixed::fx_clamp_exec;
use crate::fixed::fx_recip;
use crate::fixed::activation;
use crate::table::MatchupTable;

verus! {

/// How a solve ended.
#[derive(Clone, Copy, Debug, PartialEq, Eq, Structural)]
pub enum SolveStatus {
    /// The grand multiplier moved less than the settle threshold.
    Converged,
    /// The round budget ran out before the multiplier settled.
    IterationLimit,
    /// Every score fell to exactly zero, leaving no finite multiplier.
    Collapsed,
}

/// A rejected solver configuration.
#[derive(Clone, Copy, Debug, PartialEq, Eq, Structural)]
pub enum ConfigError {
    /// The round budget must be at least one.
    ZeroMaxIterations,
    /// The settle threshold must be positive.
    NonPositiveSettleThreshold,
    /// The activation cap must be positive.
    NonPositiveActivationCap,
}

/// The outcome of one table's solve: the label carried over from the
/// table, the round count reached, the final grand multiplier, the final
/// score per entity (indexed like the table's entities), and how the
/// iteration ended.
#[derive(Debug)]
pub struct SolveResult {
    /// Label carried through from the table.
    pub label: Option<String>,
    /// Rounds run before the loop stopped.
    pub iterations: usize,
    /// Final grand multiplier; on collapse, the last finite one.
    pub grand_multiplier: i128,
    /// Final score of each entity, in fixed-point raw units.
    pub scores: Vec<i128>,
    /// How the iteration ended.
    pub status: SolveStatus,
}

/// A score vector as a sequence of unbounded integers.
pub open spec fn ints(s: Seq<i128>) -> Seq<int> {
    s.map_values(|v: i128| v as int)
}

/// The all-zero score vector every solve starts from.
pub open spec fn zero_seq(n: int) -> Seq<int> {
    Seq::new(n as nat, |i: int| 0int)
}

/// One opponent's contribution to an entity's next score: the win margin
/// rescaled from thousandths to `[-1, 1]`, times the opponent's activated
/// score, times the grand multiplier.
pub open spec fn margin_term_spec(w: int, act: int, m: int) -> int {
    fx_clamp(sdiv((2 * w - 1000) * fx_mul_spec(act, m), 1000))
}

/// Entity `i`'s next score accumulated over its first `k` opponent
/// entries. Absent pairings, the entity itself, and opponents outside the
/// score vector contribute nothing.
pub open spec fn row_score_upto(
    i: int,
    row: Seq<Option<u32>>,
    old: Seq<int>,
    cap: int,
    m: int,
    k: int,
) -> int
    decreases k,
{
    if k <= 0 {
        0
    } else {
        let prev = row_score_upto(i, row, old, cap, m, k - 1);
        match row[k - 1] {
            Some(w) => if k - 1 != i && k - 1 < old.len() {
                fx_clamp(prev + margin_term_spec(w as int, activation_spec(cap, old[k - 1]), m))
            } else {
                prev
            },
            None => prev,
        }
    }
}

/// The whole next score vector, recomputed from the whole previous one.
pub open spec fn next_scores(rows: Seq<Seq<Option<u32>>>, old: Seq<int>, cap: int, m: int) -> Seq<
    int,
> {
    Seq::new(
        old.len(),
        |i: int|
            if i < rows.len() {
                row_score_upto(i, rows[i], old, cap, m, rows[i].len() as int)
            } else {
                0
            },
    )
}

/// The saturating sum of absolute scores over the first `k` entities.
pub open spec fn sum_abs_upto(s: Seq<int>, k: int) -> int
    decreases k,
{
    if k <= 0 {
        0
    } else {
        fx_clamp(sum_abs_upto(s, k - 1) + fx_abs(s[k - 1]))
    }
}

/// The saturating sum of absolute scores.
pub open spec fn sum_abs(s: Seq<int>) -> int {
    sum_abs_upto(s, s.len() as int)
}

/// The state a solve ends in, in mathematical terms.
pub struct RunOutcome {
    /// Rounds run before the loop stopped.
    pub iterations: int,
    /// Final grand multiplier; on collapse, the last finite one.
    pub multiplier: int,
    /// Final score of each entity.
    pub scores: Seq<int>,
    /// How the iteration ended.
    pub status: SolveStatus,
}

/// The solver loop from a given state: scores `s`, multiplier `m`, with
/// `done` rounds already run out of `max`. Each round the stop conditions
/// are checked in priority order: settled, budget exhausted, collapse.
/// When the score sum is zero no finite multiplier exists, so the previous
/// one is kept.
pub open spec fn run_from(
    rows: Seq<Seq<Option<u32>>>,
    cap: int,
    thr: int,
    max: int,
    s: Seq<int>,
    m: int,
    done: int,
) -> RunOutcome
    decreases max - done,
{
    let ns = next_scores(rows, s, cap, m);
    let sum = sum_abs(ns);
    let finite = sum != 0;
    let nm = if finite {
        recip_spec(sum)
    } else {
        m
    };
    if finite && fx_abs(m - nm) < thr {
        RunOutcome {
            iterations: done + 1,
            multiplier: nm,
            scores: ns,
            status: SolveStatus::Converged,
        }
    } else if done + 1 >= max {
        RunOutcome {
            iterations: done + 1,
            multiplier: nm,
            scores: ns,
            status: SolveStatus::IterationLimit,
        }
    } else if !finite {
        RunOutcome {
            iterations: done + 1,
            multiplier: nm,
            scores: ns,
            status: SolveStatus::Collapsed,
        }
    } else {
        run_from(rows, cap, thr, max, ns, nm, done + 1)
    }
}

/// An activation cap beyond the representable range is clamped to it.
pub open spec fn clamp_cap(cap: int) -> int {
    if cap > FX_MAX {
        FX_MAX as int
    } else {
        cap
    }
}

/// What solving a table returns: the loop run from all-zero scores and a
/// multiplier of one.
pub open spec fn solve_model(t: MatchupTable, max: int, thr: int, cap: int) -> RunOutcome {
    run_from(
        t.rows(),
        clamp_cap(cap),
        thr,
        max,
        zero_seq(t.entities@.len() as int),
        SCALE as int,
        0,
    )
}

/// A solve result agrees with the model outcome for its table and
/// parameters.
pub open spec fn result_matches(
    res: SolveResult,
    t: MatchupTable,
    max: int,
    thr: int,
    cap: int,
) -> bool {
    let out = solve_model(t, max, thr, cap);
    &&& res.label == t.label
    &&& res.iterations as int == out.iterations
    &&& res.grand_multiplier as int == out.multiplier
    &&& ints(res.scores@) == out.scores
    &&& res.status == out.status
}

/// One opponent's contribution, exactly `margin_term_spec`.
fn margin_term(w: u32, act: i128, m: i128) -> (r: i128)
    requires
        0 <= act <= FX_MAX,
        0 <= m <= FX_MAX,
    ensures
        r == margin_term_spec(w as int, act as int, m as int),
        fx_in_range(r as int),
{
    let am = fx_mul(act, m);
    let margin: i128 = 2 * (w as i128) - 1000;
    proof {
        assert(-8589934592 * FX_MAX <= margin * am <= 8589934592 * FX_MAX) by (nonlinear_arith)
            requires
                -8589934592 <= margin <= 8589934592,
                -FX_MAX <= am <= FX_MAX,
        ;
    }
    let p = margin * am;
    let q = crate::fixed::div_trunc(p, 1000);
    fx_clamp_exec(q)
}

/// A fresh all-zero score vector.
fn zero_scores(n: usize) -> (v: Vec<i128>)
    ensures
        v@.len() == n,
        ints(v@) == zero_seq(n as int),
        forall|t: int| 0 <= t < n ==> #[trigger] v@[t] == 0i128,
{
    let mut v: Vec<i128> = Vec::new();
    let mut k: usize = 0;
    while k < n
        invariant
            k <= n,
            v@.len() == k,
            forall|t: int| 0 <= t < k ==> v@[t] == 0i128,
        decreases n - k,
    {
        v.push(0);
        k += 1;
    }
    proof {
        assert(ints(v@) =~= zero_seq(n as int));
    }
    v
}

/// The saturating sum of absolute scores, exactly `sum_abs`.
fn sum_abs_exec(v: &Vec<i128>) -> (s: i128)
    requires
        forall|k: int| 0 <= k < v@.len() ==> fx_in_range(#[trigger] v@[k] as int),
    ensures
        s == sum_abs(ints(v@)),
        0 <= s <= FX_MAX,
{
    let mut s: i128 = 0;
    let mut k: usize = 0;
    while k < v.len()
        invariant
            k <= v@.len(),
            forall|t: int| 0 <= t < v@.len() ==> fx_in_range(#[trigger] v@[t] as int),
            s == sum_abs_upto(ints(v@), k as int),
            0 <= s <= FX_MAX,
        decreases v@.len() - k,
    {
        let a = fx_abs_exec(v[k]);
        s = fx_add(s, a);
        k += 1;
    }
    s
}

/// One full round: the next score vector, exactly `next_scores`.
fn compute_round(table: &MatchupTable, old: &Vec<i128>, cap: i128, m: i128) -> (ns: Vec<i128>)
    requires
        1 <= cap <= FX_MAX,
        0 <= m <= FX_MAX,
        forall|k: int| 0 <= k < old@.len() ==> fx_in_range(#[trigger] old@[k] as int),
    ensures
        ns@.len() == old@.len(),
        ints(ns@) == next_scores(table.rows(), ints(old@), cap as int, m as int),
        forall|k: int| 0 <= k < ns@.len() ==> fx_in_range(#[trigger] ns@[k] as int),
{
    let ghost rows = table.rows();
    let ghost oldv = ints(old@);
    let n = old.len();
    let mut ns: Vec<i128> = Vec::new();
    let mut i: usize = 0;
    while i < n
        invariant
            i <= n,
            n == old@.len(),
            1 <= cap <= FX_MAX,
            0 <= m <= FX_MAX,
            forall|k: int| 0 <= k < old@.len() ==> fx_in_range(#[trigger] old@[k] as int),
            rows == table.rows(),
            oldv == ints(old@),
            ns@.len() == i,
            forall|k: int|
                0 <= k < i ==> #[trigger] ns@[k] as int == next_scores(rows, oldv, cap as int, m as int)[k],
            forall|k: int| 0 <= k < i ==> fx_in_range(#[trigger] ns@[k] as int),
        decreases n - i,
    {
        let mut acc: i128 = 0;
        if i < table.rates.len() {
            let row = &table.rates[i];
            let rl = row.len();
            let mut j: usize = 0;
            while j < rl
                invariant
                    j <= rl,
                    i < n,
                    n == old@.len(),
                    1 <= cap <= FX_MAX,
                    0 <= m <= FX_MAX,
                    forall|k: int| 0 <= k < old@.len() ==> fx_in_range(#[trigger] old@[k] as int),
                    oldv == ints(old@),
                    i < table.rates@.len(),
                    row == table.rates@[i as int],
                    rl == row@.len(),
                    rows == table.rows(),
                    acc == row_score_upto(i as int, row@, oldv, cap as int, m as int, j as int),
                    fx_in_range(acc as int),
                decreases rl - j,
            {
                match row[j] {
                    Some(w) => {
                        if j != i && j < n {
                            let a = activation(cap, old[j]);
                            let t = margin_term(w, a, m);
                            acc = fx_add(acc, t);
                        }
                    },
                    None => {},
                }
                j += 1;
            }
            proof {
                assert(rows[i as int] == row@);
            }
        }
        ns.push(acc);
        i += 1;
    }
    proof {
        assert(ints(ns@) =~= next_scores(rows, oldv, cap as int, m as int));
    }
    ns
}

/// Copy of an optional label.
fn clone_label(l: &Option<String>) -> (r: Option<String>)
    ensures
        r == *l,
{
    match l {
        Option::None => Option::None,
        Option::Some(s) => Option::Some(s.clone()),
    }
}

/// Solve one table with already-validated parameters: run the iteration
/// from all-zero scores and a unit multiplier until it settles, exhausts
/// the round budget, or collapses. The result is exactly the model
/// outcome, and the round count never exceeds the budget.
pub fn solve_table(
    table: &MatchupTable,
    max_iters: usize,
    settle_threshold: i128,
    activation_cap: i128,
) -> (res: SolveResult)
    requires
        max_iters >= 1,
        settle_threshold >= 1,
        activation_cap >= 1,
    ensures
        result_matches(
            res,
            *table,
            max_iters as int,
            settle_threshold as int,
            activation_cap as int,
        ),
        1 <= res.iterations <= max_iters,
{
    let ghost out = solve_model(
        *table,
        max_iters as int,
        settle_threshold as int,
        activation_cap as int,
    );
    let capc = if activation_cap > FX_MAX {
        FX_MAX
    } else {
        activation_cap
    };
    let n = table.entity_count();
    let mut scores = zero_scores(n);
    let mut mult: i128 = SCALE;
    let mut iters: usize = 0;
    let mut status = SolveStatus::IterationLimit;
    loop
        invariant_except_break
            iters < max_iters,
            scores@.len() == n,
            forall|k: int| 0 <= k < scores@.len() ==> fx_in_range(#[trigger] scores@[k] as int),
            0 <= mult <= FX_MAX,
            1 <= capc <= FX_MAX,
            capc as int == clamp_cap(activation_cap as int),
            settle_threshold >= 1,
            max_iters >= 1,
            out == run_from(
                table.rows(),
                capc as int,
                settle_threshold as int,
                max_iters as int,
                ints(scores@),
                mult as int,
                iters as int,
            ),
        ensures
            iters as int == out.iterations,
            mult as int == out.multiplier,
            ints(scores@) == out.scores,
            status == out.status,
            1 <= iters <= max_iters,
        decreases max_iters - iters,
    {
        let ns = compute_round(table, &scores, capc, mult);
        let sum = sum_abs_exec(&ns);
        scores = ns;
        if sum != 0 {
            let nm = fx_recip(sum);
            let diff = fx_abs_exec(mult - nm);
            let settled = diff < settle_threshold;
            mult = nm;
            iters = iters + 1;
            if settled {
                status = SolveStatus::Converged;
                break;
            }
            if iters >= max_iters {
                status = SolveStatus::IterationLimit;
                break;
            }
        } else {
            iters = iters + 1;
            if iters >= max_iters {
                status = SolveStatus::IterationLimit;
                break;
            }
            status = SolveStatus::Collapsed;
            break;
        }
    }
    SolveResult {
        label: clone_label(&table.label),
        iterations: iters,
        grand_multiplier: mult,
        scores,
        status,
    }
}

/// Solve one table. Degenerate parameters are rejected before any
/// iteration begins: a zero round budget, a non-positive settle threshold,
/// and a non-positive activation cap each yield their configuration error,
/// checked in that order; any other input is solved and the result is
/// exactly the model outcome.
pub fn solve(
    table: &MatchupTable,
    max_iters: usize,
    settle_threshold: i128,
    activation_cap: i128,
) -> (r: Result<SolveResult, ConfigError>)
    ensures
        r is Err <==> (max_iters == 0 || settle_threshold <= 0 || activation_cap <= 0),
        max_iters == 0 ==> r == Err::<SolveResult, ConfigError>(ConfigError::ZeroMaxIterations),
        max_iters != 0 && settle_threshold <= 0 ==> r == Err::<SolveResult, ConfigError>(
            ConfigError::NonPositiveSettleThreshold,
        ),
        max_iters != 0 && settle_threshold > 0 && activation_cap <= 0 ==> r == Err::<
            SolveResult,
            ConfigError,
        >(ConfigError::NonPositiveActivationCap),
        r matches Ok(res) ==> result_matches(
            res,
            *table,
            max_iters as int,
            settle_threshold as int,
            activation_cap as int,
        ) && 1 <= res.iterations <= max_iters,
{
    if max_iters == 0 {
        return Err(ConfigError::ZeroMaxIterations);
    }
    if settle_threshold <= 0 {
        return Err(ConfigError::NonPositiveSettleThreshold);
    }
    if activation_cap <= 0 {
        return Err(ConfigError::NonPositiveActivationCap);
    }
    Ok(solve_table(table, max_iters, settle_threshold, activation_cap))
}

} // verus!
