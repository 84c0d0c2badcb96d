//! The batch runner: solve an ordered collection of tables independently.

use vstd::prelude::*;
use crate::solver::ConfigError;
use crate::solver::SolveResult;
use crate::solver::result_matches;
use crate::solver::solve_table;
use crate::table::MatchupTable;

verus! {

/// Solve every table in order with one shared set of parameters. The
/// result sequence has the same length and positional order as the input:
/// entry `i` is exactly the model outcome for table `i`, whatever each
/// table's solve difficulty or failure status. Degenerate parameters are
/// rejected up front, before any table is touched, with the same errors
/// and priority as [`crate::solver::solve`]; a per-table numerical
/// collapse is reported in that table's own result and never interrupts
/// the rest of the batch.
pub fn solve_all(
    tables: &Vec<MatchupTable>,
    max_iters: usize,
    settle_threshold: i128,
    activation_cap: i128,
) -> (r: Result<Vec<SolveResult>, ConfigError>)
    ensures
        r is Err <==> (max_iters == 0 || settle_threshold <= 0 || activation_cap <= 0),
        max_iters == 0 ==> r == Err::<Vec<SolveResult>, ConfigError>(
            ConfigError::ZeroMaxIterations,
        ),
        max_iters != 0 && settle_threshold <= 0 ==> r == Err::<Vec<SolveResult>, ConfigError>(
            ConfigError::NonPositiveSettleThreshold,
        ),
        max_iters != 0 && settle_threshold > 0 && activation_cap <= 0 ==> r == Err::<
            Vec<SolveResult>,
            ConfigError,
        >(ConfigError::NonPositiveActivationCap),
        r matches Ok(rs) ==> rs@.len() == tables@.len() && forall|i: int|
            0 <= i < tables@.len() ==> result_matches(
                #[trigger] rs@[i],
                tables@[i],
                max_iters as int,
                settle_threshold as int,
                activation_cap as int,
            ),
{
    if max_iters == 0 {
        return Err(ConfigError::ZeroMaxIterations);
    }
    if settle_threshold <= 0 {
        return Err(ConfigError::NonPositiveSettleThreshold);
    }
    if activation_cap <= 0 {
        return Err(ConfigError::NonPositiveActivationCap);
    }
    let mut rs: Vec<SolveResult> = Vec::new();
    let mut i: usize = 0;
    while i < tables.len()
        invariant
            i <= tables@.len(),
            rs@.len() == i,
            max_iters >= 1,
            settle_threshold >= 1,
            activation_cap >= 1,
            forall|k: int|
                0 <= k < i ==> result_matches(
                    #[trigger] rs@[k],
                    tables@[k],
                    max_iters as int,
                    settle_threshold as int,
                    activation_cap as int,
                ),
        decreases tables@.len() - i,
    {
        let t = &tables[i];
        rs.push(solve_table(t, max_iters, settle_threshold, activation_cap));
        i += 1;
    }
    Ok(rs)
}

} // verus!
