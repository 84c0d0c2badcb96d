use tiersolve::build;
use tiersolve::solve;
use tiersolve::solve_all;
use tiersolve::ConfigError;
use tiersolve::MatchupTable;
use tiersolve::SolveStatus;
use tiersolve::SCALE;

const CAP30: i128 = 30 * SCALE;
const THR: i128 = 1074;

fn names(list: &[&str]) -> Vec<String> {
    list.iter().map(|s| s.to_string()).collect()
}

fn pair_table() -> MatchupTable {
    build(
        Some("pair".to_string()),
        names(&["a", "b"]),
        vec![vec![0, 600], vec![400, 0]],
    )
}

fn even_pair_table() -> MatchupTable {
    build(
        Some("even".to_string()),
        names(&["a", "b"]),
        vec![vec![0, 500], vec![500, 0]],
    )
}

fn trio_table() -> MatchupTable {
    build(
        Some("trio".to_string()),
        names(&["x", "y", "z"]),
        vec![
            vec![0, 600, 500],
            vec![400, 0, 700],
            vec![500, 300, 0],
        ],
    )
}

#[test]
fn repeated_solves_are_identical() {
    let r1 = solve(&trio_table(), 5000, THR, CAP30).unwrap();
    let r2 = solve(&trio_table(), 5000, THR, CAP30).unwrap();
    assert_eq!(r1.label, r2.label);
    assert_eq!(r1.iterations, r2.iterations);
    assert_eq!(r1.grand_multiplier, r2.grand_multiplier);
    assert_eq!(r1.scores, r2.scores);
    assert_eq!(r1.status, r2.status);
}

#[test]
fn even_pair_collapses_with_equal_scores() {
    let r = solve(&even_pair_table(), 5000, THR, CAP30).unwrap();
    assert_eq!(r.status, SolveStatus::Collapsed);
    assert_eq!(r.iterations, 1);
    assert_eq!(r.grand_multiplier, SCALE);
    assert_eq!(r.scores, vec![0, 0]);
    assert_eq!(r.scores[0], r.scores[1]);
}

#[test]
fn single_even_opponent_collapse_detected() {
    let t = MatchupTable {
        label: None,
        entities: names(&["a", "b", "c", "d"]),
        rates: vec![
            vec![None, Some(500), None, None],
            vec![Some(500), None, None, None],
            vec![None, None, None, Some(500)],
            vec![None, None, Some(500), None],
        ],
    };
    let r = solve(&t, 5000, THR, CAP30).unwrap();
    assert_eq!(r.status, SolveStatus::Collapsed);
    assert_eq!(r.iterations, 1);
    assert_eq!(r.grand_multiplier, SCALE);
    assert_eq!(r.scores, vec![0, 0, 0, 0]);
}

#[test]
fn two_entity_convergence() {
    let r = solve(&pair_table(), 5000, THR, CAP30).unwrap();
    assert_eq!(r.status, SolveStatus::Converged);
    assert_eq!(r.iterations, 187);
    assert_eq!(r.grand_multiplier, 1702650931);
    assert_eq!(r.scores, vec![268483222, -408649996]);
}

#[test]
fn end_to_end_three_entities() {
    let r = solve(&trio_table(), 5000, THR, CAP30).unwrap();
    assert_eq!(r.iterations, 5000);
    assert_eq!(r.status, SolveStatus::IterationLimit);
    assert_eq!(r.grand_multiplier, 903652813);
    assert_eq!(r.scores, vec![369293017, 167966592, -738586034]);
    let x = r.scores[0];
    let y = r.scores[1];
    let z = r.scores[2];
    assert!(x > y);
    assert!(y > z);
    assert!(x > z);
}

#[test]
fn raising_a_margin_does_not_lower_the_score() {
    let base = build(
        None,
        names(&["x", "y", "z"]),
        vec![
            vec![0, 500, 500],
            vec![500, 0, 500],
            vec![500, 500, 0],
        ],
    );
    let bumped = build(
        None,
        names(&["x", "y", "z"]),
        vec![
            vec![0, 600, 500],
            vec![400, 0, 500],
            vec![500, 500, 0],
        ],
    );
    let rb = solve(&base, 5000, THR, CAP30).unwrap();
    let rm = solve(&bumped, 5000, THR, CAP30).unwrap();
    assert_eq!(rb.scores[0], 0);
    assert_eq!(rm.scores[0], 268483222);
    assert!(rm.scores[0] >= rb.scores[0]);
}

#[test]
fn iteration_budget_respected() {
    let r = solve(&pair_table(), 3, THR, CAP30).unwrap();
    assert_eq!(r.iterations, 3);
    assert_eq!(r.status, SolveStatus::IterationLimit);
    assert_eq!(r.grand_multiplier, 2708887762);
    assert_eq!(r.scores, vec![141102022, -284504945]);
    let r2 = solve(&pair_table(), 5000, THR, CAP30).unwrap();
    assert!(r2.iterations <= 5000);
}

#[test]
fn batch_preserves_order_and_survives_collapse() {
    let tables = vec![pair_table(), even_pair_table(), trio_table()];
    let rs = solve_all(&tables, 5000, THR, CAP30).unwrap();
    assert_eq!(rs.len(), 3);
    assert_eq!(rs[0].label, Some("pair".to_string()));
    assert_eq!(rs[1].label, Some("even".to_string()));
    assert_eq!(rs[2].label, Some("trio".to_string()));
    assert_eq!(rs[0].status, SolveStatus::Converged);
    assert_eq!(rs[1].status, SolveStatus::Collapsed);
    assert_eq!(rs[2].status, SolveStatus::IterationLimit);
    assert_eq!(rs[0].scores, vec![268483222, -408649996]);
    assert_eq!(rs[2].scores, vec![369293017, 167966592, -738586034]);
}

#[test]
fn zero_round_budget_is_rejected() {
    let r = solve(&pair_table(), 0, THR, CAP30);
    assert_eq!(r.unwrap_err(), ConfigError::ZeroMaxIterations);
}

#[test]
fn nonpositive_threshold_is_rejected() {
    let r = solve(&pair_table(), 5000, 0, CAP30);
    assert_eq!(r.unwrap_err(), ConfigError::NonPositiveSettleThreshold);
    let r = solve(&pair_table(), 5000, -5, CAP30);
    assert_eq!(r.unwrap_err(), ConfigError::NonPositiveSettleThreshold);
}

#[test]
fn nonpositive_cap_is_rejected() {
    let r = solve(&pair_table(), 5000, THR, 0);
    assert_eq!(r.unwrap_err(), ConfigError::NonPositiveActivationCap);
    let r = solve(&pair_table(), 5000, THR, -1);
    assert_eq!(r.unwrap_err(), ConfigError::NonPositiveActivationCap);
}

#[test]
fn config_errors_are_checked_in_order() {
    let r = solve(&pair_table(), 0, 0, 0);
    assert_eq!(r.unwrap_err(), ConfigError::ZeroMaxIterations);
    let r = solve(&pair_table(), 5000, 0, 0);
    assert_eq!(r.unwrap_err(), ConfigError::NonPositiveSettleThreshold);
}

#[test]
fn batch_rejects_bad_config_up_front() {
    let tables = vec![pair_table()];
    assert_eq!(
        solve_all(&tables, 0, THR, CAP30).unwrap_err(),
        ConfigError::ZeroMaxIterations
    );
    assert_eq!(
        solve_all(&tables, 5000, 0, CAP30).unwrap_err(),
        ConfigError::NonPositiveSettleThreshold
    );
    assert_eq!(
        solve_all(&tables, 5000, THR, -7).unwrap_err(),
        ConfigError::NonPositiveActivationCap
    );
}
