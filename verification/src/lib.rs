//! Ranks competing entities from a table of pairwise win-rates.
//!
//! The solver runs a power-iteration-style fixed point: each round, every
//! entity's score is recomputed from the whole previous round's scores, each
//! opponent's score passed through a bounded activation curve and weighted by
//! the win margin against that opponent, and the vector is then globally
//! renormalized. The round-to-round stability of the renormalization factor
//! is the convergence signal.
//!
//! All quantities are binary fixed-point numbers (see [`fixed`]), so every
//! solve is exact integer arithmetic: deterministic and fully specified.

pub mod batch;
pub mod fixed;
pub mod laws;
pub mod solver;
pub mod table;

pub use batch::solve_all;
pub use fixed::SCALE;
pub use fixed::FX_MAX;
pub use solver::ConfigError;
pub use solver::SolveResult;
pub use solver::SolveStatus;
pub use solver::solve;
pub use table::MatchupTable;
pub use table::build;
