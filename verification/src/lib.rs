//! A Monte Carlo tree search library.
//!
//! The search tree, the playout loop with virtual loss, the transposition
//! table, the tree policy and the principal-variation extraction are all
//! verified; a chess evaluator instantiates the generic engine.

use vstd::prelude::*;

pub mod chessgame;
pub mod counting;
pub mod evaluation;
pub mod mcts;
pub mod policy;
pub mod table;
pub mod tree;
pub mod traits;

verus! {

/// Fixed-point unit in which state evaluations are expressed:
/// `SCALE` stands for a certain win, `-SCALE` for a certain loss.
pub const SCALE: i64 = 1_000_000;

/// Fixed-point unit for move priors: a prior of `PRIOR_SCALE` stands for
/// probability one.
pub const PRIOR_SCALE: u64 = 1_000_000;

/// What the playout loop does when it meets a child node that already lies
/// on the current selection path.
#[derive(Clone, Copy, Debug)]
pub enum CycleBehaviour {
    /// Descend into the repeated node anyway.
    Ignore,
    /// Treat the repeated node as terminal, backing up its stored evaluation.
    UseCurrentEvalWhenCycleDetected,
    /// Stop the search: the caller asserted that the game graph is acyclic.
    PanicWhenCycleDetected,
    /// Treat the repeated node as terminal with the given fixed evaluation.
    UseThisEvalWhenCycleDetected(i64),
}

/// How a single playout ended.
#[derive(Clone, Copy, Debug, PartialEq, Eq, Structural)]
pub enum PlayoutResult {
    /// The playout descended, evaluated a state and was backpropagated.
    Completed,
    /// The node limit is reached; nothing was done.
    TreeFull,
    /// The statistics counters are close to their representable range;
    /// nothing was done.  Unreachable in any practical search.
    BudgetExhausted,
    /// A cycle was met under `PanicWhenCycleDetected`; the search must stop.
    CycleDetected,
    /// The selection path exceeded the maximum playout length.
    PlayoutLengthExceeded,
}

} // verus!

