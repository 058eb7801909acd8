//! The capability traits the search engine consumes: a game, an evaluator
//! and the scalar search parameters.

use vstd::prelude::*;
use crate::SCALE;
use crate::PRIOR_SCALE;
use crate::CycleBehaviour;

verus! {

/// A game position.  The search clones it, asks for its legal moves, applies
/// moves to it and hashes it for the transposition table.
///
/// Each operation has a specification-level twin so that contracts can speak
/// about what the executable methods return.
pub trait GameState: Sized {
    type Move;

    type Player;

    /// The position after `m` is applied to `self`.
    spec fn next_state(self, m: Self::Move) -> Self;

    /// The legal moves of `self`, in a fixed order.
    spec fn spec_moves(self) -> Seq<Self::Move>;

    /// The player to move.
    spec fn spec_player(self) -> Self::Player;

    /// The transposition key of `self`.
    spec fn spec_hash(self) -> u64;

    fn clone_state(&self) -> (r: Self)
        ensures
            r == *self,
    ;

    fn clone_move(m: &Self::Move) -> (r: Self::Move)
        ensures
            r == *m,
    ;

    fn current_player(&self) -> (r: Self::Player)
        ensures
            r == self.spec_player(),
    ;

    fn available_moves(&self) -> (r: Vec<Self::Move>)
        ensures
            r@ == self.spec_moves(),
    ;

    /// Applies a legal move; an illegal move leaves the position unchanged.
    fn make_move(&mut self, m: &Self::Move)
        ensures
            old(self).spec_moves().contains(*m) ==> *final(self) == old(self).next_state(
                *m,
            ),
            !old(self).spec_moves().contains(*m) ==> *final(self) == *old(self),
    ;

    fn hash(&self) -> (r: u64)
        ensures
            r == self.spec_hash(),
    ;
}

/// Turns a position and its legal moves into move priors and a state value.
///
/// Priors are fixed-point probabilities in `[0, PRIOR_SCALE]`; values are
/// fixed-point evaluations in `[-SCALE, SCALE]`.
pub trait Evaluator<S: GameState> {
    /// Evaluates a freshly expanded state: one prior per legal move, plus the
    /// state value.
    fn evaluate_new_state(&self, state: &S, moves: &Vec<S::Move>) -> (r: (Vec<u64>, i64))
        ensures
            r.0@.len() == moves@.len(),
            forall|i: int| 0 <= i < r.0@.len() ==> r.0@[i] <= PRIOR_SCALE,
            -SCALE <= r.1 <= SCALE,
    ;

    /// Evaluates a playout that ends on a previously evaluated state, given
    /// the evaluation stored at its node.
    fn evaluate_existing_state(&self, state: &S, existing: i64) -> (r: i64)
        requires
            -SCALE <= existing <= SCALE,
        ensures
            -SCALE <= r <= SCALE,
    ;

    /// Projects a global evaluation onto the perspective of the player to
    /// move.
    fn interpret_evaluation_for_player(&self, evaluation: i64, player: &S::Player) -> (r: i64)
        requires
            -SCALE <= evaluation <= SCALE,
        ensures
            -SCALE <= r <= SCALE,
    ;
}

/// The scalar knobs of a search, bundled as a capability so that a caller
/// can fix them per search.  Each executable getter is pinned to its
/// specification-level twin.
pub trait MCTS: Sized {
    spec fn spec_virtual_loss(&self) -> i64;

    spec fn spec_visits_before_expansion(&self) -> u64;

    spec fn spec_node_limit(&self) -> usize;

    spec fn spec_max_playout_length(&self) -> usize;

    spec fn spec_cycle_behaviour(&self) -> CycleBehaviour;

    /// Virtual loss subtracted from an edge's rewards while a playout is in
    /// flight, and added back when it completes.
    fn virtual_loss(&self) -> (r: i64)
        ensures
            r == self.spec_virtual_loss(),
    ;

    /// How often an edge must be traversed before its child is expanded.
    fn visits_before_expansion(&self) -> (r: u64)
        ensures
            r == self.spec_visits_before_expansion(),
    ;

    /// Number of nodes beyond which playouts do nothing.
    fn node_limit(&self) -> (r: usize)
        ensures
            r == self.spec_node_limit(),
    ;

    /// A playout whose selection path exceeds this length is aborted.
    fn max_playout_length(&self) -> (r: usize)
        ensures
            r == self.spec_max_playout_length(),
    ;

    fn cycle_behaviour(&self) -> (r: CycleBehaviour)
        ensures
            r == self.spec_cycle_behaviour(),
    ;
}

/// Selection steps a playout may ever take before the statistics counters
/// could come near their representable range.
pub const MAX_STEPS: u64 = 0x100_0000_0000;

/// Longest maximum playout length a parameter set may ask for.
pub const MAX_LENGTH_CAP: usize = 0x4000_0000;

/// A plain bundle of search parameters, for callers that need no dynamic
/// behaviour.
#[derive(Clone, Copy, Debug)]
pub struct SearchParams {
    pub virtual_loss: i64,
    pub visits_before_expansion: u64,
    pub node_limit: usize,
    pub max_playout_length: usize,
    pub cycle_behaviour: CycleBehaviour,
}

impl SearchParams {
    /// The defaults of the engine: no virtual loss, expansion at the first
    /// visit, no node limit short of the arena's own, playouts of at most a
    /// million steps, and no tolerance for cycles.
    pub fn standard() -> (r: SearchParams)
        ensures
            params_wf(&r),
            r.spec_virtual_loss() == 0,
            r.spec_visits_before_expansion() == 1,
            r.spec_node_limit() == 0x4000_0000usize,
            r.spec_max_playout_length() == 1_000_000usize,
            r.spec_cycle_behaviour() == CycleBehaviour::PanicWhenCycleDetected,
    {
        SearchParams {
            virtual_loss: 0,
            visits_before_expansion: 1,
            node_limit: 0x4000_0000,
            max_playout_length: 1_000_000,
            cycle_behaviour: CycleBehaviour::PanicWhenCycleDetected,
        }
    }
}

impl MCTS for SearchParams {
    open spec fn spec_virtual_loss(&self) -> i64 {
        self.virtual_loss
    }

    open spec fn spec_visits_before_expansion(&self) -> u64 {
        self.visits_before_expansion
    }

    open spec fn spec_node_limit(&self) -> usize {
        self.node_limit
    }

    open spec fn spec_max_playout_length(&self) -> usize {
        self.max_playout_length
    }

    open spec fn spec_cycle_behaviour(&self) -> CycleBehaviour {
        self.cycle_behaviour
    }

    fn virtual_loss(&self) -> i64 {
        self.virtual_loss
    }

    fn visits_before_expansion(&self) -> u64 {
        self.visits_before_expansion
    }

    fn node_limit(&self) -> usize {
        self.node_limit
    }

    fn max_playout_length(&self) -> usize {
        self.max_playout_length
    }

    fn cycle_behaviour(&self) -> CycleBehaviour {
        self.cycle_behaviour
    }
}

/// The bounds the search tree needs of its parameters: they keep every
/// counter and reward sum far from overflow.
pub open spec fn params_wf<Spec: MCTS>(params: &Spec) -> bool {
    &&& 0 <= params.spec_virtual_loss() <= SCALE
    &&& 1 <= params.spec_visits_before_expansion()
    &&& 1 <= params.spec_node_limit()
    &&& 1 <= params.spec_max_playout_length() <= MAX_LENGTH_CAP
    &&& match params.spec_cycle_behaviour() {
        CycleBehaviour::UseThisEvalWhenCycleDetected(v) => -SCALE <= v <= SCALE,
        _ => true,
    }
}

} // verus!
