//! A one-player counting game: the state is a number, the moves add or
//! subtract one, and the game ends at one hundred.  It exercises the
//! generic engine without any chess machinery.

use vstd::prelude::*;
use crate::SCALE;
use crate::PRIOR_SCALE;
use crate::traits::Evaluator;
use crate::traits::GameState;

verus! {

/// The state: a single score the player pushes up or down.
#[derive(Clone, Copy, Debug, PartialEq, Eq, Structural)]
pub struct CountingGame(pub i64);

#[derive(Clone, Copy, Debug, PartialEq, Eq, Structural)]
pub enum CountingMove {
    Add,
    Sub,
}

/// The score at which the game is over.
pub const COUNTING_GOAL: i64 = 100;

impl GameState for CountingGame {
    type Move = CountingMove;

    type Player = ();

    open spec fn next_state(self, m: CountingMove) -> CountingGame {
        match m {
            CountingMove::Add => if self.0 < i64::MAX {
                CountingGame((self.0 + 1) as i64)
            } else {
                self
            },
            CountingMove::Sub => if self.0 > i64::MIN {
                CountingGame((self.0 - 1) as i64)
            } else {
                self
            },
        }
    }

    open spec fn spec_moves(self) -> Seq<CountingMove> {
        if self.0 >= COUNTING_GOAL {
            Seq::empty()
        } else {
            seq![CountingMove::Add, CountingMove::Sub]
        }
    }

    open spec fn spec_player(self) -> () {
        ()
    }

    open spec fn spec_hash(self) -> u64 {
        self.0 as u64
    }

    fn clone_state(&self) -> CountingGame {
        CountingGame(self.0)
    }

    fn clone_move(m: &CountingMove) -> CountingMove {
        *m
    }

    fn current_player(&self) -> () {
        ()
    }

    fn available_moves(&self) -> (r: Vec<CountingMove>) {
        let mut r: Vec<CountingMove> = Vec::new();
        if self.0 < COUNTING_GOAL {
            r.push(CountingMove::Add);
            r.push(CountingMove::Sub);
        }
        proof {
            assert(r@ =~= self.spec_moves());
        }
        r
    }

    fn make_move(&mut self, m: &CountingMove) {
        if self.0 >= COUNTING_GOAL {
            proof {
                assert(!old(self).spec_moves().contains(*m));
            }
            return ;
        }
        proof {
            assert(old(self).spec_moves()[0] == CountingMove::Add);
            assert(old(self).spec_moves()[1] == CountingMove::Sub);
            assert(old(self).spec_moves().contains(*m));
        }
        match *m {
            CountingMove::Add => {
                if self.0 < i64::MAX {
                    self.0 = self.0 + 1;
                }
            },
            CountingMove::Sub => {
                if self.0 > i64::MIN {
                    self.0 = self.0 - 1;
                }
            },
        }
    }

    fn hash(&self) -> u64 {
        self.0 as u64
    }
}

/// The counting game with every position hashed alike: transpositions are
/// detected wrongly on purpose, so the search meets cycles and stale
/// children.  It exercises the cycle policies and the node limit.
#[derive(Clone, Copy, Debug, PartialEq, Eq, Structural)]
pub struct CollidingGame(pub i64);

impl GameState for CollidingGame {
    type Move = CountingMove;

    type Player = ();

    open spec fn next_state(self, m: CountingMove) -> CollidingGame {
        match m {
            CountingMove::Add => if self.0 < i64::MAX {
                CollidingGame((self.0 + 1) as i64)
            } else {
                self
            },
            CountingMove::Sub => if self.0 > i64::MIN {
                CollidingGame((self.0 - 1) as i64)
            } else {
                self
            },
        }
    }

    open spec fn spec_moves(self) -> Seq<CountingMove> {
        if self.0 >= COUNTING_GOAL {
            Seq::empty()
        } else {
            seq![CountingMove::Add, CountingMove::Sub]
        }
    }

    open spec fn spec_player(self) -> () {
        ()
    }

    open spec fn spec_hash(self) -> u64 {
        0
    }

    fn clone_state(&self) -> CollidingGame {
        CollidingGame(self.0)
    }

    fn clone_move(m: &CountingMove) -> CountingMove {
        *m
    }

    fn current_player(&self) -> () {
        ()
    }

    fn available_moves(&self) -> (r: Vec<CountingMove>) {
        let mut r: Vec<CountingMove> = Vec::new();
        if self.0 < COUNTING_GOAL {
            r.push(CountingMove::Add);
            r.push(CountingMove::Sub);
        }
        proof {
            assert(r@ =~= self.spec_moves());
        }
        r
    }

    fn make_move(&mut self, m: &CountingMove) {
        if self.0 >= COUNTING_GOAL {
            proof {
                assert(!old(self).spec_moves().contains(*m));
            }
            return ;
        }
        proof {
            assert(old(self).spec_moves()[0] == CountingMove::Add);
            assert(old(self).spec_moves()[1] == CountingMove::Sub);
            assert(old(self).spec_moves().contains(*m));
        }
        match *m {
            CountingMove::Add => {
                if self.0 < i64::MAX {
                    self.0 = self.0 + 1;
                }
            },
            CountingMove::Sub => {
                if self.0 > i64::MIN {
                    self.0 = self.0 - 1;
                }
            },
        }
    }

    fn hash(&self) -> u64 {
        0
    }
}

/// What the counting evaluator says a scalar position is worth: the score
/// itself in units of ten thousand, saturating at the win scale.
pub open spec fn spec_counting_value(x: int) -> int {
    if x >= 100 {
        SCALE as int
    } else if x <= -100 {
        -(SCALE as int)
    } else {
        x * 10_000
    }
}

/// One prior of the counting evaluator's uniform vector over `n` moves.
pub open spec fn spec_counting_prior(n: int) -> int {
    if n == 0 {
        0
    } else {
        PRIOR_SCALE as int / n
    }
}

/// Scores a counting position by its own value: higher numbers are better,
/// saturating at the win scale; the priors are uniform.
pub struct CountingEvaluator;

impl Evaluator<CountingGame> for CountingEvaluator {
    fn evaluate_new_state(&self, state: &CountingGame, moves: &Vec<CountingMove>) -> (r: (
        Vec<u64>,
        i64,
    ))
        ensures
            r.1 as int == spec_counting_value(state.0 as int),
            forall|i: int|
                0 <= i < r.0@.len() ==> #[trigger] r.0@[i] as int == spec_counting_prior(
                    moves@.len() as int,
                ),
    {
        let n = moves.len();
        let each: u64 = if n == 0 {
            0
        } else {
            PRIOR_SCALE / (n as u64)
        };
        let mut priors: Vec<u64> = Vec::new();
        let mut k: usize = 0;
        while k < n
            invariant
                k <= n,
                priors@.len() == k,
                each <= PRIOR_SCALE,
                forall|i: int| 0 <= i < k ==> #[trigger] priors@[i] == each,
            decreases n - k,
        {
            priors.push(each);
            k = k + 1;
        }
        let x = state.0;
        let value: i64 = if x >= 100 {
            SCALE
        } else if x <= -100 {
            -SCALE
        } else {
            x * 10_000
        };
        (priors, value)
    }

    fn evaluate_existing_state(&self, _state: &CountingGame, existing: i64) -> (r: i64)
        ensures
            r == existing,
    {
        existing
    }

    fn interpret_evaluation_for_player(&self, evaluation: i64, _player: &()) -> (r: i64)
        ensures
            r == evaluation,
    {
        evaluation
    }
}

/// The counting evaluator for the colliding variant of the game.
pub struct CollidingEvaluator;

impl Evaluator<CollidingGame> for CollidingEvaluator {
    fn evaluate_new_state(&self, state: &CollidingGame, moves: &Vec<CountingMove>) -> (r: (
        Vec<u64>,
        i64,
    ))
        ensures
            r.1 as int == spec_counting_value(state.0 as int),
            forall|i: int|
                0 <= i < r.0@.len() ==> #[trigger] r.0@[i] as int == spec_counting_prior(
                    moves@.len() as int,
                ),
    {
        let n = moves.len();
        let each: u64 = if n == 0 {
            0
        } else {
            PRIOR_SCALE / (n as u64)
        };
        let mut priors: Vec<u64> = Vec::new();
        let mut k: usize = 0;
        while k < n
            invariant
                k <= n,
                priors@.len() == k,
                each <= PRIOR_SCALE,
                forall|i: int| 0 <= i < k ==> #[trigger] priors@[i] == each,
            decreases n - k,
        {
            priors.push(each);
            k = k + 1;
        }
        let x = state.0;
        let value: i64 = if x >= 100 {
            SCALE
        } else if x <= -100 {
            -SCALE
        } else {
            x * 10_000
        };
        (priors, value)
    }

    fn evaluate_existing_state(&self, _state: &CollidingGame, existing: i64) -> (r: i64)
        ensures
            r == existing,
    {
        existing
    }

    fn interpret_evaluation_for_player(&self, evaluation: i64, _player: &()) -> (r: i64)
        ensures
            r == evaluation,
    {
        evaluation
    }
}

} // verus!
