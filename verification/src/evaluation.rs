//! The chess evaluator: an endgame-tablebase short-circuit on small
//! positions, then terminal detection, then a pluggable scoring model.

use vstd::prelude::*;
use crate::SCALE;
use crate::PRIOR_SCALE;
use crate::chessgame::BoardStatus;
use crate::chessgame::ChessMove;
use crate::chessgame::ChessState;
use crate::chessgame::Color;
use crate::traits::Evaluator;
use crate::traits::GameState;

verus! {

/// A tablebase verdict; cursed wins and blessed losses count as draws.
#[derive(Clone, Copy, Debug, PartialEq, Eq, Structural)]
pub enum Wdl {
    Win,
    CursedWin,
    Draw,
    BlessedLoss,
    Loss,
}

/// Positions with at most this many pieces may be answered by the
/// tablebase.
pub const TB_MAX_PIECES: u32 = 7;

/// A learned (or handcrafted) scoring model: a state value and one prior
/// per legal move.
pub trait ScoreModel {
    /// What the model's score is, as a function of the position and moves.
    spec fn spec_score(&self, state: ChessState, moves: Seq<ChessMove>) -> i64;

    /// What the model's priors are, as a function of the position and moves.
    spec fn spec_priors(&self, state: ChessState, moves: Seq<ChessMove>) -> Seq<u64>;

    fn score(&self, state: &ChessState, moves: &Vec<ChessMove>) -> (r: i64)
        ensures
            r == self.spec_score(*state, moves@),
            -SCALE <= r <= SCALE,
    ;

    fn move_priors(&self, state: &ChessState, moves: &Vec<ChessMove>) -> (r: Vec<u64>)
        ensures
            r@ == self.spec_priors(*state, moves@),
            r@.len() == moves@.len(),
            forall|i: int| 0 <= i < r@.len() ==> #[trigger] r@[i] <= PRIOR_SCALE,
    ;
}

/// A model with no knowledge: every position is balanced and every move
/// equally likely.
pub struct UniformModel;

impl ScoreModel for UniformModel {
    open spec fn spec_score(&self, state: ChessState, moves: Seq<ChessMove>) -> i64 {
        0
    }

    open spec fn spec_priors(&self, state: ChessState, moves: Seq<ChessMove>) -> Seq<u64> {
        Seq::new(moves.len(), |i: int| spec_uniform_prior(moves.len() as int) as u64)
    }

    fn score(&self, _state: &ChessState, _moves: &Vec<ChessMove>) -> i64 {
        0
    }

    fn move_priors(&self, state: &ChessState, moves: &Vec<ChessMove>) -> (r: Vec<u64>) {
        let r = uniform_priors(moves.len());
        proof {
            assert(r@ =~= self.spec_priors(*state, moves@));
        }
        r
    }
}

/// A uniform prior vector: `PRIOR_SCALE / n` for each of `n` moves.
pub fn uniform_priors(n: usize) -> (r: Vec<u64>)
    ensures
        r@.len() == n,
        forall|i: int| 0 <= i < r@.len() ==> #[trigger] r@[i] <= PRIOR_SCALE,
        forall|i: int| 0 <= i < r@.len() ==> #[trigger] r@[i] == spec_uniform_prior(n as int),
{
    let each: u64 = if n == 0 {
        0
    } else {
        PRIOR_SCALE / (n as u64)
    };
    let mut r: Vec<u64> = Vec::new();
    let mut k: usize = 0;
    while k < n
        invariant
            k <= n,
            r@.len() == k,
            each as int == spec_uniform_prior(n as int),
            each <= PRIOR_SCALE,
            forall|i: int| 0 <= i < k ==> #[trigger] r@[i] == each,
        decreases n - k,
    {
        r.push(each);
        k = k + 1;
    }
    r
}

pub open spec fn spec_uniform_prior(n: int) -> int {
    if n == 0 {
        0
    } else {
        PRIOR_SCALE as int / n
    }
}

/// What a tablebase verdict is worth: a certain win, a certain loss, or a
/// draw (cursed and blessed verdicts included).
pub open spec fn spec_wdl_value(w: Wdl) -> int {
    match w {
        Wdl::Win => SCALE as int,
        Wdl::Loss => -(SCALE as int),
        _ => 0,
    }
}

/// The prior of the tablebase's best move among `n`: the softmax of a
/// one-hot vector, in fixed point with `e` as `2718/1000`.
pub open spec fn spec_best_prior(n: int) -> int {
    (PRIOR_SCALE * 2718) as int / (1000 * (n - 1) + 2718)
}

/// The prior of each other move beside the tablebase's best among `n`.
pub open spec fn spec_other_prior(n: int) -> int {
    (PRIOR_SCALE * 1000) as int / (1000 * (n - 1) + 2718)
}

/// Turns a tablebase verdict into move priors and a state value: the value
/// is exactly `SCALE`, `0` or `-SCALE`; the known best move (if any, and if
/// it is legal here) takes the one-hot softmax's mass, every other move
/// keeps the residual; without a best move the priors are uniform.
pub fn syzygy_eval(moves: &Vec<ChessMove>, wdl: Wdl, best: &Option<ChessMove>) -> (r: (
    Vec<u64>,
    i64,
))
    ensures
        r.0@.len() == moves@.len(),
        forall|i: int| 0 <= i < r.0@.len() ==> #[trigger] r.0@[i] <= PRIOR_SCALE,
        r.1 as int == spec_wdl_value(wdl),
        r.1 == SCALE || r.1 == 0 || r.1 == -SCALE,
        match *best {
            Some(bm) => if moves@.contains(bm) {
                forall|i: int|
                    0 <= i < moves@.len() ==> #[trigger] r.0@[i] as int == if moves@[i] == bm {
                        spec_best_prior(moves@.len() as int)
                    } else {
                        spec_other_prior(moves@.len() as int)
                    }
            } else {
                forall|i: int|
                    0 <= i < moves@.len() ==> #[trigger] r.0@[i] as int == spec_uniform_prior(
                        moves@.len() as int,
                    )
            },
            None => forall|i: int|
                0 <= i < moves@.len() ==> #[trigger] r.0@[i] as int == spec_uniform_prior(
                    moves@.len() as int,
                ),
        },
{
    let value: i64 = match wdl {
        Wdl::Win => SCALE,
        Wdl::Loss => -SCALE,
        _ => 0,
    };
    let n = moves.len();
    let has_best: bool = match best {
        Some(bm) => contains_move_local(moves, bm),
        None => false,
    };
    if !has_best {
        let priors = uniform_priors(n);
        proof {
            if best is Some && moves@.contains(best->Some_0) {
                assert(false);
            }
        }
        return (priors, value);
    }
    let bm = match best {
        Some(b) => *b,
        None => ChessMove { from: 0, to: 0, promotion: crate::chessgame::Promotion::NoPromotion },
    };
    let denom: u128 = 1000 * (n as u128 - 1) + 2718;
    let big128: u128 = (PRIOR_SCALE as u128 * 2718) / denom;
    let small128: u128 = (PRIOR_SCALE as u128 * 1000) / denom;
    proof {
        vstd::arithmetic::div_mod::lemma_div_is_ordered_by_denominator(
            (PRIOR_SCALE * 2718) as int,
            2718,
            denom as int,
        );
        vstd::arithmetic::div_mod::lemma_div_is_ordered_by_denominator(
            (PRIOR_SCALE * 1000) as int,
            1000,
            denom as int,
        );
    }
    let big: u64 = big128 as u64;
    let small: u64 = small128 as u64;
    let mut priors: Vec<u64> = Vec::new();
    let mut k: usize = 0;
    while k < n
        invariant
            k <= n,
            n == moves@.len(),
            priors@.len() == k,
            big as int == spec_best_prior(n as int),
            small as int == spec_other_prior(n as int),
            big <= PRIOR_SCALE,
            small <= PRIOR_SCALE,
            forall|i: int|
                0 <= i < k ==> #[trigger] priors@[i] as int == if moves@[i] == bm {
                    spec_best_prior(n as int)
                } else {
                    spec_other_prior(n as int)
                },
        decreases n - k,
    {
        if moves[k] == bm {
            priors.push(big);
        } else {
            priors.push(small);
        }
        k = k + 1;
    }
    (priors, value)
}

fn contains_move_local(v: &Vec<ChessMove>, x: &ChessMove) -> (r: bool)
    ensures
        r == v@.contains(*x),
{
    let mut i: usize = 0;
    while i < v.len()
        invariant
            i <= v@.len(),
            forall|j: int| 0 <= j < i ==> v@[j] != *x,
        decreases v@.len() - i,
    {
        if v[i] == *x {
            return true;
        }
        i = i + 1;
    }
    false
}

/// The game-theoretic value of a position: the model's opinion while the
/// game is ongoing, a draw on stalemate, and a certain win for the side
/// that delivered mate on checkmate.
pub fn terminal_value(status: BoardStatus, to_move: Color, model_value: i64) -> (r: i64)
    requires
        -SCALE <= model_value <= SCALE,
    ensures
        status == BoardStatus::Ongoing ==> r == model_value,
        status == BoardStatus::Stalemate ==> r == 0,
        status == BoardStatus::Checkmate && to_move == Color::White ==> r == -SCALE,
        status == BoardStatus::Checkmate && to_move == Color::Black ==> r == SCALE,
{
    match status {
        BoardStatus::Ongoing => model_value,
        BoardStatus::Stalemate => 0,
        BoardStatus::Checkmate => match to_move {
            Color::White => -SCALE,
            Color::Black => SCALE,
        },
    }
}

/// An endgame tablebase capability.  What it answers depends on the table
/// files behind it, so nothing more is promised of its results.
pub trait Tablebase {
    fn probe_wdl(&self, board: &chess::Board) -> Option<Wdl>;

    fn best_move(&self, board: &chess::Board) -> Option<ChessMove>;
}

/// No tablebase at all.
pub struct NoTablebase;

impl Tablebase for NoTablebase {
    fn probe_wdl(&self, _board: &chess::Board) -> Option<Wdl> {
        None
    }

    fn best_move(&self, _board: &chess::Board) -> Option<ChessMove> {
        None
    }
}

/// A stub tablebase with a fixed answer, for exercising the tablebase
/// path without table files.
pub struct FixedTablebase {
    pub wdl: Option<Wdl>,
    pub best: Option<ChessMove>,
}

impl Tablebase for FixedTablebase {
    fn probe_wdl(&self, _board: &chess::Board) -> Option<Wdl> {
        self.wdl
    }

    fn best_move(&self, _board: &chess::Board) -> Option<ChessMove> {
        self.best
    }
}

/// The chess evaluator: tablebase on small positions, then terminal
/// detection, then the model.
pub struct GooseEval<M: ScoreModel, T: Tablebase> {
    pub model: M,
    pub tablebase: T,
}

impl<M: ScoreModel, T: Tablebase> GooseEval<M, T> {
    pub fn new(model: M, tablebase: T) -> (r: GooseEval<M, T>) {
        GooseEval { model, tablebase }
    }

    /// Asks the tablebase about a position.  Whatever the probe answers,
    /// the value is exact (a certain win, loss or draw); the priors come
    /// from `syzygy_eval` for whichever best move the tablebase offered.
    fn evaluate_syzygy(&self, state: &ChessState, moves: &Vec<ChessMove>) -> (r: Option<
        (Vec<u64>, i64),
    >)
        ensures
            match r {
                Some(pv) => {
                    &&& pv.0@.len() == moves@.len()
                    &&& forall|i: int| 0 <= i < pv.0@.len() ==> #[trigger] pv.0@[i] <= PRIOR_SCALE
                    &&& (pv.1 == SCALE || pv.1 == 0 || pv.1 == -SCALE)
                },
                None => true,
            },
    {
        match self.tablebase.probe_wdl(&state.board) {
            None => None,
            Some(w) => {
                let best = self.tablebase.best_move(&state.board);
                Some(syzygy_eval(moves, w, &best))
            },
        }
    }
}

impl<M: ScoreModel, T: Tablebase> Evaluator<ChessState> for GooseEval<M, T> {
    fn evaluate_new_state(&self, state: &ChessState, moves: &Vec<ChessMove>) -> (r: (
        Vec<u64>,
        i64,
    ))
        ensures
            crate::chessgame::board_piece_count(state.board) > TB_MAX_PIECES ==> {
                &&& r.0@ == self.model.spec_priors(*state, moves@)
                &&& (crate::chessgame::board_status(state.board) == BoardStatus::Ongoing ==> r.1
                    == self.model.spec_score(*state, moves@))
                &&& (crate::chessgame::board_status(state.board) == BoardStatus::Stalemate ==> r.1
                    == 0)
                &&& (crate::chessgame::board_status(state.board) == BoardStatus::Checkmate
                    && crate::chessgame::board_turn(state.board) == Color::White ==> r.1 == -SCALE)
                &&& (crate::chessgame::board_status(state.board) == BoardStatus::Checkmate
                    && crate::chessgame::board_turn(state.board) == Color::Black ==> r.1 == SCALE)
            },
    {
        let pc = state.piece_count();
        if pc <= TB_MAX_PIECES {
            match self.evaluate_syzygy(state, moves) {
                Some(pv) => {
                    return pv;
                },
                None => {},
            }
        }
        let priors = self.model.move_priors(state, moves);
        let model_value = self.model.score(state, moves);
        let value = terminal_value(state.status(), state.current_player(), model_value);
        (priors, value)
    }

    fn evaluate_existing_state(&self, _state: &ChessState, existing: i64) -> (r: i64)
        ensures
            r == existing,
    {
        existing
    }

    fn interpret_evaluation_for_player(&self, evaluation: i64, player: &Color) -> (r: i64)
        ensures
            *player == Color::White ==> r == evaluation,
            *player == Color::Black ==> r as int == -(evaluation as int),
    {
        match *player {
            Color::White => evaluation,
            Color::Black => -evaluation,
        }
    }
}

} // verus!
