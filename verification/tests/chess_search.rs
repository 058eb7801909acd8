use mcts::chessgame::{ChessMove, ChessState, Promotion};
use mcts::evaluation::{
    syzygy_eval, FixedTablebase, GooseEval, NoTablebase, UniformModel, Wdl,
};
use mcts::mcts::MCTSManager;
use mcts::policy::PuctPolicy;
use mcts::table::{PreviousTable, TranspositionTable};
use mcts::traits::{Evaluator, GameState, SearchParams};
use mcts::{CycleBehaviour, SCALE};

fn chess_params() -> SearchParams {
    SearchParams {
        virtual_loss: 0,
        visits_before_expansion: 1,
        node_limit: 0x4000_0000,
        max_playout_length: 10_000,
        cycle_behaviour: CycleBehaviour::UseThisEvalWhenCycleDetected(0),
    }
}

fn mv(from: u8, to: u8, promotion: Promotion) -> ChessMove {
    ChessMove {
        from,
        to,
        promotion,
    }
}

#[test]
fn fen_parsing() {
    assert!(ChessState::from_fen("6k1/8/6K1/8/8/8/8/R7 w - - 0 1").is_some());
    assert!(ChessState::from_fen("this is not a position").is_none());
}

#[test]
fn uci_notation() {
    assert_eq!(mv(0, 56, Promotion::NoPromotion).uci(), "a1a8");
    assert_eq!(mv(54, 61, Promotion::ToRook).uci(), "g7f8r");
    assert_eq!(mv(12, 28, Promotion::NoPromotion).uci(), "e2e4");
    assert_eq!(mv(52, 60, Promotion::ToQueen).uci(), "e7e8q");
}

#[test]
fn finds_mate_in_one() {
    let state = ChessState::from_fen("6k1/8/6K1/8/8/8/8/R7 w - - 0 1").unwrap();
    let mut manager = MCTSManager::new(
        state,
        chess_params(),
        GooseEval::new(UniformModel, NoTablebase),
        PuctPolicy::new(3_000_000),
        TranspositionTable::new(1 << 14),
        PreviousTable::empty(),
    );
    manager.playout_n(3_000);
    let best = manager.best_move().unwrap();
    assert!(
        best.uci().starts_with("a1a8"),
        "expected a1a8, got {}",
        best.uci()
    );
}

#[test]
fn tablebase_win_short_circuits_the_model() {
    // A three-piece position: the probe answers, so the value must be
    // exactly the win scale whatever the model would have said.
    let state = ChessState::from_fen("8/8/8/3k4/1Q6/K7/8/8 w - - 8 59").unwrap();
    let eval = GooseEval::new(
        UniformModel,
        FixedTablebase {
            wdl: Some(Wdl::Win),
            best: None,
        },
    );
    let moves = GameState::available_moves(&state);
    let (priors, value) = eval.evaluate_new_state(&state, &moves);
    assert_eq!(value, SCALE);
    assert_eq!(priors.len(), moves.len());
}

#[test]
fn tablebase_draw_and_loss_values() {
    let state = ChessState::from_fen("8/8/8/3k4/1Q6/K7/8/8 w - - 8 59").unwrap();
    let moves = GameState::available_moves(&state);
    for (wdl, expected) in [
        (Wdl::Loss, -SCALE),
        (Wdl::Draw, 0),
        (Wdl::CursedWin, 0),
        (Wdl::BlessedLoss, 0),
    ] {
        let eval = GooseEval::new(
            UniformModel,
            FixedTablebase {
                wdl: Some(wdl),
                best: None,
            },
        );
        let (_, value) = eval.evaluate_new_state(&state, &moves);
        assert_eq!(value, expected);
    }
}

#[test]
fn tablebase_best_move_gets_the_softmax_mass() {
    let moves = vec![
        mv(0, 8, Promotion::NoPromotion),
        mv(0, 16, Promotion::NoPromotion),
        mv(0, 24, Promotion::NoPromotion),
    ];
    let best = moves[1];
    let (priors, value) = syzygy_eval(&moves, Wdl::Win, &Some(best));
    assert_eq!(value, SCALE);
    assert_eq!(priors.len(), 3);
    // softmax of a one-hot vector over three moves, fixed point:
    // e / (2 + e) and 1 / (2 + e) with e as 2.718.
    assert_eq!(priors[1], 1_000_000 * 2718 / 4718);
    assert_eq!(priors[0], 1_000_000 * 1000 / 4718);
    assert_eq!(priors[2], priors[0]);
    assert!(priors[1] > priors[0]);
}

#[test]
fn checkmate_is_a_certain_value() {
    // Black is checkmated: the side to move is Black, so the value is the
    // full win scale for White.
    let state = ChessState::from_fen("R5k1/8/6K1/8/8/8/8/8 b - - 0 1").unwrap();
    let eval = GooseEval::new(UniformModel, NoTablebase);
    let moves = GameState::available_moves(&state);
    assert_eq!(moves.len(), 0);
    let (priors, value) = eval.evaluate_new_state(&state, &moves);
    assert_eq!(value, SCALE);
    assert_eq!(priors.len(), 0);
}

#[test]
fn stalemate_is_a_draw() {
    let state = ChessState::from_fen("7k/5Q2/6K1/8/8/8/8/8 b - - 0 1").unwrap();
    let eval = GooseEval::new(UniformModel, NoTablebase);
    let moves = GameState::available_moves(&state);
    assert_eq!(moves.len(), 0);
    let (_, value) = eval.evaluate_new_state(&state, &moves);
    assert_eq!(value, 0);
}

#[test]
fn applying_a_move_changes_the_position() {
    let mut state =
        ChessState::from_fen("rnbqkbnr/pppppppp/8/8/8/8/PPPPPPPP/RNBQKBNR w KQkq - 0 1").unwrap();
    let moves = state.available_moves();
    assert_eq!(moves.len(), 20);
    let before = state.hash();
    let e2e4 = moves.iter().find(|m| m.uci() == "e2e4").copied().unwrap();
    state.make_move(&e2e4);
    assert_ne!(state.hash(), before);
    // An illegal move leaves the position unchanged.
    let after = state.hash();
    state.make_move(&e2e4);
    assert_eq!(state.hash(), after);
    // Black now has twenty replies of their own.
    assert_eq!(state.available_moves().len(), 20);
}

#[test]
fn mate_in_six() {
    // Promoting to a queen stalemates; only the rook underpromotion wins.
    let state = ChessState::from_fen("5q2/6Pk/8/6K1/8/8/8/8 w - - 0 1").unwrap();
    let mut manager = MCTSManager::new(
        state,
        chess_params(),
        GooseEval::new(UniformModel, NoTablebase),
        PuctPolicy::new(300_000),
        TranspositionTable::new(1 << 17),
        PreviousTable::empty(),
    );
    manager.playout_n(800_000);
    let best = manager.best_move().unwrap();
    assert!(
        best.uci().starts_with("g7f8r"),
        "expected g7f8r, got {}",
        best.uci()
    );
}
