use mcts::counting::{CollidingEvaluator, CollidingGame, CountingEvaluator, CountingGame, CountingMove};
use mcts::mcts::{thousands_separate, MCTSManager};
use mcts::policy::PuctPolicy;
use mcts::table::{PreviousTable, TranspositionTable};
use mcts::traits::SearchParams;
use mcts::{CycleBehaviour, PlayoutResult};

fn counting_params() -> SearchParams {
    SearchParams {
        virtual_loss: 0,
        visits_before_expansion: 1,
        node_limit: 0x4000_0000,
        max_playout_length: 1_000_000,
        cycle_behaviour: CycleBehaviour::UseThisEvalWhenCycleDetected(0),
    }
}

fn counting_manager(
    start: i64,
    params: SearchParams,
    exploration: u64,
    table_size: usize,
) -> MCTSManager<CountingGame, SearchParams, CountingEvaluator, PuctPolicy> {
    MCTSManager::new(
        CountingGame(start),
        params,
        CountingEvaluator,
        PuctPolicy::new(exploration),
        TranspositionTable::new(table_size),
        PreviousTable::empty(),
    )
}

#[test]
fn counting_game_finds_increment() {
    let mut manager = counting_manager(0, counting_params(), 20_000, 1 << 14);
    let (res, _, _) = manager.playout_n(50_000);
    assert_eq!(res, PlayoutResult::Completed);
    assert_eq!(manager.best_move().unwrap(), CountingMove::Add);
    assert_eq!(manager.principal_variation(50), vec![CountingMove::Add; 50]);
    assert_eq!(
        manager.principal_variation_states(5),
        vec![
            CountingGame(0),
            CountingGame(1),
            CountingGame(2),
            CountingGame(3),
            CountingGame(4),
            CountingGame(5),
        ]
    );
}

#[test]
fn principal_variation_states_replay_the_moves() {
    let mut manager = counting_manager(90, counting_params(), 1_000_000, 1 << 10);
    manager.playout_n(2_000);
    let moves = manager.principal_variation(8);
    let states = manager.principal_variation_states(8);
    assert_eq!(states.len(), moves.len() + 1);
    assert_eq!(states[0], CountingGame(90));
    for (i, m) in moves.iter().enumerate() {
        let expected = match m {
            CountingMove::Add => CountingGame(states[i].0 + 1),
            CountingMove::Sub => CountingGame(states[i].0 - 1),
        };
        assert_eq!(states[i + 1], expected);
    }
}

#[test]
fn single_threaded_search_is_deterministic() {
    let mut a = counting_manager(0, counting_params(), 500_000, 1 << 10);
    let mut b = counting_manager(0, counting_params(), 500_000, 1 << 10);
    a.playout_n(3_000);
    b.playout_n(3_000);
    assert_eq!(a.best_move(), b.best_move());
    assert_eq!(a.tree().num_nodes(), b.tree().num_nodes());
    let ia = a.principal_variation_info(10);
    let ib = b.principal_variation_info(10);
    assert_eq!(ia.len(), ib.len());
    for (x, y) in ia.iter().zip(ib.iter()) {
        assert_eq!(x.visits(), y.visits());
        assert_eq!(x.sum_rewards(), y.sum_rewards());
    }
}

#[test]
fn node_limit_is_respected_under_collisions() {
    let params = SearchParams {
        virtual_loss: 0,
        visits_before_expansion: 1,
        node_limit: 50,
        max_playout_length: 200,
        cycle_behaviour: CycleBehaviour::Ignore,
    };
    let mut manager = MCTSManager::new(
        CollidingGame(0),
        params,
        CollidingEvaluator,
        PuctPolicy::new(500_000),
        TranspositionTable::new(64),
        PreviousTable::empty(),
    );
    manager.playout_n(1_000);
    assert!(manager.tree().num_nodes() <= 50);
}

#[test]
fn cycle_under_panic_policy_stops_the_search() {
    let params = SearchParams {
        virtual_loss: 0,
        visits_before_expansion: 1,
        node_limit: 0x4000_0000,
        max_playout_length: 1_000,
        cycle_behaviour: CycleBehaviour::PanicWhenCycleDetected,
    };
    // Honest hashes plus a transposition table: +1 followed by -1 reaches
    // the root position again, a genuine two-step cycle.
    let mut manager = counting_manager(0, params, 500_000, 1 << 10);
    let (res, _, _) = manager.playout_n(10_000);
    assert_eq!(res, PlayoutResult::CycleDetected);
}

#[test]
fn virtual_loss_settles_to_zero() {
    let mut params = counting_params();
    params.virtual_loss = 300_000;
    let mut with_loss = counting_manager(0, params, 1_000_000, 1 << 14);
    with_loss.playout_n(2_000);
    // Rewards of the counting evaluator are multiples of 10_000; any
    // unreturned virtual loss of 300_000 would not be.
    for info in with_loss.principal_variation_info(5) {
        assert_eq!(info.sum_rewards() % 10_000, 0);
    }
}

#[test]
fn snapshot_covers_every_node() {
    let mut manager = counting_manager(0, counting_params(), 1_000_000, 1 << 10);
    manager.playout_n(500);
    let nodes = manager.tree().num_nodes();
    let snapshot = manager.table();
    assert_eq!(snapshot.entries.len(), nodes);
}

#[test]
fn thousands_separator_groups_digits() {
    assert_eq!(thousands_separate(0), "0");
    assert_eq!(thousands_separate(999), "999");
    assert_eq!(thousands_separate(1_000), "1,000");
    assert_eq!(thousands_separate(1_234_567), "1,234,567");
    assert_eq!(thousands_separate(1_000_000), "1,000,000");
}
