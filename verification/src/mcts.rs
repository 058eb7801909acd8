//! The search manager: owns one search tree and drives playouts on it.

use vstd::prelude::*;
use vstd::string::StringExecFns;
use crate::PlayoutResult;
use crate::table::PreviousTable;
use crate::table::TranspositionTable;
use crate::traits::Evaluator;
use crate::traits::GameState;
use crate::traits::MCTS;
use crate::traits::MAX_STEPS;
use crate::traits::params_wf;
use crate::policy::TreePolicy;
use crate::tree::MoveInfoHandle;
use crate::tree::batch_occ;
use crate::tree::batch_rew;
use crate::tree::occ_prefix;
use crate::tree::rew_prefix;
use crate::tree::SearchTree;

verus! {

/// Chaining two playout batches keeps every structural guarantee.
pub proof fn lemma_structure_extends_trans<S: GameState, Spec: MCTS, E: Evaluator<S>, P: TreePolicy>(
    a: SearchTree<S, Spec, E, P>,
    b: SearchTree<S, Spec, E, P>,
    c: SearchTree<S, Spec, E, P>,
)
    requires
        SearchTree::structure_extends(a, b),
        SearchTree::structure_extends(b, c),
    ensures
        SearchTree::structure_extends(a, c),
{
    assert forall|i: int|
        0 <= i < a.nodes@.len() implies {
        &&& (#[trigger] c.nodes@[i]).hash == a.nodes@[i].hash
        &&& c.nodes@[i].state_eval == a.nodes@[i].state_eval
        &&& c.nodes@[i].first_edge == a.nodes@[i].first_edge
        &&& c.nodes@[i].num_edges == a.nodes@[i].num_edges
    } by {
        assert((b.nodes@[i]).hash == a.nodes@[i].hash);
    }
    assert forall|e: int|
        0 <= e < a.edges_len() implies {
        &&& #[trigger] c.edge_movs@[e] == a.edge_movs@[e]
        &&& c.edge_priors@[e] == a.edge_priors@[e]
        &&& (a.edge_children@[e] is Some ==> c.edge_children@[e] == a.edge_children@[e])
    } by {
        assert(b.edge_movs@[e] == a.edge_movs@[e]);
    }
}

/// Owns a `SearchTree` and runs playouts until a caller-chosen stop
/// condition.
pub struct MCTSManager<S: GameState, Spec: MCTS, E: Evaluator<S>, P: TreePolicy> {
    pub search_tree: SearchTree<S, Spec, E, P>,
}

impl<S: GameState, Spec: MCTS, E: Evaluator<S>, P: TreePolicy> MCTSManager<S, Spec, E, P> {
    pub open spec fn wf(self) -> bool {
        self.search_tree.wf()
    }

    pub fn new(
        state: S,
        manager: Spec,
        eval: E,
        tree_policy: P,
        table: TranspositionTable,
        prev_table: PreviousTable,
    ) -> (r: Self)
        requires
            params_wf(&manager),
            tree_policy.policy_wf(),
            forall|h: u64| #[trigger] table.spec_lookup(h) is None,
        ensures
            r.wf(),
            r.search_tree.root_state == state,
            r.search_tree.nodes@.len() == 1,
            r.search_tree.params == manager,
            r.search_tree.policy == tree_policy,
            r.search_tree.nodes@[0].num_edges == state.spec_moves().len(),
            r.search_tree.edge_movs@ == state.spec_moves(),
    {
        MCTSManager {
            search_tree: SearchTree::new(state, manager, tree_policy, eval, table, prev_table),
        }
    }

    /// Runs playouts one after another on the calling thread: exactly `n`
    /// when all complete, else stopping at the first that does not.
    /// Returns how the last playout ended together with (ghost) the
    /// selection path and per-step rewards of every completed playout, in
    /// order: over a completed batch, every pre-existing edge's visit count
    /// grew by exactly the number of paths that traversed it, and its
    /// reward sum by exactly the rewards those playouts handed it.
    pub fn playout_n(&mut self, n: u64) -> (r: (
        PlayoutResult,
        Ghost<Seq<Seq<usize>>>,
        Ghost<Seq<Seq<int>>>,
    ))
        requires
            old(self).wf(),
        ensures
            final(self).wf(),
            SearchTree::structure_extends(old(self).search_tree, final(self).search_tree),
            old(self).search_tree.nodes@.len() <= old(
                self,
            ).search_tree.params.spec_node_limit() ==> final(self).search_tree.nodes@.len() <= old(
                self,
            ).search_tree.params.spec_node_limit(),
            r.1@.len() == r.2@.len(),
            r.0 == PlayoutResult::Completed <==> r.1@.len() == n,
            r.0 != PlayoutResult::Completed ==> r.1@.len() < n,
            (r.0 == PlayoutResult::Completed || r.0 == PlayoutResult::TreeFull || r.0
                == PlayoutResult::BudgetExhausted) ==> forall|e: int|
                0 <= e < old(self).search_tree.edges_len()
                    ==> #[trigger] final(self).search_tree.edge_visits@[e] as int == old(
                    self,
                ).search_tree.edge_visits@[e] + batch_occ(r.1@, e),
            (r.0 == PlayoutResult::Completed || r.0 == PlayoutResult::TreeFull || r.0
                == PlayoutResult::BudgetExhausted) ==> forall|e: int|
                0 <= e < old(self).search_tree.edges_len()
                    ==> #[trigger] final(self).search_tree.edge_sums@[e] as int == old(
                    self,
                ).search_tree.edge_sums@[e] + batch_rew(r.1@, r.2@, e),
    {
        let ghost entry = self.search_tree;
        let mut paths: Ghost<Seq<Seq<usize>>> = Ghost(Seq::empty());
        let mut rews: Ghost<Seq<Seq<int>>> = Ghost(Seq::empty());
        let mut i: u64 = 0;
        while i < n
            invariant
                entry == old(self).search_tree,
                self.wf(),
                SearchTree::structure_extends(entry, self.search_tree),
                entry.nodes@.len() <= entry.params.spec_node_limit()
                    ==> self.search_tree.nodes@.len() <= entry.params.spec_node_limit(),
                self.search_tree.params == entry.params,
                entry.edges_len() <= self.search_tree.edges_len(),
                i <= n,
                paths@.len() == i,
                rews@.len() == i,
                forall|e: int|
                    0 <= e < entry.edges_len()
                        ==> #[trigger] self.search_tree.edge_visits@[e] as int
                        == entry.edge_visits@[e] + batch_occ(paths@, e),
                forall|e: int|
                    0 <= e < entry.edges_len() ==> #[trigger] self.search_tree.edge_sums@[e] as int
                        == entry.edge_sums@[e] + batch_rew(paths@, rews@, e),
            decreases n - i,
        {
            let ghost pre = self.search_tree;
            let (r0, path, rs) = self.search_tree.playout();
            proof {
                lemma_structure_extends_trans(entry, pre, self.search_tree);
            }
            if !matches!(r0, PlayoutResult::Completed) {
                return (r0, paths, rews);
            }
            proof {
                assert(paths@.push(path@).drop_last() =~= paths@);
                assert(rews@.push(rs@).drop_last() =~= rews@);
                assert forall|e: int|
                    0 <= e < entry.edges_len()
                        implies #[trigger] self.search_tree.edge_visits@[e] as int
                        == entry.edge_visits@[e] + batch_occ(paths@.push(path@), e) by {
                    assert(pre.edge_visits@[e] as int == entry.edge_visits@[e] + batch_occ(
                        paths@,
                        e,
                    ));
                    assert(self.search_tree.edge_visits@[e] as int == pre.edge_visits@[e]
                        + occ_prefix(path@, e, path@.len() as int));
                }
                assert forall|e: int|
                    0 <= e < entry.edges_len()
                        implies #[trigger] self.search_tree.edge_sums@[e] as int
                        == entry.edge_sums@[e] + batch_rew(
                        paths@.push(path@),
                        rews@.push(rs@),
                        e,
                    ) by {
                    assert(pre.edge_sums@[e] as int == entry.edge_sums@[e] + batch_rew(
                        paths@,
                        rews@,
                        e,
                    ));
                    assert(self.search_tree.edge_sums@[e] as int == pre.edge_sums@[e]
                        + rew_prefix(path@, rs@, e, path@.len() as int));
                }
            }
            paths = Ghost(paths@.push(path@));
            rews = Ghost(rews@.push(rs@));
            i = i + 1;
        }
        (PlayoutResult::Completed, paths, rews)
    }

    /// Checks `pred` before each playout and runs one playout per false
    /// answer, until `pred` returns true, one playout does not complete, or
    /// the statistics budget runs out.  Returns how the last playout ended
    /// and (ghost) how many playouts ran: none, and the tree is exactly as
    /// it was.
    pub fn playout_until<F: Fn() -> bool>(&mut self, pred: F) -> (r: (PlayoutResult, Ghost<int>))
        requires
            old(self).wf(),
            pred.requires(()),
        ensures
            final(self).wf(),
            SearchTree::structure_extends(old(self).search_tree, final(self).search_tree),
            r.1@ >= 0,
            r.1@ == 0 ==> *final(self) == *old(self),
    {
        let ghost entry = self.search_tree;
        let mut res = PlayoutResult::Completed;
        let mut count: Ghost<int> = Ghost(0);
        loop
            invariant
                entry == old(self).search_tree,
                self.wf(),
                pred.requires(()),
                SearchTree::structure_extends(entry, self.search_tree),
                self.search_tree.steps <= MAX_STEPS,
                count@ >= 0,
                count@ == 0 ==> self.search_tree == entry,
            decreases MAX_STEPS - self.search_tree.steps,
        {
            if pred() {
                break ;
            }
            let ghost pre = self.search_tree;
            let (r0, _path, _rewards) = self.search_tree.playout();
            proof {
                lemma_structure_extends_trans(entry, pre, self.search_tree);
            }
            count = Ghost(count@ + 1);
            res = r0;
            if !matches!(r0, PlayoutResult::Completed) {
                break ;
            }
        }
        (res, count)
    }

    /// The principal variation as edge statistics.
    pub fn principal_variation_info(&self, num_moves: usize) -> (r: Vec<MoveInfoHandle<S::Move>>)
        requires
            self.wf(),
        ensures
            r@.len() == self.search_tree.spec_pv(0, num_moves as int).len(),
            forall|i: int|
                0 <= i < r@.len() ==> {
                    let e = self.search_tree.spec_pv(0, num_moves as int)[i];
                    &&& (#[trigger] r@[i]).mov == self.search_tree.edge_movs@[e]
                    &&& r@[i].move_eval == self.search_tree.edge_priors@[e]
                    &&& r@[i].visits == self.search_tree.edge_visits@[e]
                    &&& r@[i].sum_rewards == self.search_tree.edge_sums@[e]
                },
    {
        self.search_tree.principal_variation(num_moves)
    }

    /// The principal variation as moves.
    pub fn principal_variation(&self, num_moves: usize) -> (r: Vec<S::Move>)
        requires
            self.wf(),
        ensures
            r@.len() == self.search_tree.spec_pv(0, num_moves as int).len(),
            forall|i: int|
                0 <= i < r@.len() ==> #[trigger] r@[i] == self.search_tree.edge_movs@[self.search_tree.spec_pv(
                    0,
                    num_moves as int,
                )[i]],
    {
        let info = self.search_tree.principal_variation(num_moves);
        let mut r: Vec<S::Move> = Vec::new();
        let mut i: usize = 0;
        while i < info.len()
            invariant
                i <= info@.len(),
                r@.len() == i,
                info@.len() == self.search_tree.spec_pv(0, num_moves as int).len(),
                forall|k: int|
                    0 <= k < info@.len() ==> (#[trigger] info@[k]).mov
                        == self.search_tree.edge_movs@[self.search_tree.spec_pv(
                        0,
                        num_moves as int,
                    )[k]],
                forall|k: int|
                    0 <= k < i ==> #[trigger] r@[k] == self.search_tree.edge_movs@[self.search_tree.spec_pv(
                        0,
                        num_moves as int,
                    )[k]],
            decreases info@.len() - i,
        {
            r.push(S::clone_move(&info[i].mov));
            i = i + 1;
        }
        r
    }

    /// The root state followed by the states the principal variation's
    /// moves lead through, in order.
    pub fn principal_variation_states(&self, num_moves: usize) -> (r: Vec<S>)
        requires
            self.wf(),
        ensures
            r@.len() == self.search_tree.spec_pv(0, num_moves as int).len() + 1,
            r@[0] == self.search_tree.root_state,
            forall|i: int|
                0 <= i < r@.len() - 1 ==> {
                    let m = self.search_tree.edge_movs@[self.search_tree.spec_pv(
                        0,
                        num_moves as int,
                    )[i]];
                    #[trigger] r@[i + 1] == if r@[i].spec_moves().contains(m) {
                        r@[i].next_state(m)
                    } else {
                        r@[i]
                    }
                },
    {
        let moves = self.principal_variation(num_moves);
        let mut r: Vec<S> = Vec::new();
        r.push(self.search_tree.root_state().clone_state());
        let mut i: usize = 0;
        while i < moves.len()
            invariant
                i <= moves@.len(),
                r@.len() == i + 1,
                r@[0] == self.search_tree.root_state,
                moves@.len() == self.search_tree.spec_pv(0, num_moves as int).len(),
                forall|k: int|
                    0 <= k < moves@.len() ==> #[trigger] moves@[k]
                        == self.search_tree.edge_movs@[self.search_tree.spec_pv(
                        0,
                        num_moves as int,
                    )[k]],
                forall|k: int|
                    0 <= k < i ==> {
                        let m = moves@[k];
                        #[trigger] r@[k + 1] == if r@[k].spec_moves().contains(m) {
                            r@[k].next_state(m)
                        } else {
                            r@[k]
                        }
                    },
            decreases moves@.len() - i,
        {
            let mut st = r[r.len() - 1].clone_state();
            st.make_move(&moves[i]);
            r.push(st);
            i = i + 1;
        }
        r
    }

    /// The most-visited root move, or `None` when the root has no legal
    /// moves.
    pub fn best_move(&self) -> (r: Option<S::Move>)
        requires
            self.wf(),
        ensures
            self.search_tree.nodes@[0].num_edges == 0 ==> r is None,
            self.search_tree.nodes@[0].num_edges > 0 ==> r == Some(
                self.search_tree.edge_movs@[self.search_tree.spec_best_edge(0)],
            ),
    {
        if self.search_tree.nodes[0].num_edges == 0 {
            None
        } else {
            let e = self.search_tree.select_child_after_search(0);
            Some(S::clone_move(&self.search_tree.edge_movs[e]))
        }
    }

    pub fn tree(&self) -> (r: &SearchTree<S, Spec, E, P>)
        ensures
            r == &self.search_tree,
    {
        &self.search_tree
    }

    /// Consumes the manager, leaving a snapshot of each node's hash and
    /// stored evaluation for a later warm start.
    pub fn table(self) -> (r: PreviousTable)
        requires
            self.wf(),
        ensures
            r.entries@.len() == self.search_tree.nodes@.len(),
            forall|i: int|
                0 <= i < r.entries@.len() ==> #[trigger] r.entries@[i] == (
                self.search_tree.nodes@[i].hash, self.search_tree.nodes@[i].state_eval),
    {
        let mut entries: Vec<(u64, i64)> = Vec::new();
        let mut i: usize = 0;
        let n = self.search_tree.num_nodes();
        while i < n
            invariant
                i <= n,
                n == self.search_tree.nodes@.len(),
                entries@.len() == i,
                forall|k: int|
                    0 <= k < i ==> #[trigger] entries@[k] == (self.search_tree.nodes@[k].hash,
                    self.search_tree.nodes@[k].state_eval),
            decreases n - i,
        {
            let nd = self.search_tree.nodes[i];
            entries.push((nd.hash, nd.state_eval));
            i = i + 1;
        }
        PreviousTable { entries }
    }
}

/// The decimal digit character of `d` (which is below ten).
pub open spec fn digit_char(d: int) -> char {
    if d == 0 {
        '0'
    } else if d == 1 {
        '1'
    } else if d == 2 {
        '2'
    } else if d == 3 {
        '3'
    } else if d == 4 {
        '4'
    } else if d == 5 {
        '5'
    } else if d == 6 {
        '6'
    } else if d == 7 {
        '7'
    } else if d == 8 {
        '8'
    } else {
        '9'
    }
}

/// The decimal digits of `n`, without leading zeroes (a single zero for
/// zero itself).
pub open spec fn spec_digits(n: int) -> Seq<char>
    decreases n,
{
    if n < 10 {
        seq![digit_char(n)]
    } else {
        spec_digits(n / 10) + seq![digit_char(n % 10)]
    }
}

/// Exactly three decimal digits, zero-padded.
pub open spec fn spec_digits3(n: int) -> Seq<char> {
    seq![digit_char(n / 100 % 10), digit_char(n / 10 % 10), digit_char(n % 10)]
}

/// The decimal digits of `n`, grouped by thousands with commas.
pub open spec fn spec_thousands(n: int) -> Seq<char>
    decreases n,
{
    if n < 1000 {
        spec_digits(n)
    } else {
        spec_thousands(n / 1000) + seq![','] + spec_digits3(n % 1000)
    }
}

fn digit_str(d: u64) -> (r: &'static str)
    requires
        d < 10,
    ensures
        r@ == seq![digit_char(d as int)],
{
    proof {
        reveal_strlit("0");
        reveal_strlit("1");
        reveal_strlit("2");
        reveal_strlit("3");
        reveal_strlit("4");
        reveal_strlit("5");
        reveal_strlit("6");
        reveal_strlit("7");
        reveal_strlit("8");
        reveal_strlit("9");
    }
    let r = match d {
        0 => "0",
        1 => "1",
        2 => "2",
        3 => "3",
        4 => "4",
        5 => "5",
        6 => "6",
        7 => "7",
        8 => "8",
        _ => "9",
    };
    proof {
        assert(r@ =~= seq![digit_char(d as int)]);
    }
    r
}

fn digits_string(n: u64) -> (r: String)
    ensures
        r@ == spec_digits(n as int),
    decreases n,
{
    if n < 10 {
        let mut s = String::new();
        s.append(digit_str(n));
        proof {
            assert(s@ =~= spec_digits(n as int));
        }
        s
    } else {
        let mut s = digits_string(n / 10);
        s.append(digit_str(n % 10));
        proof {
            assert(s@ =~= spec_digits(n as int));
        }
        s
    }
}

/// Formats a count with thousands separators, e.g. `1,234,567`.
pub fn thousands_separate(x: usize) -> (r: String)
    ensures
        r@ == spec_thousands(x as int),
{
    thousands_u64(x as u64)
}

fn thousands_u64(n: u64) -> (r: String)
    ensures
        r@ == spec_thousands(n as int),
    decreases n,
{
    if n < 1000 {
        digits_string(n)
    } else {
        let mut s = thousands_u64(n / 1000);
        proof {
            reveal_strlit(",");
            assert(","@ =~= seq![',']);
        }
        s.append(",");
        let m = n % 1000;
        s.append(digit_str(m / 100 % 10));
        s.append(digit_str(m / 10 % 10));
        s.append(digit_str(m % 10));
        proof {
            assert(s@ =~= spec_thousands(n as int));
        }
        s
    }
}

} // verus!
