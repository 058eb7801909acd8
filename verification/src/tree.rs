//! The search tree and the playout loop.
//!
//! Nodes live in an append-only arena (`nodes`); each node owns a contiguous
//! range of edges inside parallel, append-only edge arrays.  An edge's move
//! and prior never change after expansion; its child pointer is set at most
//! once; only its visit and reward counters move.

use vstd::prelude::*;
use crate::SCALE;
use crate::PRIOR_SCALE;
use crate::CycleBehaviour;
use crate::PlayoutResult;
use crate::policy::EdgeStats;
use crate::policy::TreePolicy;
use crate::policy::stats_bounded;
use crate::table::PreviousTable;
use crate::table::TranspositionTable;
use crate::traits::Evaluator;
use crate::traits::GameState;
use crate::traits::MCTS;
use crate::traits::MAX_STEPS;
use crate::traits::MAX_LENGTH_CAP;
use crate::traits::params_wf;

verus! {

/// A node: a position's hash, its stored evaluation, and the edge range that
/// holds one edge per legal move.
#[derive(Clone, Copy, Debug)]
pub struct Node {
    pub hash: u64,
    pub state_eval: i64,
    pub first_edge: usize,
    pub num_edges: usize,
    pub visits: u64,
}

/// How often edge `e` occurs among the first `upto` entries of a selection
/// path.
pub open spec fn occ_prefix(p: Seq<usize>, e: int, upto: int) -> int
    decreases upto,
{
    if upto <= 0 {
        0
    } else {
        occ_prefix(p, e, upto - 1) + if p[upto - 1] as int == e {
            1int
        } else {
            0int
        }
    }
}

/// The rewards backed up through edge `e` by the first `upto` steps of a
/// path, given the reward each step carried.
pub open spec fn rew_prefix(p: Seq<usize>, rs: Seq<int>, e: int, upto: int) -> int
    decreases upto,
{
    if upto <= 0 {
        0
    } else {
        rew_prefix(p, rs, e, upto - 1) + if p[upto - 1] as int == e {
            rs[upto - 1]
        } else {
            0int
        }
    }
}

pub proof fn lemma_occ_prefix_bounds(p: Seq<usize>, e: int, upto: int)
    requires
        0 <= upto,
    ensures
        0 <= occ_prefix(p, e, upto) <= upto,
    decreases upto,
{
    if upto > 0 {
        lemma_occ_prefix_bounds(p, e, upto - 1);
    }
}

pub proof fn lemma_occ_prefix_push(p: Seq<usize>, x: usize, e: int, upto: int)
    requires
        0 <= upto <= p.len(),
    ensures
        occ_prefix(p.push(x), e, upto) == occ_prefix(p, e, upto),
    decreases upto,
{
    if upto > 0 {
        lemma_occ_prefix_push(p, x, e, upto - 1);
    }
}

pub proof fn lemma_rew_prefix_rs_push(p: Seq<usize>, rs: Seq<int>, v: int, e: int, upto: int)
    requires
        0 <= upto <= rs.len(),
    ensures
        rew_prefix(p, rs.push(v), e, upto) == rew_prefix(p, rs, e, upto),
    decreases upto,
{
    if upto > 0 {
        lemma_rew_prefix_rs_push(p, rs, v, e, upto - 1);
    }
}

pub proof fn lemma_rew_prefix_bound(p: Seq<usize>, rs: Seq<int>, e: int, upto: int)
    requires
        0 <= upto,
        forall|j: int| 0 <= j < upto ==> -(SCALE as int) <= #[trigger] rs[j] <= SCALE as int,
    ensures
        -1_000_000 * occ_prefix(p, e, upto) <= rew_prefix(p, rs, e, upto) <= (SCALE as int)
            * occ_prefix(p, e, upto),
    decreases upto,
{
    lemma_occ_prefix_bounds(p, e, upto);
    if upto > 0 {
        lemma_rew_prefix_bound(p, rs, e, upto - 1);
        lemma_occ_prefix_bounds(p, e, upto - 1);
    }
}

/// Total traversals of edge `e` over a batch of selection paths.
pub open spec fn batch_occ(paths: Seq<Seq<usize>>, e: int) -> int
    decreases paths.len(),
{
    if paths.len() == 0 {
        0
    } else {
        batch_occ(paths.drop_last(), e) + occ_prefix(
            paths.last(),
            e,
            paths.last().len() as int,
        )
    }
}

/// Total rewards handed to edge `e` over a batch of playouts.
pub open spec fn batch_rew(paths: Seq<Seq<usize>>, rews: Seq<Seq<int>>, e: int) -> int
    decreases paths.len(),
{
    if paths.len() == 0 {
        0
    } else {
        batch_rew(paths.drop_last(), rews.drop_last(), e) + rew_prefix(
            paths.last(),
            rews.last(),
            e,
            paths.last().len() as int,
        )
    }
}

/// The visit counts of `len` edges starting at `start`, summed.
pub open spec fn visit_sum(vs: Seq<u64>, start: int, len: int) -> int
    decreases len,
{
    if len <= 0 {
        0
    } else {
        vs[start] + visit_sum(vs, start + 1, len - 1)
    }
}

pub proof fn lemma_visit_sum_agree(a: Seq<u64>, b: Seq<u64>, start: int, len: int)
    requires
        forall|k: int| start <= k < start + len ==> a[k] == #[trigger] b[k],
    ensures
        visit_sum(a, start, len) == visit_sum(b, start, len),
    decreases len,
{
    if len > 0 {
        assert(a[start] == b[start]);
        lemma_visit_sum_agree(a, b, start + 1, len - 1);
    }
}

pub proof fn lemma_visit_sum_update(vs: Seq<u64>, start: int, len: int, j: int, val: u64)
    requires
        0 <= start <= j < start + len,
        start + len <= vs.len(),
    ensures
        visit_sum(vs.update(j, val), start, len) == visit_sum(vs, start, len) - vs[j] + val,
    decreases len,
{
    if j == start {
        lemma_visit_sum_agree(vs.update(j, val), vs, start + 1, len - 1);
    } else {
        lemma_visit_sum_update(vs, start + 1, len - 1, j, val);
    }
}

/// The search tree: root position, node arena, parallel edge arrays, the
/// transposition table, and the capabilities the search consumes.
pub struct SearchTree<S: GameState, Spec: MCTS, E: Evaluator<S>, P: TreePolicy> {
    pub params: Spec,
    pub policy: P,
    pub eval: E,
    pub root_state: S,
    pub nodes: Vec<Node>,
    pub edge_movs: Vec<S::Move>,
    pub edge_priors: Vec<u64>,
    pub edge_visits: Vec<u64>,
    pub edge_sums: Vec<i64>,
    pub edge_children: Vec<Option<usize>>,
    pub table: TranspositionTable,
    pub steps: u64,
    /// The position each node was expanded from, recorded for specification
    /// purposes only.
    pub node_states: Ghost<Seq<S>>,
}

impl<S: GameState, Spec: MCTS, E: Evaluator<S>, P: TreePolicy> SearchTree<S, Spec, E, P> {
    pub open spec fn edges_len(self) -> int {
        self.edge_movs@.len() as int
    }

    /// The parallel edge arrays agree on their length.
    pub open spec fn stats_wf(self) -> bool {
        &&& self.edge_priors@.len() as int == self.edges_len()
        &&& self.edge_visits@.len() as int == self.edges_len()
        &&& self.edge_sums@.len() as int == self.edges_len()
        &&& self.edge_children@.len() as int == self.edges_len()
    }

    /// Nodes own disjoint, in-bounds edge ranges, in arena order, and every
    /// child pointer names an allocated node.
    pub open spec fn ranges_wf(self) -> bool {
        &&& self.nodes@.len() >= 1
        &&& forall|i: int|
            0 <= i < self.nodes@.len() ==> (#[trigger] self.nodes@[i]).first_edge
                + self.nodes@[i].num_edges <= self.edges_len()
        &&& forall|i: int, j: int|
            0 <= i < j < self.nodes@.len() ==> (#[trigger] self.nodes@[i]).first_edge
                + self.nodes@[i].num_edges <= (#[trigger] self.nodes@[j]).first_edge
        &&& forall|e: int|
            0 <= e < self.edges_len() ==> match #[trigger] self.edge_children@[e] {
                Some(c) => c < self.nodes@.len(),
                None => true,
            }
    }

    /// Every counter is far from its representable range.
    pub open spec fn counters_wf(self) -> bool {
        &&& self.steps <= MAX_STEPS
        &&& forall|e: int|
            0 <= e < self.edges_len() ==> #[trigger] self.edge_visits@[e] <= self.steps
        &&& forall|e: int|
            0 <= e < self.edges_len() ==> #[trigger] self.edge_priors@[e] <= PRIOR_SCALE
        &&& forall|e: int|
            0 <= e < self.edges_len() ==> -4_000_000 * (self.edge_visits@[e] + 1)
                <= #[trigger] self.edge_sums@[e] <= 4_000_000 * (self.edge_visits@[e] + 1)
        &&& forall|i: int|
            0 <= i < self.nodes@.len() ==> 1 <= (#[trigger] self.nodes@[i]).visits <= self.steps
                + 1
        &&& forall|i: int|
            0 <= i < self.nodes@.len() ==> -(SCALE as int) <= (
            #[trigger] self.nodes@[i]).state_eval <= SCALE as int
    }

    /// An expanded node's visit count exceeds the sum of its children's by
    /// exactly one: the visit that evaluated the node itself.
    pub open spec fn balance_wf(self) -> bool {
        forall|i: int|
            0 <= i < self.nodes@.len() && (#[trigger] self.nodes@[i]).num_edges > 0
                ==> self.nodes@[i].visits as int == 1 + visit_sum(
                self.edge_visits@,
                self.nodes@[i].first_edge as int,
                self.nodes@[i].num_edges as int,
            )
    }

    /// Every node carries exactly one edge per legal move of the position
    /// it was expanded from, in the move generator's order, and its hash is
    /// that position's transposition key.
    pub open spec fn states_wf(self) -> bool {
        &&& self.node_states@.len() == self.nodes@.len()
        &&& forall|i: int|
            0 <= i < self.nodes@.len() ==> {
                &&& (#[trigger] self.nodes@[i]).num_edges
                    == self.node_states@[i].spec_moves().len()
                &&& self.nodes@[i].hash == self.node_states@[i].spec_hash()
                &&& forall|k: int|
                    0 <= k < self.nodes@[i].num_edges
                        ==> #[trigger] self.edge_movs@[self.nodes@[i].first_edge + k]
                        == self.node_states@[i].spec_moves()[k]
            }
    }

    /// The transposition table maps only to allocated nodes.
    pub open spec fn table_wf(self) -> bool {
        forall|h: u64|
            (#[trigger] self.table.spec_lookup(h)) is Some ==> self.table.spec_lookup(
                h,
            )->Some_0 < self.nodes@.len()
    }

    pub open spec fn wf(self) -> bool {
        &&& params_wf(&self.params)
        &&& self.policy.policy_wf()
        &&& self.stats_wf()
        &&& self.ranges_wf()
        &&& self.counters_wf()
        &&& self.balance_wf()
        &&& self.states_wf()
        &&& self.table_wf()
    }

    /// What a playout may never touch: every pre-existing node keeps its
    /// hash, evaluation and edge range; every pre-existing edge keeps its
    /// move and prior; a child pointer, once set, never changes.
    pub open spec fn structure_extends(pre: Self, post: Self) -> bool {
        &&& post.params == pre.params
        &&& post.policy == pre.policy
        &&& post.root_state == pre.root_state
        &&& pre.nodes@.len() <= post.nodes@.len()
        &&& pre.edges_len() <= post.edges_len()
        &&& forall|i: int|
            0 <= i < pre.nodes@.len() ==> {
                &&& (#[trigger] post.nodes@[i]).hash == pre.nodes@[i].hash
                &&& post.nodes@[i].state_eval == pre.nodes@[i].state_eval
                &&& post.nodes@[i].first_edge == pre.nodes@[i].first_edge
                &&& post.nodes@[i].num_edges == pre.nodes@[i].num_edges
            }
        &&& forall|e: int|
            0 <= e < pre.edges_len() ==> {
                &&& #[trigger] post.edge_movs@[e] == pre.edge_movs@[e]
                &&& post.edge_priors@[e] == pre.edge_priors@[e]
                &&& (pre.edge_children@[e] is Some ==> post.edge_children@[e]
                    == pre.edge_children@[e])
            }
    }

    /// Every pre-existing edge's visit count grew by exactly the number of
    /// times the path `p` traversed it.
    pub open spec fn visits_delta_ok(pre: Self, post: Self, p: Seq<usize>) -> bool {
        forall|e: int|
            0 <= e < pre.edges_len() ==> #[trigger] post.edge_visits@[e] as int
                == pre.edge_visits@[e] + occ_prefix(p, e, p.len() as int)
    }

    /// Every pre-existing edge's reward sum is exactly what it was: the
    /// virtual losses of an aborted playout have all been returned.
    pub open spec fn sums_restored(pre: Self, post: Self) -> bool {
        forall|e: int|
            0 <= e < pre.edges_len() ==> #[trigger] post.edge_sums@[e] == pre.edge_sums@[e]
    }

    /// Every pre-existing edge's reward sum grew by exactly the rewards the
    /// path handed it: the virtual loss subtracted during selection has been
    /// added back in full.
    pub open spec fn sums_rewarded(pre: Self, post: Self, p: Seq<usize>, rs: Seq<int>) -> bool {
        forall|e: int|
            0 <= e < pre.edges_len() ==> #[trigger] post.edge_sums@[e] as int
                == pre.edge_sums@[e] + rew_prefix(p, rs, e, p.len() as int)
    }

    /// Edges created by this playout start with empty statistics.
    pub open spec fn new_edges_fresh(pre: Self, post: Self) -> bool {
        forall|e: int|
            pre.edges_len() <= e < post.edges_len() ==> #[trigger] post.edge_visits@[e] == 0
                && post.edge_sums@[e] == 0
    }

    pub fn num_nodes(&self) -> (r: usize)
        ensures
            r == self.nodes@.len(),
    {
        self.nodes.len()
    }

    pub fn root_state(&self) -> (r: &S)
        ensures
            r == &self.root_state,
    {
        &self.root_state
    }

    /// Builds a tree whose root is already expanded and evaluated.
    ///
    /// The snapshot of an earlier search is advisory and is not consulted.
    pub fn new(
        root_state: S,
        params: Spec,
        tree_policy: P,
        eval: E,
        table: TranspositionTable,
        previous: PreviousTable,
    ) -> (r: Self)
        requires
            params_wf(&params),
            tree_policy.policy_wf(),
            forall|h: u64| #[trigger] table.spec_lookup(h) is None,
        ensures
            r.wf(),
            r.nodes@.len() == 1,
            r.root_state == root_state,
            r.params == params,
            r.policy == tree_policy,
            r.nodes@[0].num_edges == root_state.spec_moves().len(),
            r.edge_movs@ == root_state.spec_moves(),
    {
        let _ = previous;
        let moves = root_state.available_moves();
        let (priors, value) = eval.evaluate_new_state(&root_state, &moves);
        let hash = root_state.hash();
        let mut edge_movs: Vec<S::Move> = Vec::new();
        let mut edge_priors: Vec<u64> = Vec::new();
        let mut edge_visits: Vec<u64> = Vec::new();
        let mut edge_sums: Vec<i64> = Vec::new();
        let mut edge_children: Vec<Option<usize>> = Vec::new();
        let n = moves.len();
        let mut k: usize = 0;
        while k < n
            invariant
                k <= n,
                n == moves@.len(),
                priors@.len() == n,
                forall|i: int| 0 <= i < priors@.len() ==> #[trigger] priors@[i] <= PRIOR_SCALE,
                edge_movs@.len() == k,
                edge_priors@.len() == k,
                edge_visits@.len() == k,
                edge_sums@.len() == k,
                edge_children@.len() == k,
                forall|i: int| 0 <= i < k ==> #[trigger] edge_visits@[i] == 0,
                forall|i: int| 0 <= i < k ==> #[trigger] edge_sums@[i] == 0,
                forall|i: int| 0 <= i < k ==> #[trigger] edge_children@[i] is None,
                forall|i: int| 0 <= i < k ==> #[trigger] edge_priors@[i] <= PRIOR_SCALE,
                forall|i: int| 0 <= i < k ==> #[trigger] edge_movs@[i] == moves@[i],
            decreases n - k,
        {
            edge_movs.push(S::clone_move(&moves[k]));
            edge_priors.push(priors[k]);
            edge_visits.push(0);
            edge_sums.push(0);
            edge_children.push(None);
            k = k + 1;
        }
        let mut nodes: Vec<Node> = Vec::new();
        nodes.push(
            Node { hash, state_eval: value, first_edge: 0, num_edges: n, visits: 1 },
        );
        let mut table = table;
        let _winner = table.insert_or_get(hash, 0);
        let ghost root_for_spec = root_state;
        let r = SearchTree {
            params,
            policy: tree_policy,
            eval,
            root_state,
            nodes,
            edge_movs,
            edge_priors,
            edge_visits,
            edge_sums,
            edge_children,
            table,
            steps: 0u64,
            node_states: Ghost(Seq::empty().push(root_for_spec)),
        };
        proof {
            assert forall|i: int|
                0 <= i < r.nodes@.len() && (#[trigger] r.nodes@[i]).num_edges > 0 implies r.nodes@[i].visits
                as int == 1 + visit_sum(
                r.edge_visits@,
                r.nodes@[i].first_edge as int,
                r.nodes@[i].num_edges as int,
            ) by {
                lemma_visit_sum_zero(r.edge_visits@, 0, r.nodes@[i].num_edges as int);
            }
            assert(r.stats_wf());
            assert(r.ranges_wf());
            assert(r.steps <= MAX_STEPS);
            assert(forall|e: int|
                0 <= e < r.edges_len() ==> #[trigger] r.edge_visits@[e] <= r.steps);
            assert(forall|e: int|
                0 <= e < r.edges_len() ==> #[trigger] r.edge_priors@[e] <= PRIOR_SCALE);
            assert forall|e: int| 0 <= e < r.edges_len() implies -4_000_000 * (
            r.edge_visits@[e] + 1) <= #[trigger] r.edge_sums@[e] <= 4_000_000 * (
            r.edge_visits@[e] + 1) by {
                assert(r.edge_visits@[e] == 0);
                assert(r.edge_sums@[e] == 0);
            }
            assert(forall|i: int|
                0 <= i < r.nodes@.len() ==> 1 <= (#[trigger] r.nodes@[i]).visits <= r.steps + 1);
            assert(forall|i: int|
                0 <= i < r.nodes@.len() ==> -(SCALE as int) <= (#[trigger] r.nodes@[i]).state_eval
                    <= SCALE as int);
            assert(r.counters_wf());
            assert(r.balance_wf());
            assert(r.table_wf());
            assert(r.edge_movs@ =~= root_for_spec.spec_moves());
            assert(r.states_wf());
        }
        r
    }

    /// The visit balance law: an expanded node's visit count always exceeds
    /// the sum of its children's visit counts by exactly one, the visit
    /// that first evaluated the node.
    pub proof fn lemma_child_visit_balance(self, i: int)
        requires
            self.wf(),
            0 <= i < self.nodes@.len(),
            self.nodes@[i].num_edges > 0,
        ensures
            self.nodes@[i].visits as int == 1 + visit_sum(
                self.edge_visits@,
                self.nodes@[i].first_edge as int,
                self.nodes@[i].num_edges as int,
            ),
    {
    }

    /// A snapshot of one node's edge statistics, for the tree policy.
    fn collect_stats(&self, node: usize) -> (r: Vec<EdgeStats>)
        requires
            self.stats_wf(),
            self.ranges_wf(),
            node < self.nodes@.len(),
        ensures
            r@.len() == self.nodes@[node as int].num_edges,
            forall|k: int|
                0 <= k < r@.len() ==> #[trigger] r@[k] == (EdgeStats {
                    prior: self.edge_priors@[self.nodes@[node as int].first_edge + k],
                    visits: self.edge_visits@[self.nodes@[node as int].first_edge + k],
                    sum_rewards: self.edge_sums@[self.nodes@[node as int].first_edge + k],
                }),
    {
        let first = self.nodes[node].first_edge;
        let num = self.nodes[node].num_edges;
        let total = self.edge_movs.len();
        let mut r: Vec<EdgeStats> = Vec::new();
        let mut k: usize = 0;
        while k < num
            invariant
                k <= num,
                total == self.edges_len(),
                self.stats_wf(),
                self.ranges_wf(),
                node < self.nodes@.len(),
                first == self.nodes@[node as int].first_edge,
                num == self.nodes@[node as int].num_edges,
                r@.len() == k,
                forall|j: int|
                    0 <= j < k ==> #[trigger] r@[j] == (EdgeStats {
                        prior: self.edge_priors@[first + j],
                        visits: self.edge_visits@[first + j],
                        sum_rewards: self.edge_sums@[first + j],
                    }),
            decreases num - k,
        {
            assert(self.nodes@[node as int].first_edge + self.nodes@[node as int].num_edges
                <= self.edges_len());
            let e = first + k;
            r.push(
                EdgeStats {
                    prior: self.edge_priors[e],
                    visits: self.edge_visits[e],
                    sum_rewards: self.edge_sums[e],
                },
            );
            k = k + 1;
        }
        r
    }

    /// Returns the virtual loss of an aborted playout to every edge of its
    /// path; nothing else changes.
    fn revert_path(&mut self, path_edges: &Vec<usize>, vl: i64)
        requires
            old(self).stats_wf(),
            0 <= vl <= SCALE,
            path_edges@.len() <= MAX_LENGTH_CAP,
            forall|j: int|
                0 <= j < path_edges@.len() ==> #[trigger] path_edges@[j] < old(self).edges_len(),
            forall|e: int|
                0 <= e < old(self).edges_len() ==> #[trigger] old(self).edge_visits@[e]
                    <= MAX_STEPS,
            forall|e: int|
                0 <= e < old(self).edges_len() ==> -4_000_000 * (old(self).edge_visits@[e] + 1) <= #[trigger] old(self).edge_sums@[e] + vl * occ_prefix(
                    path_edges@,
                    e,
                    path_edges@.len() as int,
                ) <= 4_000_000 * (old(self).edge_visits@[e] + 1),
        ensures
            forall|e: int|
                0 <= e < old(self).edges_len() ==> #[trigger] final(self).edge_sums@[e] as int
                    == old(self).edge_sums@[e] + vl * occ_prefix(
                    path_edges@,
                    e,
                    path_edges@.len() as int,
                ),
            final(self).edge_sums@.len() == old(self).edge_sums@.len(),
            final(self).nodes == old(self).nodes,
            final(self).edge_movs == old(self).edge_movs,
            final(self).edge_priors == old(self).edge_priors,
            final(self).edge_visits == old(self).edge_visits,
            final(self).edge_children == old(self).edge_children,
            final(self).table == old(self).table,
            final(self).steps == old(self).steps,
            final(self).params == old(self).params,
            final(self).policy == old(self).policy,
            final(self).eval == old(self).eval,
            final(self).root_state == old(self).root_state,
            final(self).node_states == old(self).node_states,
    {
        let ghost p = path_edges@;
        let ghost total = p.len() as int;
        let mut j: usize = 0;
        while j < path_edges.len()
            invariant
                j <= p.len(),
                p == path_edges@,
                total == p.len() as int,
                self.stats_wf(),
                0 <= vl <= SCALE,
                p.len() <= MAX_LENGTH_CAP,
                self.edges_len() == old(self).edges_len(),
                forall|jj: int| 0 <= jj < p.len() ==> #[trigger] p[jj] < old(self).edges_len(),
                forall|e: int|
                    0 <= e < old(self).edges_len() ==> #[trigger] old(self).edge_visits@[e]
                        <= MAX_STEPS,
                forall|e: int|
                    0 <= e < old(self).edges_len() ==> -4_000_000 * (old(self).edge_visits@[e] + 1) <= #[trigger] old(self).edge_sums@[e] + vl * occ_prefix(
                        p,
                        e,
                        total,
                    ) <= 4_000_000 * (old(self).edge_visits@[e] + 1),
                forall|e: int|
                    0 <= e < old(self).edges_len() ==> #[trigger] self.edge_sums@[e] as int == old(self).edge_sums@[e] + vl * occ_prefix(p, e, j as int),
                self.nodes == old(self).nodes,
                self.edge_movs == old(self).edge_movs,
                self.edge_priors == old(self).edge_priors,
                self.edge_visits == old(self).edge_visits,
                self.edge_children == old(self).edge_children,
                self.table == old(self).table,
                self.steps == old(self).steps,
                self.params == old(self).params,
                self.policy == old(self).policy,
                self.eval == old(self).eval,
                self.root_state == old(self).root_state,
                self.node_states == old(self).node_states,
            decreases p.len() - j,
        {
            let e = path_edges[j];
            proof {
                lemma_occ_prefix_bounds(p, e as int, j as int);
                lemma_occ_prefix_mono(p, e as int, j as int + 1, total);
                vstd::arithmetic::mul::lemma_mul_is_distributive_add(
                    vl as int,
                    occ_prefix(p, e as int, j as int),
                    1,
                );
                vstd::arithmetic::mul::lemma_mul_inequality(
                    0,
                    vl as int,
                    occ_prefix(p, e as int, j as int + 1),
                );
                lemma_occ_prefix_bounds(p, e as int, j as int + 1);
                vstd::arithmetic::mul::lemma_mul_inequality(
                    vl as int,
                    1_000_000,
                    occ_prefix(p, e as int, j as int + 1),
                );
                vstd::arithmetic::mul::lemma_mul_inequality(
                    vl as int,
                    1_000_000,
                    occ_prefix(p, e as int, total),
                );
                lemma_occ_prefix_bounds(p, e as int, total);
                vstd::arithmetic::mul::lemma_mul_inequality(
                    occ_prefix(p, e as int, j as int + 1),
                    occ_prefix(p, e as int, total),
                    vl as int,
                );
                vstd::arithmetic::mul::lemma_mul_is_commutative(
                    occ_prefix(p, e as int, j as int + 1),
                    vl as int,
                );
                vstd::arithmetic::mul::lemma_mul_is_commutative(
                    occ_prefix(p, e as int, total),
                    vl as int,
                );
            }
            proof {
                assert(self.edge_sums@[e as int] as int == old(self).edge_sums@[e as int] + vl
                    * occ_prefix(p, e as int, j as int));
                assert(-4_000_000 * (old(self).edge_visits@[e as int] + 1) <= old(
                self,
                ).edge_sums@[e as int] + vl * occ_prefix(p, e as int, total) <= 4 * (SCALE as int)
                    * (old(self).edge_visits@[e as int] + 1));
                assert(old(self).edge_visits@[e as int] <= MAX_STEPS);
            }
            let s = self.edge_sums[e];
            self.edge_sums.set(e, s + vl);
            proof {
                assert forall|e2: int| 0 <= e2 < old(self).edges_len() implies #[trigger] self.edge_sums@[e2] as int
                    == old(self).edge_sums@[e2] + vl * occ_prefix(p, e2, j as int + 1) by {
                    if e2 == e as int {
                    } else {
                        assert(occ_prefix(p, e2, j as int + 1) == occ_prefix(p, e2, j as int));
                    }
                }
            }
            j = j + 1;
        }
    }

    /// Edges on a selection path whose nodes are pairwise distinct are
    /// themselves pairwise distinct: each edge lies in its own node's range
    /// and the ranges of distinct nodes are disjoint.
    proof fn lemma_path_edges_distinct(self, pn: Seq<usize>, pe: Seq<usize>)
        requires
            self.ranges_wf(),
            pn.len() == pe.len(),
            forall|j: int| 0 <= j < pn.len() ==> #[trigger] pn[j] < self.nodes@.len(),
            forall|j: int|
                0 <= j < pe.len() ==> self.nodes@[pn[j] as int].first_edge <= #[trigger] pe[j]
                    < self.nodes@[pn[j] as int].first_edge + self.nodes@[pn[j] as int].num_edges,
            forall|j1: int, j2: int| 0 <= j1 < j2 < pn.len() ==> pn[j1] != pn[j2],
        ensures
            forall|j1: int, j2: int| 0 <= j1 < j2 < pe.len() ==> pe[j1] != pe[j2],
    {
        assert forall|j1: int, j2: int| 0 <= j1 < j2 < pe.len() implies pe[j1] != pe[j2] by {
            let a = pn[j1] as int;
            let b = pn[j2] as int;
            if a < b {
                assert(self.nodes@[a].first_edge + self.nodes@[a].num_edges
                    <= self.nodes@[b].first_edge);
            } else {
                assert(self.nodes@[b].first_edge + self.nodes@[b].num_edges
                    <= self.nodes@[a].first_edge);
            }
        }
    }

    /// One playout: descend from the root under the tree policy with a
    /// virtual loss on every chosen edge, evaluate a leaf (expanding it when
    /// its edge has been visited often enough), and back the evaluation up
    /// the path, returning the virtual losses.
    ///
    /// Returns how the playout ended, the selection path (as edge indices)
    /// and the per-step rewards, both ghost.
    pub fn playout(&mut self) -> (r: (PlayoutResult, Ghost<Seq<usize>>, Ghost<Seq<int>>))
        requires
            old(self).wf(),
        ensures
            final(self).wf(),
            Self::structure_extends(*old(self), *final(self)),
            final(self).nodes@.len() <= old(self).nodes@.len() + 1,
            old(self).nodes@.len() >= old(self).params.spec_node_limit() ==> r.0
                == PlayoutResult::TreeFull && *final(self) == *old(self),
            old(self).nodes@.len() <= old(self).params.spec_node_limit() ==> final(self).nodes@.len()
                <= old(self).params.spec_node_limit(),
            r.1@.len() <= old(self).params.spec_max_playout_length(),
            forall|j: int| 0 <= j < r.1@.len() ==> #[trigger] r.1@[j] < old(self).edges_len(),
            Self::visits_delta_ok(*old(self), *final(self), r.1@),
            Self::new_edges_fresh(*old(self), *final(self)),
            r.0 == PlayoutResult::Completed ==> r.2@.len() == r.1@.len() && (forall|j: int|
                0 <= j < r.2@.len() ==> -(SCALE as int) <= #[trigger] r.2@[j] <= SCALE as int)
                && Self::sums_rewarded(*old(self), *final(self), r.1@, r.2@),
            (r.0 == PlayoutResult::CycleDetected || r.0 == PlayoutResult::PlayoutLengthExceeded)
                ==> Self::sums_restored(*old(self), *final(self)),
            (r.0 == PlayoutResult::TreeFull || r.0 == PlayoutResult::BudgetExhausted) ==> *final(self)
                == *old(self),
            (r.0 == PlayoutResult::TreeFull) <==> old(self).nodes@.len() >= old(
                self,
            ).params.spec_node_limit(),
            (r.0 == PlayoutResult::BudgetExhausted) <==> (old(self).nodes@.len() < old(
                self,
            ).params.spec_node_limit() && old(self).steps + old(
                self,
            ).params.spec_max_playout_length() + 2 > MAX_STEPS),
            r.0 == PlayoutResult::Completed && old(self).nodes@[0].num_edges > 0 ==> r.1@.len()
                >= 1,
            final(self).steps >= old(self).steps,
            r.0 == PlayoutResult::Completed ==> final(self).steps > old(self).steps,
            !(old(self).params.spec_cycle_behaviour() is Ignore) ==> forall|j1: int, j2: int|
                0 <= j1 < j2 < r.1@.len() ==> r.1@[j1] != r.1@[j2],
    {
        let ghost entry = *self;
        let limit = self.params.node_limit();
        if self.nodes.len() >= limit {
            return (PlayoutResult::TreeFull, Ghost(Seq::empty()), Ghost(Seq::empty()));
        }
        let ml = self.params.max_playout_length();
        if self.steps > MAX_STEPS - 2 - (ml as u64) {
            return (PlayoutResult::BudgetExhausted, Ghost(Seq::empty()), Ghost(Seq::empty()));
        }
        let vl = self.params.virtual_loss();
        let vbe = self.params.visits_before_expansion();
        let cb = self.params.cycle_behaviour();
        let mut state = self.root_state.clone_state();
        let mut cur: usize = 0;
        let mut path_nodes: Vec<usize> = Vec::new();
        let mut path_edges: Vec<usize> = Vec::new();
        let mut path_players: Vec<S::Player> = Vec::new();
        let mut leaf_value: i64 = 0;
        let mut expanding: bool = false;
        let mut expand_edge: usize = 0;
        loop
            invariant_except_break
                self.steps == entry.steps + path_edges@.len(),
                expanding == false,
                !(cb is Ignore) ==> !path_nodes@.contains(cur),
            invariant
                entry == *old(self),
                entry.wf(),
                self.stats_wf(),
                self.ranges_wf(),
                self.balance_wf(),
                self.states_wf(),
                self.node_states == entry.node_states,
                self.nodes@.len() == entry.nodes@.len(),
                self.edges_len() == entry.edges_len(),
                self.edge_movs == entry.edge_movs,
                self.edge_priors == entry.edge_priors,
                self.edge_children == entry.edge_children,
                self.table == entry.table,
                self.params == entry.params,
                self.policy == entry.policy,
                self.eval == entry.eval,
                self.root_state == entry.root_state,
                forall|i: int|
                    0 <= i < self.nodes@.len() ==> {
                        &&& (#[trigger] self.nodes@[i]).hash == entry.nodes@[i].hash
                        &&& self.nodes@[i].state_eval == entry.nodes@[i].state_eval
                        &&& self.nodes@[i].first_edge == entry.nodes@[i].first_edge
                        &&& self.nodes@[i].num_edges == entry.nodes@[i].num_edges
                    },
                cur < self.nodes@.len(),
                path_edges@.len() == 0 ==> cur == 0,
                path_edges@.len() == path_nodes@.len(),
                forall|j: int|
                    0 <= j < path_edges@.len()
                        ==> self.nodes@[path_nodes@[j] as int].first_edge
                        <= #[trigger] path_edges@[j] < self.nodes@[path_nodes@[j] as int].first_edge
                        + self.nodes@[path_nodes@[j] as int].num_edges,
                !(cb is Ignore) ==> forall|j1: int, j2: int|
                    0 <= j1 < j2 < path_nodes@.len() ==> path_nodes@[j1] != path_nodes@[j2],
                path_edges@.len() == path_players@.len(),
                path_edges@.len() <= ml,
                forall|j: int|
                    0 <= j < path_edges@.len() ==> #[trigger] path_edges@[j] < entry.edges_len(),
                forall|j: int|
                    0 <= j < path_nodes@.len() ==> #[trigger] path_nodes@[j] < entry.nodes@.len(),
                self.steps <= MAX_STEPS,
                forall|e: int|
                    0 <= e < self.edges_len() ==> #[trigger] self.edge_visits@[e] <= self.steps,
                forall|i: int|
                    0 <= i < self.nodes@.len() ==> 1 <= (#[trigger] self.nodes@[i]).visits
                        <= self.steps + 1,
                forall|e: int|
                    0 <= e < entry.edges_len() ==> #[trigger] self.edge_visits@[e] as int
                        == entry.edge_visits@[e] + occ_prefix(
                        path_edges@,
                        e,
                        path_edges@.len() as int,
                    ),
                forall|e: int|
                    0 <= e < entry.edges_len() ==> #[trigger] self.edge_sums@[e] as int
                        == entry.edge_sums@[e] - vl * occ_prefix(
                        path_edges@,
                        e,
                        path_edges@.len() as int,
                    ),
                vl == entry.params.spec_virtual_loss(),
                0 <= vl <= SCALE,
                vbe == entry.params.spec_visits_before_expansion(),
                ml == entry.params.spec_max_playout_length(),
                ml <= MAX_LENGTH_CAP,
                cb == entry.params.spec_cycle_behaviour(),
                entry.steps + ml + 2 <= MAX_STEPS,
                entry.nodes@.len() < entry.params.spec_node_limit(),
            ensures
                entry.steps + 1 <= self.steps <= entry.steps + path_edges@.len() + 1,
                entry.nodes@[0].num_edges > 0 ==> path_edges@.len() >= 1,
                !expanding ==> -(SCALE as int) <= leaf_value <= SCALE as int,
                expanding ==> path_edges@.len() >= 1 && expand_edge as int == path_edges@.last()
                    as int && expand_edge < entry.edges_len()
                    && self.edge_children@[expand_edge as int] is None,
            decreases ml - path_edges@.len(),
        {
            if path_edges.len() >= ml {
                proof {
                    assert forall|e: int| 0 <= e < self.edges_len() implies -4_000_000 * (
                    self.edge_visits@[e] + 1) <= #[trigger] self.edge_sums@[e] + vl * occ_prefix(
                        path_edges@,
                        e,
                        path_edges@.len() as int,
                    ) <= 4_000_000 * (self.edge_visits@[e] + 1) by {
                        lemma_occ_prefix_bounds(path_edges@, e, path_edges@.len() as int);
                        assert(0 <= e < entry.edges_len());
                        assert(self.edge_sums@[e] as int == entry.edge_sums@[e] - vl * occ_prefix(
                            path_edges@,
                            e,
                            path_edges@.len() as int,
                        ));
                        assert(self.edge_sums@[e] + vl * occ_prefix(
                            path_edges@,
                            e,
                            path_edges@.len() as int,
                        ) == entry.edge_sums@[e]);
                        assert(self.edge_visits@[e] as int == entry.edge_visits@[e] + occ_prefix(
                            path_edges@,
                            e,
                            path_edges@.len() as int,
                        ));
                        assert(-4_000_000 * (entry.edge_visits@[e] + 1)
                            <= entry.edge_sums@[e] <= 4_000_000 * (entry.edge_visits@[e]
                            + 1));
                    }
                }
                self.revert_path(&path_edges, vl);
                proof {
                    assert forall|e: int|
                        0 <= e < self.edges_len() implies #[trigger] self.edge_sums@[e]
                        == entry.edge_sums@[e] && -4_000_000 * (self.edge_visits@[e] + 1)
                        <= self.edge_sums@[e] <= 4_000_000 * (self.edge_visits@[e]
                        + 1) by {
                        lemma_occ_prefix_bounds(path_edges@, e, path_edges@.len() as int);
                        assert(-4_000_000 * (entry.edge_visits@[e] + 1)
                            <= entry.edge_sums@[e] <= 4_000_000 * (entry.edge_visits@[e]
                            + 1));
                    }
                    assert(self.counters_wf());
                }
                proof {
                    if !(cb is Ignore) {
                        self.lemma_path_edges_distinct(path_nodes@, path_edges@);
                    }
                }
                return (
                    PlayoutResult::PlayoutLengthExceeded,
                    Ghost(path_edges@),
                    Ghost(Seq::empty()),
                );
            }
            let ghost pp = path_edges@;
            // Arrival at `cur`: count the visit.
            self.steps = self.steps + 1;
            let nd = self.nodes[cur];
            let mut nd2 = nd;
            nd2.visits = nd.visits + 1;
            let ghost nodes_before = self.nodes@;
            self.nodes.set(cur, nd2);
            if nd.num_edges == 0 {
                // Terminal node: evaluate it as it stands.
                leaf_value = self.eval.evaluate_existing_state(&state, nd.state_eval);
                break ;
            }
            // Snapshot, choose, and apply the virtual loss.
            let stats = self.collect_stats(cur);
            proof {
                assert forall|k: int| 0 <= k < stats@.len() implies {
                    &&& (#[trigger] stats@[k]).visits <= MAX_STEPS
                    &&& stats@[k].prior <= PRIOR_SCALE
                    &&& -4_000_000 * (stats@[k].visits + 1) <= stats@[k].sum_rewards <= 4_000_000 * (stats@[k].visits + 1)
                } by {
                    let ee = self.nodes@[cur as int].first_edge + k;
                    lemma_occ_prefix_bounds(path_edges@, ee, path_edges@.len() as int);
                    assert(self.edge_sums@[ee] as int == entry.edge_sums@[ee] - vl * occ_prefix(
                        path_edges@,
                        ee,
                        path_edges@.len() as int,
                    ));
                    assert(self.edge_visits@[ee] as int == entry.edge_visits@[ee] + occ_prefix(
                        path_edges@,
                        ee,
                        path_edges@.len() as int,
                    ));
                    assert(-4_000_000 * (entry.edge_visits@[ee] + 1)
                        <= entry.edge_sums@[ee] <= 4_000_000 * (entry.edge_visits@[ee]
                        + 1));
                    vstd::arithmetic::mul::lemma_mul_inequality(
                        0,
                        vl as int,
                        occ_prefix(path_edges@, ee, path_edges@.len() as int),
                    );
                    vstd::arithmetic::mul::lemma_mul_inequality(
                        vl as int,
                        1_000_000,
                        occ_prefix(path_edges@, ee, path_edges@.len() as int),
                    );
                }
                assert(stats_bounded(stats@));
            }
            let choice = self.policy.choose_child(&stats, nd.visits + 1);
            let te = self.edge_movs.len();
            assert(self.nodes@[cur as int].first_edge + self.nodes@[cur as int].num_edges
                <= te as int);
            let e = nd.first_edge + choice;
            let ev = self.edge_visits[e];
            let es = self.edge_sums[e];
            proof {
                let ghost pl = path_edges@.len() as int;
                lemma_occ_prefix_bounds(path_edges@, e as int, pl);
                assert(self.edge_sums@[e as int] as int == entry.edge_sums@[e as int] - vl
                    * occ_prefix(path_edges@, e as int, pl));
                assert(self.edge_visits@[e as int] as int == entry.edge_visits@[e as int]
                    + occ_prefix(path_edges@, e as int, pl));
                assert(-4_000_000 * (entry.edge_visits@[e as int] + 1)
                    <= entry.edge_sums@[e as int] <= 4_000_000 * (
                entry.edge_visits@[e as int] + 1));
                vstd::arithmetic::mul::lemma_mul_inequality(
                    0,
                    vl as int,
                    occ_prefix(path_edges@, e as int, pl),
                );
                vstd::arithmetic::mul::lemma_mul_inequality(
                    vl as int,
                    1_000_000,
                    occ_prefix(path_edges@, e as int, pl),
                );
            }
            let ghost visits_before = self.edge_visits@;
            let ghost sums_before = self.edge_sums@;
            self.edge_visits.set(e, ev + 1);
            self.edge_sums.set(e, es - vl);
            proof {
                // The chosen node's balance gains one visit on each side;
                // every other node's edge range is untouched.
                assert forall|i: int|
                    0 <= i < self.nodes@.len() && (#[trigger] self.nodes@[i]).num_edges
                        > 0 implies self.nodes@[i].visits as int == 1 + visit_sum(
                    self.edge_visits@,
                    self.nodes@[i].first_edge as int,
                    self.nodes@[i].num_edges as int,
                ) by {
                    let fi = self.nodes@[i].first_edge as int;
                    let ni = self.nodes@[i].num_edges as int;
                    if i == cur as int {
                        lemma_visit_sum_update(visits_before, fi, ni, e as int, (ev + 1) as u64);
                    } else {
                        if i < cur as int {
                            assert(self.nodes@[i].first_edge + self.nodes@[i].num_edges
                                <= self.nodes@[cur as int].first_edge);
                        } else {
                            assert(self.nodes@[cur as int].first_edge + self.nodes@[cur as int].num_edges
                                <= self.nodes@[i].first_edge);
                        }
                        lemma_visit_sum_agree(self.edge_visits@, visits_before, fi, ni);
                    }
                }
            }
            path_nodes.push(cur);
            path_players.push(state.current_player());
            path_edges.push(e);
            proof {
                assert(path_edges@ == pp.push(e));
                assert forall|e2: int|
                    0 <= e2 < entry.edges_len() implies #[trigger] self.edge_visits@[e2] as int
                    == entry.edge_visits@[e2] + occ_prefix(
                    path_edges@,
                    e2,
                    path_edges@.len() as int,
                ) by {
                    lemma_occ_prefix_push(pp, e, e2, pp.len() as int);
                    assert(visits_before[e2] as int == entry.edge_visits@[e2] + occ_prefix(
                        pp,
                        e2,
                        pp.len() as int,
                    ));
                    if e2 == e as int {
                        assert(self.edge_visits@[e2] == visits_before[e2] + 1);
                    } else {
                        assert(self.edge_visits@[e2] == visits_before[e2]);
                    }
                }
                assert forall|e2: int|
                    0 <= e2 < entry.edges_len() implies #[trigger] self.edge_sums@[e2] as int
                    == entry.edge_sums@[e2] - vl * occ_prefix(
                    path_edges@,
                    e2,
                    path_edges@.len() as int,
                ) by {
                    lemma_occ_prefix_push(pp, e, e2, pp.len() as int);
                    assert(sums_before[e2] as int == entry.edge_sums@[e2] - vl * occ_prefix(
                        pp,
                        e2,
                        pp.len() as int,
                    ));
                    vstd::arithmetic::mul::lemma_mul_is_distributive_add(
                        vl as int,
                        occ_prefix(pp, e2, pp.len() as int),
                        1,
                    );
                    if e2 == e as int {
                        assert(self.edge_sums@[e2] == sums_before[e2] - vl);
                    } else {
                        assert(self.edge_sums@[e2] == sums_before[e2]);
                    }
                }
            }
            state.make_move(&self.edge_movs[e]);
            let child = self.edge_children[e];
            match child {
                None => {
                    if ev + 1 >= vbe {
                        expanding = true;
                        expand_edge = e;
                        break ;
                    } else {
                        leaf_value = self.eval.evaluate_existing_state(&state, nd.state_eval);
                        break ;
                    }
                },
                Some(c) => {
                    if path_contains(&path_nodes, c) {
                        match cb {
                            CycleBehaviour::Ignore => {
                                cur = c;
                            },
                            CycleBehaviour::UseCurrentEvalWhenCycleDetected => {
                                let ce = self.nodes[c].state_eval;
                                leaf_value = self.eval.evaluate_existing_state(&state, ce);
                                break ;
                            },
                            CycleBehaviour::UseThisEvalWhenCycleDetected(v) => {
                                leaf_value = v;
                                break ;
                            },
                            CycleBehaviour::PanicWhenCycleDetected => {
                                proof {
                                    assert forall|e2: int| 0 <= e2 < self.edges_len() implies -4_000_000 * (self.edge_visits@[e2] + 1)
                                        <= #[trigger] self.edge_sums@[e2] + vl * occ_prefix(
                                        path_edges@,
                                        e2,
                                        path_edges@.len() as int,
                                    ) <= 4_000_000 * (self.edge_visits@[e2] + 1) by {
                                        lemma_occ_prefix_bounds(
                                            path_edges@,
                                            e2,
                                            path_edges@.len() as int,
                                        );
                                        assert(self.edge_sums@[e2] as int == entry.edge_sums@[e2]
                                            - vl * occ_prefix(
                                            path_edges@,
                                            e2,
                                            path_edges@.len() as int,
                                        ));
                                        assert(self.edge_visits@[e2] as int
                                            == entry.edge_visits@[e2] + occ_prefix(
                                            path_edges@,
                                            e2,
                                            path_edges@.len() as int,
                                        ));
                                        assert(-4_000_000 * (entry.edge_visits@[e2] + 1)
                                            <= entry.edge_sums@[e2] <= 4_000_000 * (
                                        entry.edge_visits@[e2] + 1));
                                    }
                                }
                                self.revert_path(&path_edges, vl);
                                proof {
                                    assert forall|e2: int|
                                        0 <= e2 < self.edges_len() implies #[trigger] self.edge_sums@[e2]
                                        == entry.edge_sums@[e2] && -4_000_000 * (
                                    self.edge_visits@[e2] + 1) <= self.edge_sums@[e2] <= 4_000_000 * (self.edge_visits@[e2] + 1) by {
                                        lemma_occ_prefix_bounds(
                                            path_edges@,
                                            e2,
                                            path_edges@.len() as int,
                                        );
                                        assert(-4_000_000 * (entry.edge_visits@[e2] + 1)
                                            <= entry.edge_sums@[e2] <= 4_000_000 * (
                                        entry.edge_visits@[e2] + 1));
                                    }
                                    assert(self.counters_wf());
                                }
                                proof {
                                    self.lemma_path_edges_distinct(path_nodes@, path_edges@);
                                }
                                return (
                                    PlayoutResult::CycleDetected,
                                    Ghost(path_edges@),
                                    Ghost(Seq::empty()),
                                );
                            },
                        }
                    } else {
                        cur = c;
                    }
                },
            }
        }
        // Expansion: evaluate the new position, give it a node with one edge
        // per legal move, and install it, preferring a transposition.
        if expanding {
            let moves = state.available_moves();
            let (priors, value) = self.eval.evaluate_new_state(&state, &moves);
            leaf_value = value;
            let hash = state.hash();
            let new_idx = self.nodes.len();
            let first = self.edge_movs.len();
            let n = moves.len();
            let ghost before = *self;
            let mut k: usize = 0;
            while k < n
                invariant
                    k <= n,
                    n == moves@.len(),
                    priors@.len() == n,
                    forall|i: int| 0 <= i < priors@.len() ==> #[trigger] priors@[i] <= PRIOR_SCALE,
                    first == before.edge_movs@.len(),
                    self.edge_movs@.len() == first + k,
                    self.edge_priors@.len() == first + k,
                    self.edge_visits@.len() == first + k,
                    self.edge_sums@.len() == first + k,
                    self.edge_children@.len() == first + k,
                    forall|i: int|
                        0 <= i < first ==> #[trigger] self.edge_movs@[i] == before.edge_movs@[i],
                    forall|i: int|
                        0 <= i < first ==> #[trigger] self.edge_priors@[i]
                            == before.edge_priors@[i],
                    forall|i: int|
                        0 <= i < first ==> #[trigger] self.edge_visits@[i]
                            == before.edge_visits@[i],
                    forall|i: int|
                        0 <= i < first ==> #[trigger] self.edge_sums@[i] == before.edge_sums@[i],
                    forall|i: int|
                        0 <= i < first ==> #[trigger] self.edge_children@[i]
                            == before.edge_children@[i],
                    forall|i: int|
                        first <= i < first + k ==> #[trigger] self.edge_visits@[i] == 0,
                    forall|i: int| first <= i < first + k ==> #[trigger] self.edge_sums@[i] == 0,
                    forall|i: int|
                        first <= i < first + k ==> #[trigger] self.edge_children@[i] is None,
                    forall|i: int|
                        first <= i < first + k ==> #[trigger] self.edge_priors@[i] <= PRIOR_SCALE,
                    forall|i: int|
                        0 <= i < k ==> #[trigger] self.edge_movs@[first + i] == moves@[i],
                    self.nodes == before.nodes,
                    self.node_states == before.node_states,
                    self.table == before.table,
                    self.steps == before.steps,
                    self.params == before.params,
                    self.policy == before.policy,
                    self.eval == before.eval,
                    self.root_state == before.root_state,
                decreases n - k,
            {
                self.edge_movs.push(S::clone_move(&moves[k]));
                self.edge_priors.push(priors[k]);
                self.edge_visits.push(0);
                self.edge_sums.push(0);
                self.edge_children.push(None);
                k = k + 1;
            }
            self.nodes.push(
                Node { hash, state_eval: value, first_edge: first, num_edges: n, visits: 1 },
            );
            let winner = self.table.insert_or_get(hash, new_idx);
            self.edge_children.set(expand_edge, Some(winner));
            self.node_states = Ghost(self.node_states@.push(state));
            proof {
                assert forall|i: int|
                    0 <= i < self.nodes@.len() && (#[trigger] self.nodes@[i]).num_edges
                        > 0 implies self.nodes@[i].visits as int == 1 + visit_sum(
                    self.edge_visits@,
                    self.nodes@[i].first_edge as int,
                    self.nodes@[i].num_edges as int,
                ) by {
                    if i < self.nodes@.len() - 1 {
                        lemma_visit_sum_agree(
                            self.edge_visits@,
                            before.edge_visits@,
                            self.nodes@[i].first_edge as int,
                            self.nodes@[i].num_edges as int,
                        );
                    } else {
                        lemma_visit_sum_zero(
                            self.edge_visits@,
                            self.nodes@[i].first_edge as int,
                            self.nodes@[i].num_edges as int,
                        );
                    }
                }
                assert(self.stats_wf());
                assert(self.ranges_wf());
                assert(self.table_wf());
                assert forall|i: int|
                    0 <= i < self.nodes@.len() implies {
                    &&& (#[trigger] self.nodes@[i]).num_edges
                        == self.node_states@[i].spec_moves().len()
                    &&& self.nodes@[i].hash == self.node_states@[i].spec_hash()
                    &&& forall|k2: int|
                        0 <= k2 < self.nodes@[i].num_edges
                            ==> #[trigger] self.edge_movs@[self.nodes@[i].first_edge + k2]
                            == self.node_states@[i].spec_moves()[k2]
                } by {
                    if i < self.nodes@.len() - 1 {
                        assert(entry.nodes@[i].num_edges
                            == entry.node_states@[i].spec_moves().len());
                    }
                }
                assert(self.states_wf());
            }
        }
        // Backpropagation: return each virtual loss and add the reward seen
        // from each step's player.
        let ghost mid = *self;
        let ghost p = path_edges@;
        let ghost total = p.len() as int;
        let mut rs: Ghost<Seq<int>> = Ghost(Seq::empty());
        let mut j: usize = 0;
        while j < path_edges.len()
            invariant
                entry == *old(self),
                j <= p.len(),
                p == path_edges@,
                total == p.len() as int,
                path_players@.len() == p.len(),
                p.len() <= ml,
                ml <= MAX_LENGTH_CAP,
                0 <= vl <= SCALE,
                vl == entry.params.spec_virtual_loss(),
                -(SCALE as int) <= leaf_value <= SCALE as int,
                entry.wf(),
                entry.nodes@.len() < entry.params.spec_node_limit(),
                mid.stats_wf(),
                mid.ranges_wf(),
                mid.balance_wf(),
                mid.table_wf(),
                mid.steps <= MAX_STEPS,
                entry.steps < mid.steps,
                forall|e: int|
                    0 <= e < mid.edges_len() ==> #[trigger] mid.edge_visits@[e] <= mid.steps,
                forall|e: int|
                    0 <= e < mid.edges_len() ==> #[trigger] mid.edge_priors@[e] <= PRIOR_SCALE,
                forall|i: int|
                    0 <= i < mid.nodes@.len() ==> 1 <= (#[trigger] mid.nodes@[i]).visits
                        <= mid.steps + 1,
                forall|i: int|
                    0 <= i < mid.nodes@.len() ==> -(SCALE as int) <= (
                    #[trigger] mid.nodes@[i]).state_eval <= SCALE as int,
                entry.edges_len() <= mid.edges_len(),
                entry.nodes@.len() <= mid.nodes@.len() <= entry.nodes@.len() + 1,
                mid.params == entry.params,
                mid.policy == entry.policy,
                mid.eval == entry.eval,
                mid.root_state == entry.root_state,
                forall|jj: int| 0 <= jj < p.len() ==> #[trigger] p[jj] < entry.edges_len(),
                rs@.len() == j,
                forall|jj: int|
                    0 <= jj < j ==> -(SCALE as int) <= #[trigger] rs@[jj] <= SCALE as int,
                forall|e: int|
                    0 <= e < entry.edges_len() ==> #[trigger] mid.edge_visits@[e] as int
                        == entry.edge_visits@[e] + occ_prefix(p, e, total),
                forall|e: int|
                    0 <= e < entry.edges_len() ==> #[trigger] mid.edge_sums@[e] as int
                        == entry.edge_sums@[e] - vl * occ_prefix(p, e, total),
                forall|e: int|
                    entry.edges_len() <= e < mid.edges_len() ==> #[trigger] mid.edge_visits@[e]
                        == 0 && mid.edge_sums@[e] == 0,
                forall|i: int|
                    0 <= i < entry.nodes@.len() ==> {
                        &&& (#[trigger] mid.nodes@[i]).hash == entry.nodes@[i].hash
                        &&& mid.nodes@[i].state_eval == entry.nodes@[i].state_eval
                        &&& mid.nodes@[i].first_edge == entry.nodes@[i].first_edge
                        &&& mid.nodes@[i].num_edges == entry.nodes@[i].num_edges
                    },
                forall|e: int|
                    0 <= e < entry.edges_len() ==> {
                        &&& #[trigger] mid.edge_movs@[e] == entry.edge_movs@[e]
                        &&& mid.edge_priors@[e] == entry.edge_priors@[e]
                        &&& (entry.edge_children@[e] is Some ==> mid.edge_children@[e]
                            == entry.edge_children@[e])
                    },
                self.nodes == mid.nodes,
                self.edge_movs == mid.edge_movs,
                self.edge_priors == mid.edge_priors,
                self.edge_visits == mid.edge_visits,
                self.edge_children == mid.edge_children,
                self.table == mid.table,
                self.steps == mid.steps,
                self.params == mid.params,
                self.policy == mid.policy,
                self.eval == mid.eval,
                self.root_state == mid.root_state,
                self.node_states == mid.node_states,
                mid.states_wf(),
                self.edge_sums@.len() == mid.edge_sums@.len(),
                forall|e: int|
                    0 <= e < entry.edges_len() ==> #[trigger] self.edge_sums@[e] as int
                        == mid.edge_sums@[e] + vl * occ_prefix(p, e, j as int) + rew_prefix(
                        p,
                        rs@,
                        e,
                        j as int,
                    ),
                forall|e: int|
                    entry.edges_len() <= e < mid.edges_len() ==> #[trigger] self.edge_sums@[e]
                        == mid.edge_sums@[e],
            decreases p.len() - j,
        {
            let e = path_edges[j];
            let reward = self.eval.interpret_evaluation_for_player(leaf_value, &path_players[j]);
            proof {
                lemma_occ_prefix_bounds(p, e as int, j as int);
                lemma_occ_prefix_bounds(p, e as int, total);
                lemma_occ_prefix_mono(p, e as int, j as int, total);
                lemma_occ_prefix_mono(p, e as int, j as int + 1, total);
                assert(self.edge_sums@[e as int] as int == mid.edge_sums@[e as int] + vl
                    * occ_prefix(p, e as int, j as int) + rew_prefix(p, rs@, e as int, j as int));
                assert(mid.edge_sums@[e as int] as int == entry.edge_sums@[e as int] - vl
                    * occ_prefix(p, e as int, total));
                assert(-4_000_000 * (entry.edge_visits@[e as int] + 1)
                    <= entry.edge_sums@[e as int] <= 4_000_000 * (
                entry.edge_visits@[e as int] + 1));
                assert(entry.edge_visits@[e as int] <= MAX_STEPS);
                vstd::arithmetic::mul::lemma_mul_inequality(
                    0,
                    vl as int,
                    occ_prefix(p, e as int, j as int),
                );
                vstd::arithmetic::mul::lemma_mul_inequality(
                    vl as int,
                    1_000_000,
                    occ_prefix(p, e as int, j as int),
                );
                vstd::arithmetic::mul::lemma_mul_inequality(
                    0,
                    vl as int,
                    occ_prefix(p, e as int, total),
                );
                vstd::arithmetic::mul::lemma_mul_inequality(
                    vl as int,
                    1_000_000,
                    occ_prefix(p, e as int, total),
                );
                lemma_rew_prefix_bound(p, rs@, e as int, j as int);
                assert(0 <= vl * occ_prefix(p, e as int, j as int) <= 1_000_000 * occ_prefix(
                    p,
                    e as int,
                    j as int,
                ));
                assert(0 <= vl * occ_prefix(p, e as int, total) <= 1_000_000 * occ_prefix(
                    p,
                    e as int,
                    total,
                ));
                assert(occ_prefix(p, e as int, j as int) <= 0x4000_0000);
                assert(occ_prefix(p, e as int, total) <= 0x4000_0000);
                assert(-4_000_000 * (0x100_0000_0000 + 1) <= entry.edge_sums@[e as int]
                    <= 4_000_000 * (0x100_0000_0000 + 1));
                assert(self.edge_sums@[e as int] as int == entry.edge_sums@[e as int] - vl
                    * occ_prefix(p, e as int, total) + vl * occ_prefix(p, e as int, j as int)
                    + rew_prefix(p, rs@, e as int, j as int));
                assert(-1_000_000 * occ_prefix(p, e as int, j as int) <= rew_prefix(
                    p,
                    rs@,
                    e as int,
                    j as int,
                ) <= 1_000_000 * occ_prefix(p, e as int, j as int));
            }
            let s = self.edge_sums[e];
            self.edge_sums.set(e, s + vl + reward);
            let ghost rs_old = rs@;
            rs = Ghost(rs@.push(reward as int));
            proof {
                assert forall|e2: int|
                    0 <= e2 < entry.edges_len() implies #[trigger] self.edge_sums@[e2] as int
                    == mid.edge_sums@[e2] + vl * occ_prefix(p, e2, j as int + 1) + rew_prefix(
                    p,
                    rs@,
                    e2,
                    j as int + 1,
                ) by {
                    lemma_rew_prefix_rs_push(p, rs_old, reward as int, e2, j as int);
                    assert(rew_prefix(p, rs@, e2, j as int) == rew_prefix(p, rs_old, e2, j as int));
                    vstd::arithmetic::mul::lemma_mul_is_distributive_add(
                        vl as int,
                        occ_prefix(p, e2, j as int),
                        1,
                    );
                }
            }
            j = j + 1;
        }
        proof {
            assert forall|e: int|
                0 <= e < entry.edges_len() implies #[trigger] self.edge_sums@[e] as int
                == entry.edge_sums@[e] + rew_prefix(p, rs@, e, total) && -4_000_000 * (
            self.edge_visits@[e] + 1) <= self.edge_sums@[e] <= 4_000_000 * (
            self.edge_visits@[e] + 1) by {
                lemma_rew_prefix_bound(p, rs@, e, total);
                lemma_occ_prefix_bounds(p, e, total);
                assert(self.edge_sums@[e] as int == mid.edge_sums@[e] + vl * occ_prefix(
                    p,
                    e,
                    total,
                ) + rew_prefix(p, rs@, e, total));
                assert(mid.edge_sums@[e] as int == entry.edge_sums@[e] - vl * occ_prefix(
                    p,
                    e,
                    total,
                ));
                assert(-4_000_000 * (entry.edge_visits@[e] + 1) <= entry.edge_sums@[e]
                    <= 4_000_000 * (entry.edge_visits@[e] + 1));
                assert(self.edge_visits@[e] == mid.edge_visits@[e]);
                assert(mid.edge_visits@[e] as int == entry.edge_visits@[e] + occ_prefix(
                    p,
                    e,
                    total,
                ));
            }
            assert forall|e: int|
                entry.edges_len() <= e < self.edges_len() implies #[trigger] self.edge_sums@[e]
                == 0 && self.edge_visits@[e] == 0 by {}
            assert(self.counters_wf());
            assert(self.wf());
            assert(Self::structure_extends(entry, *self));
            if !(cb is Ignore) {
                self.lemma_path_edges_distinct(path_nodes@, path_edges@);
            }
        }
        (PlayoutResult::Completed, Ghost(path_edges@), rs)
    }

    /// Edge `a` beats edge `b` for final move selection: more visits, or
    /// equally many and a higher reward sum.
    pub open spec fn spec_better(self, a: int, b: int) -> bool {
        ||| self.edge_visits@[a] > self.edge_visits@[b]
        ||| (self.edge_visits@[a] == self.edge_visits@[b] && self.edge_sums@[a]
            > self.edge_sums@[b])
    }

    /// The first best edge among a node's first `upto` children, as an
    /// offset into its edge range.
    pub open spec fn spec_best_upto(self, node: int, upto: int) -> int
        decreases upto,
    {
        if upto <= 1 {
            0
        } else {
            let prev = self.spec_best_upto(node, upto - 1);
            let f = self.nodes@[node].first_edge as int;
            if self.spec_better(f + upto - 1, f + prev) {
                upto - 1
            } else {
                prev
            }
        }
    }

    /// The edge a finished search selects at `node`: most visits, ties
    /// broken by higher reward sum, then by insertion order.
    pub open spec fn spec_best_edge(self, node: int) -> int {
        self.nodes@[node].first_edge + self.spec_best_upto(
            node,
            self.nodes@[node].num_edges as int,
        )
    }

    proof fn lemma_best_upto_range(self, node: int, upto: int)
        requires
            upto >= 1,
        ensures
            0 <= self.spec_best_upto(node, upto) < upto,
        decreases upto,
    {
        if upto > 1 {
            self.lemma_best_upto_range(node, upto - 1);
        }
    }

    /// Selects the best child edge of `node` once the search is over.
    pub fn select_child_after_search(&self, node: usize) -> (r: usize)
        requires
            self.wf(),
            node < self.nodes@.len(),
            self.nodes@[node as int].num_edges > 0,
        ensures
            r as int == self.spec_best_edge(node as int),
            self.nodes@[node as int].first_edge <= r < self.nodes@[node as int].first_edge
                + self.nodes@[node as int].num_edges,
            r < self.edges_len(),
    {
        let first = self.nodes[node].first_edge;
        let num = self.nodes[node].num_edges;
        let te = self.edge_movs.len();
        assert(self.nodes@[node as int].first_edge + self.nodes@[node as int].num_edges
            <= te as int);
        let mut best: usize = 0;
        let mut k: usize = 1;
        while k < num
            invariant
                1 <= k <= num,
                best < k,
                self.wf(),
                node < self.nodes@.len(),
                first == self.nodes@[node as int].first_edge,
                num == self.nodes@[node as int].num_edges,
                first + num <= te as int,
                te as int == self.edges_len(),
                best as int == self.spec_best_upto(node as int, k as int),
            decreases num - k,
        {
            let cand = first + k;
            let cur_best = first + best;
            let better = self.edge_visits[cand] > self.edge_visits[cur_best] || (
            self.edge_visits[cand] == self.edge_visits[cur_best] && self.edge_sums[cand]
                > self.edge_sums[cur_best]);
            if better {
                best = k;
            }
            k = k + 1;
        }
        proof {
            self.lemma_best_upto_range(node as int, num as int);
        }
        first + best
    }

    /// The principal variation from `node`, `k` edges deep: repeatedly the
    /// best child, stopping at a terminal node or an unexpanded edge.
    pub open spec fn spec_pv(self, node: int, k: int) -> Seq<int>
        decreases k,
    {
        if k <= 0 || self.nodes@[node].num_edges == 0 {
            Seq::empty()
        } else {
            let e = self.spec_best_edge(node);
            let rest = match self.edge_children@[e] {
                Some(c) => self.spec_pv(c as int, k - 1),
                None => Seq::empty(),
            };
            seq![e] + rest
        }
    }

    pub proof fn lemma_spec_pv_bounds(self, node: int, k: int)
        requires
            self.wf(),
            0 <= node < self.nodes@.len(),
        ensures
            forall|i: int|
                0 <= i < self.spec_pv(node, k).len() ==> 0 <= #[trigger] self.spec_pv(node, k)[i]
                    < self.edges_len(),
        decreases k,
    {
        if k > 0 && self.nodes@[node].num_edges > 0 {
            self.lemma_best_upto_range(node, self.nodes@[node].num_edges as int);
            assert(self.nodes@[node].first_edge + self.nodes@[node].num_edges
                <= self.edges_len());
            let e = self.spec_best_edge(node);
            assert(0 <= e < self.edges_len());
            let rest = match self.edge_children@[e] {
                Some(c) => self.spec_pv(c as int, k - 1),
                None => Seq::<int>::empty(),
            };
            match self.edge_children@[e] {
                Some(c) => {
                    assert(c < self.nodes@.len());
                    self.lemma_spec_pv_bounds(c as int, k - 1);
                },
                None => {},
            }
            assert forall|i: int|
                0 <= i < self.spec_pv(node, k).len() implies 0 <= #[trigger] self.spec_pv(
                node,
                k,
            )[i] < self.edges_len() by {
                if i == 0 {
                    assert(self.spec_pv(node, k)[0] == e);
                } else {
                    assert(self.spec_pv(node, k)[i] == rest[i - 1]);
                }
            }
        }
    }

    /// The principal variation from the root: each selected edge's move and
    /// statistics, at most `num_moves` deep.
    pub fn principal_variation(&self, num_moves: usize) -> (r: Vec<MoveInfoHandle<S::Move>>)
        requires
            self.wf(),
        ensures
            r@.len() == self.spec_pv(0, num_moves as int).len(),
            forall|i: int|
                0 <= i < r@.len() ==> {
                    let e = self.spec_pv(0, num_moves as int)[i];
                    &&& (#[trigger] r@[i]).mov == self.edge_movs@[e]
                    &&& r@[i].move_eval == self.edge_priors@[e]
                    &&& r@[i].visits == self.edge_visits@[e]
                    &&& r@[i].sum_rewards == self.edge_sums@[e]
                },
    {
        let ghost pv = self.spec_pv(0, num_moves as int);
        proof {
            self.lemma_spec_pv_bounds(0, num_moves as int);
        }
        let mut r: Vec<MoveInfoHandle<S::Move>> = Vec::new();
        let ghost g: Seq<int> = Seq::empty();
        let mut g = Ghost(g);
        let mut cur: usize = 0;
        let mut active: bool = true;
        while r.len() < num_moves && active
            invariant
                self.wf(),
                cur < self.nodes@.len(),
                r@.len() == g@.len(),
                g@.len() <= num_moves,
                active ==> pv == g@ + self.spec_pv(cur as int, num_moves - g@.len()),
                !active ==> pv == g@,
                pv == self.spec_pv(0, num_moves as int),
                forall|i: int| 0 <= i < g@.len() ==> 0 <= #[trigger] g@[i] < self.edges_len(),
                forall|i: int|
                    0 <= i < r@.len() ==> {
                        let e = g@[i];
                        &&& (#[trigger] r@[i]).mov == self.edge_movs@[e]
                        &&& r@[i].move_eval == self.edge_priors@[e]
                        &&& r@[i].visits == self.edge_visits@[e]
                        &&& r@[i].sum_rewards == self.edge_sums@[e]
                    },
            ensures
                active ==> r@.len() == num_moves,
            decreases num_moves - r@.len(),
        {
            if self.nodes[cur].num_edges == 0 {
                proof {
                    assert(self.spec_pv(cur as int, num_moves - g@.len()) =~= Seq::<int>::empty());
                    assert(pv =~= g@);
                }
                active = false;
                break ;
            }
            let e = self.select_child_after_search(cur);
            r.push(
                MoveInfoHandle {
                    mov: S::clone_move(&self.edge_movs[e]),
                    move_eval: self.edge_priors[e],
                    visits: self.edge_visits[e],
                    sum_rewards: self.edge_sums[e],
                },
            );
            let ghost rem = num_moves - g@.len();
            let ghost tail = match self.edge_children@[e as int] {
                Some(c) => self.spec_pv(c as int, rem - 1),
                None => Seq::<int>::empty(),
            };
            proof {
                assert(self.spec_pv(cur as int, rem) == seq![e as int] + tail);
                assert(g@ + (seq![e as int] + tail) =~= g@.push(e as int) + tail);
            }
            g = Ghost(g@.push(e as int));
            match self.edge_children[e] {
                Some(c) => {
                    cur = c;
                },
                None => {
                    proof {
                        assert(pv =~= g@ + tail);
                        assert(tail =~= Seq::<int>::empty());
                        assert(pv =~= g@);
                    }
                    active = false;
                },
            }
        }
        proof {
            if active {
                assert(self.spec_pv(cur as int, num_moves - g@.len()) =~= Seq::<int>::empty());
                assert(pv =~= g@);
            }
        }
        r
    }
}

/// One principal-variation entry: a move together with the statistics of
/// the edge that carries it.
pub struct MoveInfoHandle<M> {
    pub mov: M,
    pub move_eval: u64,
    pub visits: u64,
    pub sum_rewards: i64,
}

impl<M> MoveInfoHandle<M> {
    pub fn get_move(&self) -> (r: &M)
        ensures
            r == &self.mov,
    {
        &self.mov
    }

    pub fn visits(&self) -> (r: u64)
        ensures
            r == self.visits,
    {
        self.visits
    }

    pub fn sum_rewards(&self) -> (r: i64)
        ensures
            r == self.sum_rewards,
    {
        self.sum_rewards
    }

    pub fn move_eval(&self) -> (r: u64)
        ensures
            r == self.move_eval,
    {
        self.move_eval
    }
}


/// Whether a node index already lies on the current selection path.
fn path_contains(path: &Vec<usize>, x: usize) -> (r: bool)
    ensures
        r == path@.contains(x),
{
    let mut i: usize = 0;
    while i < path.len()
        invariant
            i <= path@.len(),
            forall|j: int| 0 <= j < i ==> path@[j] != x,
        decreases path@.len() - i,
    {
        if path[i] == x {
            return true;
        }
        i = i + 1;
    }
    false
}

pub proof fn lemma_occ_prefix_mono(p: Seq<usize>, e: int, j: int, k: int)
    requires
        0 <= j <= k,
    ensures
        occ_prefix(p, e, j) <= occ_prefix(p, e, k),
    decreases k,
{
    if j < k {
        lemma_occ_prefix_mono(p, e, j, k - 1);
    }
}

pub proof fn lemma_visit_sum_zero(vs: Seq<u64>, start: int, len: int)
    requires
        forall|k: int| start <= k < start + len ==> #[trigger] vs[k] == 0,
    ensures
        visit_sum(vs, start, len) == 0,
    decreases len,
{
    if len > 0 {
        assert(vs[start] == 0);
        lemma_visit_sum_zero(vs, start + 1, len - 1);
    }
}

} // verus!

