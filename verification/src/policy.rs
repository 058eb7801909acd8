//! The tree policy: which child edge a playout descends.

use vstd::prelude::*;
use crate::SCALE;
use crate::PRIOR_SCALE;
use crate::traits::MAX_STEPS;

verus! {

/// A snapshot of one edge's statistics, taken before the policy runs.
#[derive(Clone, Copy, Debug, PartialEq, Eq, Structural)]
pub struct EdgeStats {
    /// The evaluator's prior for the edge, in `[0, PRIOR_SCALE]`.
    pub prior: u64,
    /// How often the edge has been traversed.
    pub visits: u64,
    /// Sum of the rewards backed up through the edge.
    pub sum_rewards: i64,
}

/// The numeric ranges under which a policy's arithmetic stays exact.
pub open spec fn stats_bounded(stats: Seq<EdgeStats>) -> bool {
    forall|i: int|
        0 <= i < stats.len() ==> {
            &&& #[trigger] stats[i].visits <= MAX_STEPS
            &&& stats[i].prior <= PRIOR_SCALE
            &&& -4_000_000 * (stats[i].visits + 1) <= stats[i].sum_rewards <= 4_000_000 * (stats[i].visits + 1)
        }
}

/// A deterministic rule that selects one edge from a node's children, given
/// each edge's snapshot and the parent's aggregate visit count.
pub trait TreePolicy: Sized {
    /// Ranges the policy asks of its own parameters.
    spec fn policy_wf(&self) -> bool;

    /// The index the policy chooses: the choice is a function of the
    /// snapshot alone.
    spec fn spec_choice(&self, stats: Seq<EdgeStats>, parent_visits: u64) -> int;

    fn choose_child(&self, stats: &Vec<EdgeStats>, parent_visits: u64) -> (r: usize)
        requires
            stats@.len() > 0,
            self.policy_wf(),
            stats_bounded(stats@),
            parent_visits <= MAX_STEPS + 1,
        ensures
            r < stats@.len(),
            r as int == self.spec_choice(stats@, parent_visits),
    ;
}

/// Largest exploration coefficient a `PuctPolicy` may be built with.
pub const EXPLORATION_CAP: u64 = 1_000_000_000;

/// A PUCT-style upper-confidence policy: the score of an edge is its mean
/// reward (shifted to be non-negative) plus an exploration bonus
/// proportional to `prior * sqrt(parent_visits) / (1 + visits)`.
#[derive(Clone, Copy, Debug)]
pub struct PuctPolicy {
    /// Exploration coefficient, in the same fixed-point unit as rewards.
    pub exploration: u64,
}

/// The integer square root, as the unique `r >= 0` with
/// `r * r <= n < (r + 1) * (r + 1)`.
pub open spec fn spec_isqrt(n: int) -> int {
    choose|r: int| 0 <= r && #[trigger] (r * r) <= n < (r + 1) * (r + 1)
}

pub proof fn lemma_isqrt_unique(n: int, r: int)
    requires
        0 <= r,
        r * r <= n < (r + 1) * (r + 1),
    ensures
        spec_isqrt(n) == r,
{
    assert(0 <= r && r * r <= n < (r + 1) * (r + 1));
    let s = spec_isqrt(n);
    assert(0 <= s && s * s <= n < (s + 1) * (s + 1));
    if s < r {
        assert((s + 1) * (s + 1) <= r * r) by (nonlinear_arith)
            requires
                0 <= s,
                s < r,
        ;
        assert(false);
    }
    if r < s {
        assert((r + 1) * (r + 1) <= s * s) by (nonlinear_arith)
            requires
                0 <= r,
                r < s,
        ;
        assert(false);
    }
}

/// Binary search for the integer square root.
pub fn isqrt(n: u64) -> (r: u64)
    ensures
        r as int * r as int <= n as int,
        (n as int) < (r as int + 1) * (r as int + 1),
        r as int == spec_isqrt(n as int),
        r < 0x1_0000_0000u64,
{
    let mut lo: u64 = 0;
    let mut hi: u64 = 0x1_0000_0000;
    assert((n as int) < (hi as int) * (hi as int)) by (nonlinear_arith)
        requires
            n <= u64::MAX,
            hi == 0x1_0000_0000u64,
    ;
    while lo + 1 < hi
        invariant
            lo < hi <= 0x1_0000_0000u64,
            lo as int * lo as int <= n as int,
            (n as int) < (hi as int) * (hi as int),
        decreases hi - lo,
    {
        let mid = lo + (hi - lo) / 2;
        proof {
            vstd::arithmetic::mul::lemma_mul_upper_bound(
                mid as int,
                0x1_0000_0000,
                mid as int,
                0x1_0000_0000,
            );
        }
        if (mid as u128) * (mid as u128) <= n as u128 {
            lo = mid;
        } else {
            hi = mid;
        }
    }
    proof {
        lemma_isqrt_unique(n as int, lo as int);
    }
    lo
}

impl PuctPolicy {
    pub fn new(exploration: u64) -> (r: PuctPolicy)
        requires
            exploration <= EXPLORATION_CAP,
        ensures
            r.policy_wf(),
            r.exploration == exploration,
    {
        PuctPolicy { exploration }
    }

    /// The score of one edge, over mathematical integers.
    pub open spec fn spec_score(self, s: EdgeStats, parent_visits: u64) -> int {
        let exploit = (s.sum_rewards + 4_000_000 * (s.visits + 1)) / (s.visits + 1);
        let explore = (self.exploration * s.prior * spec_isqrt(parent_visits as int)) / ((1 + s.visits)
            * (PRIOR_SCALE as int));
        exploit + explore
    }

    /// The first index among `[0, upto)` whose score is maximal.
    pub open spec fn spec_best(self, stats: Seq<EdgeStats>, parent_visits: u64, upto: int) -> int
        decreases upto,
    {
        if upto <= 1 {
            0
        } else {
            let prev = self.spec_best(stats, parent_visits, upto - 1);
            if self.spec_score(stats[upto - 1], parent_visits) > self.spec_score(
                stats[prev],
                parent_visits,
            ) {
                upto - 1
            } else {
                prev
            }
        }
    }

    /// The edge score, computed exactly in wide integers.
    fn score(&self, s: EdgeStats, sqrt_parent: u64, parent_visits: u64) -> (r: u128)
        requires
            self.policy_wf(),
            s.visits <= MAX_STEPS,
            s.prior <= PRIOR_SCALE,
            -4_000_000 * (s.visits + 1) <= s.sum_rewards <= 4_000_000 * (s.visits
                + 1),
            sqrt_parent as int == spec_isqrt(parent_visits as int),
            sqrt_parent <= 0x1_0000_0000u64,
        ensures
            r as int == self.spec_score(s, parent_visits),
    {
        let shifted: i128 = s.sum_rewards as i128 + 4_000_000 * (s.visits as i128 + 1);
        assert(shifted >= 0);
        let exploit: u128 = (shifted as u128) / (s.visits as u128 + 1);
        proof {
            assert((self.exploration as int) * (s.prior as int) <= (EXPLORATION_CAP as int) * (
            PRIOR_SCALE as int)) by (nonlinear_arith)
                requires
                    self.exploration <= EXPLORATION_CAP,
                    s.prior <= PRIOR_SCALE,
            ;
            assert((self.exploration as int) * (s.prior as int) * (sqrt_parent as int) <= (
            EXPLORATION_CAP as int) * (PRIOR_SCALE as int) * 0x1_0000_0000) by (nonlinear_arith)
                requires
                    0 <= (self.exploration as int) * (s.prior as int) <= (EXPLORATION_CAP as int) * (
                    PRIOR_SCALE as int),
                    sqrt_parent <= 0x1_0000_0000u64,
            ;
            assert((1 + s.visits as int) * (PRIOR_SCALE as int) <= (1 + MAX_STEPS as int) * (
            PRIOR_SCALE as int)) by (nonlinear_arith)
                requires
                    s.visits <= MAX_STEPS,
            ;
        }
        let explore_num: u128 = (self.exploration as u128) * (s.prior as u128) * (sqrt_parent
            as u128);
        let explore_den: u128 = (1 + s.visits as u128) * (PRIOR_SCALE as u128);
        let explore: u128 = explore_num / explore_den;
        proof {
            vstd::arithmetic::div_mod::lemma_div_is_ordered_by_denominator(
                explore_num as int,
                1,
                explore_den as int,
            );
            vstd::arithmetic::div_mod::lemma_div_is_ordered_by_denominator(
                shifted as int,
                1,
                s.visits as int + 1,
            );
        }
        exploit + explore
    }
}

impl TreePolicy for PuctPolicy {
    open spec fn policy_wf(&self) -> bool {
        self.exploration <= EXPLORATION_CAP
    }

    open spec fn spec_choice(&self, stats: Seq<EdgeStats>, parent_visits: u64) -> int {
        self.spec_best(stats, parent_visits, stats.len() as int)
    }

    fn choose_child(&self, stats: &Vec<EdgeStats>, parent_visits: u64) -> (r: usize)
    {
        let sqrt_parent = isqrt(parent_visits);
        let mut best: usize = 0;
        let mut best_score: u128 = self.score(stats[0], sqrt_parent, parent_visits);
        let mut i: usize = 1;
        while i < stats.len()
            invariant
                1 <= i <= stats@.len(),
                best < i,
                self.policy_wf(),
                stats_bounded(stats@),
                parent_visits <= MAX_STEPS + 1,
                sqrt_parent as int == spec_isqrt(parent_visits as int),
                sqrt_parent <= 0x1_0000_0000u64,
                best as int == self.spec_best(stats@, parent_visits, i as int),
                best_score as int == self.spec_score(stats@[best as int], parent_visits),
            decreases stats@.len() - i,
        {
            let sc = self.score(stats[i], sqrt_parent, parent_visits);
            if sc > best_score {
                best = i;
                best_score = sc;
            }
            i = i + 1;
        }
        best
    }
}

} // verus!
