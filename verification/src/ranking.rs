//! Candidate selection: which nodes may receive offloaded work, and in which
//! order.

use vstd::prelude::*;

use crate::model::{NodeContext, NodeTier};
use crate::scoring::{
    calculate_effective_opi,
    effective_num,
    lemma_ranking_is_transitive,
    ranks_at_least,
    EffectiveScore,
};

verus! {

/// The load, in ratio units, above which a node is too busy to be a candidate:
/// 0.9.
pub const CANDIDATE_MAX_LOAD: u32 = 9_000;

/// Whether a node may receive offloaded work: its user consents, it is not
/// offline, neither of its loads is above 0.9, it is not quarantined, and its
/// effective score is greater than zero.
pub open spec fn eligible(node: NodeContext) -> bool {
    &&& node.user_allowed
    &&& node.current_tier != NodeTier::Offline
    &&& node.cpu_load <= CANDIDATE_MAX_LOAD
    &&& node.gpu_load <= CANDIDATE_MAX_LOAD
    &&& !node.is_quarantined
    &&& effective_num(node) > 0
}

/// Whether `order` ranks the candidates among `nodes`.
///
/// `order` holds positions in `nodes`: those of the eligible nodes, all of
/// them, the higher effective score first, and of two nodes with the same
/// effective score the one that stands first in `nodes`. There is one such
/// order for every `nodes`.
pub open spec fn is_ranking(nodes: Seq<NodeContext>, order: Seq<usize>) -> bool {
    &&& forall|i: int|
        0 <= i < order.len() ==> (#[trigger] order[i]) < nodes.len() && eligible(
            nodes[order[i] as int],
        )
    &&& forall|k: int|
        0 <= k < nodes.len() && eligible(#[trigger] nodes[k]) ==> exists|i: int|
            0 <= i < order.len() && #[trigger] order[i] == k
    &&& forall|i: int, j: int|
        0 <= i < j < order.len() ==> ranks_at_least(
            nodes[#[trigger] order[i] as int],
            nodes[#[trigger] order[j] as int],
        )
    &&& forall|i: int, j: int|
        0 <= i < j < order.len() && ranks_at_least(
            nodes[#[trigger] order[j] as int],
            nodes[#[trigger] order[i] as int],
        ) ==> order[i] < order[j]
}

/// The effective score of a node where the node is eligible, and `None` where
/// it is not.
pub fn candidate_score(node: &NodeContext) -> (found: Option<EffectiveScore>)
    ensures
        found is Some <==> eligible(*node),
        found matches Some(score) ==> score.is_score_of(*node) && score.wf(),
{
    if !node.user_allowed || node.current_tier == NodeTier::Offline {
        return None;
    }
    if node.cpu_load > CANDIDATE_MAX_LOAD || node.gpu_load > CANDIDATE_MAX_LOAD {
        return None;
    }
    if node.is_quarantined {
        return None;
    }
    let score = calculate_effective_opi(node);
    if !score.is_positive() {
        return None;
    }
    Some(score)
}

/// Ranks the candidates among `nodes`: the positions of the eligible nodes,
/// the highest effective score first.
pub fn rank_candidates(nodes: &Vec<NodeContext>) -> (order: Vec<usize>)
    ensures
        is_ranking(nodes@, order@),
{
    let mut order: Vec<usize> = Vec::new();
    let mut scores: Vec<EffectiveScore> = Vec::new();
    let mut k: usize = 0;
    while k < nodes.len()
        invariant
            k <= nodes.len(),
            order.len() == scores.len(),
            forall|i: int|
                0 <= i < order.len() ==> (#[trigger] order[i]) < k && eligible(
                    nodes[order[i] as int],
                ) && scores[i].is_score_of(nodes[order[i] as int]) && scores[i].wf(),
            forall|m: int|
                0 <= m < k && eligible(#[trigger] nodes[m]) ==> exists|i: int|
                    0 <= i < order.len() && #[trigger] order[i] == m,
            forall|i: int, j: int|
                0 <= i < j < order.len() ==> ranks_at_least(
                    nodes[#[trigger] order[i] as int],
                    nodes[#[trigger] order[j] as int],
                ),
            forall|i: int, j: int|
                0 <= i < j < order.len() && ranks_at_least(
                    nodes[#[trigger] order[j] as int],
                    nodes[#[trigger] order[i] as int],
                ) ==> order[i] < order[j],
        decreases nodes.len() - k,
    {
        match candidate_score(&nodes[k]) {
            None => {},
            Some(score) => {
                let mut p: usize = order.len();
                while p > 0 && !scores[p - 1].is_at_least(&score)
                    invariant
                        p <= order.len(),
                        k < nodes.len(),
                        order.len() == scores.len(),
                        score.is_score_of(nodes[k as int]),
                        score.wf(),
                        forall|i: int|
                            #![trigger order[i]]
                            #![trigger scores[i]]
                            0 <= i < order.len() ==> order[i] < k && scores[i].is_score_of(
                                nodes[order[i] as int],
                            ) && scores[i].wf(),
                        forall|i: int|
                            p <= i < order.len() ==> !ranks_at_least(
                                nodes[#[trigger] order[i] as int],
                                nodes[k as int],
                            ),
                    decreases p,
                {
                    p -= 1;
                }
                let ghost before = order@;
                let ghost scores_before = scores@;
                order.insert(p, k);
                scores.insert(p, score);
                proof {
                    lemma_insertion_keeps_ranking(nodes@, before, scores_before, p as int, k, score);
                }
            },
        }
        k += 1;
    }
    order
}

proof fn lemma_insertion_keeps_ranking(
    nodes: Seq<NodeContext>,
    before: Seq<usize>,
    scores_before: Seq<EffectiveScore>,
    p: int,
    k: usize,
    score: EffectiveScore,
)
    requires
        k < nodes.len(),
        0 <= p <= before.len(),
        before.len() == scores_before.len(),
        eligible(nodes[k as int]),
        score.is_score_of(nodes[k as int]),
        score.wf(),
        forall|i: int|
            0 <= i < before.len() ==> (#[trigger] before[i]) < k && eligible(
                nodes[before[i] as int],
            ) && scores_before[i].is_score_of(nodes[before[i] as int]) && scores_before[i].wf(),
        forall|m: int|
            0 <= m < k && eligible(#[trigger] nodes[m]) ==> exists|i: int|
                0 <= i < before.len() && #[trigger] before[i] == m,
        forall|i: int, j: int|
            0 <= i < j < before.len() ==> ranks_at_least(
                nodes[#[trigger] before[i] as int],
                nodes[#[trigger] before[j] as int],
            ),
        forall|i: int, j: int|
            0 <= i < j < before.len() && ranks_at_least(
                nodes[#[trigger] before[j] as int],
                nodes[#[trigger] before[i] as int],
            ) ==> before[i] < before[j],
        forall|i: int|
            p <= i < before.len() ==> !ranks_at_least(
                nodes[#[trigger] before[i] as int],
                nodes[k as int],
            ),
        p > 0 ==> ranks_at_least(nodes[before[p - 1] as int], nodes[k as int]),
    ensures
        ({
            let order = before.insert(p, k);
            let scores = scores_before.insert(p, score);
            &&& order.len() == scores.len()
            &&& forall|i: int|
                0 <= i < order.len() ==> (#[trigger] order[i]) < k + 1 && eligible(
                    nodes[order[i] as int],
                ) && scores[i].is_score_of(nodes[order[i] as int]) && scores[i].wf()
            &&& forall|m: int|
                0 <= m < k + 1 && eligible(#[trigger] nodes[m]) ==> exists|i: int|
                    0 <= i < order.len() && #[trigger] order[i] == m
            &&& forall|i: int, j: int|
                0 <= i < j < order.len() ==> ranks_at_least(
                    nodes[#[trigger] order[i] as int],
                    nodes[#[trigger] order[j] as int],
                )
            &&& forall|i: int, j: int|
                0 <= i < j < order.len() && ranks_at_least(
                    nodes[#[trigger] order[j] as int],
                    nodes[#[trigger] order[i] as int],
                ) ==> order[i] < order[j]
        }),
{
    let order = before.insert(p, k);
    let scores = scores_before.insert(p, score);
    before.insert_ensures(p, k);
    scores_before.insert_ensures(p, score);
    // Where each position of the new order comes from.
    assert forall|i: int| 0 <= i < order.len() implies (if i < p {
        order[i] == before[i] && scores[i] == scores_before[i]
    } else if i == p {
        order[i] == k && scores[i] == score
    } else {
        order[i] == before[i - 1] && scores[i] == scores_before[i - 1]
    }) by {
        if i > p {
            assert(order[(i - 1) + 1] == before[i - 1]);
            assert(scores[(i - 1) + 1] == scores_before[i - 1]);
        }
    }
    assert forall|i: int| 0 <= i < order.len() implies (#[trigger] order[i]) < k + 1 && eligible(
        nodes[order[i] as int],
    ) && scores[i].is_score_of(nodes[order[i] as int]) && scores[i].wf() by {
        if i > p {
            assert(before[i - 1] < k);
        } else if i < p {
            assert(before[i] < k);
        }
    }
    assert forall|m: int| 0 <= m < k + 1 && eligible(#[trigger] nodes[m]) implies exists|i: int|
        0 <= i < order.len() && #[trigger] order[i] == m by {
        if m == k {
            assert(order[p] == m);
        } else {
            let i0 = choose|i: int| 0 <= i < before.len() && #[trigger] before[i] == m;
            if i0 < p {
                assert(order[i0] == m);
            } else {
                assert(order[i0 + 1] == m);
            }
        }
    }
    // Everything before the new entry ranks at least as high as it does.
    assert forall|i: int| 0 <= i < p implies ranks_at_least(
        nodes[#[trigger] before[i] as int],
        nodes[k as int],
    ) by {
        if i < p - 1 {
            assert(ranks_at_least(nodes[before[i] as int], nodes[before[p - 1] as int]));
            lemma_ranking_is_transitive(
                nodes[before[i] as int],
                nodes[before[p - 1] as int],
                nodes[k as int],
            );
        }
    }
    assert forall|i: int, j: int| 0 <= i < j < order.len() implies ranks_at_least(
        nodes[#[trigger] order[i] as int],
        nodes[#[trigger] order[j] as int],
    ) by {
        let bi = if i < p { i } else { i - 1 };
        let bj = if j < p { j } else { j - 1 };
        if i == p {
            assert(!ranks_at_least(nodes[before[bj] as int], nodes[k as int]));
        } else if j == p {
            assert(ranks_at_least(nodes[before[bi] as int], nodes[k as int]));
        } else {
            assert(ranks_at_least(nodes[before[bi] as int], nodes[before[bj] as int]));
        }
    }
    assert forall|i: int, j: int|
        0 <= i < j < order.len() && ranks_at_least(
            nodes[#[trigger] order[j] as int],
            nodes[#[trigger] order[i] as int],
        ) implies order[i] < order[j] by {
        let bi = if i < p { i } else { i - 1 };
        let bj = if j < p { j } else { j - 1 };
        if i == p {
            assert(!ranks_at_least(nodes[before[bj] as int], nodes[k as int]));
        } else if j == p {
            assert(before[bi] < k);
        } else {
            assert(ranks_at_least(nodes[before[bj] as int], nodes[before[bi] as int]));
            assert(before[bi] < before[bj]);
        }
    }
}

/// There is one ranking: two orders that rank the candidates among the same
/// nodes are the same order.
pub proof fn lemma_ranking_is_unique(nodes: Seq<NodeContext>, a: Seq<usize>, b: Seq<usize>)
    requires
        is_ranking(nodes, a),
        is_ranking(nodes, b),
    ensures
        a == b,
{
    if a.len() <= b.len() {
        lemma_rankings_agree(nodes, a, b, a.len() as int);
        lemma_no_longer_ranking(nodes, a, b);
    } else {
        lemma_rankings_agree(nodes, a, b, b.len() as int);
        lemma_no_longer_ranking(nodes, b, a);
    }
    assert(a =~= b);
}

/// No position stands twice in a ranking.
proof fn lemma_ranking_has_no_duplicates(nodes: Seq<NodeContext>, order: Seq<usize>, i: int, j: int)
    requires
        is_ranking(nodes, order),
        0 <= i < order.len(),
        0 <= j < order.len(),
        i != j,
    ensures
        order[i] != order[j],
{
    if order[i] == order[j] {
        if i < j {
            assert(ranks_at_least(nodes[order[j] as int], nodes[order[i] as int]));
        } else {
            assert(ranks_at_least(nodes[order[i] as int], nodes[order[j] as int]));
        }
    }
}

/// Two rankings of the same nodes agree on their first `n` positions.
proof fn lemma_rankings_agree(nodes: Seq<NodeContext>, a: Seq<usize>, b: Seq<usize>, n: int)
    requires
        is_ranking(nodes, a),
        is_ranking(nodes, b),
        0 <= n <= a.len(),
        n <= b.len(),
    ensures
        forall|i: int| 0 <= i < n ==> a[i] == b[i],
    decreases n,
{
    if n > 0 {
        lemma_rankings_agree(nodes, a, b, n - 1);
        let i = n - 1;
        assert(eligible(nodes[b[i] as int]));
        let j = choose|j: int| 0 <= j < a.len() && #[trigger] a[j] == b[i] as int;
        assert(eligible(nodes[a[i] as int]));
        let m = choose|m: int| 0 <= m < b.len() && #[trigger] b[m] == a[i] as int;
        if j < i {
            assert(a[j] == b[j]);
            lemma_ranking_has_no_duplicates(nodes, b, j, i);
        }
        if m < i {
            assert(a[m] == b[m]);
            lemma_ranking_has_no_duplicates(nodes, a, m, i);
        }
        if j > i && m > i {
            assert(ranks_at_least(nodes[a[i] as int], nodes[a[j] as int]));
            assert(ranks_at_least(nodes[b[i] as int], nodes[b[m] as int]));
            assert(a[i] < a[j]);
            assert(b[i] < b[m]);
        }
    }
}

/// Of two rankings that agree as far as the shorter one goes, neither is the
/// longer.
proof fn lemma_no_longer_ranking(nodes: Seq<NodeContext>, short: Seq<usize>, long: Seq<usize>)
    requires
        is_ranking(nodes, short),
        is_ranking(nodes, long),
        short.len() <= long.len(),
        forall|i: int| 0 <= i < short.len() ==> short[i] == long[i],
    ensures
        short.len() == long.len(),
{
    if short.len() < long.len() {
        let n = short.len() as int;
        assert(eligible(nodes[long[n] as int]));
        let j = choose|j: int| 0 <= j < short.len() && #[trigger] short[j] == long[n] as int;
        assert(short[j] == long[j]);
        lemma_ranking_has_no_duplicates(nodes, long, j, n);
    }
}

} // verus!
