//! Ranking of columns by descending score. Columns of equal score keep the
//! order of their indices.

use vstd::prelude::*;
use crate::scoring::as_nats;

verus! {

/// Whether column `a` stands before column `b` in the ranking: it scores
/// more, or it scores the same and has the smaller index.
pub open spec fn precedes(scores: Seq<nat>, a: int, b: int) -> bool {
    scores[a] > scores[b] || (scores[a] == scores[b] && a < b)
}

/// Whether `order` ranks the columns of `scores`: it holds every column
/// index once, each before all those that it precedes.
pub open spec fn is_ranking(scores: Seq<nat>, order: Seq<usize>) -> bool {
    &&& order.len() == scores.len()
    &&& forall|i: int| 0 <= i < order.len() ==> (#[trigger] order[i]) < scores.len()
    &&& forall|c: usize| c < scores.len() ==> #[trigger] order.contains(c)
    &&& forall|i: int, j: int|
        0 <= i < j < order.len() ==> precedes(scores, #[trigger] order[i] as int, #[trigger] order[j] as int)
}

/// The ranking of the columns of `scores`.
pub open spec fn ranking_of(scores: Seq<nat>) -> Seq<usize> {
    choose|order: Seq<usize>| is_ranking(scores, order)
}

/// Two rankings of the same scores agree on their first `k` entries.
proof fn lemma_rankings_agree(scores: Seq<nat>, a: Seq<usize>, b: Seq<usize>, k: int)
    requires
        is_ranking(scores, a),
        is_ranking(scores, b),
        0 <= k <= scores.len(),
    ensures
        forall|i: int| 0 <= i < k ==> a[i] == b[i],
    decreases k,
{
    if k > 0 {
        lemma_rankings_agree(scores, a, b, k - 1);
        let x = a[k - 1];
        let y = b[k - 1];
        if x != y {
            if precedes(scores, x as int, y as int) {
                assert(b.contains(x));
                let j = choose|j: int| 0 <= j < b.len() && b[j] == x;
                if j < k - 1 {
                    assert(precedes(scores, a[j] as int, a[k - 1] as int));
                } else {
                    assert(precedes(scores, b[k - 1] as int, b[j] as int));
                }
            } else {
                assert(a.contains(y));
                let j = choose|j: int| 0 <= j < a.len() && a[j] == y;
                if j < k - 1 {
                    assert(precedes(scores, b[j] as int, b[k - 1] as int));
                } else {
                    assert(precedes(scores, a[k - 1] as int, a[j] as int));
                }
            }
        }
    }
}

/// The scores admit one ranking only.
pub proof fn lemma_ranking_unique(scores: Seq<nat>, a: Seq<usize>, b: Seq<usize>)
    requires
        is_ranking(scores, a),
        is_ranking(scores, b),
    ensures
        a == b,
{
    lemma_rankings_agree(scores, a, b, scores.len() as int);
    assert(a =~= b);
}

/// Ranks the columns by descending score; columns of equal score stay in the
/// order of their indices.
pub fn rank_columns(scores: &Vec<u64>) -> (order: Vec<usize>)
    ensures
        is_ranking(as_nats(scores@), order@),
        order@ == ranking_of(as_nats(scores@)),
{
    let n: usize = scores.len();
    let ghost all = as_nats(scores@);
    let mut order: Vec<usize> = Vec::new();
    let mut c: usize = 0;
    while c < n
        invariant
            c <= n,
            n == scores.len(),
            all == as_nats(scores@),
            is_ranking(all.take(c as int), order@),
        decreases n - c,
    {
        let mut p: usize = 0;
        while p < order.len() && scores[order[p]] >= scores[c]
            invariant
                p <= order.len(),
                c < n,
                n == scores.len(),
                all == as_nats(scores@),
                is_ranking(all.take(c as int), order@),
                forall|i: int| 0 <= i < p ==> all[order[i] as int] >= all[c as int],
            decreases order.len() - p,
        {
            p += 1;
        }
        let ghost before = order@;
        order.insert(p, c);
        proof {
            let now = order@;
            let prev = all.take(c as int);
            let next = all.take(c + 1);
            assert(now.len() == c + 1);
            assert forall|i: int| 0 <= i < now.len() implies (#[trigger] now[i]) < next.len() by {
                if i < p {
                    assert(now[i] == before[i]);
                } else if i > p {
                    assert(now[i] == before[i - 1]);
                }
            }
            assert forall|d: usize| d < next.len() implies #[trigger] now.contains(d) by {
                if d == c {
                    assert(now[p as int] == d);
                } else {
                    assert(before.contains(d));
                    let i = choose|i: int| 0 <= i < before.len() && before[i] == d;
                    if i < p {
                        assert(now[i] == d);
                    } else {
                        assert(now[i + 1] == d);
                    }
                }
            }
            assert forall|i: int, j: int| 0 <= i < j < now.len() implies precedes(
                next,
                #[trigger] now[i] as int,
                #[trigger] now[j] as int,
            ) by {
                let bi = if i < p {
                    i
                } else {
                    i - 1
                };
                let bj = if j < p {
                    j
                } else {
                    j - 1
                };
                if i != p && j != p {
                    assert(now[i] == before[bi]);
                    assert(now[j] == before[bj]);
                    assert(precedes(prev, before[bi] as int, before[bj] as int));
                } else if i == p {
                    assert(now[j] == before[bj]);
                    assert(before[bj] < c);
                    if bj > p {
                        assert(precedes(prev, before[p as int] as int, before[bj] as int));
                    }
                } else {
                    assert(now[i] == before[bi]);
                    assert(before[bi] < c);
                }
            }
        }
        c += 1;
    }
    proof {
        assert(all.take(n as int) =~= all);
        lemma_ranking_unique(all, order@, ranking_of(all));
    }
    order
}

} // verus!
