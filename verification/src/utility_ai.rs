//! Utility scorer/selector: an ordered list of (scorer, action) pairs per
//! entity, with deterministic selection of the highest-scoring action.
//!
//! Scorers belong to the host — they read the world — so a selection pass
//! hands in one score per consideration, in consideration order, and this
//! module makes the decision: the earliest consideration with the maximal
//! score wins. Ties never displace an earlier winner, because only a
//! strictly greater score replaces the running best.

use vstd::prelude::*;

verus! {

/// An immutable pairing of one scorer and one action. The scorer value is
/// whatever the host uses to compute a score for this pairing each tick;
/// the action is what selection returns.
pub struct Consideration<K, A> {
    pub scorer: K,
    pub action: A,
}

/// Entity component owning an ordered sequence of considerations. Order
/// matters only for the tie-break: first declared wins among equal scores.
pub struct UtilityAi<K, A> {
    pub considerations: Vec<Consideration<K, A>>,
}

/// The index selection picks from a non-empty score list: the first index
/// holding the maximal score. Defined by the same left-to-right pass the
/// implementation makes, where only a strictly greater score replaces the
/// running best.
pub open spec fn best_index(scores: Seq<i64>) -> int
    decreases scores.len(),
{
    if scores.len() <= 1 {
        0
    } else {
        let prev = best_index(scores.drop_last());
        if scores.last() > scores[prev] {
            scores.len() - 1
        } else {
            prev
        }
    }
}

/// `best_index` names the first maximum: it is in range, no score beats
/// it, and every earlier score is strictly below it — so among equal
/// maximal scores the earliest consideration wins.
pub proof fn lemma_best_index_first_max(scores: Seq<i64>)
    requires
        scores.len() > 0,
    ensures
        0 <= best_index(scores) < scores.len(),
        forall|j: int| 0 <= j < scores.len() ==> #[trigger] scores[j] <= scores[best_index(scores)],
        forall|j: int| 0 <= j < best_index(scores) ==> #[trigger] scores[j] < scores[best_index(scores)],
    decreases scores.len(),
{
    if scores.len() > 1 {
        lemma_best_index_first_max(scores.drop_last());
        assert(forall|j: int|
            0 <= j < scores.len() - 1 ==> #[trigger] scores[j] == scores.drop_last()[j]);
    }
}

impl<K, A: Copy> UtilityAi<K, A> {
    /// Select the action of the first consideration with the maximal score.
    /// `scores` holds the host-computed score of each consideration, in
    /// consideration order. Returns `None` exactly when the list of
    /// considerations is empty; otherwise an action is always returned.
    pub fn select_best(&self, scores: &Vec<i64>) -> (result: Option<A>)
        requires
            scores@.len() == self.considerations@.len(),
        ensures
            result is None <==> self.considerations@.len() == 0,
            self.considerations@.len() > 0 ==> result == Some(
                self.considerations@[best_index(scores@)].action,
            ),
    {
        let mut best: Option<usize> = None;
        let mut best_score: i64 = 0;
        let mut k: usize = 0;
        while k < scores.len()
            invariant
                k <= scores@.len(),
                scores@.len() == self.considerations@.len(),
                k == 0 ==> best is None,
                k > 0 ==> best == Some(best_index(scores@.subrange(0, k as int)) as usize),
                k > 0 ==> 0 <= best_index(scores@.subrange(0, k as int)) < k,
                k > 0 ==> best_score == scores@[best_index(scores@.subrange(0, k as int))],
            decreases scores@.len() - k,
        {
            let ghost prefix = scores@.subrange(0, k as int);
            let ghost extended = scores@.subrange(0, k + 1int);
            proof {
                assert(extended.drop_last() =~= prefix);
                assert(extended.last() == scores@[k as int]);
                if k > 0 {
                    lemma_best_index_first_max(prefix);
                }
            }
            let score = scores[k];
            match best {
                Option::None => {
                    best = Some(k);
                    best_score = score;
                },
                Option::Some(_) => {
                    if score > best_score {
                        best = Some(k);
                        best_score = score;
                    }
                },
            }
            k = k + 1;
        }
        proof {
            if scores@.len() > 0 {
                assert(scores@.subrange(0, scores@.len() as int) =~= scores@);
                lemma_best_index_first_max(scores@);
            }
        }
        match best {
            Option::None => Option::None,
            Option::Some(i) => Some(self.considerations[i].action),
        }
    }
}

} // verus!
