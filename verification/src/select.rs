//! Which handler result a routing strategy picks, given the confidences that
//! the handlers reported, in handler order.

use vstd::prelude::*;

use crate::confidence::Confidence;
use crate::router::RoutingStrategy;

verus! {

/// Result `i` reaches the threshold, and no earlier result does.
pub open spec fn is_first_match(confs: Seq<Confidence>, threshold: Confidence, i: int) -> bool {
    &&& 0 <= i < confs.len()
    &&& confs[i] >= threshold
    &&& forall|j: int| 0 <= j < i ==> confs[j] < threshold
}

/// Among the first `n` results, result `i` reaches the threshold with the highest
/// confidence, and it is the earliest one with that confidence.
pub open spec fn is_highest_among(confs: Seq<Confidence>, threshold: Confidence, i: int, n: int) -> bool {
    &&& 0 <= i < n <= confs.len()
    &&& confs[i] >= threshold
    &&& forall|j: int| 0 <= j < n && confs[j] >= threshold ==> confs[j] <= confs[i]
    &&& forall|j: int| 0 <= j < i && confs[j] >= threshold ==> confs[j] < confs[i]
}

/// Result `i` reaches the threshold with the highest confidence of all results,
/// and no earlier result has that confidence.
pub open spec fn is_highest_score(confs: Seq<Confidence>, threshold: Confidence, i: int) -> bool {
    is_highest_among(confs, threshold, i, confs.len() as int)
}

/// No result reaches the threshold.
pub open spec fn none_pass(confs: Seq<Confidence>, threshold: Confidence) -> bool {
    forall|j: int| 0 <= j < confs.len() ==> confs[j] < threshold
}

/// `choice` is what `strategy` picks from `confs`: the index of the winning result,
/// or `None` when the router has to fall back.
pub open spec fn selects(
    strategy: RoutingStrategy,
    confs: Seq<Confidence>,
    threshold: Confidence,
    choice: Option<int>,
) -> bool {
    match choice {
        Some(i) => match strategy {
            RoutingStrategy::FirstMatch => is_first_match(confs, threshold, i),
            _ => is_highest_score(confs, threshold, i),
        },
        None => none_pass(confs, threshold),
    }
}

/// An index returned by an executable function, as a mathematical integer.
pub open spec fn index_of(r: Option<usize>) -> Option<int> {
    match r {
        Some(i) => Some(i as int),
        None => None,
    }
}

/// Whether a result of confidence `candidate` replaces the best one so far
/// (`best`) under the highest-score strategy.
pub open spec fn improves(best: Option<Confidence>, candidate: Confidence, threshold: Confidence) -> bool {
    candidate >= threshold && match best {
        Some(b) => candidate > b,
        None => true,
    }
}

/// The index of the first confidence that reaches `threshold`, if any.
pub fn first_match_index(confidences: &[Confidence], threshold: Confidence) -> (r: Option<usize>)
    ensures
        selects(RoutingStrategy::FirstMatch, confidences@, threshold, index_of(r)),
{
    let n = confidences.len();
    let mut k: usize = 0;
    while k < n
        invariant
            n == confidences@.len(),
            k <= n,
            forall|j: int| 0 <= j < k ==> confidences@[j] < threshold,
        decreases n - k,
    {
        if confidences[k] >= threshold {
            return Some(k);
        }
        k = k + 1;
    }
    None
}

/// The index of the highest confidence that reaches `threshold`; of equal
/// confidences the earliest wins.
pub fn highest_score_index(confidences: &[Confidence], threshold: Confidence) -> (r: Option<usize>)
    ensures
        selects(RoutingStrategy::HighestScore, confidences@, threshold, index_of(r)),
{
    let n = confidences.len();
    let mut best: Option<usize> = None;
    let mut k: usize = 0;
    while k < n
        invariant
            n == confidences@.len(),
            k <= n,
            match best {
                Some(b) => is_highest_among(confidences@, threshold, b as int, k as int),
                None => forall|j: int| 0 <= j < k ==> confidences@[j] < threshold,
            },
        decreases n - k,
    {
        let c = confidences[k];
        let replace = match best {
            Some(b) => c >= threshold && c > confidences[b],
            None => c >= threshold,
        };
        if replace {
            best = Some(k);
        }
        k = k + 1;
    }
    best
}

/// The index that `strategy` picks from `confidences`, or `None` when none reaches
/// `threshold`. The weighted vote currently picks as the highest score does.
pub fn select_index(strategy: RoutingStrategy, confidences: &[Confidence], threshold: Confidence) -> (r:
    Option<usize>)
    ensures
        selects(strategy, confidences@, threshold, index_of(r)),
{
    match strategy {
        RoutingStrategy::FirstMatch => first_match_index(confidences, threshold),
        RoutingStrategy::HighestScore => highest_score_index(confidences, threshold),
        RoutingStrategy::WeightedVote => highest_score_index(confidences, threshold),
    }
}

/// Each strategy picks at most one result: what it selects is determined by the
/// confidences and the threshold.
pub proof fn selection_is_unique(
    strategy: RoutingStrategy,
    confs: Seq<Confidence>,
    threshold: Confidence,
    a: Option<int>,
    b: Option<int>,
)
    requires
        selects(strategy, confs, threshold, a),
        selects(strategy, confs, threshold, b),
    ensures
        a == b,
{
    match (a, b) {
        (Some(i), Some(j)) => {
            if i != j {
                match strategy {
                    RoutingStrategy::FirstMatch => {
                        if i < j {
                            assert(confs[i] < threshold);
                        } else {
                            assert(confs[j] < threshold);
                        }
                    },
                    _ => {
                        assert(confs[i] <= confs[j]);
                        assert(confs[j] <= confs[i]);
                    },
                }
            }
        },
        (Some(i), None) => {
            assert(confs[i] < threshold);
        },
        (None, Some(j)) => {
            assert(confs[j] < threshold);
        },
        (None, None) => {},
    }
}

proof fn first_match_exists(confs: Seq<Confidence>, threshold: Confidence)
    requires
        !none_pass(confs, threshold),
    ensures
        exists|i: int| is_first_match(confs, threshold, i),
    decreases confs.len(),
{
    let prefix = confs.drop_last();
    if none_pass(prefix, threshold) {
        let i = confs.len() - 1;
        assert(forall|j: int| 0 <= j < i ==> confs[j] == prefix[j]);
        assert(is_first_match(confs, threshold, i));
    } else {
        first_match_exists(prefix, threshold);
        let i = choose|i: int| is_first_match(prefix, threshold, i);
        assert(forall|j: int| 0 <= j < prefix.len() ==> confs[j] == prefix[j]);
        assert(is_first_match(confs, threshold, i));
    }
}

proof fn highest_score_exists(confs: Seq<Confidence>, threshold: Confidence, n: int)
    requires
        0 <= n <= confs.len(),
        exists|j: int| 0 <= j < n && confs[j] >= threshold,
    ensures
        exists|i: int| is_highest_among(confs, threshold, i, n),
    decreases n,
{
    let last = n - 1;
    if exists|j: int| 0 <= j < last && confs[j] >= threshold {
        highest_score_exists(confs, threshold, last);
        let b = choose|b: int| is_highest_among(confs, threshold, b, last);
        if confs[last] >= threshold && confs[last] > confs[b] {
            assert(is_highest_among(confs, threshold, last, n));
        } else {
            assert(is_highest_among(confs, threshold, b, n));
        }
    } else {
        assert(is_highest_among(confs, threshold, last, n));
    }
}

/// Every strategy falls back on exactly the same inputs: when no result reaches
/// the threshold. When one does, each strategy picks a winner.
pub proof fn strategies_fall_back_together(confs: Seq<Confidence>, threshold: Confidence)
    ensures
        none_pass(confs, threshold) <==> !(exists|i: int| is_first_match(confs, threshold, i)),
        none_pass(confs, threshold) <==> !(exists|i: int| is_highest_score(confs, threshold, i)),
{
    if !none_pass(confs, threshold) {
        first_match_exists(confs, threshold);
        let j = choose|j: int| 0 <= j < confs.len() && confs[j] >= threshold;
        highest_score_exists(confs, threshold, confs.len() as int);
        let i = choose|i: int| is_highest_among(confs, threshold, i, confs.len() as int);
        assert(is_highest_score(confs, threshold, i));
    } else {
        assert forall|i: int| !is_highest_score(confs, threshold, i) by {
            if is_highest_score(confs, threshold, i) {
                assert(confs[i] < threshold);
            }
        }
        assert forall|i: int| !is_first_match(confs, threshold, i) by {
            if is_first_match(confs, threshold, i) {
                assert(confs[i] < threshold);
            }
        }
    }
}

/// The highest-score winner never comes before the first match, and is at least
/// as confident.
pub proof fn highest_score_dominates_first_match(
    confs: Seq<Confidence>,
    threshold: Confidence,
    first: int,
    highest: int,
)
    requires
        is_first_match(confs, threshold, first),
        is_highest_score(confs, threshold, highest),
    ensures
        first <= highest,
        confs[first] <= confs[highest],
{
    if highest < first {
        assert(confs[highest] < threshold);
    }
}

/// The weighted vote picks exactly what the highest-score strategy picks.
pub proof fn weighted_vote_is_highest_score(confs: Seq<Confidence>, threshold: Confidence, choice: Option<int>)
    ensures
        selects(RoutingStrategy::WeightedVote, confs, threshold, choice) == selects(
            RoutingStrategy::HighestScore,
            confs,
            threshold,
            choice,
        ),
{
}

/// A stricter threshold never turns a fallback into a match.
pub proof fn stricter_threshold_keeps_fallback(confs: Seq<Confidence>, threshold: Confidence, stricter: Confidence)
    requires
        none_pass(confs, threshold),
        threshold <= stricter,
    ensures
        none_pass(confs, stricter),
{
}

} // verus!
