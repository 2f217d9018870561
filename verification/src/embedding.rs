//! A handler that decides by embedding similarity.

use vstd::prelude::*;

use crate::callback::SharedBoxedCallback;
use crate::confidence::{clamp_confidence, clamped, in_range, Confidence, NO_CONFIDENCE};
use crate::router::{Handler, HandlerResult};

verus! {

/// The confidence an embedding handler reports for a similarity `score`: the
/// score itself when it reaches `threshold`, and no confidence otherwise.
pub open spec fn gated_score(score: Confidence, threshold: Confidence) -> Confidence {
    if score >= threshold {
        score
    } else {
        NO_CONFIDENCE
    }
}

/// A handler that asks a similarity function for the closest known output and
/// its similarity score. Users supply the function, which wraps their embedding
/// client and vector store.
#[verifier::reject_recursive_types(I)]
#[verifier::reject_recursive_types(O)]
#[verifier::reject_recursive_types(C)]
pub struct EmbeddingHandler<I, O, C> {
    similarity_fn: SharedBoxedCallback<I, C, Option<(O, Confidence)>>,
    threshold: Confidence,
}

impl<I, O, C> EmbeddingHandler<I, O, C> {
    #[verifier::type_invariant]
    spec fn threshold_in_range(self) -> bool {
        in_range(self.threshold as int)
    }

    /// The similarity a score needs to be reported as the confidence.
    pub closed spec fn spec_threshold(&self) -> Confidence {
        self.threshold
    }

    /// Whether `out` is a possible answer of the similarity function.
    pub closed spec fn similarity_yields(&self, input: &I, ctx: &C, out: Option<(O, Confidence)>) -> bool {
        self.similarity_fn.yields(input, ctx, out)
    }

    /// Sets the similarity threshold, clamped to the range from `NO_CONFIDENCE`
    /// to `FULL_CONFIDENCE`.
    pub fn threshold(self, threshold: Confidence) -> (r: Self)
        ensures
            r.spec_threshold() == clamped(threshold as int),
            forall|i: &I, c: &C, o: Option<(O, Confidence)>|
                r.similarity_yields(i, c, o) == self.similarity_yields(i, c, o),
    {
        let EmbeddingHandler { similarity_fn, threshold: _ } = self;
        EmbeddingHandler { similarity_fn, threshold: clamp_confidence(threshold) }
    }
}

impl<I: 'static, O: 'static, C: 'static> EmbeddingHandler<I, O, C> {
    /// A handler around `similarity_fn`, which gives the output closest to the
    /// input and its similarity score; the threshold starts at 85 hundredths of
    /// `FULL_CONFIDENCE`.
    pub fn new<F>(similarity_fn: F) -> (r: Self) where
        F: Fn(&I, &C) -> Option<(O, Confidence)> + Send + Sync + 'static,

        requires
            forall|i: &I, c: &C| call_requires(similarity_fn, (i, c)),
        ensures
            r.spec_threshold() == 8500,
            forall|i: &I, c: &C, o: Option<(O, Confidence)>|
                r.similarity_yields(i, c, o) <==> call_ensures(similarity_fn, (i, c), o),
    {
        EmbeddingHandler { similarity_fn: SharedBoxedCallback::from_fn(similarity_fn), threshold: 8500 }
    }
}

impl<I, O: Clone, C> Handler<I, O, C> for EmbeddingHandler<I, O, C> {
    /// The similarity function finds an output for the input.
    open spec fn accepts(&self, input: &I, ctx: &C) -> bool {
        forall|out: Option<(O, Confidence)>| #[trigger] self.similarity_yields(input, ctx, out) ==> out is Some
    }

    /// The output that the similarity function found, with its score as the
    /// confidence when the score reaches the threshold and no confidence
    /// otherwise.
    open spec fn result_of(&self, input: &I, ctx: &C, r: HandlerResult<O>) -> bool {
        exists|score: Confidence|
            #[trigger] self.similarity_yields(input, ctx, Some((r.output, score))) && r.confidence == gated_score(
                score,
                self.spec_threshold(),
            )
    }

    fn handle(&self, input: &I, ctx: &C) -> (r: HandlerResult<O>)
    {
        let found = self.similarity_fn.invoke(input, ctx);
        match found {
            Some((output, score)) => {
                let confidence = if score >= self.threshold {
                    score
                } else {
                    NO_CONFIDENCE
                };
                let r = HandlerResult::new(output, confidence);
                assert(self.similarity_yields(input, ctx, Some((r.output, score))));
                assert(r.confidence == gated_score(score, self.spec_threshold()));
                r
            },
            None => {
                assert(self.similarity_yields(input, ctx, found));
                vstd::pervasive::unreached()
            },
        }
    }
}

/// A score that reaches the threshold is kept as it is; any other becomes no
/// confidence.
pub proof fn gated_score_keeps_passing_scores(score: Confidence, threshold: Confidence)
    ensures
        score >= threshold ==> gated_score(score, threshold) == score,
        score < threshold ==> gated_score(score, threshold) == NO_CONFIDENCE,
{
}

/// Every answer of an embedding handler carries an output that its similarity
/// function found, with a score `s`: the reported confidence is `s` itself when
/// `s` reaches the threshold last set on the handler, and no confidence
/// otherwise.
pub proof fn embedding_reports_score_against_its_threshold<I, O: Clone, C>(
    handler: EmbeddingHandler<I, O, C>,
    input: &I,
    ctx: &C,
    r: HandlerResult<O>,
)
    requires
        handler.result_of(input, ctx, r),
    ensures
        exists|s: Confidence|
            #[trigger] handler.similarity_yields(input, ctx, Some((r.output, s))) && (s
                >= handler.spec_threshold() ==> r.confidence == s) && (s < handler.spec_threshold()
                ==> r.confidence == 0),
{
    let s = choose|s: Confidence|
        #[trigger] handler.similarity_yields(input, ctx, Some((r.output, s))) && r.confidence == gated_score(
            s,
            handler.spec_threshold(),
        );
    assert(handler.similarity_yields(input, ctx, Some((r.output, s))));
}

} // verus!
