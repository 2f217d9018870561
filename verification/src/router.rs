//! The router: handlers consulted in order, a confidence threshold, a routing
//! strategy and a fallback for when no handler is confident enough.

use vstd::prelude::*;

use crate::callback::BoxedCallback;
use crate::confidence::{clamp_confidence, clamped, in_range, Confidence, FULL_CONFIDENCE};
use crate::select::{is_first_match, is_highest_among, none_pass, select_index, selects};

verus! {

/// What a handler decided: an output and how confident the handler is in it.
#[derive(Debug, Clone, PartialEq)]
pub struct HandlerResult<O> {
    pub output: O,
    pub confidence: Confidence,
}

impl<O> HandlerResult<O> {
    /// A result with the given output and confidence, taken as they are.
    pub fn new(output: O, confidence: Confidence) -> (r: Self)
        ensures
            r.output == output,
            r.confidence == confidence,
    {
        Self { output, confidence }
    }
}

/// The confidences of a sequence of handler results, in the same order.
pub open spec fn confidences_of<O>(results: Seq<HandlerResult<O>>) -> Seq<Confidence> {
    results.map_values(|r: HandlerResult<O>| r.confidence)
}

/// The `k`-th confidence is that of the `k`-th result.
pub proof fn confidences_match<O>(results: Seq<HandlerResult<O>>)
    ensures
        confidences_of(results).len() == results.len(),
        forall|k: int| 0 <= k < results.len() ==> #[trigger] confidences_of(results)[k] == results[k].confidence,
{
}

/// How the router picks among its handlers.
#[derive(Debug, Clone, Copy, PartialEq, Eq, Structural)]
pub enum RoutingStrategy {
    /// Consult the handlers in order and stop at the first one that reaches the
    /// threshold (the default).
    FirstMatch,
    /// Consult every handler and keep the most confident one that reaches the
    /// threshold.
    HighestScore,
    /// Weighted voting across handlers; it currently picks as `HighestScore` does.
    WeightedVote,
}

impl Default for RoutingStrategy {
    fn default() -> (r: Self)
        ensures
            r == RoutingStrategy::FirstMatch,
    {
        RoutingStrategy::FirstMatch
    }
}

/// The decision logic that users plug into a router.
pub trait Handler<I, O, C> {
    /// Whether `handle` is defined on this input and context. Handlers that can
    /// decide on any input keep the default.
    open spec fn accepts(&self, input: &I, ctx: &C) -> bool {
        true
    }

    /// Whether `r` is a possible result of this handler on `input` and `ctx`.
    /// Handlers that promise nothing of their results keep the default.
    open spec fn result_of(&self, input: &I, ctx: &C, r: HandlerResult<O>) -> bool {
        true
    }

    /// Decides on `input` in the context `ctx`.
    fn handle(&self, input: &I, ctx: &C) -> (r: HandlerResult<O>)
        requires
            self.accepts(input, ctx),
        ensures
            self.result_of(input, ctx, r),
    ;
}

/// A handler kept by value, answering as the handler it holds.
struct Held<H> {
    handler: H,
}

impl<I, O, C, H: Handler<I, O, C>> Handler<I, O, C> for Held<H> {
    closed spec fn accepts(&self, input: &I, ctx: &C) -> bool {
        self.handler.accepts(input, ctx)
    }

    closed spec fn result_of(&self, input: &I, ctx: &C, r: HandlerResult<O>) -> bool {
        self.handler.result_of(input, ctx, r)
    }

    fn handle(&self, input: &I, ctx: &C) -> (r: HandlerResult<O>) {
        self.handler.handle(input, ctx)
    }
}

/// A handler of any concrete type, behind a box.
#[verifier::reject_recursive_types(I)]
#[verifier::reject_recursive_types(O)]
#[verifier::reject_recursive_types(C)]
struct HandlerSlot<I, O, C> {
    handler: Box<dyn Handler<I, O, C>>,
}

impl<I, O, C> HandlerSlot<I, O, C> {
    /// Boxes `handler`; the boxed handler accepts and answers as `handler` does.
    fn new<H: Handler<I, O, C> + 'static>(handler: H) -> (r: Self)
        ensures
            forall|i: &I, c: &C| r.handler.accepts(i, c) == handler.accepts(i, c),
            forall|i: &I, c: &C, res: HandlerResult<O>|
                r.handler.result_of(i, c, res) == handler.result_of(i, c, res),
    {
        HandlerSlot { handler: Box::new(Held { handler }) }
    }
}

/// Cascades an input through its handlers and returns the output of the one that
/// the strategy picks, or the fallback's output when no handler reaches the
/// confidence threshold.
#[verifier::reject_recursive_types(I)]
#[verifier::reject_recursive_types(O)]
#[verifier::reject_recursive_types(C)]
pub struct Router<I, O, C> {
    handlers: Vec<HandlerSlot<I, O, C>>,
    fallback: BoxedCallback<I, C, O>,
    threshold: Confidence,
    strategy: RoutingStrategy,
}

impl<I, O, C> Router<I, O, C> {
    #[verifier::type_invariant]
    spec fn threshold_in_range(self) -> bool {
        in_range(self.threshold as int)
    }

    /// The confidence a handler result needs to be picked.
    pub closed spec fn spec_threshold(&self) -> Confidence {
        self.threshold
    }

    /// The strategy by which a handler result is picked.
    pub closed spec fn spec_strategy(&self) -> RoutingStrategy {
        self.strategy
    }

    /// How many handlers the router consults.
    pub closed spec fn handler_count(&self) -> nat {
        self.handlers@.len()
    }

    /// Whether the `k`-th handler accepts `input` in the context `ctx`.
    pub closed spec fn handler_accepts(&self, k: int, input: &I, ctx: &C) -> bool {
        self.handlers@[k].handler.accepts(input, ctx)
    }

    /// Whether `r` is a possible result of the `k`-th handler on `input` and `ctx`.
    pub closed spec fn handler_result(&self, k: int, input: &I, ctx: &C, r: HandlerResult<O>) -> bool {
        self.handlers@[k].handler.result_of(input, ctx, r)
    }

    /// Whether every handler accepts `input` in the context `ctx`.
    pub open spec fn accepts_all(&self, input: &I, ctx: &C) -> bool {
        forall|k: int| 0 <= k < self.handler_count() ==> #[trigger] self.handler_accepts(k, input, ctx)
    }

    /// Whether `out` is a possible output of the fallback on `input` and `ctx`.
    pub closed spec fn fallback_yields(&self, input: &I, ctx: &C, out: O) -> bool {
        self.fallback.yields(input, ctx, out)
    }

    /// `out` is what routing `input` gives when the handlers consulted returned
    /// `results`: `results[k]` is a result of the `k`-th handler. Under `FirstMatch` the handlers are consulted until
    /// one reaches the threshold, and none after it; the other strategies
    /// consult every handler. The output is that of the result the strategy
    /// picks, or the fallback's when none reaches the threshold.
    pub open spec fn explains(&self, input: &I, ctx: &C, results: Seq<HandlerResult<O>>, out: O) -> bool {
        let confs = confidences_of(results);
        let threshold = self.spec_threshold();
        let strategy = self.spec_strategy();
        let n = self.handler_count();
        &&& results.len() <= n
        &&& forall|k: int| 0 <= k < results.len() ==> #[trigger] self.handler_result(k, input, ctx, results[k])
        &&& if strategy == RoutingStrategy::FirstMatch {
            &&& forall|j: int| 0 <= j < results.len() - 1 ==> confs[j] < threshold
            &&& results.len() < n ==> results.len() > 0 && confs[results.len() - 1] >= threshold
        } else {
            results.len() == n
        }
        &&& {
            ||| exists|i: int| selects(strategy, confs, threshold, Some(i)) && out == results[i].output
            ||| results.len() == n && selects(strategy, confs, threshold, None) && self.fallback_yields(
                input,
                ctx,
                out,
            )
        }
    }
}

impl<I: 'static, O: Clone + 'static, C: 'static> Router<I, O, C> {
    /// A router with no handlers, threshold one half of `FULL_CONFIDENCE` and the
    /// `FirstMatch` strategy, that falls back on `fallback`.
    pub fn new<F: Fn(&I, &C) -> O + 'static>(fallback: F) -> (r: Self)
        requires
            forall|i: &I, c: &C| call_requires(fallback, (i, c)),
        ensures
            r.handler_count() == 0,
            r.spec_threshold() == FULL_CONFIDENCE / 2,
            r.spec_strategy() == RoutingStrategy::FirstMatch,
            forall|i: &I, c: &C, o: O| r.fallback_yields(i, c, o) <==> call_ensures(fallback, (i, c), o),
    {
        Self {
            handlers: Vec::new(),
            fallback: BoxedCallback::from_fn(fallback),
            threshold: FULL_CONFIDENCE / 2,
            strategy: RoutingStrategy::FirstMatch,
        }
    }

    /// Adds `handler` after the handlers already there.
    pub fn with<H: Handler<I, O, C> + 'static>(self, handler: H) -> (r: Self)
        ensures
            r.handler_count() == self.handler_count() + 1,
            r.spec_threshold() == self.spec_threshold(),
            r.spec_strategy() == self.spec_strategy(),
            forall|k: int, i: &I, c: &C|
                0 <= k < self.handler_count() ==> r.handler_accepts(k, i, c) == self.handler_accepts(k, i, c),
            forall|k: int, i: &I, c: &C, res: HandlerResult<O>|
                0 <= k < self.handler_count() ==> r.handler_result(k, i, c, res) == self.handler_result(
                    k,
                    i,
                    c,
                    res,
                ),
            forall|i: &I, c: &C| r.handler_accepts(self.handler_count() as int, i, c) == handler.accepts(i, c),
            forall|i: &I, c: &C, res: HandlerResult<O>|
                r.handler_result(self.handler_count() as int, i, c, res) == handler.result_of(i, c, res),
            forall|i: &I, c: &C, o: O| r.fallback_yields(i, c, o) == self.fallback_yields(i, c, o),
    {
        proof {
            use_type_invariant(&self);
        }
        let Router { handlers, fallback, threshold, strategy } = self;
        let mut handlers = handlers;
        let slot = HandlerSlot::new(handler);
        handlers.push(slot);
        Router { handlers, fallback, threshold, strategy }
    }

    /// Sets the confidence threshold, clamped to the range from `NO_CONFIDENCE`
    /// to `FULL_CONFIDENCE`.
    pub fn threshold(self, threshold: Confidence) -> (r: Self)
        ensures
            r.spec_threshold() == clamped(threshold as int),
            r.spec_strategy() == self.spec_strategy(),
            r.handler_count() == self.handler_count(),
            forall|k: int, i: &I, c: &C| r.handler_accepts(k, i, c) == self.handler_accepts(k, i, c),
            forall|k: int, i: &I, c: &C, res: HandlerResult<O>|
                r.handler_result(k, i, c, res) == self.handler_result(k, i, c, res),
            forall|i: &I, c: &C, o: O| r.fallback_yields(i, c, o) == self.fallback_yields(i, c, o),
    {
        let Router { handlers, fallback, threshold: _, strategy } = self;
        Router { handlers, fallback, threshold: clamp_confidence(threshold), strategy }
    }

    /// Sets the routing strategy.
    pub fn strategy(self, strategy: RoutingStrategy) -> (r: Self)
        ensures
            r.spec_strategy() == strategy,
            r.spec_threshold() == self.spec_threshold(),
            r.handler_count() == self.handler_count(),
            forall|k: int, i: &I, c: &C| r.handler_accepts(k, i, c) == self.handler_accepts(k, i, c),
            forall|k: int, i: &I, c: &C, res: HandlerResult<O>|
                r.handler_result(k, i, c, res) == self.handler_result(k, i, c, res),
            forall|i: &I, c: &C, o: O| r.fallback_yields(i, c, o) == self.fallback_yields(i, c, o),
    {
        proof {
            use_type_invariant(&self);
        }
        let Router { handlers, fallback, threshold, strategy: _ } = self;
        Router { handlers, fallback, threshold, strategy }
    }

    /// The current confidence threshold; for every router it lies in the range
    /// from `NO_CONFIDENCE` to `FULL_CONFIDENCE`.
    pub fn threshold_value(&self) -> (r: Confidence)
        ensures
            r == self.spec_threshold(),
            in_range(r as int),
    {
        proof {
            use_type_invariant(self);
        }
        self.threshold
    }

    /// Routes `input` in the context `ctx`.
    pub fn route(&self, input: &I, ctx: &C) -> (out: O)
        requires
            self.accepts_all(input, ctx),
        ensures
            exists|results: Seq<HandlerResult<O>>| self.explains(input, ctx, results, out),
    {
        match self.strategy {
            RoutingStrategy::FirstMatch => self.route_first_match(input, ctx),
            RoutingStrategy::HighestScore => self.route_highest_score(input, ctx),
            RoutingStrategy::WeightedVote => self.route_weighted_vote(input, ctx),
        }
    }

    fn route_first_match(&self, input: &I, ctx: &C) -> (out: O)
        requires
            self.accepts_all(input, ctx),
            self.spec_strategy() == RoutingStrategy::FirstMatch,
        ensures
            exists|results: Seq<HandlerResult<O>>| self.explains(input, ctx, results, out),
    {
        let n = self.handlers.len();
        let ghost mut seen: Seq<HandlerResult<O>> = Seq::empty();
        let mut k: usize = 0;
        while k < n
            invariant
                n == self.handler_count(),
                k <= n,
                seen.len() == k,
                self.accepts_all(input, ctx),
                self.spec_strategy() == RoutingStrategy::FirstMatch,
                forall|j: int| 0 <= j < k ==> seen[j].confidence < self.spec_threshold(),
                forall|j: int| 0 <= j < k ==> #[trigger] self.handler_result(j, input, ctx, seen[j]),
            decreases n - k,
        {
            assert(self.handler_accepts(k as int, input, ctx));
            let result = self.handlers[k].handler.handle(input, ctx);
            proof {
                seen = seen.push(result);
            }
            if result.confidence >= self.threshold {
                let ghost confs = confidences_of(seen);
                proof {
                    confidences_match(seen);
                }
                assert(is_first_match(confs, self.spec_threshold(), k as int));
                assert(selects(self.spec_strategy(), confs, self.spec_threshold(), Some(k as int)));
                assert(result.output == seen[k as int].output);
                assert(self.explains(input, ctx, seen, result.output));
                return result.output;
            }
            k = k + 1;
        }
        let out = self.fallback.invoke(input, ctx);
        proof {
            confidences_match(seen);
        }
        assert(none_pass(confidences_of(seen), self.spec_threshold()));
        assert(self.explains(input, ctx, seen, out));
        out
    }

    fn route_highest_score(&self, input: &I, ctx: &C) -> (out: O)
        requires
            self.accepts_all(input, ctx),
            self.spec_strategy() != RoutingStrategy::FirstMatch,
        ensures
            exists|results: Seq<HandlerResult<O>>| self.explains(input, ctx, results, out),
    {
        let n = self.handlers.len();
        let mut results: Vec<HandlerResult<O>> = Vec::new();
        let mut confidences: Vec<Confidence> = Vec::new();
        let mut k: usize = 0;
        while k < n
            invariant
                n == self.handler_count(),
                k <= n,
                results@.len() == k,
                confidences@ == confidences_of(results@),
                self.accepts_all(input, ctx),
                forall|j: int| 0 <= j < k ==> #[trigger] self.handler_result(j, input, ctx, results@[j]),
            decreases n - k,
        {
            assert(self.handler_accepts(k as int, input, ctx));
            let result = self.handlers[k].handler.handle(input, ctx);
            confidences.push(result.confidence);
            results.push(result);
            k = k + 1;
        }
        let ghost seen = results@;
        match select_index(self.strategy, confidences.as_slice(), self.threshold) {
            Some(i) => {
                let winner = results.swap_remove(i);
                assert(selects(self.spec_strategy(), confidences_of(seen), self.spec_threshold(), Some(i as int)));
                assert(self.explains(input, ctx, seen, winner.output));
                winner.output
            },
            None => {
                let out = self.fallback.invoke(input, ctx);
                assert(self.explains(input, ctx, seen, out));
                out
            },
        }
    }

    fn route_weighted_vote(&self, input: &I, ctx: &C) -> (out: O)
        requires
            self.accepts_all(input, ctx),
            self.spec_strategy() == RoutingStrategy::WeightedVote,
        ensures
            exists|results: Seq<HandlerResult<O>>| self.explains(input, ctx, results, out),
    {
        self.route_highest_score(input, ctx)
    }
}

/// A router without handlers always answers with its fallback.
pub proof fn empty_router_falls_back<I, O, C>(
    router: Router<I, O, C>,
    input: &I,
    ctx: &C,
    results: Seq<HandlerResult<O>>,
    out: O,
)
    requires
        router.handler_count() == 0,
        router.explains(input, ctx, results, out),
    ensures
        router.fallback_yields(input, ctx, out),
{
    let confs = confidences_of(results);
    assert(results.len() == 0);
    assert forall|i: int| !selects(router.spec_strategy(), confs, router.spec_threshold(), Some(i)) by {
        assert(confs.len() == 0);
    }
}

/// Routers `a` and `b` consult handlers that answer alike on `input` and `ctx`,
/// in the same order, against the same threshold, and fall back alike.
pub open spec fn same_cascade<I, O, C>(a: Router<I, O, C>, b: Router<I, O, C>, input: &I, ctx: &C) -> bool {
    &&& a.spec_threshold() == b.spec_threshold()
    &&& a.handler_count() == b.handler_count()
    &&& forall|k: int, r: HandlerResult<O>| a.handler_result(k, input, ctx, r) == b.handler_result(k, input, ctx, r)
    &&& forall|o: O| a.fallback_yields(input, ctx, o) == b.fallback_yields(input, ctx, o)
}

/// A router that votes by weight routes every input as a router that picks the
/// highest score does, given the same handlers, threshold and fallback.
pub proof fn weighted_vote_routes_as_highest_score<I, O, C>(
    voting: Router<I, O, C>,
    scoring: Router<I, O, C>,
    input: &I,
    ctx: &C,
    results: Seq<HandlerResult<O>>,
    out: O,
)
    requires
        voting.spec_strategy() == RoutingStrategy::WeightedVote,
        scoring.spec_strategy() == RoutingStrategy::HighestScore,
        same_cascade(voting, scoring, input, ctx),
    ensures
        voting.explains(input, ctx, results, out) == scoring.explains(input, ctx, results, out),
{
    let confs = confidences_of(results);
    let t = voting.spec_threshold();
    assert forall|i: int|
        selects(RoutingStrategy::WeightedVote, confs, t, Some(i)) == selects(
            RoutingStrategy::HighestScore,
            confs,
            t,
            Some(i),
        ) by {}
}

/// A router that falls back on an input still falls back on it when its
/// threshold is raised.
pub proof fn stricter_threshold_still_falls_back<I, O, C>(
    lax: Router<I, O, C>,
    strict: Router<I, O, C>,
    input: &I,
    ctx: &C,
    results: Seq<HandlerResult<O>>,
    out: O,
)
    requires
        lax.spec_strategy() == strict.spec_strategy(),
        lax.handler_count() == strict.handler_count(),
        forall|k: int, r: HandlerResult<O>| lax.handler_result(k, input, ctx, r) == strict.handler_result(k, input, ctx, r),
        forall|o: O| lax.fallback_yields(input, ctx, o) == strict.fallback_yields(input, ctx, o),
        lax.spec_threshold() <= strict.spec_threshold(),
        lax.explains(input, ctx, results, out),
        none_pass(confidences_of(results), lax.spec_threshold()),
    ensures
        strict.explains(input, ctx, results, out),
        none_pass(confidences_of(results), strict.spec_threshold()),
{
    let confs = confidences_of(results);
    assert(forall|j: int| 0 <= j < results.len() ==> confs[j] == results[j].confidence);
    assert forall|i: int| !selects(lax.spec_strategy(), confs, lax.spec_threshold(), Some(i)) by {
        if 0 <= i < confs.len() {
            assert(confs[i] < lax.spec_threshold());
        }
    }
}

/// Taking out a handler whose answer on `input` does not reach the threshold, or
/// that routing `input` never consults, changes nothing: the router without it
/// routes `input` to the same output, from the other handlers' answers.
pub proof fn unconfident_handler_can_be_dropped<I, O, C>(
    full: Router<I, O, C>,
    reduced: Router<I, O, C>,
    input: &I,
    ctx: &C,
    results: Seq<HandlerResult<O>>,
    out: O,
    j: int,
)
    requires
        full.spec_strategy() == reduced.spec_strategy(),
        full.spec_threshold() == reduced.spec_threshold(),
        reduced.handler_count() + 1 == full.handler_count(),
        forall|k: int, r: HandlerResult<O>|
            0 <= k < j ==> reduced.handler_result(k, input, ctx, r) == full.handler_result(k, input, ctx, r),
        forall|k: int, r: HandlerResult<O>|
            j <= k < reduced.handler_count() ==> reduced.handler_result(k, input, ctx, r)
                == full.handler_result(k + 1, input, ctx, r),
        forall|o: O| full.fallback_yields(input, ctx, o) == reduced.fallback_yields(input, ctx, o),
        full.explains(input, ctx, results, out),
        0 <= j < full.handler_count(),
        j < results.len() ==> results[j].confidence < full.spec_threshold(),
    ensures
        j < results.len() ==> reduced.explains(input, ctx, results.remove(j), out),
        j >= results.len() ==> reduced.explains(input, ctx, results, out),
{
    if j < results.len() {
        consulted_unconfident_handler_can_be_dropped(full, reduced, input, ctx, results, out, j);
    } else {
        let t = full.spec_threshold();
        let strategy = full.spec_strategy();
        let confs = confidences_of(results);
        confidences_match(results);
        assert(strategy == RoutingStrategy::FirstMatch);
        assert forall|k: int| 0 <= k < results.len() implies #[trigger] reduced.handler_result(
            k,
            input,
            ctx,
            results[k],
        ) by {
            assert(full.handler_result(k, input, ctx, results[k]));
        }
        assert(!selects(strategy, confs, t, None)) by {
            assert(confs[results.len() - 1] >= t);
        }
    }
}

proof fn consulted_unconfident_handler_can_be_dropped<I, O, C>(
    full: Router<I, O, C>,
    reduced: Router<I, O, C>,
    input: &I,
    ctx: &C,
    results: Seq<HandlerResult<O>>,
    out: O,
    j: int,
)
    requires
        full.spec_strategy() == reduced.spec_strategy(),
        full.spec_threshold() == reduced.spec_threshold(),
        reduced.handler_count() + 1 == full.handler_count(),
        forall|k: int, r: HandlerResult<O>|
            0 <= k < j ==> reduced.handler_result(k, input, ctx, r) == full.handler_result(k, input, ctx, r),
        forall|k: int, r: HandlerResult<O>|
            j <= k < reduced.handler_count() ==> reduced.handler_result(k, input, ctx, r)
                == full.handler_result(k + 1, input, ctx, r),
        forall|o: O| full.fallback_yields(input, ctx, o) == reduced.fallback_yields(input, ctx, o),
        full.explains(input, ctx, results, out),
        0 <= j < results.len(),
        results[j].confidence < full.spec_threshold(),
    ensures
        reduced.explains(input, ctx, results.remove(j), out),
{
    let t = full.spec_threshold();
    let strategy = full.spec_strategy();
    let rs = results.remove(j);
    results.remove_ensures(j);
    let confs = confidences_of(results);
    let confs2 = confidences_of(rs);
    confidences_match(results);
    confidences_match(rs);
    assert(forall|k: int| 0 <= k < j ==> confs2[k] == confs[k]);
    assert(forall|k: int| j <= k < rs.len() ==> confs2[k] == confs[k + 1]);
    assert forall|k: int| 0 <= k < rs.len() implies #[trigger] reduced.handler_result(k, input, ctx, rs[k]) by {
        if k < j {
            assert(full.handler_result(k, input, ctx, results[k]));
        } else {
            assert(full.handler_result(k + 1, input, ctx, results[k + 1]));
        }
    }
    if strategy == RoutingStrategy::FirstMatch {
        assert forall|k: int| 0 <= k < rs.len() - 1 implies confs2[k] < t by {
            if k >= j {
                assert(confs[k + 1] < t);
            }
        }
    }
    if exists|i: int| selects(strategy, confs, t, Some(i)) && out == results[i].output {
        let i = choose|i: int| selects(strategy, confs, t, Some(i)) && out == results[i].output;
        assert(i != j);
        let i2 = if i < j { i } else { i - 1 };
        assert(rs[i2] == results[i]);
        if strategy == RoutingStrategy::FirstMatch {
            assert forall|m: int| 0 <= m < i2 implies confs2[m] < t by {
                if m >= j {
                    assert(confs[m + 1] < t);
                } else {
                    assert(confs[m] < t);
                }
            }
            assert(is_first_match(confs2, t, i2));
        } else {
            assert forall|m: int| 0 <= m < rs.len() && confs2[m] >= t implies confs2[m] <= confs2[i2] by {
                if m >= j {
                    assert(confs[m + 1] <= confs[i]);
                } else {
                    assert(confs[m] <= confs[i]);
                }
            }
            assert forall|m: int| 0 <= m < i2 && confs2[m] >= t implies confs2[m] < confs2[i2] by {
                if m >= j {
                    assert(confs[m + 1] < confs[i]);
                } else {
                    assert(confs[m] < confs[i]);
                }
            }
            assert(is_highest_among(confs2, t, i2, rs.len() as int));
        }
        assert(selects(strategy, confs2, t, Some(i2)));
    } else {
        assert forall|m: int| 0 <= m < rs.len() implies confs2[m] < t by {
            if m >= j {
                assert(confs[m + 1] < t);
            } else {
                assert(confs[m] < t);
            }
        }
        assert(selects(strategy, confs2, t, None));
    }
}

/// `perm` reorders `n` positions and `inv` puts them back.
pub open spec fn is_reordering(perm: Seq<int>, inv: Seq<int>, n: int) -> bool {
    &&& perm.len() == n
    &&& inv.len() == n
    &&& forall|k: int| 0 <= k < n ==> 0 <= #[trigger] perm[k] < n && inv[perm[k]] == k
    &&& forall|m: int| 0 <= m < n ==> 0 <= #[trigger] inv[m] < n && perm[inv[m]] == m
}

/// Unless it consults handlers until the first match, a router routes an input
/// to the same output whatever the order of its handlers, as long as no two
/// answers that reach the threshold are equally confident: the router whose
/// `k`-th handler is the `perm[k]`-th handler of `a` routes to the same output.
pub proof fn highest_score_ignores_handler_order<I, O, C>(
    a: Router<I, O, C>,
    b: Router<I, O, C>,
    input: &I,
    ctx: &C,
    results: Seq<HandlerResult<O>>,
    out: O,
    perm: Seq<int>,
    inv: Seq<int>,
)
    requires
        a.spec_strategy() != RoutingStrategy::FirstMatch,
        b.spec_strategy() == a.spec_strategy(),
        b.spec_threshold() == a.spec_threshold(),
        b.handler_count() == a.handler_count(),
        is_reordering(perm, inv, a.handler_count() as int),
        forall|k: int, r: HandlerResult<O>|
            0 <= k < a.handler_count() ==> b.handler_result(k, input, ctx, r) == a.handler_result(
                perm[k],
                input,
                ctx,
                r,
            ),
        forall|o: O| a.fallback_yields(input, ctx, o) == b.fallback_yields(input, ctx, o),
        a.explains(input, ctx, results, out),
        forall|x: int, y: int|
            0 <= x < y < results.len() && results[x].confidence >= a.spec_threshold() && results[y].confidence
                >= a.spec_threshold() ==> results[x].confidence != results[y].confidence,
    ensures
        b.explains(input, ctx, Seq::new(results.len(), |k: int| results[perm[k]]), out),
{
    let t = a.spec_threshold();
    let strategy = a.spec_strategy();
    let n = results.len() as int;
    let rs = Seq::new(results.len(), |k: int| results[perm[k]]);
    let confs = confidences_of(results);
    let confs2 = confidences_of(rs);
    confidences_match(results);
    confidences_match(rs);
    assert(forall|k: int| 0 <= k < n ==> confs2[k] == confs[perm[k]]);
    assert forall|k: int| 0 <= k < n implies #[trigger] b.handler_result(k, input, ctx, rs[k]) by {
        assert(a.handler_result(perm[k], input, ctx, results[perm[k]]));
    }
    if exists|i: int| selects(strategy, confs, t, Some(i)) && out == results[i].output {
        let i = choose|i: int| selects(strategy, confs, t, Some(i)) && out == results[i].output;
        let i2 = inv[i];
        assert(rs[i2] == results[i]);
        assert forall|m: int| 0 <= m < n && confs2[m] >= t implies confs2[m] <= confs2[i2] by {
            assert(confs[perm[m]] <= confs[i]);
        }
        assert forall|m: int| 0 <= m < i2 && confs2[m] >= t implies confs2[m] < confs2[i2] by {
            let pm = perm[m];
            assert(pm != i);
            assert(confs[pm] <= confs[i]);
            if pm < i {
                assert(confs[pm] != confs[i]);
            } else {
                assert(confs[i] != confs[pm]);
            }
        }
        assert(is_highest_among(confs2, t, i2, n));
        assert(selects(strategy, confs2, t, Some(i2)));
    } else {
        assert forall|m: int| 0 <= m < n implies confs2[m] < t by {
            assert(confs[perm[m]] < t);
        }
        assert(selects(strategy, confs2, t, None));
    }
}

/// Under `FirstMatch`, with handlers that answer alike each time they are
/// consulted, a router with a lower threshold consults a prefix of the handlers
/// that a router with a higher threshold consults, and it falls back only if
/// the other one does too.
pub proof fn lower_threshold_consults_prefix<I, O, C>(
    lax: Router<I, O, C>,
    strict: Router<I, O, C>,
    input: &I,
    ctx: &C,
    lax_results: Seq<HandlerResult<O>>,
    lax_out: O,
    strict_results: Seq<HandlerResult<O>>,
    strict_out: O,
)
    requires
        lax.spec_strategy() == RoutingStrategy::FirstMatch,
        strict.spec_strategy() == RoutingStrategy::FirstMatch,
        lax.handler_count() == strict.handler_count(),
        lax.spec_threshold() <= strict.spec_threshold(),
        lax.explains(input, ctx, lax_results, lax_out),
        strict.explains(input, ctx, strict_results, strict_out),
        forall|k: int|
            0 <= k < lax_results.len() && 0 <= k < strict_results.len() ==> lax_results[k] == strict_results[k],
    ensures
        lax_results.len() <= strict_results.len(),
        forall|k: int| 0 <= k < lax_results.len() ==> lax_results[k] == strict_results[k],
        none_pass(confidences_of(lax_results), lax.spec_threshold()) ==> none_pass(
            confidences_of(strict_results),
            strict.spec_threshold(),
        ),
{
    let n = lax.handler_count();
    let lconfs = confidences_of(lax_results);
    let sconfs = confidences_of(strict_results);
    confidences_match(lax_results);
    confidences_match(strict_results);
    if lax_results.len() > strict_results.len() {
        let m = strict_results.len() - 1;
        assert(strict_results.len() < n);
        assert(sconfs[m] >= strict.spec_threshold());
        assert(lax_results[m] == strict_results[m]);
        assert(lconfs[m] < lax.spec_threshold());
    }
    if none_pass(lconfs, lax.spec_threshold()) {
        assert(!(exists|i: int| selects(RoutingStrategy::FirstMatch, lconfs, lax.spec_threshold(), Some(i))
            && lax_out == lax_results[i].output)) by {
            assert forall|i: int| !selects(RoutingStrategy::FirstMatch, lconfs, lax.spec_threshold(), Some(i)) by {
                if 0 <= i < lconfs.len() {
                    assert(lconfs[i] < lax.spec_threshold());
                }
            }
        }
        assert(lax_results.len() == n);
        assert forall|k: int| 0 <= k < sconfs.len() implies sconfs[k] < strict.spec_threshold() by {
            assert(lax_results[k] == strict_results[k]);
            assert(lconfs[k] < lax.spec_threshold());
        }
    }
}

} // verus!
