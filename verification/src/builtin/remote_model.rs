//! A handler that calls a large model behind a remote API.

use vstd::prelude::*;

use crate::callback::SharedBoxedCallback;
use crate::confidence::{clamp_confidence, clamped, Confidence, FULL_CONFIDENCE, NO_CONFIDENCE};
use crate::router::{Handler, HandlerResult};

verus! {

/// A handler around a remote API call that gives an output and a
/// confidence. Users supply the function, which wraps their API client and model settings.
#[verifier::reject_recursive_types(I)]
#[verifier::reject_recursive_types(O)]
#[verifier::reject_recursive_types(C)]
pub struct RemoteModelHandler<I, O, C> {
    call_fn: SharedBoxedCallback<I, C, (O, Confidence)>,
}

impl<I, O, C> RemoteModelHandler<I, O, C> {
    /// Whether `out` is a possible answer of the API call.
    pub closed spec fn call_yields(&self, input: &I, ctx: &C, out: (O, Confidence)) -> bool {
        self.call_fn.yields(input, ctx, out)
    }
}

impl<I: 'static, O: 'static, C: 'static> RemoteModelHandler<I, O, C> {
    /// A handler around `call_fn`.
    pub fn new<F>(call_fn: F) -> (r: Self) where
        F: Fn(&I, &C) -> (O, Confidence) + Send + Sync + 'static,

        requires
            forall|i: &I, c: &C| call_requires(call_fn, (i, c)),
        ensures
            forall|i: &I, c: &C, o: (O, Confidence)| r.call_yields(i, c, o) <==> call_ensures(call_fn, (i, c), o),
    {
        RemoteModelHandler { call_fn: SharedBoxedCallback::from_fn(call_fn) }
    }
}

impl<I, O, C> Handler<I, O, C> for RemoteModelHandler<I, O, C> {
    /// The API call's output, with its confidence clamped to the
    /// range from `NO_CONFIDENCE` to `FULL_CONFIDENCE`.
    open spec fn result_of(&self, input: &I, ctx: &C, r: HandlerResult<O>) -> bool {
        exists|confidence: Confidence|
            #[trigger] self.call_yields(input, ctx, (r.output, confidence)) && r.confidence == clamped(
                confidence as int,
            )
    }

    fn handle(&self, input: &I, ctx: &C) -> (r: HandlerResult<O>)
    {
        let (output, confidence) = self.call_fn.invoke(input, ctx);
        let r = HandlerResult::new(output, clamp_confidence(confidence));
        assert(self.call_yields(input, ctx, (r.output, confidence)));
        r
    }
}

/// Every answer of a remote model handler carries an output that the model gave with
/// a confidence `c`: the reported confidence is `c` when `c` lies in the range
/// from `NO_CONFIDENCE` to `FULL_CONFIDENCE`, and the nearer end of that range
/// otherwise.
pub proof fn remote_model_reports_clamped_confidence<I, O, C>(handler: RemoteModelHandler<I, O, C>, input: &I, ctx: &C, r: HandlerResult<O>)
    requires
        handler.result_of(input, ctx, r),
    ensures
        exists|c: Confidence|
            #[trigger] handler.call_yields(input, ctx, (r.output, c)) && (NO_CONFIDENCE <= c <= FULL_CONFIDENCE
                ==> r.confidence == c) && (c < NO_CONFIDENCE ==> r.confidence == NO_CONFIDENCE) && (c
                > FULL_CONFIDENCE ==> r.confidence == FULL_CONFIDENCE),
{
    let c = choose|c: Confidence|
        #[trigger] handler.call_yields(input, ctx, (r.output, c)) && r.confidence == clamped(c as int);
    assert(handler.call_yields(input, ctx, (r.output, c)));
}

} // verus!
