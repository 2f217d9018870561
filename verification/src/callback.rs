//! User callbacks (closures) held behind a trait object.
//!
//! The handlers and the router keep the closures their users hand them. A
//! boxed callback is only built from a closure that can be called on every
//! input, so that calling it later needs no further condition.

use vstd::prelude::*;

verus! {

/// Something that can be called with an input and a context and gives back an `R`.
pub trait Callback<I, C, R> {
    /// Whether the callback may be called on `input` and `ctx`.
    spec fn callable(&self, input: &I, ctx: &C) -> bool;

    /// Whether `out` is a possible result of calling this callback on `input` and `ctx`.
    spec fn yields(&self, input: &I, ctx: &C, out: R) -> bool;

    /// Calls the callback.
    fn invoke(&self, input: &I, ctx: &C) -> (r: R)
        requires
            self.callable(input, ctx),
        ensures
            self.yields(input, ctx, r),
    ;
}

/// A callback that may be shared between threads and sent to another thread.
pub trait SharedCallback<I, C, R>: Send + Sync {
    /// Whether the callback may be called on `input` and `ctx`.
    spec fn callable(&self, input: &I, ctx: &C) -> bool;

    /// Whether `out` is a possible result of calling this callback on `input` and `ctx`.
    spec fn yields(&self, input: &I, ctx: &C, out: R) -> bool;

    /// Calls the callback.
    fn invoke(&self, input: &I, ctx: &C) -> (r: R)
        requires
            self.callable(input, ctx),
        ensures
            self.yields(input, ctx, r),
    ;
}

impl<I, C, R, F: Fn(&I, &C) -> R + Send + Sync> SharedCallback<I, C, R> for FnCallback<F> {
    closed spec fn callable(&self, input: &I, ctx: &C) -> bool {
        call_requires(self.f, (input, ctx))
    }

    closed spec fn yields(&self, input: &I, ctx: &C, out: R) -> bool {
        call_ensures(self.f, (input, ctx), out)
    }

    fn invoke(&self, input: &I, ctx: &C) -> (r: R) {
        (self.f)(input, ctx)
    }
}

/// A closure, called as it is.
pub struct FnCallback<F> {
    f: F,
}

impl<I, C, R, F: Fn(&I, &C) -> R> Callback<I, C, R> for FnCallback<F> {
    closed spec fn callable(&self, input: &I, ctx: &C) -> bool {
        call_requires(self.f, (input, ctx))
    }

    closed spec fn yields(&self, input: &I, ctx: &C, out: R) -> bool {
        call_ensures(self.f, (input, ctx), out)
    }

    fn invoke(&self, input: &I, ctx: &C) -> (r: R) {
        (self.f)(input, ctx)
    }
}

/// A callback of any concrete type, behind a box, that can be called on every
/// input and context.
#[verifier::reject_recursive_types(I)]
#[verifier::reject_recursive_types(C)]
#[verifier::reject_recursive_types(R)]
pub struct BoxedCallback<I, C, R> {
    inner: Box<dyn Callback<I, C, R>>,
}

impl<I, C, R> BoxedCallback<I, C, R> {
    #[verifier::type_invariant]
    spec fn callable_everywhere(self) -> bool {
        forall|i: &I, c: &C| self.inner.callable(i, c)
    }

    /// Whether `out` is a possible result of calling this callback on `input` and `ctx`.
    pub closed spec fn yields(&self, input: &I, ctx: &C, out: R) -> bool {
        self.inner.yields(input, ctx, out)
    }

    /// Calls the callback.
    pub fn invoke(&self, input: &I, ctx: &C) -> (r: R)
        ensures
            self.yields(input, ctx, r),
    {
        proof {
            use_type_invariant(self);
        }
        self.inner.invoke(input, ctx)
    }
}

impl<I: 'static, C: 'static, R: 'static> BoxedCallback<I, C, R> {
    /// Boxes the closure `f`, which must be callable on every input and context.
    pub fn from_fn<F: Fn(&I, &C) -> R + 'static>(f: F) -> (r: Self)
        requires
            forall|i: &I, c: &C| call_requires(f, (i, c)),
        ensures
            forall|i: &I, c: &C, o: R| r.yields(i, c, o) <==> call_ensures(f, (i, c), o),
    {
        BoxedCallback { inner: Box::new(FnCallback { f }) }
    }
}

/// A callback of any concrete type that may be shared between threads, behind
/// a box, that can be called on every input and context.
#[verifier::reject_recursive_types(I)]
#[verifier::reject_recursive_types(C)]
#[verifier::reject_recursive_types(R)]
pub struct SharedBoxedCallback<I, C, R> {
    inner: Box<dyn SharedCallback<I, C, R>>,
}

impl<I, C, R> SharedBoxedCallback<I, C, R> {
    #[verifier::type_invariant]
    spec fn callable_everywhere(self) -> bool {
        forall|i: &I, c: &C| self.inner.callable(i, c)
    }

    /// Whether `out` is a possible result of calling this callback on `input` and `ctx`.
    pub closed spec fn yields(&self, input: &I, ctx: &C, out: R) -> bool {
        self.inner.yields(input, ctx, out)
    }

    /// Calls the callback.
    pub fn invoke(&self, input: &I, ctx: &C) -> (r: R)
        ensures
            self.yields(input, ctx, r),
    {
        proof {
            use_type_invariant(self);
        }
        self.inner.invoke(input, ctx)
    }
}

impl<I: 'static, C: 'static, R: 'static> SharedBoxedCallback<I, C, R> {
    /// Boxes the closure `f`, which must be callable on every input and context.
    pub fn from_fn<F: Fn(&I, &C) -> R + Send + Sync + 'static>(f: F) -> (r: Self)
        requires
            forall|i: &I, c: &C| call_requires(f, (i, c)),
        ensures
            forall|i: &I, c: &C, o: R| r.yields(i, c, o) <==> call_ensures(f, (i, c), o),
    {
        SharedBoxedCallback { inner: Box::new(FnCallback { f }) }
    }
}

} // verus!
