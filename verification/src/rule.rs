//! A handler that decides by regular-expression rules.

use vstd::prelude::*;

use crate::callback::SharedBoxedCallback;
use crate::confidence::{clamp_confidence, clamped, in_range, Confidence, FULL_CONFIDENCE};
use crate::pattern::{compile, contains_literal, escape, escaped, is_match, pattern_compiles, regex_compiles, regex_matches, Pattern};
use crate::router::{Handler, HandlerResult};

verus! {

/// A pattern and the function that gives the output when the pattern matches.
#[verifier::reject_recursive_types(I)]
#[verifier::reject_recursive_types(O)]
#[verifier::reject_recursive_types(C)]
struct Rule<I, O, C> {
    pattern: Pattern,
    mapper: SharedBoxedCallback<I, C, O>,
}

/// Rule `k` is the first of `patterns` that matches `input`.
pub open spec fn is_first_matching_rule(patterns: Seq<Seq<char>>, input: Seq<char>, k: int) -> bool {
    &&& 0 <= k < patterns.len()
    &&& regex_matches(patterns[k], input)
    &&& forall|j: int| 0 <= j < k ==> !regex_matches(#[trigger] patterns[j], input)
}

/// A handler that tries its rules in order and answers with the output of the
/// first rule whose pattern matches the input, at a fixed confidence.
#[verifier::reject_recursive_types(I)]
#[verifier::reject_recursive_types(O)]
#[verifier::reject_recursive_types(C)]
pub struct RuleHandler<I, O, C> {
    rules: Vec<Rule<I, O, C>>,
    default_confidence: Confidence,
}

impl<I, O, C> RuleHandler<I, O, C> {
    #[verifier::type_invariant]
    spec fn confidence_in_range(self) -> bool {
        in_range(self.default_confidence as int)
    }

    /// The patterns of the rules, in order.
    pub closed spec fn patterns(&self) -> Seq<Seq<char>> {
        self.rules@.map_values(|rule: Rule<I, O, C>| rule@)
    }

    /// The confidence that the handler reports when a rule matches.
    pub closed spec fn spec_confidence(&self) -> Confidence {
        self.default_confidence
    }

    /// Whether `out` is a possible output of the `k`-th rule's mapper.
    pub closed spec fn mapper_yields(&self, k: int, input: &I, ctx: &C, out: O) -> bool {
        self.rules@[k].mapper.yields(input, ctx, out)
    }

    /// A handler with no rules and full confidence.
    pub fn new() -> (r: Self)
        ensures
            r.patterns() == Seq::<Seq<char>>::empty(),
            r.spec_confidence() == FULL_CONFIDENCE,
    {
        let r = Self { rules: Vec::new(), default_confidence: FULL_CONFIDENCE };
        assert(r.patterns() =~= Seq::<Seq<char>>::empty());
        r
    }

    /// Sets the confidence reported when a rule matches, clamped to the range
    /// from `NO_CONFIDENCE` to `FULL_CONFIDENCE`.
    pub fn confidence(self, confidence: Confidence) -> (r: Self)
        ensures
            r.spec_confidence() == clamped(confidence as int),
            r.patterns() == self.patterns(),
            forall|k: int, i: &I, c: &C, o: O| r.mapper_yields(k, i, c, o) == self.mapper_yields(k, i, c, o),
    {
        let RuleHandler { rules, default_confidence: _ } = self;
        RuleHandler { rules, default_confidence: clamp_confidence(confidence) }
    }
}

impl<I, O, C> View for Rule<I, O, C> {
    type V = Seq<char>;

    closed spec fn view(&self) -> Seq<char> {
        self.pattern@
    }
}

impl<I: 'static, O: 'static, C: 'static> RuleHandler<I, O, C> {
    /// Adds a rule, after the rules already there, that answers with `mapper`'s
    /// output when `pattern` matches. The pattern must compile.
    pub fn with_rule<F>(self, pattern: &str, mapper: F) -> (r: Self) where
        F: Fn(&I, &C) -> O + Send + Sync + 'static,

        requires
            regex_compiles(pattern@),
            forall|i: &I, c: &C| call_requires(mapper, (i, c)),
        ensures
            r.patterns() == self.patterns().push(pattern@),
            r.spec_confidence() == self.spec_confidence(),
            forall|i: &I, c: &C, o: O|
                r.mapper_yields(self.patterns().len() as int, i, c, o) <==> call_ensures(mapper, (i, c), o),
            forall|k: int, i: &I, c: &C, o: O|
                0 <= k < self.patterns().len() ==> r.mapper_yields(k, i, c, o) == self.mapper_yields(
                    k,
                    i,
                    c,
                    o,
                ),
    {
        proof {
            use_type_invariant(&self);
        }
        let compiled = compile(pattern);
        match compiled {
            Ok(pattern) => {
                let rule = Rule { pattern, mapper: SharedBoxedCallback::from_fn(mapper) };
                let RuleHandler { rules, default_confidence } = self;
                let mut rules = rules;
                rules.push(rule);
                let r = RuleHandler { rules, default_confidence };
                assert(r.patterns() =~= self.patterns().push(pattern@));
                r
            },
            Err(_) => vstd::pervasive::unreached(),
        }
    }

    /// Adds a rule as `with_rule` does when `pattern` compiles; otherwise gives
    /// the handler back unchanged as the error.
    pub fn try_with_rule<F>(self, pattern: &str, mapper: F) -> (r: Result<Self, Self>) where
        F: Fn(&I, &C) -> O + Send + Sync + 'static,

        requires
            forall|i: &I, c: &C| call_requires(mapper, (i, c)),
        ensures
            r is Ok <==> regex_compiles(pattern@),
            r matches Ok(h) ==> h.patterns() == self.patterns().push(pattern@) && h.spec_confidence()
                == self.spec_confidence(),
            r matches Ok(h) ==> forall|k: int, i: &I, c: &C, o: O|
                0 <= k < self.patterns().len() ==> h.mapper_yields(k, i, c, o) == self.mapper_yields(k, i, c, o),
            r matches Ok(h) ==> forall|i: &I, c: &C, o: O|
                h.mapper_yields(self.patterns().len() as int, i, c, o) <==> call_ensures(mapper, (i, c), o),
            r matches Err(h) ==> h == self,
    {
        if pattern_compiles(pattern) {
            Ok(self.with_rule(pattern, mapper))
        } else {
            Err(self)
        }
    }
}

impl<I, O, C> Default for RuleHandler<I, O, C> {
    fn default() -> (r: Self)
        ensures
            r.patterns() == Seq::<Seq<char>>::empty(),
            r.spec_confidence() == FULL_CONFIDENCE,
    {
        Self::new()
    }
}

impl<O: Clone + 'static, C: 'static> RuleHandler<String, O, C> {
    /// Adds a rule that answers with `mapper`'s output when the input contains
    /// `keyword` literally. The escaped keyword must compile.
    pub fn with_contains<F>(self, keyword: &str, mapper: F) -> (r: Self) where
        F: Fn(&String, &C) -> O + Send + Sync + 'static,

        requires
            regex_compiles(escaped(keyword@)),
            forall|i: &String, c: &C| call_requires(mapper, (i, c)),
        ensures
            r.patterns() == self.patterns().push(escaped(keyword@)),
            r.spec_confidence() == self.spec_confidence(),
            forall|haystack: Seq<char>|
                #[trigger] regex_matches(r.patterns()[self.patterns().len() as int], haystack) <==> contains_literal(
                    haystack,
                    keyword@,
                ),
            forall|i: &String, c: &C, o: O|
                r.mapper_yields(self.patterns().len() as int, i, c, o) <==> call_ensures(mapper, (i, c), o),
            forall|k: int, i: &String, c: &C, o: O|
                0 <= k < self.patterns().len() ==> r.mapper_yields(k, i, c, o) == self.mapper_yields(
                    k,
                    i,
                    c,
                    o,
                ),
    {
        let pattern = escape(keyword);
        self.with_rule(pattern.as_str(), mapper)
    }

    /// Adds a rule as `with_contains` does when the escaped keyword compiles;
    /// otherwise gives the handler back unchanged as the error.
    pub fn try_with_contains<F>(self, keyword: &str, mapper: F) -> (r: Result<Self, Self>) where
        F: Fn(&String, &C) -> O + Send + Sync + 'static,

        requires
            forall|i: &String, c: &C| call_requires(mapper, (i, c)),
        ensures
            r is Ok <==> regex_compiles(escaped(keyword@)),
            r matches Ok(h) ==> h.patterns() == self.patterns().push(escaped(keyword@))
                && h.spec_confidence() == self.spec_confidence(),
            r matches Ok(h) ==> forall|haystack: Seq<char>|
                #[trigger] regex_matches(h.patterns()[self.patterns().len() as int], haystack)
                    <==> contains_literal(haystack, keyword@),
            r matches Ok(h) ==> forall|k: int, i: &String, c: &C, o: O|
                0 <= k < self.patterns().len() ==> h.mapper_yields(k, i, c, o) == self.mapper_yields(k, i, c, o),
            r matches Ok(h) ==> forall|i: &String, c: &C, o: O|
                h.mapper_yields(self.patterns().len() as int, i, c, o) <==> call_ensures(mapper, (i, c), o),
            r matches Err(h) ==> h == self,
    {
        let pattern = escape(keyword);
        if pattern_compiles(pattern.as_str()) {
            Ok(self.with_contains(keyword, mapper))
        } else {
            Err(self)
        }
    }
}

impl<O: Clone, C> Handler<String, O, C> for RuleHandler<String, O, C> {
    /// Some rule's pattern matches the input.
    open spec fn accepts(&self, input: &String, ctx: &C) -> bool {
        exists|k: int| 0 <= k < self.patterns().len() && regex_matches(self.patterns()[k], input@)
    }

    /// The output of the first rule whose pattern matches `input`, at the
    /// handler's confidence.
    open spec fn result_of(&self, input: &String, ctx: &C, r: HandlerResult<O>) -> bool {
        &&& exists|k: int|
            is_first_matching_rule(self.patterns(), input@, k) && #[trigger] self.mapper_yields(
                k,
                input,
                ctx,
                r.output,
            )
        &&& r.confidence == self.spec_confidence()
    }

    fn handle(&self, input: &String, ctx: &C) -> (r: HandlerResult<O>)
        ensures
            in_range(r.confidence as int),
    {
        match self.try_handle(input, ctx) {
            Some(r) => r,
            None => vstd::pervasive::unreached(),
        }
    }
}

impl<O: Clone, C> RuleHandler<String, O, C> {
    /// The output of the first rule whose pattern matches `input`, at the
    /// handler's confidence; `None` when no rule's pattern matches.
    pub fn try_handle(&self, input: &String, ctx: &C) -> (r: Option<HandlerResult<O>>)
        ensures
            r is None <==> !self.accepts(input, ctx),
            r matches Some(res) ==> self.result_of(input, ctx, res) && in_range(res.confidence as int),
    {
        proof {
            use_type_invariant(self);
        }
        let n = self.rules.len();
        let mut k: usize = 0;
        while k < n
            invariant
                n == self.patterns().len(),
                k <= n,
                forall|j: int| 0 <= j < k ==> !regex_matches(#[trigger] self.patterns()[j], input@),
                in_range(self.spec_confidence() as int),
            decreases n - k,
        {
            let rule = &self.rules[k];
            assert(self.patterns()[k as int] == rule.pattern@);
            if is_match(&rule.pattern, input.as_str()) {
                let output = rule.mapper.invoke(input, ctx);
                assert(is_first_matching_rule(self.patterns(), input@, k as int));
                let r = HandlerResult::new(output, self.default_confidence);
                assert(self.mapper_yields(k as int, input, ctx, r.output));
                return Some(r);
            }
            k = k + 1;
        }
        None
    }
}

/// Every answer of a rule handler is an output of the mapper of the first rule
/// whose pattern matches the input, and its confidence is the one set on the
/// handler, whichever rule matched.
pub proof fn rule_answers_at_its_confidence<O: Clone, C>(
    handler: RuleHandler<String, O, C>,
    input: &String,
    ctx: &C,
    r: HandlerResult<O>,
)
    requires
        handler.result_of(input, ctx, r),
    ensures
        r.confidence == handler.spec_confidence(),
        exists|k: int|
            0 <= k < handler.patterns().len() && regex_matches(handler.patterns()[k], input@) && (forall|j: int|
                0 <= j < k ==> !regex_matches(#[trigger] handler.patterns()[j], input@))
                && #[trigger] handler.mapper_yields(k, input, ctx, r.output),
{
    let k = choose|k: int|
        is_first_matching_rule(handler.patterns(), input@, k) && #[trigger] handler.mapper_yields(
            k,
            input,
            ctx,
            r.output,
        );
    assert(handler.mapper_yields(k, input, ctx, r.output));
}

} // verus!
