# intent_router

Composable intent routing, verified with Verus. An input cascades through
handlers (regular-expression rules, embedding similarity, a local model, a
remote model); each handler reports an output and a confidence, and the router
picks one by its strategy, or answers with a fallback when no handler reaches
the confidence threshold.

- `FirstMatch` (the default) stops at the first handler that reaches the threshold.
- `HighestScore` consults every handler and keeps the most confident one (the
  earliest of equally confident ones).
- `WeightedVote` currently picks as `HighestScore` does.

A handler may describe what it can answer through `Handler::result_of`;
the router's contract states its output in terms of those answers.

Confidences are integers: `FULL_CONFIDENCE` (10000) is certainty, `0` none.
Thresholds and model confidences are clamped to that range.

Layout: `src/` is the verified library (`router`, `select`, `confidence`,
`rule`, `pattern`, `embedding`, `local_model`, `builtin/remote_model`);
`tests/` exercises it; `app/` converts `f32` confidences to the integer scale.
