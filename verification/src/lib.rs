//! Composable intent routing: a cascade of handlers (rules, embeddings, local
//! and remote models) with confidence-based short-circuiting. Users write the
//! decision logic as handlers; the router orchestrates them.

mod callback;

pub mod builtin;
pub mod confidence;
pub mod embedding;
pub mod local_model;
pub mod pattern;
pub mod router;
pub mod rule;
pub mod select;

pub use builtin::remote_model::RemoteModelHandler;
pub use confidence::{clamp_confidence, Confidence, FULL_CONFIDENCE, NO_CONFIDENCE};
pub use embedding::EmbeddingHandler;
pub use local_model::LocalModelHandler;
pub use pattern::pattern_compiles;
pub use router::{Handler, HandlerResult, Router, RoutingStrategy};
pub use rule::RuleHandler;
pub use select::{first_match_index, highest_score_index, select_index};
