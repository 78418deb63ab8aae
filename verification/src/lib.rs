//! State machines of stream adapters, driven by whoever pulls the wrapped
//! streams.
//!
//! An adapter here owns no stream. Its driver pulls the wrapped stream, tells
//! the adapter what the pull reported, and does what the adapter answers:
//! hand an outcome to the consumer, or pull again. An adapter that can close
//! for good says at the beginning of each pull whether there is anything
//! left to pull, so that no closed stream is pulled again.

pub mod batch_with;
pub mod dedup;
pub mod dedup_by_key;
pub mod pull;
pub mod runs;
pub mod switch;

pub use batch_with::{BatchEvent, BatchStep, BatchWith};
pub use dedup::Dedup;
pub use dedup_by_key::DedupByKey;
pub use pull::{Pull, Step};
pub use switch::{OuterStep, Switch};
