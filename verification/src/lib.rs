//! A verified structuring pipeline: it turns unstructured natural-language
//! input into a typed graph by querying a pluggable text-generation provider,
//! gating every reply through JSON parsing, schema validation and decoding,
//! self-correcting the provider on failure, and scoring the final graph with
//! domain-specific semantic checks.

pub mod client;
pub mod domain;
pub mod gateway;
pub mod graph;
pub mod json;
pub mod registry;
pub mod mock;
pub mod schema_validator;
pub mod text;
