//! A verified core for a TypeScript runner: content-addressed cache keys,
//! the two-level transpile cache, the transpile pipeline's decisions and the
//! import-graph walk that pre-warms the cache.

pub mod text;
pub mod key;
pub mod cache;
pub mod options;
pub mod parse;
pub mod transpile;
pub mod walk;
pub mod graph;
pub mod errors;
pub mod cli;
