//! A chunked category index for a product catalog kept in a content-addressed
//! record/link store.
//!
//! The store offers only hash-addressed immutable records and tagged links
//! between them: no secondary indices, no range queries, no transactions.
//! This crate builds a navigable category hierarchy on top of those
//! primitives: products are batched into bounded, immutable groups, each
//! group is linked from every category path it belongs to, and each link's
//! tag carries a per-path sequence number (the chunk id) so that listings
//! can be ordered and paginated without any help from the store.

pub mod allocator;
pub mod batch;
pub mod catalog;
pub mod chunk;
pub mod error;
pub mod indexer;
pub mod laws;
pub mod paths;
pub mod product;
pub mod query;
pub mod recategorize;
pub mod search;
pub mod sort;
pub mod store;
