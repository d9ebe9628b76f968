//! An in-memory knowledge graph of text passages and keywords, with
//! exhaustive similarity search over their embeddings.
//!
//! Embedding components and distances are carried as IEEE-754 single
//! precision bit patterns (`u32`); the floating-point arithmetic on them is
//! left to the caller, who hands the store an embedding function and a
//! distance function.

pub mod dedup;
pub mod embedding;
pub mod keywords;
pub mod laws;
pub mod ranking;
pub mod relevance;
pub mod store;
pub mod types;

pub use embedding::embedding_draws;
pub use ranking::{distance_order_key, nearest, rank_indices};
pub use relevance::RelevanceMatrix;
pub use store::NumpyGraphStore;
pub use types::{DEFAULT_CONNECT_THRESHOLD, Document, GraphConfig, KeywordNode, SourceInfo, TextNode};
