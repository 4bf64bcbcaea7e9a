//! Incremental semantic indexing of a source tree: change detection by
//! content fingerprint, descriptor rows with fixed-width embeddings, the
//! chunk-and-pool fallback for oversized embedding inputs, and the
//! retrieval and summary-regeneration logic over the descriptor store.
//!
//! The external collaborators (file walking, the language-model services,
//! persistence) stay outside; the library holds the data model and every
//! rule of the pipeline, each function carrying its contract.

mod fingerprint;

pub mod config;
pub mod embedding;
pub mod env;
pub mod file_utils;
pub mod ignore_rules;
pub mod indexing;
pub mod language_extensions;
pub mod pooling;
pub mod prompt_utils;
pub mod search;
pub mod store;
pub mod structs;
pub mod summary;
pub mod text;

pub use fingerprint::digest_of;
pub use fingerprint::fingerprint;
pub use fingerprint::lemma_fingerprint_deterministic;
