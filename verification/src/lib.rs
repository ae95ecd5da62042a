//! Agent definition codec and execution-metrics aggregation.
//!
//! The library has two independent parts: a codec that decodes and encodes
//! agent definition documents (a structured header between `---` delimiters,
//! followed by a free-text instruction body), and an aggregator that folds
//! line-delimited JSON event logs into a metrics summary. Both are pure
//! transformations over in-memory text; all file, directory and environment
//! handling belongs to the surrounding application.

pub mod codec;
pub mod export;
pub mod header;
pub mod listing;
pub mod metrics;
pub mod settings;
pub mod text;
