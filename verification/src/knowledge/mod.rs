//! The local knowledge base.

pub mod chunking;
pub mod embedding;
pub mod index;
pub mod lexical;
pub mod markdown;
pub mod types;
pub mod worker;

pub use types::{
    IndexReport, KnowledgeError, KnowledgePaths, KnowledgeSearchRequest, KnowledgeSearchResult,
    KnowledgeWorkerStats, QueryReport, SearchHit,
};
pub use worker::KnowledgeWorker;
