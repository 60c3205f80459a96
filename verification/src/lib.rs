pub mod agents;
pub mod config;
pub mod database;
pub mod extractor;
pub mod graph;
pub mod json;
pub mod multimodal;
pub mod placeholders;
pub mod rag;
pub mod runtime;
pub mod search;
pub mod tally;
pub mod storage;
pub mod tasks;
pub mod text;
pub mod vector;
