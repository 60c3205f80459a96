//! Answering questions from the knowledge base: parsing the question,
//! building the context and prompting a model.
pub mod answer_generator;
pub mod context_builder;
pub mod llm_integration;
pub mod query_parser;
