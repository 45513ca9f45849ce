//! The rules of a full-text index for data lake storage: how options configure it, how documents go
//! into it, how its archive is laid out, and how a query becomes something that tantivy can run.
//!
//! What reads and writes files or runs tantivy's index is left to the code around this library.
pub mod analyzer;
pub mod analyzer_laws;
pub mod automaton;
pub mod boolean_laws;
pub mod boundary;
pub mod config;
pub mod docset;
pub mod error;
pub mod greek;
pub mod match_laws;
pub mod metrics;
pub mod option_laws;
pub mod plan_laws;
pub mod plan_model;
pub mod planner;
pub mod query;
pub mod reader;
pub mod schema;
pub mod score;
pub mod storage;
pub mod text;
pub mod tokenizer;
pub mod writer;
