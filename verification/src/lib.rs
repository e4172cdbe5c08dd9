//! A verified questionnaire engine: questionnaire definitions with nested
//! questions and options, response ingestion with duplicate-submission
//! checks, and statistics aggregation, all over an in-memory relational
//! store with an explicit well-formedness invariant.

#![verifier::loop_isolation(false)]

pub mod auth;
pub mod config;
pub mod error;
pub mod laws;
pub mod questionnaire;
pub mod questionnaire_service;
pub mod response;
pub mod response_service;
pub mod seq_facts;
pub mod store;
pub mod text;
pub mod user;
pub mod user_service;
