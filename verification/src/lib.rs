//! Automated email triage for a hiring pipeline.
//!
//! The crate classifies an incoming conversation into a named case. When the
//! latest message carries a repository link, it instead builds an evaluation
//! rubric from the repository's source files, renders a scoring prompt for a
//! language model, and turns the model's structured reply into a numeric
//! decision. All decision and validation logic is verified; network and file
//! work is left to the caller, which drives the pipeline step by step.

pub mod answer;
pub mod cases;
pub mod error;
pub mod eval;
pub mod json;
pub mod mail;
pub mod model;
pub mod repo;
pub mod router;
pub mod score;
pub mod text;

pub use error::TriageError;
pub use mail::Message;
