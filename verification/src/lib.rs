//! Semantic-version bumping for a git-managed project: the decisions, as
//! verified functions on plain values.

pub mod error;
pub mod index;
pub mod laws;
pub mod patch;
pub mod plan;
pub mod run;
pub mod tag;
pub mod text;
pub mod version;
