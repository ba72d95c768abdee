//! Tracks when merged pull requests reach downstream runtimes and go live on-chain.

pub mod annotate;
pub mod collections;
pub mod github;
pub mod graphql;
pub mod json;
pub mod laws;
pub mod pipeline;
pub mod plan;
pub mod project;
pub mod runner;
pub mod state;
pub mod summary;
pub mod text;
