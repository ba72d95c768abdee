//! What the library promises of its operations, in terms of what goes in and what comes out.

pub mod annotate;
pub mod github;
pub mod graphql;
pub mod pipeline;
pub mod plan;
pub mod project;
pub mod runner;
pub mod state;
pub mod summary;
pub mod text;
