//! The sources that the playground works on.
pub mod examples;
pub mod laws;
pub mod sources;
