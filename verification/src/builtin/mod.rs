//! The built-in definitions.
pub mod action;
pub mod integer;
pub mod laws;
pub mod machine;
pub mod pattern;
pub mod readback;
pub mod search;
pub mod state;
pub mod string;
