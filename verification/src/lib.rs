//! Syntax and built-ins of the Par language.
pub mod arc_text;
pub mod big_int;
pub mod branches;
pub mod builtin;
pub mod byte_string;
pub mod escape;
pub mod language;
pub mod location;
pub mod model;
pub mod parse;
pub mod playground;
pub mod program;
pub mod sub_text;
pub mod text;
pub mod token;
pub mod types;
