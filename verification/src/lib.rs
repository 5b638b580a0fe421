//! Rewriting of shell commands that an AI coding tool is about to run into
//! their `rtk` equivalents, as a verified library.
pub mod text;
pub mod env;
pub mod rewrite;
pub mod json;
pub mod hook;
