//! Decisions and text handling of a git post-commit helper that asks a local
//! language model whether a commit adds a new feature, and records it.
pub mod text;
pub mod diff;
pub mod achievement;
pub mod json;
pub mod ollama;
pub mod cli;
pub mod conquest;
