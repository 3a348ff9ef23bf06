//! Project-local dev container metadata: the `devc.toml` manifest, its
//! defaults, and the compose and just snippets derived from it.
pub mod text;
pub mod snake;
pub mod manifest;
pub mod cli;
pub mod paths;
pub mod config;
pub mod laws;
