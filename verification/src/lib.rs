//! Core logic of a command-line client for a self-hosted issue tracker:
//! multi-repository aggregation under partial failure, client-side label
//! filtering, signature augmentation of authored content, and dual-format
//! (human/JSON) rendering of results.

pub mod aggregate;
pub mod api;
pub mod cli;
pub mod config;
pub mod error;
pub mod json;
pub mod labels;
pub mod output;
pub mod signature;
pub mod text;
pub mod types;
