//! Builds and queries a local membership index of the SHA-1 password hashes
//! published by the "have I been pwned" range API.
//!
//! The index is an approximate-membership filter that is filled shard by shard;
//! a shard holds all hashes that share a prefix of five hexadecimal digits.
//! This library holds the rules of that work: how a shard body is read into
//! hashes, when a shard is fetched again, how a fetch is retried, how hashes
//! enter the filter, and what the coordinator of the run counts and decides.

pub mod misc;
pub mod parse;
pub mod filter;
pub mod filter_builder;
pub mod statedb;
pub mod downloader;
pub mod builder;
pub mod server;
