//! Items shared by both protocol versions.

pub mod error;
pub mod laws;
pub mod outside;
pub mod poll;
pub mod topic;
pub mod types;
pub mod utils;
