//! Repository scanning for AI context: configuration, repository analysis
//! (technologies, Terraform resources, naming convention) and the
//! decisions of cloning, each with a verified contract.

pub mod analyzer;
pub mod cloner;
pub mod config;
pub mod error;
pub mod models;
pub mod number;
pub mod terraform;
pub mod text;
