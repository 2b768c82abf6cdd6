//! Verified core of the Pappap chain node.

pub mod text;
pub mod store;
pub mod learn;
pub mod crypto;
pub mod explorer;
pub mod chain;
pub mod config;
pub mod digest;
pub mod transaction;
