//! Supply chain audits of Rust dependency trees: how long the versions of the
//! dependencies have been out, and whether they keep to a policy.

pub mod audit;
pub mod cli;
pub mod config;
pub mod error;
pub mod freshness;
pub mod http;
pub mod license;
pub mod metadata;
pub mod numeral;
pub mod order;
pub mod plan;
pub mod policy;
pub mod report;
pub mod select;
pub mod text;
pub mod time;
pub mod upgrade;

pub use crate::audit::{check, CheckOptions};
