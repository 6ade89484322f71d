//! Cached asset plans: deciding whether a previously materialised output
//! layout is still valid, and committing a new cache only after every mapping
//! of the plan was applied without error.

pub mod difference;
pub mod order;
pub mod text;
pub mod mapping;
pub mod canonical;
pub mod error;
pub mod encoding;
pub mod report;
pub mod cache;
pub mod env;
pub mod lazy;
pub mod planner;
pub mod printable;
pub mod workspace;
pub mod bitmap;
