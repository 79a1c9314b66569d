//! Cost estimation engine for cloud infrastructure resources.
//!
//! The crate resolves raw inventory records against a provider price
//! catalog, applies a price formula per resource kind, folds priced
//! resources into per-category summaries, and compares live price
//! projections against historical billing consumption ("drift").
//!
//! Prices are carried as unsigned integers counting millionths of a
//! currency unit, so every formula here is exact integer arithmetic.
pub mod aggregate;
pub mod catalog;
pub mod config;
pub mod digest;
pub mod inventory;
pub mod pricing;
pub mod resources;
pub mod strutil;
pub mod tally;
pub mod vm_pricing;
