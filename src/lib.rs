//! Predicate-expansion engine for build-configuration conditions.
//!
//! A compact boolean language over aliases (`linux`, `desktop`) and
//! `label:key` predicate references (`x86_64:ar`) is resolved against a
//! two-tier table (overrides first, then built-ins), turned into an
//! expression tree and emitted as native `cfg` attributes.
pub mod errors;
pub mod text;
pub mod config;
pub mod syntax;
pub mod arm;
pub mod emit;
pub mod laws;
