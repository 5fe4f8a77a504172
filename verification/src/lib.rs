//! A small region catalogue: a store of named locations keyed by URL slug,
//! the schema migrations that create and seed its backing table, and the
//! translation of store outcomes to HTTP statuses and messages.
//!
//! The store is modelled as an in-memory table whose operations carry full
//! functional contracts; the unverified binary around it performs the actual
//! database and network I/O and defers every decision to this crate.

pub mod add_regions_table;
pub mod http;
pub mod migrate;
pub mod region;
pub mod seed_regions_data;
pub mod store;
pub mod text;
