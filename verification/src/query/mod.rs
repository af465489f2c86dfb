//! Read-only queries against the registry store.
pub mod config;
pub mod name_record;
pub mod name_records;
