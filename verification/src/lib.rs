//! A name-to-address registry: it maps human-readable names to target
//! addresses, lets the registering owner attach and update descriptive
//! metadata, gates registration behind a fixed fee, and exposes paginated
//! enumeration of all records.
pub mod contract;
pub mod error;
pub mod execute;
pub mod laws;
pub mod models;
pub mod msg;
pub mod query;
pub mod state;
pub mod text;
pub mod token;
pub mod utils;
