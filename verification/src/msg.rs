//! The operations the registry exposes and the shapes of their answers.
//! The wire encoding of these messages is the host's concern.
use vstd::prelude::*;
use crate::models::Config;
use crate::models::NameMetadata;
use crate::models::PublicNameRecord;
use crate::token::TokenAmount;

verus! {

/// One-time initialization: the registration price, the fee recipient, and
/// the maximum name length.
pub struct InstantiateMsg {
    pub price: TokenAmount,
    pub fee_recipient: String,
    pub max_name_len: u8,
}

/// Registers `name` to resolve to `address`, owned by `owner`, with optional
/// initial metadata.
pub struct RegisterMsg {
    pub owner: String,
    pub name: String,
    pub address: String,
    pub meta: Option<NameMetadata>,
}

/// Patches the metadata of the record registered under `name`.
pub struct UpdateMetadataMsg {
    pub name: String,
    pub meta: NameMetadata,
}

/// A state-changing operation.
pub enum ExecuteMsg {
    Register(RegisterMsg),
    UpdateMetadata(UpdateMetadataMsg),
}

/// A pagination request: at most `limit` records, resuming strictly after
/// `cursor` when given, keeping only records whose target address starts
/// with `network_prefix` when given.
pub struct NameRecordsQueryMsg {
    pub limit: u8,
    pub cursor: Option<String>,
    pub network_prefix: Option<String>,
}

/// A read-only query.
pub enum QueryMsg {
    Config {},
    NameRecord { contract: String },
    NameRecords(NameRecordsQueryMsg),
}

/// The migration message: a version marker bump only, no state transform.
pub struct MigrateMsg {}

/// The answer to a configuration query.
pub struct ConfigResponse(pub Config);

/// One page of records, with the cursor to resume from; `next_cursor` is
/// absent exactly when the scan exhausted the store.
#[derive(Debug, Clone, PartialEq, Eq)]
pub struct NameRecordsQueryResponse {
    pub name_records: Vec<PublicNameRecord>,
    pub next_cursor: Option<String>,
}

} // verus!
