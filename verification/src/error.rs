//! The registry's error taxonomy.  Every operation either fully commits or
//! fails outright with one of these, leaving the store unchanged.
use vstd::prelude::*;

verus! {

/// Terminal errors returned to the caller.  Each operation's contract states
/// exactly which inputs produce which variant.
#[derive(Debug, Clone, PartialEq, Eq)]
pub enum ContractError {
    /// A name, cursor or metadata entry that the operation needs is absent.
    NotFound { reason: String },
    /// The caller is not the owner of the record it tries to change.
    NotAuthorized { reason: String },
    /// The name is already registered.
    NameExists { name: String },
    /// The attached funds hold no entry in the configured denomination with
    /// at least the configured price.
    InsufficientFunds { exp_amount: u128 },
    /// A metadata patch breaks a length or count limit, or a target address
    /// fails the address-syntax check.
    ValidationError { reason: String },
    /// A pagination request asks for more records than the fixed ceiling.
    TooManyRecords { limit: u8 },
}

} // verus!
