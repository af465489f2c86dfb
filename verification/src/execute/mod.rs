//! State-changing operations and the context they run in.
pub mod register;
pub mod update_metadata;

use vstd::prelude::*;
use crate::token::Coin;
use crate::token::TransferDirective;

verus! {

/// What an inbound operation knows about its caller and the moment it runs:
/// the calling principal, the funds it attached, and the current time in
/// nanoseconds.
pub struct Context {
    pub sender: String,
    pub funds: Vec<Coin>,
    pub time: u64,
}

/// The deferred effects of a successful operation.  The host executes them
/// only after the state change is committed.
#[derive(Debug, Clone, PartialEq, Eq)]
pub struct Effects {
    pub transfers: Vec<TransferDirective>,
}

} // verus!
