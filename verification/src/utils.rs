//! Address-syntax checking, delegated to the bech32 codec.
use vstd::prelude::*;

verus! {

/// Whether a string is a well-formed bech32 (or bech32m) address with a valid
/// checksum.  The answer depends on the string alone.
pub uninterp spec fn bech32_valid(s: Seq<char>) -> bool;

/// Relies on `bech32::decode`: it succeeds exactly on well-formed bech32 or
/// bech32m strings with a valid checksum, and its outcome is a function of
/// the string alone.
#[verifier::external_body]
pub fn is_bech32_address(address: &String) -> (r: bool)
    ensures
        r == bech32_valid(address@),
{
    bech32::decode(address).is_ok()
}

} // verus!
