//! The configuration query.
use vstd::prelude::*;
use crate::models::clone_config;
use crate::models::Config;
use crate::msg::ConfigResponse;

verus! {

/// Returns the registry configuration.
pub fn query_config(config: &Config) -> (r: ConfigResponse)
    ensures
        r.0@ == config@,
{
    ConfigResponse(clone_config(config))
}

} // verus!
