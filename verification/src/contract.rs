//! The registry's entry points: dispatch of state-changing operations and of
//! read-only queries.  Each arm forwards to the operation's own contract.
use vstd::prelude::*;
use crate::error::ContractError;
use crate::execute::register::exec_register;
use crate::execute::register::register_post;
use crate::execute::update_metadata::exec_update_metadata;
use crate::execute::update_metadata::update_post;
use crate::execute::Context;
use crate::execute::Effects;
use crate::models::Config;
use crate::msg::ConfigResponse;
use crate::msg::ExecuteMsg;
use crate::msg::NameRecordsQueryResponse;
use crate::msg::QueryMsg;
use crate::models::PublicNameRecord;
use crate::query::config::query_config;
use crate::query::name_record::name_record_post;
use crate::query::name_record::query_name_record;
use crate::query::name_records::name_records_post;
use crate::query::name_records::query_name_records;
use crate::state::RegistryStore;

verus! {

/// The answer to a read-only query, one variant per query kind.
pub enum QueryAnswer {
    Config(ConfigResponse),
    NameRecord(Option<PublicNameRecord>),
    NameRecords(NameRecordsQueryResponse),
}

/// Forgets the effects of an operation result, keeping its outcome.
pub open spec fn strip_effects(r: Result<Effects, ContractError>) -> Result<(), ContractError> {
    match r {
        Ok(_) => Ok(()),
        Err(e) => Err(e),
    }
}

/// Routes a state-changing operation to its handler.  A metadata update
/// carries no deferred effects.
pub fn execute(
    store: &mut RegistryStore,
    config: &Config,
    ctx: Context,
    msg: ExecuteMsg,
) -> (r: Result<Effects, ContractError>)
    requires
        old(store).wf(),
    ensures
        final(store).wf(),
        (msg matches ExecuteMsg::Register(m) ==> register_post(
            old(store)@,
            final(store)@,
            config@,
            ctx.funds.deep_view(),
            ctx.time,
            m.owner@,
            m.name@,
            m.address@,
            m.meta.deep_view(),
            r,
        )),
        (msg matches ExecuteMsg::UpdateMetadata(m) ==> (update_post(
            old(store)@,
            final(store)@,
            ctx.sender@,
            m.name@,
            m.meta@,
            strip_effects(r),
        ) && (r matches Ok(eff) ==> eff.transfers@.len() == 0))),
{
    match msg {
        ExecuteMsg::Register(m) => exec_register(store, config, ctx, m),
        ExecuteMsg::UpdateMetadata(m) => {
            match exec_update_metadata(store, ctx, m) {
                Ok(()) => Ok(Effects { transfers: Vec::new() }),
                Err(e) => Err(e),
            }
        },
    }
}

/// Routes a read-only query to its handler.
pub fn query(store: &RegistryStore, config: &Config, msg: QueryMsg) -> (r: Result<
    QueryAnswer,
    ContractError,
>)
    requires
        store.wf(),
    ensures
        (msg matches QueryMsg::Config { .. } ==> (r matches Ok(a) && a matches QueryAnswer::Config(
            c,
        ) && c.0@ == config@)),
        (msg matches QueryMsg::NameRecord { contract } ==> (r matches Ok(a) && a matches
            QueryAnswer::NameRecord(o) && name_record_post(store@, contract@, o))),
        (msg matches QueryMsg::NameRecords(m) ==> ((r matches Ok(a) && a matches
            QueryAnswer::NameRecords(resp) && name_records_post(
            store@,
            m.limit,
            m.cursor.deep_view(),
            m.network_prefix.deep_view(),
            Ok(Some(resp)),
        )) || (r matches Err(e) && name_records_post(
            store@,
            m.limit,
            m.cursor.deep_view(),
            m.network_prefix.deep_view(),
            Err(e),
        )))),
{
    match msg {
        QueryMsg::Config {  } => Ok(QueryAnswer::Config(query_config(config))),
        QueryMsg::NameRecord { contract } => {
            match query_name_record(store, contract) {
                Ok(o) => Ok(QueryAnswer::NameRecord(o)),
                Err(e) => Err(e),
            }
        },
        QueryMsg::NameRecords(m) => {
            match query_name_records(store, m) {
                Ok(Some(resp)) => Ok(QueryAnswer::NameRecords(resp)),
                Ok(None) => unreached(),
                Err(e) => Err(e),
            }
        },
    }
}

} // verus!
