//! Registration: creates a record and its metadata atomically, after the
//! duplicate, address-syntax and payment checks all pass, and emits the
//! deferred fee transfer.
use vstd::prelude::*;
use crate::error::ContractError;
use crate::execute::Context;
use crate::execute::Effects;
use crate::models::empty_meta;
use crate::models::Config;
use crate::models::ConfigView;
use crate::models::MetaView;
use crate::models::NameMetadata;
use crate::models::NameRecord;
use crate::models::RecordView;
use crate::msg::RegisterMsg;
use crate::state::contains_name;
use crate::state::insert_pos;
use crate::state::Entry;
use crate::state::EntryView;
use crate::state::RegistryStore;
use crate::text::canon;
use crate::text::concat2;
use crate::text::lowercase;
use crate::token::has_payment;
use crate::token::lemma_find_iff_has_payment;
use crate::token::CoinView;
use crate::token::TransferDirective;
use crate::token::TransferView;
use crate::utils::bech32_valid;
use crate::utils::is_bech32_address;

verus! {

/// The stored metadata of a fresh registration: the caller's, or default
/// empty metadata when none is supplied.
pub open spec fn meta_or_empty(meta: Option<MetaView>) -> MetaView {
    match meta {
        Some(m) => m,
        None => empty_meta(),
    }
}

/// What `exec_register` guarantees, relating the store before (`pre`) and
/// after (`post`) the call to the result `r`.  Checks run in this order:
/// duplicate name, address syntax, payment; any failure leaves the store
/// unchanged, and success inserts the record at its sorted position and
/// emits exactly one deferred transfer of the price to the fee recipient.
pub open spec fn register_post(
    pre: Seq<EntryView>,
    post: Seq<EntryView>,
    cfg: ConfigView,
    funds: Seq<CoinView>,
    time: u64,
    owner: Seq<char>,
    name: Seq<char>,
    address: Seq<char>,
    meta: Option<MetaView>,
    r: Result<Effects, ContractError>,
) -> bool {
    let c = canon(name);
    &&& (contains_name(pre, c) ==> (r matches Err(e) && e matches ContractError::NameExists {
        name: n,
    } && n@ == name && post == pre))
    &&& (!contains_name(pre, c) && !bech32_valid(address) ==> (r matches Err(e) && e matches
        ContractError::ValidationError { reason } && reason@ == address
        + " is not a valid bech32 address"@ && post == pre))
    &&& (!contains_name(pre, c) && bech32_valid(address) && !has_payment(
        funds,
        cfg.price.denom,
        cfg.price.amount,
    ) ==> (r matches Err(e) && e matches ContractError::InsufficientFunds { exp_amount }
        && exp_amount == cfg.price.amount && post == pre))
    &&& (!contains_name(pre, c) && bech32_valid(address) && has_payment(
        funds,
        cfg.price.denom,
        cfg.price.amount,
    ) ==> (r matches Ok(eff) && eff.transfers.deep_view() == seq![
        (TransferView {
            to_address: cfg.fee_recipient,
            denom: cfg.price.denom,
            amount: cfg.price.amount,
        }),
    ] && post == pre.insert(
        insert_pos(pre, c),
        (EntryView {
            cannonical_name: c,
            record: (RecordView { owner, contract: address, created_at: time }),
            meta: meta_or_empty(meta),
        }),
    )))
}

/// Registers a name: fails `NameExists` on a duplicate canonical name,
/// `ValidationError` on a malformed target address, `InsufficientFunds` when
/// the attached funds hold no entry of the configured denomination with at
/// least the configured price; otherwise inserts the record and metadata
/// atomically and returns the deferred fee transfer.
pub fn exec_register(
    store: &mut RegistryStore,
    config: &Config,
    ctx: Context,
    msg: RegisterMsg,
) -> (r: Result<Effects, ContractError>)
    requires
        old(store).wf(),
    ensures
        final(store).wf(),
        register_post(
            old(store)@,
            final(store)@,
            config@,
            ctx.funds.deep_view(),
            ctx.time,
            msg.owner@,
            msg.name@,
            msg.address@,
            msg.meta.deep_view(),
            r,
        ),
{
    let cannonical_name = lowercase(msg.name.as_str());
    match store.find_index(&cannonical_name) {
        Some(i) => {
            proof {
                assert(store@[i as int].cannonical_name == canon(msg.name@));
                assert(contains_name(store@, canon(msg.name@)));
            }
            return Err(ContractError::NameExists { name: msg.name });
        },
        None => {},
    }
    if !is_bech32_address(&msg.address) {
        return Err(ContractError::ValidationError {
            reason: concat2(msg.address.as_str(), " is not a valid bech32 address"),
        });
    }
    let price = config.price.amount;
    let paid = config.price.token.find_in_funds(&ctx.funds, Some(price));
    proof {
        lemma_find_iff_has_payment(ctx.funds.deep_view(), config@.price.denom, price);
    }
    if paid.is_none() {
        return Err(ContractError::InsufficientFunds { exp_amount: price });
    }
    let directive = config.price.token.transfer(&config.fee_recipient, price);
    let meta = match msg.meta {
        Some(m) => m,
        None => NameMetadata::default(),
    };
    let entry = Entry {
        cannonical_name,
        record: NameRecord { owner: msg.owner, contract: msg.address, created_at: ctx.time },
        meta,
    };
    store.insert_sorted(entry);
    let mut transfers: Vec<TransferDirective> = Vec::new();
    transfers.push(directive);
    proof {
        assert(transfers.deep_view() =~= seq![
            (TransferView {
                to_address: config@.fee_recipient,
                denom: config@.price.denom,
                amount: config@.price.amount,
            }),
        ]);
    }
    Ok(Effects { transfers })
}

} // verus!
