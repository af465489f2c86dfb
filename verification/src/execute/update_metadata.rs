//! Metadata patching: validated before any lookup, gated on ownership, and
//! merged field by field into the stored metadata.
use vstd::prelude::*;
use crate::error::ContractError;
use crate::execute::Context;
use crate::models::merge_meta;
use crate::models::meta_error_reason;
use crate::models::meta_valid;
use crate::models::MetaView;
use crate::msg::UpdateMetadataMsg;
use crate::state::contains_name;
use crate::state::index_of_name;
use crate::state::lemma_sorted_unique;
use crate::state::EntryView;
use crate::state::RegistryStore;
use crate::text::canon;
use crate::text::concat3;
use crate::text::lowercase;

verus! {

/// What `exec_update_metadata` guarantees, relating the store before (`pre`)
/// and after (`post`) the call to the result `r`.  Checks run in this order:
/// patch validity, record existence, ownership; any failure leaves the store
/// unchanged, and success replaces exactly the patched fields of the stored
/// metadata.
pub open spec fn update_post(
    pre: Seq<EntryView>,
    post: Seq<EntryView>,
    sender: Seq<char>,
    name: Seq<char>,
    patch: MetaView,
    r: Result<(), ContractError>,
) -> bool {
    let c = canon(name);
    let idx = index_of_name(pre, c);
    &&& (!meta_valid(patch) ==> (r matches Err(e) && e matches ContractError::ValidationError {
        reason,
    } && reason@ == meta_error_reason(patch) && post == pre))
    &&& (meta_valid(patch) && !contains_name(pre, c) ==> (r matches Err(e) && e matches
        ContractError::NotFound { reason } && reason@ == "Name "@ + c + " not found"@ && post
        == pre))
    &&& (meta_valid(patch) && contains_name(pre, c) && pre[idx].record.owner != sender ==> (r
        matches Err(e) && e matches ContractError::NotAuthorized { reason } && reason@
        == "You are not the owner of this name"@ && post == pre))
    &&& (meta_valid(patch) && contains_name(pre, c) && pre[idx].record.owner == sender ==> (r
        == Ok::<(), ContractError>(()) && post == pre.update(
        idx,
        (EntryView { meta: merge_meta(pre[idx].meta, patch), ..pre[idx] }),
    )))
}

/// Patches the metadata of a registered name.  Fails `ValidationError` on a
/// patch that breaks the limits, before touching storage; `NotFound` when the
/// canonical name is not registered; `NotAuthorized` when the caller is not
/// the record's owner.  On success the stored metadata becomes the merge of
/// the stored value and the patch; the record itself never changes.
pub fn exec_update_metadata(
    store: &mut RegistryStore,
    ctx: Context,
    msg: UpdateMetadataMsg,
) -> (r: Result<(), ContractError>)
    requires
        old(store).wf(),
    ensures
        final(store).wf(),
        update_post(old(store)@, final(store)@, ctx.sender@, msg.name@, msg.meta@, r),
{
    match msg.meta.validate() {
        Err(e) => {
            return Err(e);
        },
        Ok(()) => {},
    }
    let cannonical_name = lowercase(msg.name.as_str());
    let idx = match store.find_index(&cannonical_name) {
        None => {
            return Err(ContractError::NotFound {
                reason: concat3("Name ", cannonical_name.as_str(), " not found"),
            });
        },
        Some(i) => i,
    };
    proof {
        assert(store@[idx as int].cannonical_name == canon(msg.name@));
        assert(contains_name(store@, canon(msg.name@)));
        lemma_sorted_unique(store@, idx as int, index_of_name(store@, canon(msg.name@)));
    }
    if !store.entries[idx].record.owner.eq(&ctx.sender) {
        return Err(ContractError::NotAuthorized {
            reason: "You are not the owner of this name".to_owned(),
        });
    }
    store.patch_meta(idx, msg.meta);
    Ok(())
}

} // verus!
