//! The registry's global laws, proved once and for all over the same spec
//! functions the operation contracts are stated with.
use vstd::prelude::*;
use crate::error::ContractError;
use crate::execute::register::register_post;
use crate::execute::update_metadata::update_post;
use crate::execute::Effects;
use crate::models::empty_meta;
use crate::models::merge_meta;
use crate::models::meta_valid;
use crate::models::ConfigView;
use crate::models::MetaView;
use crate::query::name_records::entry_matches;
use crate::query::name_records::page_idxs;
use crate::query::name_records::scan_exhausted;
use crate::state::contains_name;
use crate::state::index_of_name;
use crate::state::insert_pos;
use crate::state::lemma_insert_keeps_sorted;
use crate::state::lemma_sorted_unique;
use crate::state::sorted;
use crate::state::EntryView;
use crate::text::canon;
use crate::text::lemma_seq_lt_irrefl;
use crate::token::has_payment;
use crate::token::CoinView;

verus! {

/// No-duplicate law: registering a name, then registering any name with the
/// same canonical form again without an intervening removal (none exists),
/// fails the second call with `NameExists` and leaves the whole store — the
/// first record and its metadata included — exactly as the first call left
/// it.
pub proof fn lemma_register_no_duplicate(
    s0: Seq<EntryView>,
    s1: Seq<EntryView>,
    s2: Seq<EntryView>,
    cfg: ConfigView,
    funds1: Seq<CoinView>,
    time1: u64,
    owner1: Seq<char>,
    name1: Seq<char>,
    address1: Seq<char>,
    meta1: Option<MetaView>,
    r1: Result<Effects, ContractError>,
    funds2: Seq<CoinView>,
    time2: u64,
    owner2: Seq<char>,
    name2: Seq<char>,
    address2: Seq<char>,
    meta2: Option<MetaView>,
    r2: Result<Effects, ContractError>,
)
    requires
        sorted(s0),
        register_post(s0, s1, cfg, funds1, time1, owner1, name1, address1, meta1, r1),
        register_post(s1, s2, cfg, funds2, time2, owner2, name2, address2, meta2, r2),
        r1 is Ok,
        canon(name2) == canon(name1),
    ensures
        r2 matches Err(e) && e matches ContractError::NameExists { name: n } && n@ == name2,
        s2 == s1,
{
    let c = canon(name1);
    assert(!contains_name(s0, c));
    let e = EntryView {
        cannonical_name: c,
        record: crate::models::RecordView {
            owner: owner1,
            contract: address1,
            created_at: time1,
        },
        meta: crate::execute::register::meta_or_empty(meta1),
    };
    lemma_insert_keeps_sorted(s0, e);
    assert(s1 == s0.insert(insert_pos(s0, c), e));
    assert(contains_name(s1, c));
}

/// Merge fixed point: merging an all-unspecified patch into stored metadata
/// returns the stored metadata unchanged.
pub proof fn lemma_merge_fixed_point(m: MetaView)
    ensures
        merge_meta(m, empty_meta()) == m,
{
    assert(merge_meta(m, empty_meta()) =~= m);
}

/// Merge fixed point, lifted to the store: a metadata update with an
/// all-unspecified patch is a no-op on the store, whatever its outcome.
pub proof fn lemma_update_empty_patch_noop(
    pre: Seq<EntryView>,
    post: Seq<EntryView>,
    sender: Seq<char>,
    name: Seq<char>,
    r: Result<(), ContractError>,
)
    requires
        sorted(pre),
        update_post(pre, post, sender, name, empty_meta(), r),
    ensures
        post == pre,
{
    let c = canon(name);
    assert(meta_valid(empty_meta()));
    if contains_name(pre, c) {
        let idx = index_of_name(pre, c);
        assert(0 <= idx < pre.len() && pre[idx].cannonical_name == c);
        if pre[idx].record.owner == sender {
            lemma_merge_fixed_point(pre[idx].meta);
            assert((EntryView { meta: merge_meta(pre[idx].meta, empty_meta()), ..pre[idx] })
                =~= pre[idx]);
            assert(pre.update(idx, pre[idx]) =~= pre);
        }
    }
}

/// Clear versus preserve: a patch whose keyword list is explicitly empty
/// clears the stored keywords, while a patch that omits the field preserves
/// the stored list exactly; the other fields are untouched either way when
/// unspecified.
pub proof fn lemma_keywords_clear_vs_preserve(stored: MetaView, patch: MetaView)
    ensures
        patch.keywords == Some(Seq::<Seq<char>>::empty()) ==> merge_meta(stored, patch).keywords
            == Some(Seq::<Seq<char>>::empty()),
        patch.keywords is None ==> merge_meta(stored, patch).keywords == stored.keywords,
{
}

/// Ownership gate: a metadata update from any principal other than the
/// record's owner fails with `NotAuthorized` and leaves the store unchanged,
/// whatever the (valid) patch holds.
pub proof fn lemma_ownership_gate(
    pre: Seq<EntryView>,
    post: Seq<EntryView>,
    sender: Seq<char>,
    name: Seq<char>,
    patch: MetaView,
    r: Result<(), ContractError>,
)
    requires
        update_post(pre, post, sender, name, patch, r),
        meta_valid(patch),
        contains_name(pre, canon(name)),
        pre[index_of_name(pre, canon(name))].record.owner != sender,
    ensures
        r matches Err(e) && e matches ContractError::NotAuthorized { .. },
        post == pre,
{
}

/// Fee gate boundary: with a configured price of one unit of denomination
/// `denom`, payment fails when every attached entry of that denomination
/// holds zero units, and succeeds when some entry holds exactly one unit.
pub proof fn lemma_fee_gate_boundary(funds: Seq<CoinView>, denom: Seq<char>)
    ensures
        (forall|i: int|
            0 <= i < funds.len() && (#[trigger] funds[i]).denom == denom ==> funds[i].amount
                == 0) ==> !has_payment(funds, denom, 1),
        (exists|i: int|
            0 <= i < funds.len() && (#[trigger] funds[i]).denom == denom && funds[i].amount
                == 1) ==> has_payment(funds, denom, 1),
{
}

/// An unfiltered page is a consecutive slice: its indices are
/// `start, start + 1, ...`, it is `limit` long unless the store runs out
/// first, and the scan is exhausted exactly when it reached the end of the
/// store.
pub proof fn lemma_page_no_filter(s: Seq<EntryView>, start: int, limit: int)
    requires
        0 <= start <= s.len(),
        0 <= limit,
    ensures
        ({
            let idxs = page_idxs(s, start, Seq::empty(), limit);
            &&& (limit <= s.len() - start ==> idxs.len() == limit)
            &&& (limit > s.len() - start ==> idxs.len() == s.len() - start)
            &&& (forall|j: int| 0 <= j < idxs.len() ==> #[trigger] idxs[j] == start + j)
            &&& scan_exhausted(s, start, Seq::empty(), limit) == (start + limit >= s.len())
        }),
    decreases s.len() - start,
{
    if start < s.len() && limit > 0 {
        assert(entry_matches(s[start], Seq::empty())) by {
            assert(Seq::<char>::empty() =~= s[start].record.contract.subrange(0, 0));
        }
        lemma_page_no_filter(s, start + 1, limit - 1);
        let idxs = page_idxs(s, start, Seq::empty(), limit);
        let tail = page_idxs(s, start + 1, Seq::empty(), limit - 1);
        assert(idxs == seq![start] + tail);
        assert forall|j: int| 0 <= j < idxs.len() implies #[trigger] idxs[j] == start + j by {
            if j > 0 {
                assert(idxs[j] == tail[j - 1]);
            }
        }
    }
}

/// In a sorted store, the index a record's own canonical name resolves to is
/// the record's index: a cursor resumes exactly where the page that produced
/// it stopped.
pub proof fn lemma_index_of_self(s: Seq<EntryView>, k: int)
    requires
        sorted(s),
        0 <= k < s.len(),
    ensures
        index_of_name(s, s[k].cannonical_name) == k,
{
    assert(contains_name(s, s[k].cannonical_name));
    lemma_sorted_unique(s, k, index_of_name(s, s[k].cannonical_name));
}

/// An unexhausted, unfiltered page is full, ends at index
/// `start + limit - 1`, and the cursor it returns — the canonical name of
/// its last record — resumes the next scan exactly at the page's end.
pub proof fn lemma_pagination_resume(s: Seq<EntryView>, start: int, limit: int)
    requires
        sorted(s),
        0 <= start <= s.len(),
        1 <= limit,
        !scan_exhausted(s, start, Seq::empty(), limit),
    ensures
        ({
            let idxs = page_idxs(s, start, Seq::empty(), limit);
            &&& idxs.len() == limit
            &&& idxs.last() == start + limit - 1
            &&& index_of_name(s, s[idxs.last()].cannonical_name) + 1 == start + limit
        }),
{
    lemma_page_no_filter(s, start, limit);
    lemma_index_of_self(s, start + limit - 1);
}

/// The canonical names an unfiltered chain of pages of size `limit` visits,
/// each page resuming at the index where the previous one stopped.
pub open spec fn chain_names(s: Seq<EntryView>, start: int, limit: int) -> Seq<Seq<char>>
    decreases s.len() - start,
{
    if !(0 <= start && start < s.len()) || limit <= 0 {
        Seq::empty()
    } else {
        let stop = if start + limit < s.len() {
            start + limit
        } else {
            s.len() as int
        };
        s.subrange(start, stop).map_values(|e: EntryView| e.cannonical_name) + chain_names(
            s,
            stop,
            limit,
        )
    }
}

/// A chain of pages starting anywhere visits exactly the records from its
/// start to the end of the store, in store order.
pub proof fn lemma_chain_names_all(s: Seq<EntryView>, start: int, limit: int)
    requires
        0 <= start <= s.len(),
        1 <= limit,
    ensures
        chain_names(s, start, limit) == s.subrange(start, s.len() as int).map_values(
            |e: EntryView| e.cannonical_name,
        ),
    decreases s.len() - start,
{
    let all = s.subrange(start, s.len() as int).map_values(|e: EntryView| e.cannonical_name);
    if start == s.len() {
        assert(chain_names(s, start, limit) =~= all);
    } else {
        let stop = if start + limit < s.len() {
            start + limit
        } else {
            s.len() as int
        };
        lemma_chain_names_all(s, stop, limit);
        let head = s.subrange(start, stop).map_values(|e: EntryView| e.cannonical_name);
        let rest = s.subrange(stop, s.len() as int).map_values(|e: EntryView| e.cannonical_name);
        assert(chain_names(s, start, limit) == head + rest);
        assert(head + rest =~= all);
    }
}

/// Pagination completeness: chaining unfiltered pages of any positive size
/// through a well-formed store of `k` records — each call resuming strictly
/// after the cursor returned by the previous one — yields exactly the `k`
/// canonical names, in strictly ascending order, with no duplicates and no
/// gaps; the chain ends (the cursor goes null) exactly when the scan reaches
/// the end of the store.  `lemma_page_no_filter` and `lemma_index_of_self`
/// connect each page and its cursor to one step of `chain_names`.
pub proof fn lemma_pagination_completeness(s: Seq<EntryView>, limit: int)
    requires
        sorted(s),
        1 <= limit,
    ensures
        chain_names(s, 0, limit) == s.map_values(|e: EntryView| e.cannonical_name),
        s.map_values(|e: EntryView| e.cannonical_name).no_duplicates(),
{
    lemma_chain_names_all(s, 0, limit);
    assert(s.subrange(0, s.len() as int) =~= s);
    let names = s.map_values(|e: EntryView| e.cannonical_name);
    assert forall|i: int, j: int|
        0 <= i < names.len() && 0 <= j < names.len() && i != j implies names[i] != names[j] by {
        if i < j {
            lemma_seq_lt_irrefl(s[i].cannonical_name);
        } else {
            lemma_seq_lt_irrefl(s[j].cannonical_name);
        }
    }
}

} // verus!
