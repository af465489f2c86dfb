//! Single-record lookup, by name or by target address.  No separate
//! address-to-name index is kept: resolving by address falls back to a
//! linear scan, so the answer can never go stale.
use vstd::prelude::*;
use crate::error::ContractError;
use crate::models::PublicNameRecord;
use crate::state::contains_name;
use crate::state::index_of_name;
use crate::state::lemma_sorted_unique;
use crate::state::pub_of_entry;
use crate::state::EntryView;
use crate::state::RegistryStore;
use crate::text::canon;
use crate::text::lowercase;
use crate::utils::bech32_valid;
use crate::utils::is_bech32_address;

verus! {

/// Whether some entry's target address is exactly `a`.
pub open spec fn has_addr(s: Seq<EntryView>, a: Seq<char>) -> bool {
    exists|i: int| 0 <= i < s.len() && (#[trigger] s[i]).record.contract == a
}

/// The first index (lowest canonical name) whose target address is `a`;
/// `s.len()` when there is none.
pub open spec fn addr_match_idx(s: Seq<EntryView>, a: Seq<char>) -> int
    decreases s.len(),
{
    if s.len() == 0 {
        0
    } else if s[0].record.contract == a {
        0
    } else {
        1 + addr_match_idx(s.drop_first(), a)
    }
}

/// An index below which no address matches and at which one does is the
/// first match.
proof fn lemma_addr_first(s: Seq<EntryView>, a: Seq<char>, i: int)
    requires
        0 <= i < s.len(),
        forall|j: int| 0 <= j < i ==> (#[trigger] s[j]).record.contract != a,
        s[i].record.contract == a,
    ensures
        addr_match_idx(s, a) == i,
    decreases i,
{
    if i > 0 {
        let tail = s.drop_first();
        assert(forall|j: int| 0 <= j < i - 1 ==> #[trigger] tail[j] == s[j + 1]);
        assert(tail[i - 1] == s[i]);
        lemma_addr_first(tail, a, i - 1);
    }
}

/// Finds the entry whose target address is exactly `address`, if any,
/// returning the first one in canonical-name order.
pub fn reverse_lookup(store: &RegistryStore, address: &String) -> (r: Option<usize>)
    ensures
        match r {
            Some(i) => i < store@.len() && store@[i as int].record.contract == address@ && i as int
                == addr_match_idx(store@, address@),
            None => !has_addr(store@, address@),
        },
{
    let mut i: usize = 0;
    while i < store.entries.len()
        invariant
            i <= store@.len(),
            store@.len() == store.entries@.len(),
            forall|j: int| 0 <= j < i ==> (#[trigger] store@[j]).record.contract != address@,
        decreases store@.len() - i,
    {
        if store.entries[i].record.contract.eq(address) {
            proof {
                lemma_addr_first(store@, address@, i as int);
            }
            return Some(i);
        }
        i = i + 1;
    }
    None
}

/// What a single-record lookup returns for identifier `contract`: resolved
/// by exact target address when the identifier is a syntactically valid
/// address, by canonical name otherwise; `None` when nothing matches.
pub open spec fn name_record_post(
    s: Seq<EntryView>,
    contract: Seq<char>,
    o: Option<PublicNameRecord>,
) -> bool {
    &&& (bech32_valid(contract) && has_addr(s, contract) ==> (o matches Some(p) && p@
        == pub_of_entry(s[addr_match_idx(s, contract)])))
    &&& (bech32_valid(contract) && !has_addr(s, contract) ==> o is None)
    &&& (!bech32_valid(contract) && contains_name(s, canon(contract)) ==> (o matches Some(p) && p@
        == pub_of_entry(s[index_of_name(s, canon(contract))])))
    &&& (!bech32_valid(contract) && !contains_name(s, canon(contract)) ==> o is None)
}

/// Returns the public record registered under `contract`, which may be a
/// target address (looked up by scanning) or a name (canonicalized and looked
/// up directly); `None` when nothing matches.
pub fn query_name_record(store: &RegistryStore, contract: String) -> (r: Result<
    Option<PublicNameRecord>,
    ContractError,
>)
    requires
        store.wf(),
    ensures
        r matches Ok(o) && name_record_post(store@, contract@, o),
{
    if is_bech32_address(&contract) {
        match reverse_lookup(store, &contract) {
            Some(i) => {
                let e = &store.entries[i];
                Ok(Some(e.record.build_public_name_record(&e.cannonical_name, &e.meta)))
            },
            None => Ok(None),
        }
    } else {
        let cannonical_name = lowercase(contract.as_str());
        match store.find_index(&cannonical_name) {
            Some(i) => {
                proof {
                    assert(store@[i as int].cannonical_name == canon(contract@));
                    assert(contains_name(store@, canon(contract@)));
                    lemma_sorted_unique(store@, i as int, index_of_name(store@, canon(contract@)));
                }
                let e = &store.entries[i];
                Ok(Some(e.record.build_public_name_record(&e.cannonical_name, &e.meta)))
            },
            None => Ok(None),
        }
    }
}

} // verus!
