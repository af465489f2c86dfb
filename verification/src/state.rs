//! The authoritative registry state: an ordered map from canonical name to
//! record and metadata, kept as a vector sorted strictly by canonical name.
//! Strict sorting makes canonical names unique and gives pagination a
//! deterministic, restartable enumeration order.
use vstd::prelude::*;
use crate::error::ContractError;
use crate::models::Config;
use crate::models::MetaView;
use crate::models::NameMetadata;
use crate::models::NameRecord;
use crate::models::RecordView;
use crate::msg::InstantiateMsg;
use crate::text::canon;
use crate::text::concat2;
use crate::text::lemma_seq_lt_connected;
use crate::text::lemma_seq_lt_irrefl;
use crate::text::lemma_seq_lt_trans;
use crate::text::lowercase;
use crate::text::seq_lt;
use crate::text::str_lt;
use crate::utils::bech32_valid;
use crate::utils::is_bech32_address;

verus! {

/// One registered name: the canonical name, its record, and its metadata.
/// Record and metadata live in the same entry, so a record can never exist
/// without metadata or vice versa.
pub struct Entry {
    pub cannonical_name: String,
    pub record: NameRecord,
    pub meta: NameMetadata,
}

/// Mathematical value of an `Entry`.
#[verifier::ext_equal]
pub ghost struct EntryView {
    pub cannonical_name: Seq<char>,
    pub record: RecordView,
    pub meta: MetaView,
}

impl View for Entry {
    type V = EntryView;

    open spec fn view(&self) -> EntryView {
        EntryView { cannonical_name: self.cannonical_name@, record: self.record@, meta: self.meta@ }
    }
}

impl DeepView for Entry {
    type V = EntryView;

    open spec fn deep_view(&self) -> EntryView {
        self.view()
    }
}

/// Entries stand in strictly ascending canonical-name order.
pub open spec fn sorted(s: Seq<EntryView>) -> bool {
    forall|i: int, j: int|
        0 <= i < j < s.len() ==> seq_lt(
            (#[trigger] s[i]).cannonical_name,
            (#[trigger] s[j]).cannonical_name,
        )
}

/// Whether some entry is registered under canonical name `n`.
pub open spec fn contains_name(s: Seq<EntryView>, n: Seq<char>) -> bool {
    exists|i: int| 0 <= i < s.len() && (#[trigger] s[i]).cannonical_name == n
}

/// The index of the entry registered under canonical name `n`; meaningful
/// only when `contains_name(s, n)` holds, and then unique in a sorted store.
pub open spec fn index_of_name(s: Seq<EntryView>, n: Seq<char>) -> int {
    choose|i: int| 0 <= i < s.len() && (#[trigger] s[i]).cannonical_name == n
}

/// The position a new entry named `n` takes in sorted order: the length of
/// the maximal leading run of names below `n`.
pub open spec fn insert_pos(s: Seq<EntryView>, n: Seq<char>) -> int
    decreases s.len(),
{
    if s.len() == 0 {
        0
    } else if seq_lt(s[0].cannonical_name, n) {
        1 + insert_pos(s.drop_first(), n)
    } else {
        0
    }
}

/// In a sorted store an index holding a given name is unique.
pub proof fn lemma_sorted_unique(s: Seq<EntryView>, i: int, j: int)
    requires
        sorted(s),
        0 <= i < s.len(),
        0 <= j < s.len(),
        s[i].cannonical_name == s[j].cannonical_name,
    ensures
        i == j,
{
    if i < j {
        lemma_seq_lt_irrefl(s[i].cannonical_name);
    }
    if j < i {
        lemma_seq_lt_irrefl(s[i].cannonical_name);
    }
}

/// Everything strictly before the insertion position sorts below `n`, and
/// nothing at or after it does.
pub proof fn lemma_insert_pos_properties(s: Seq<EntryView>, n: Seq<char>)
    requires
        sorted(s),
    ensures
        0 <= insert_pos(s, n) <= s.len(),
        forall|k: int|
            0 <= k < insert_pos(s, n) ==> seq_lt((#[trigger] s[k]).cannonical_name, n),
        forall|k: int|
            insert_pos(s, n) <= k < s.len() ==> !seq_lt((#[trigger] s[k]).cannonical_name, n),
    decreases s.len(),
{
    if s.len() > 0 {
        let tail = s.drop_first();
        assert(sorted(tail)) by {
            assert(forall|i: int, j: int|
                0 <= i < j < tail.len() ==> tail[i] == s[i + 1] && tail[j] == s[j + 1]);
        }
        lemma_insert_pos_properties(tail, n);
        if seq_lt(s[0].cannonical_name, n) {
            assert forall|k: int| 0 <= k < insert_pos(s, n) implies seq_lt(
                (#[trigger] s[k]).cannonical_name,
                n,
            ) by {
                if k > 0 {
                    assert(s[k] == tail[k - 1]);
                }
            }
            assert forall|k: int| insert_pos(s, n) <= k < s.len() implies !seq_lt(
                (#[trigger] s[k]).cannonical_name,
                n,
            ) by {
                assert(s[k] == tail[k - 1]);
            }
        } else {
            assert forall|k: int| 0 <= k < s.len() implies !seq_lt(
                (#[trigger] s[k]).cannonical_name,
                n,
            ) by {
                if k > 0 {
                    if seq_lt(s[k].cannonical_name, n) {
                        lemma_seq_lt_trans(s[0].cannonical_name, s[k].cannonical_name, n);
                    }
                }
            }
        }
    }
}

/// A position with everything below `n` strictly before it and nothing below
/// `n` at it is the insertion position.
pub proof fn lemma_insert_pos_value(s: Seq<EntryView>, n: Seq<char>, p: int)
    requires
        0 <= p <= s.len(),
        forall|k: int| 0 <= k < p ==> seq_lt((#[trigger] s[k]).cannonical_name, n),
        p < s.len() ==> !seq_lt(s[p].cannonical_name, n),
    ensures
        insert_pos(s, n) == p,
    decreases s.len(),
{
    if s.len() > 0 {
        let tail = s.drop_first();
        if p > 0 {
            assert(seq_lt(s[0].cannonical_name, n));
            assert(forall|k: int|
                0 <= k < p - 1 ==> seq_lt((#[trigger] tail[k]).cannonical_name, n)) by {
                assert(forall|k: int| 0 <= k < tail.len() ==> #[trigger] tail[k] == s[k + 1]);
            }
            assert(p - 1 < tail.len() ==> !seq_lt(tail[p - 1].cannonical_name, n)) by {
                assert(p < s.len() ==> tail[p - 1] == s[p]);
            }
            lemma_insert_pos_value(tail, n, p - 1);
        }
    }
}

/// Inserting a fresh name at its insertion position keeps the store sorted
/// and adds exactly that name.
pub proof fn lemma_insert_keeps_sorted(s: Seq<EntryView>, e: EntryView)
    requires
        sorted(s),
        !contains_name(s, e.cannonical_name),
    ensures
        sorted(s.insert(insert_pos(s, e.cannonical_name), e)),
        contains_name(s.insert(insert_pos(s, e.cannonical_name), e), e.cannonical_name),
        forall|m: Seq<char>|
            #[trigger] contains_name(s.insert(insert_pos(s, e.cannonical_name), e), m)
                <==> (contains_name(s, m) || m == e.cannonical_name),
{
    let n = e.cannonical_name;
    let p = insert_pos(s, n);
    lemma_insert_pos_properties(s, n);
    let t = s.insert(p, e);
    assert forall|k: int| p <= k < s.len() implies seq_lt(n, (#[trigger] s[k]).cannonical_name) by {
        assert(s[k].cannonical_name != n);
        lemma_seq_lt_connected(n, s[k].cannonical_name);
    }
    assert forall|i: int, j: int| 0 <= i < j < t.len() implies seq_lt(
        (#[trigger] t[i]).cannonical_name,
        (#[trigger] t[j]).cannonical_name,
    ) by {
        if i < p && j < p {
            assert(t[i] == s[i] && t[j] == s[j]);
        } else if i < p && j == p {
            assert(t[i] == s[i]);
        } else if i < p && j > p {
            assert(t[i] == s[i] && t[j] == s[j - 1]);
        } else if i == p && j > p {
            assert(t[j] == s[j - 1]);
        } else if i > p && j > p {
            assert(t[i] == s[i - 1] && t[j] == s[j - 1]);
        }
    }
    assert(t[p] == e);
    assert(contains_name(t, n));
    assert forall|m: Seq<char>| #[trigger] contains_name(t, m) implies (contains_name(s, m) || m
        == n) by {
        let i = choose|i: int| 0 <= i < t.len() && (#[trigger] t[i]).cannonical_name == m;
        if i < p {
            assert(s[i].cannonical_name == m);
        } else if i > p {
            assert(s[i - 1].cannonical_name == m);
        }
    }
    assert forall|m: Seq<char>| contains_name(s, m) implies #[trigger] contains_name(t, m) by {
        let i = choose|i: int| 0 <= i < s.len() && (#[trigger] s[i]).cannonical_name == m;
        if i < p {
            assert(t[i].cannonical_name == m);
        } else {
            assert(t[i + 1].cannonical_name == m);
        }
    }
}

/// The public shape of a stored entry: its record joined with its canonical
/// name and metadata.
pub open spec fn pub_of_entry(e: EntryView) -> crate::models::PublicRecordView {
    crate::models::PublicRecordView {
        owner: e.record.owner,
        cannonical_name: e.cannonical_name,
        contract: e.record.contract,
        created_at: e.record.created_at,
        meta: e.meta,
    }
}

/// The registry store.  Well-formedness (`wf`) is established by `new` and
/// preserved by every mutating operation.
pub struct RegistryStore {
    pub entries: Vec<Entry>,
}

impl View for RegistryStore {
    type V = Seq<EntryView>;

    open spec fn view(&self) -> Seq<EntryView> {
        self.entries.deep_view()
    }
}

impl RegistryStore {
    /// The store invariant: entries sorted strictly by canonical name.
    pub open spec fn wf(self) -> bool {
        sorted(self@)
    }

    /// Creates an empty store.
    pub fn new() -> (r: Self)
        ensures
            r@ == Seq::<EntryView>::empty(),
            r.wf(),
    {
        let r = RegistryStore { entries: Vec::new() };
        proof {
            assert(r@ =~= Seq::<EntryView>::empty());
        }
        r
    }

    /// Finds the index holding canonical name `name`, if any.
    pub fn find_index(&self, name: &String) -> (r: Option<usize>)
        ensures
            match r {
                Some(i) => i < self@.len() && self@[i as int].cannonical_name == name@,
                None => !contains_name(self@, name@),
            },
    {
        let mut i: usize = 0;
        while i < self.entries.len()
            invariant
                i <= self@.len(),
                self@.len() == self.entries@.len(),
                forall|j: int| 0 <= j < i ==> (#[trigger] self@[j]).cannonical_name != name@,
            decreases self@.len() - i,
        {
            if self.entries[i].cannonical_name.eq(name) {
                return Some(i);
            }
            i = i + 1;
        }
        None
    }

    /// Inserts a fresh entry at its sorted position.
    pub fn insert_sorted(&mut self, e: Entry)
        requires
            old(self).wf(),
            !contains_name(old(self)@, e@.cannonical_name),
        ensures
            final(self).wf(),
            final(self)@ == old(self)@.insert(insert_pos(old(self)@, e@.cannonical_name), e@),
    {
        proof {
            lemma_insert_pos_properties(self@, e@.cannonical_name);
        }
        let ghost s = self@;
        let mut pos: usize = 0;
        while pos < self.entries.len() && str_lt(
            self.entries[pos].cannonical_name.as_str(),
            e.cannonical_name.as_str(),
        )
            invariant
                self@ == s,
                self.entries@.len() == s.len(),
                pos <= s.len(),
                forall|k: int| 0 <= k < pos ==> seq_lt((#[trigger] s[k]).cannonical_name, e@.cannonical_name),
            decreases s.len() - pos,
        {
            pos = pos + 1;
        }
        proof {
            lemma_insert_pos_value(s, e@.cannonical_name, pos as int);
            lemma_insert_keeps_sorted(s, e@);
        }
        self.entries.insert(pos, e);
        proof {
            assert(self@ =~= s.insert(pos as int, e@));
        }
    }

    /// Replaces the metadata of the entry at index `i` with the field-by-field
    /// merge of the stored metadata and `patch`.
    pub fn patch_meta(&mut self, i: usize, patch: NameMetadata)
        requires
            old(self).wf(),
            i < old(self)@.len(),
        ensures
            final(self).wf(),
            final(self)@ == old(self)@.update(
                i as int,
                (EntryView {
                    meta: crate::models::merge_meta(old(self)@[i as int].meta, patch@),
                    ..old(self)@[i as int]
                }),
            ),
    {
        let ghost s = self@;
        let old_entry = self.entries.remove(i);
        let merged = crate::models::apply_patch(old_entry.meta, patch);
        let new_entry = Entry {
            cannonical_name: old_entry.cannonical_name,
            record: old_entry.record,
            meta: merged,
        };
        self.entries.insert(i, new_entry);
        proof {
            let t = s.update(
                i as int,
                EntryView { meta: crate::models::merge_meta(s[i as int].meta, patch@), ..s[i as int] },
            );
            assert(self@ =~= t);
            assert forall|a: int, b: int| 0 <= a < b < t.len() implies seq_lt(
                (#[trigger] t[a]).cannonical_name,
                (#[trigger] t[b]).cannonical_name,
            ) by {
                assert(t[a].cannonical_name == s[a].cannonical_name);
                assert(t[b].cannonical_name == s[b].cannonical_name);
            }
        }
    }
}

/// Builds the one-time configuration from the initialization message.  The
/// maximum name length is clamped to at least 1.
pub fn init(msg: InstantiateMsg) -> (r: Config)
    ensures
        r@.price == msg.price@,
        r@.fee_recipient == msg.fee_recipient@,
        r@.max_name_len == if msg.max_name_len >= 1 {
            msg.max_name_len
        } else {
            1u8
        },
{
    let max_name_len = if msg.max_name_len >= 1 {
        msg.max_name_len
    } else {
        1
    };
    Config { price: msg.price, fee_recipient: msg.fee_recipient, max_name_len }
}

/// Resolves a user-supplied identifier to a target address: a syntactically
/// valid address is returned unchanged; anything else is canonicalized as a
/// name and looked up.
pub fn resolve_contract_address(store: &RegistryStore, addr_or_name: &String) -> (r: Result<
    String,
    ContractError,
>)
    requires
        store.wf(),
    ensures
        bech32_valid(addr_or_name@) ==> (r matches Ok(a) && a@ == addr_or_name@),
        !bech32_valid(addr_or_name@) && contains_name(store@, canon(addr_or_name@)) ==> (r
            matches Ok(a) && a@ == store@[index_of_name(
            store@,
            canon(addr_or_name@),
        )].record.contract),
        !bech32_valid(addr_or_name@) && !contains_name(store@, canon(addr_or_name@)) ==> (r
            matches Err(e) && e matches ContractError::NotFound { reason } && reason@
            == "could not resolve contract address from "@ + addr_or_name@),
{
    if is_bech32_address(addr_or_name) {
        return Ok(addr_or_name.clone());
    }
    let cannonical_name = lowercase(addr_or_name.as_str());
    match store.find_index(&cannonical_name) {
        Some(i) => {
            proof {
                lemma_sorted_unique(store@, i as int, index_of_name(store@, canon(addr_or_name@)));
            }
            Ok(store.entries[i].record.contract.clone())
        },
        None => Err(ContractError::NotFound {
            reason: concat2("could not resolve contract address from ", addr_or_name.as_str()),
        }),
    }
}

} // verus!
