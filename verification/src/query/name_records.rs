//! Paginated enumeration: ascending canonical-name order, exclusive cursor
//! resumption, and target-address prefix filtering.  The response reports
//! genuine scan exhaustion: the next cursor is absent exactly when no rows,
//! matching or not, remain past the last one scanned.
use vstd::prelude::*;
use crate::error::ContractError;
use crate::models::PublicNameRecord;
use crate::models::PublicRecordView;
use crate::msg::NameRecordsQueryMsg;
use crate::msg::NameRecordsQueryResponse;
use crate::state::contains_name;
use crate::state::index_of_name;
use crate::state::lemma_sorted_unique;
use crate::state::pub_of_entry;
use crate::state::EntryView;
use crate::state::RegistryStore;
use crate::text::concat3;
use crate::text::str_starts_with;

verus! {

/// The pagination ceiling: no call may ask for more records than this.
pub const MAX_REQUEST_LIMIT: u8 = 30;

/// Whether an entry participates in a scan filtered by `prefix`.
pub open spec fn entry_matches(e: EntryView, prefix: Seq<char>) -> bool {
    prefix.is_prefix_of(e.record.contract)
}

/// The indices of the first `limit` matching entries at or after `i`.
pub open spec fn page_idxs(s: Seq<EntryView>, i: int, prefix: Seq<char>, limit: int) -> Seq<int>
    decreases s.len() - i,
{
    if i >= s.len() || limit <= 0 {
        Seq::empty()
    } else if entry_matches(s[i], prefix) {
        seq![i] + page_idxs(s, i + 1, prefix, limit - 1)
    } else {
        page_idxs(s, i + 1, prefix, limit)
    }
}

/// Whether a scan from `i` collecting at most `limit` matches runs off the
/// end of the store, so that no rows at all remain unseen.
pub open spec fn scan_exhausted(s: Seq<EntryView>, i: int, prefix: Seq<char>, limit: int) -> bool
    decreases s.len() - i,
{
    if i >= s.len() {
        true
    } else if limit <= 0 {
        false
    } else if entry_matches(s[i], prefix) {
        scan_exhausted(s, i + 1, prefix, limit - 1)
    } else {
        scan_exhausted(s, i + 1, prefix, limit)
    }
}

/// The public records at the given indices.
pub open spec fn page_records(s: Seq<EntryView>, idxs: Seq<int>) -> Seq<PublicRecordView> {
    idxs.map_values(|k: int| pub_of_entry(s[k]))
}

/// The filter a request asks for: the given prefix, or the empty prefix that
/// every record matches.
pub open spec fn prefix_of(p: Option<Seq<char>>) -> Seq<char> {
    match p {
        Some(q) => q,
        None => Seq::empty(),
    }
}

/// A successful page: the records are the first `limit` matches from
/// `start`, in store order, and the next cursor is the canonical name of the
/// last one returned, absent exactly when the scan exhausted the store.
pub open spec fn page_ok(
    s: Seq<EntryView>,
    start: int,
    prefix: Seq<char>,
    limit: int,
    r: Result<Option<NameRecordsQueryResponse>, ContractError>,
) -> bool {
    let idxs = page_idxs(s, start, prefix, limit);
    r matches Ok(o) && o matches Some(resp) && resp.name_records.deep_view() == page_records(
        s,
        idxs,
    ) && resp.next_cursor.deep_view() == (if idxs.len() > 0 && !scan_exhausted(
        s,
        start,
        prefix,
        limit,
    ) {
        Some(s[idxs.last()].cannonical_name)
    } else {
        None::<Seq<char>>
    })
}

/// What `query_name_records` guarantees: the limit ceiling is enforced
/// before anything else, a cursor must name a registered record, and an
/// accepted request yields the page described by `page_ok`, resuming
/// strictly after the cursor.
pub open spec fn name_records_post(
    s: Seq<EntryView>,
    limit: u8,
    cursor: Option<Seq<char>>,
    network_prefix: Option<Seq<char>>,
    r: Result<Option<NameRecordsQueryResponse>, ContractError>,
) -> bool {
    &&& (limit > MAX_REQUEST_LIMIT ==> (r matches Err(e) && e matches
        ContractError::TooManyRecords { limit: l } && l == MAX_REQUEST_LIMIT))
    &&& (limit <= MAX_REQUEST_LIMIT && cursor is None ==> page_ok(
        s,
        0,
        prefix_of(network_prefix),
        limit as int,
        r,
    ))
    &&& (limit <= MAX_REQUEST_LIMIT ==> (cursor matches Some(cur) ==> ((!contains_name(s, cur)
        ==> (r matches Err(e) && e matches ContractError::NotFound { reason } && reason@
        == "Name "@ + cur + " not found"@)) && (contains_name(s, cur) ==> page_ok(
        s,
        index_of_name(s, cur) + 1,
        prefix_of(network_prefix),
        limit as int,
        r,
    )))))
}

/// Returns up to `limit` records in ascending canonical-name order, starting
/// strictly after `cursor` when given, keeping only records whose target
/// address starts with `network_prefix` when given.  Fails `TooManyRecords`
/// when `limit` exceeds the ceiling, before any scanning, and `NotFound`
/// when the cursor names no registered record.
pub fn query_name_records(store: &RegistryStore, msg: NameRecordsQueryMsg) -> (r: Result<
    Option<NameRecordsQueryResponse>,
    ContractError,
>)
    requires
        store.wf(),
    ensures
        name_records_post(
            store@,
            msg.limit,
            msg.cursor.deep_view(),
            msg.network_prefix.deep_view(),
            r,
        ),
{
    if msg.limit > MAX_REQUEST_LIMIT {
        return Err(ContractError::TooManyRecords { limit: MAX_REQUEST_LIMIT });
    }
    let start: usize = match &msg.cursor {
        Some(id) => {
            match store.find_index(id) {
                None => {
                    return Err(ContractError::NotFound {
                        reason: concat3("Name ", id.as_str(), " not found"),
                    });
                },
                Some(i) => {
                    let n = store.entries.len();
                    proof {
                        assert(store@[i as int].cannonical_name == id@);
                        assert(contains_name(store@, id@));
                        lemma_sorted_unique(store@, i as int, index_of_name(store@, id@));
                        assert(i < n);
                    }
                    i + 1
                },
            }
        },
        None => 0,
    };
    let prefix: &str = match &msg.network_prefix {
        Some(p) => p.as_str(),
        None => "",
    };
    let ghost s = store@;
    let ghost pfx = prefix@;
    proof {
        if msg.network_prefix is None {
            reveal_strlit("");
            assert(pfx =~= prefix_of(msg.network_prefix.deep_view()));
        }
        assert(pfx == prefix_of(msg.network_prefix.deep_view()));
    }
    let ghost lim = msg.limit as int;
    let limit = msg.limit as usize;
    let mut records: Vec<PublicNameRecord> = Vec::new();
    let ghost mut done: Seq<int> = Seq::empty();
    let mut i: usize = start;
    proof {
        assert(records.deep_view() =~= page_records(s, done));
        assert(page_idxs(s, start as int, pfx, lim) =~= done + page_idxs(
            s,
            start as int,
            pfx,
            lim,
        ));
    }
    while i < store.entries.len() && records.len() < limit
        invariant
            store.wf(),
            s == store@,
            store@.len() == store.entries@.len(),
            pfx == prefix@,
            lim == msg.limit as int,
            limit == msg.limit as usize,
            start <= i,
            i <= s.len(),
            records@.len() == done.len(),
            records@.len() <= limit,
            forall|j: int| 0 <= j < done.len() ==> 0 <= #[trigger] done[j] < s.len(),
            records.deep_view() == page_records(s, done),
            page_idxs(s, start as int, pfx, lim) == done + page_idxs(
                s,
                i as int,
                pfx,
                lim - records@.len(),
            ),
            scan_exhausted(s, start as int, pfx, lim) == scan_exhausted(
                s,
                i as int,
                pfx,
                lim - records@.len(),
            ),
        decreases s.len() - i,
    {
        let e = &store.entries[i];
        let ghost done_pre = done;
        let ghost n_pre = records@.len() as int;
        if str_starts_with(e.record.contract.as_str(), prefix) {
            let p = e.record.build_public_name_record(&e.cannonical_name, &e.meta);
            records.push(p);
            proof {
                done = done.push(i as int);
                assert(records.deep_view() =~= page_records(s, done)) by {
                    assert(page_records(s, done) =~= page_records(s, done_pre).push(
                        pub_of_entry(s[i as int]),
                    ));
                }
                assert(page_idxs(s, i as int, pfx, lim - n_pre) == seq![i as int] + page_idxs(
                    s,
                    i as int + 1,
                    pfx,
                    lim - n_pre - 1,
                ));
                assert(done_pre + (seq![i as int] + page_idxs(s, i as int + 1, pfx, lim - n_pre - 1))
                    =~= done + page_idxs(s, i as int + 1, pfx, lim - n_pre - 1));
            }
        } else {
            proof {
                assert(page_idxs(s, i as int, pfx, lim - n_pre) == page_idxs(
                    s,
                    i as int + 1,
                    pfx,
                    lim - n_pre,
                ));
            }
        }
        i = i + 1;
    }
    proof {
        assert(page_idxs(s, i as int, pfx, lim - records@.len()) =~= Seq::<int>::empty());
        assert(page_idxs(s, start as int, pfx, lim) =~= done);
    }
    let next_cursor: Option<String> = if records.len() > 0 && i < store.entries.len() {
        proof {
            assert(records.deep_view().last() == page_records(s, done).last());
            assert(page_records(s, done).last() == pub_of_entry(s[done.last()]));
        }
        Some(records[records.len() - 1].cannonical_name.clone())
    } else {
        None
    };
    Ok(Some(NameRecordsQueryResponse { name_records: records, next_cursor }))
}

} // verus!
