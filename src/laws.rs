use vstd::prelude::*;

use crate::bytes::occurs_in;
use crate::store::insert_error;
use crate::table::{
    all_payloads, inserted, lemma_upsert_places, is_hit, key_for, lemma_upsert_wf, search_hits, table_wf,
    RecordView, Row,
};
use crate::types::{AccountId, BlockNumber, Config, KeyPolicy};

verus! {

/// The payloads of `caller`'s rows tagged `category`, in table order.
pub open spec fn owned_in_category(rows: Seq<Row>, caller: AccountId, category: i32) -> Seq<Seq<u8>> {
    all_payloads(rows.filter(|r: Row| r.1.owner == caller && r.1.category == category))
}

/// The empty pattern occurs in every byte sequence.
pub proof fn lemma_empty_pattern_occurs(hay: Seq<u8>)
    ensures
        occurs_in(Seq::empty(), hay),
{
    let e = Seq::<u8>::empty();
    assert(hay.subrange(0, 0int + e.len()) =~= e);
}

/// A payload whose length lies within the configured bounds is accepted from
/// any verified caller, and afterwards the listing of all payloads holds it.
pub proof fn lemma_accepted_payload_is_listed(
    config: Config,
    rows: Seq<Row>,
    caller: AccountId,
    payload: Seq<u8>,
    category: i32,
    now: BlockNumber,
)
    requires
        config.min_length <= payload.len() <= config.max_length,
    ensures
        insert_error(config, Some(caller), payload.len()) is None,
        all_payloads(inserted(config, rows, caller, payload, category, now)).contains(payload),
{
    let k = key_for(config.policy, caller, now);
    let rec = RecordView { payload, category, owner: caller };
    let t = inserted(config, rows, caller, payload, category, now);
    lemma_upsert_places(rows, k, rec);
    let i = choose|i: int| 0 <= i < t.len() && #[trigger] t[i] == (k, rec);
    assert(all_payloads(t)[i] == payload);
}

/// In an owner-keyed store, two accepted inserts by one owner leave exactly
/// one row of that owner, and it holds the second payload.
pub proof fn lemma_owner_keyed_keeps_latest(
    config: Config,
    rows: Seq<Row>,
    owner: AccountId,
    first: Seq<u8>,
    first_category: i32,
    first_block: BlockNumber,
    second: Seq<u8>,
    second_category: i32,
    second_block: BlockNumber,
)
    requires
        config.policy == KeyPolicy::OwnerKeyed,
        table_wf(config, rows),
        config.min_length <= first.len() <= config.max_length,
        config.min_length <= second.len() <= config.max_length,
    ensures
        ({
            let t = inserted(
                config,
                inserted(config, rows, owner, first, first_category, first_block),
                owner,
                second,
                second_category,
                second_block,
            );
            exists|i: int|
                {
                    &&& 0 <= i < t.len()
                    &&& #[trigger] t[i].1 == RecordView {
                        payload: second,
                        category: second_category,
                        owner,
                    }
                    &&& forall|j: int| 0 <= j < t.len() && #[trigger] t[j].1.owner == owner ==> j == i
                }
        }),
{
    let r1 = RecordView { payload: first, category: first_category, owner };
    let r2 = RecordView { payload: second, category: second_category, owner };
    let k = key_for(config.policy, owner, first_block);
    lemma_upsert_wf(config, rows, k, r1);
    let t1 = inserted(config, rows, owner, first, first_category, first_block);
    lemma_upsert_wf(config, t1, k, r2);
    lemma_upsert_places(t1, k, r2);
    let t = inserted(config, t1, owner, second, second_category, second_block);
    let i = choose|i: int| 0 <= i < t.len() && #[trigger] t[i] == (k, r2);
    assert forall|j: int| 0 <= j < t.len() && #[trigger] t[j].1.owner == owner implies j == i by {
        assert(t[j].0 == k);
    }
    assert(t[i].1 == r2);
}

/// A payload is among the search results exactly when a row of the caller,
/// tagged with the category, holds it and contains the pattern; when no row
/// qualifies, the results are empty.
pub proof fn lemma_search_hits_exact(
    rows: Seq<Row>,
    caller: AccountId,
    pattern: Seq<u8>,
    category: i32,
)
    ensures
        forall|p: Seq<u8>|
            #[trigger] search_hits(rows, caller, pattern, category).contains(p) <==> exists|i: int|
                0 <= i < rows.len() && is_hit(caller, pattern, category, #[trigger] rows[i])
                    && rows[i].1.payload == p,
        (forall|i: int| 0 <= i < rows.len() ==> !is_hit(caller, pattern, category, #[trigger] rows[i]))
            ==> search_hits(rows, caller, pattern, category) == Seq::<Seq<u8>>::empty(),
{
    let pred = |r: Row| is_hit(caller, pattern, category, r);
    let f = rows.filter(pred);
    let hits = search_hits(rows, caller, pattern, category);
    assert forall|p: Seq<u8>| #[trigger] hits.contains(p) implies exists|i: int|
        0 <= i < rows.len() && is_hit(caller, pattern, category, #[trigger] rows[i])
            && rows[i].1.payload == p by {
        let k = choose|k: int| 0 <= k < hits.len() && hits[k] == p;
        rows.lemma_filter_pred(pred, k);
        assert(f.contains(f[k]));
        rows.lemma_filter_contains_rev(pred, f[k]);
        let i = choose|i: int| 0 <= i < rows.len() && rows[i] == f[k];
        assert(is_hit(caller, pattern, category, rows[i]));
    }
    assert forall|p: Seq<u8>|
        (exists|i: int|
            0 <= i < rows.len() && is_hit(caller, pattern, category, #[trigger] rows[i])
                && rows[i].1.payload == p) implies #[trigger] hits.contains(p) by {
        let i = choose|i: int|
            0 <= i < rows.len() && is_hit(caller, pattern, category, #[trigger] rows[i])
                && rows[i].1.payload == p;
        rows.lemma_filter_contains(pred, i);
        let k = choose|k: int| 0 <= k < f.len() && f[k] == rows[i];
        assert(hits[k] == p);
    }
    if forall|i: int| 0 <= i < rows.len() ==> !is_hit(caller, pattern, category, #[trigger] rows[i]) {
        assert(rows.all(|x: Row| !pred(x)));
        rows.lemma_all_neg_filter_empty(pred);
        assert(hits =~= Seq::<Seq<u8>>::empty());
    }
}

/// A search for the empty pattern reports every payload of the caller in the
/// category.
pub proof fn lemma_empty_pattern_finds_all(rows: Seq<Row>, caller: AccountId, category: i32)
    ensures
        search_hits(rows, caller, Seq::empty(), category) == owned_in_category(rows, caller, category),
{
    let hit = |r: Row| is_hit(caller, Seq::empty(), category, r);
    let owned = |r: Row| r.1.owner == caller && r.1.category == category;
    assert forall|r: Row| #[trigger] hit(r) == owned(r) by {
        lemma_empty_pattern_occurs(r.1.payload);
    }
    assert(hit =~= owned);
}

/// A table without rows lists no payloads.
pub proof fn lemma_empty_table_lists_nothing()
    ensures
        all_payloads(Seq::<Row>::empty()) == Seq::<Seq<u8>>::empty(),
{
    assert(all_payloads(Seq::<Row>::empty()) =~= Seq::<Seq<u8>>::empty());
}

} // verus!
