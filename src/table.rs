use vstd::prelude::*;

use crate::bytes::occurs_in;
use crate::digest::block_digest;
use crate::types::{AccountId, BlockNumber, Config, KeyPolicy};

verus! {

/// The key under which a record is stored.
#[derive(Debug)]
pub enum StorageKey {
    /// The digest of a block number (content-keyed stores).
    Hashed(Vec<u8>),
    /// The owner's identity (owner-keyed stores).
    Owner(AccountId),
}

pub ghost enum KeyView {
    Hashed(Seq<u8>),
    Owner(AccountId),
}

impl View for StorageKey {
    type V = KeyView;

    open spec fn view(&self) -> KeyView {
        match self {
            StorageKey::Hashed(d) => KeyView::Hashed(d@),
            StorageKey::Owner(o) => KeyView::Owner(*o),
        }
    }
}

/// One stored record: a payload, its category tag and its owner.
#[derive(Debug)]
pub struct Record {
    pub payload: Vec<u8>,
    pub category: i32,
    pub owner: AccountId,
}

pub ghost struct RecordView {
    pub payload: Seq<u8>,
    pub category: i32,
    pub owner: AccountId,
}

impl View for Record {
    type V = RecordView;

    open spec fn view(&self) -> RecordView {
        RecordView { payload: self.payload@, category: self.category, owner: self.owner }
    }
}

/// A row of the table, as contracts see it.
pub type Row = (KeyView, RecordView);

/// Stored rows as contracts see them.
pub open spec fn rows_view(rows: Seq<(StorageKey, Record)>) -> Seq<Row> {
    rows.map_values(|e: (StorageKey, Record)| (e.0@, e.1@))
}

/// The key that `policy` gives to a record inserted by `owner` at block `now`.
pub open spec fn key_for(policy: KeyPolicy, owner: AccountId, now: BlockNumber) -> KeyView {
    match policy {
        KeyPolicy::ContentKeyed => KeyView::Hashed(block_digest(now)),
        KeyPolicy::OwnerKeyed => KeyView::Owner(owner),
    }
}

/// No two rows share a key.
pub open spec fn keys_unique(rows: Seq<Row>) -> bool {
    forall|i: int, j: int|
        0 <= i < rows.len() && 0 <= j < rows.len() && i != j ==> #[trigger] rows[i].0 != #[trigger] rows[j].0
}

/// A row that a store under `config` may hold: its payload length is within
/// bounds and its key has the shape that the policy gives.
pub open spec fn row_fits(config: Config, row: Row) -> bool {
    &&& config.min_length <= row.1.payload.len() <= config.max_length
    &&& match config.policy {
        KeyPolicy::ContentKeyed => row.0 is Hashed,
        KeyPolicy::OwnerKeyed => row.0 == KeyView::Owner(row.1.owner),
    }
}

/// The invariant of a table under `config`.
pub open spec fn table_wf(config: Config, rows: Seq<Row>) -> bool {
    &&& keys_unique(rows)
    &&& forall|i: int| 0 <= i < rows.len() ==> row_fits(config, #[trigger] rows[i])
}

/// The row that holds key `k`, if there is one.
pub open spec fn holds_key(rows: Seq<Row>, k: KeyView) -> bool {
    exists|i: int| 0 <= i < rows.len() && #[trigger] rows[i].0 == k
}

/// Insert-or-overwrite: a row with key `k` gets `rec` in place; without such
/// a row, `(k, rec)` is appended.
pub open spec fn upsert(rows: Seq<Row>, k: KeyView, rec: RecordView) -> Seq<Row> {
    if holds_key(rows, k) {
        rows.map_values(|r: Row| if r.0 == k { (k, rec) } else { r })
    } else {
        rows.push((k, rec))
    }
}

/// The table after `owner` stored `payload` under `category` at block `now`.
pub open spec fn inserted(
    config: Config,
    rows: Seq<Row>,
    owner: AccountId,
    payload: Seq<u8>,
    category: i32,
    now: BlockNumber,
) -> Seq<Row> {
    upsert(
        rows,
        key_for(config.policy, owner, now),
        RecordView { payload, category, owner },
    )
}

/// Every payload of the table, in table order.
pub open spec fn all_payloads(rows: Seq<Row>) -> Seq<Seq<u8>> {
    rows.map_values(|r: Row| r.1.payload)
}

/// A row that a search by `caller` for `pattern` in `category` reports.
pub open spec fn is_hit(caller: AccountId, pattern: Seq<u8>, category: i32, row: Row) -> bool {
    &&& row.1.owner == caller
    &&& row.1.category == category
    &&& occurs_in(pattern, row.1.payload)
}

/// The payloads that a search reports, in table order.
pub open spec fn search_hits(
    rows: Seq<Row>,
    caller: AccountId,
    pattern: Seq<u8>,
    category: i32,
) -> Seq<Seq<u8>> {
    all_payloads(rows.filter(|r: Row| is_hit(caller, pattern, category, r)))
}

/// The hits of a prefix grow by one row at a time.
pub proof fn lemma_hits_step(
    rows: Seq<Row>,
    caller: AccountId,
    pattern: Seq<u8>,
    category: i32,
    i: int,
)
    requires
        0 <= i < rows.len(),
    ensures
        search_hits(rows.subrange(0, i + 1), caller, pattern, category) == if is_hit(
            caller,
            pattern,
            category,
            rows[i],
        ) {
            search_hits(rows.subrange(0, i), caller, pattern, category).push(rows[i].1.payload)
        } else {
            search_hits(rows.subrange(0, i), caller, pattern, category)
        },
{
    let pred = |r: Row| is_hit(caller, pattern, category, r);
    let s = rows.subrange(0, i + 1);
    assert(s.drop_last() =~= rows.subrange(0, i));
    reveal(Seq::filter);
    assert(s.filter(pred) == if pred(rows[i]) {
        rows.subrange(0, i).filter(pred).push(rows[i])
    } else {
        rows.subrange(0, i).filter(pred)
    });
    if pred(rows[i]) {
        assert(all_payloads(rows.subrange(0, i).filter(pred).push(rows[i])) =~= all_payloads(
            rows.subrange(0, i).filter(pred),
        ).push(rows[i].1.payload));
    }
}

/// The payloads of a prefix grow by one row at a time.
pub proof fn lemma_payloads_step(rows: Seq<Row>, i: int)
    requires
        0 <= i < rows.len(),
    ensures
        all_payloads(rows.subrange(0, i + 1)) == all_payloads(rows.subrange(0, i)).push(
            rows[i].1.payload,
        ),
{
    assert(all_payloads(rows.subrange(0, i + 1)) =~= all_payloads(rows.subrange(0, i)).push(
        rows[i].1.payload,
    ));
}

/// After an upsert, `(k, rec)` stands at some position of the table.
pub proof fn lemma_upsert_places(rows: Seq<Row>, k: KeyView, rec: RecordView)
    ensures
        exists|i: int|
            0 <= i < upsert(rows, k, rec).len() && #[trigger] upsert(rows, k, rec)[i] == (k, rec),
{
    let t = upsert(rows, k, rec);
    if holds_key(rows, k) {
        let i = choose|i: int| 0 <= i < rows.len() && #[trigger] rows[i].0 == k;
        assert(t[i] == (k, rec));
    } else {
        assert(t[rows.len() as int] == (k, rec));
    }
}

/// Upserting a row that fits keeps the table well formed.
pub proof fn lemma_upsert_wf(config: Config, rows: Seq<Row>, k: KeyView, rec: RecordView)
    requires
        table_wf(config, rows),
        row_fits(config, (k, rec)),
    ensures
        table_wf(config, upsert(rows, k, rec)),
{
}

} // verus!
