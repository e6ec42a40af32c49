//! A small record store: bounded byte payloads tagged with a category and an
//! owner, kept in one table and queried by owner, category and substring.
mod bytes;
mod digest;
mod laws;
mod store;
mod table;
mod types;

pub use bytes::{contains_pattern, occurs_in};
pub use digest::block_digest;
pub use laws::{
    lemma_accepted_payload_is_listed, lemma_empty_pattern_finds_all, lemma_empty_pattern_occurs,
    lemma_empty_table_lists_nothing, lemma_owner_keyed_keeps_latest, lemma_search_hits_exact,
    owned_in_category,
};
pub use store::{insert_error, Pallet};
pub use table::{
    all_payloads, holds_key, inserted, is_hit, key_for, keys_unique, row_fits, rows_view,
    search_hits, table_wf, upsert, KeyView, Record, RecordView, Row, StorageKey,
};
pub use types::{payloads_view, AccountId, BlockNumber, Config, Error, Event, EventView, KeyPolicy};
