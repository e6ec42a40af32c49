use vstd::prelude::*;

use crate::bytes::{contains_pattern, same_bytes};
use crate::digest::hash_block_number;
use crate::table::{
    all_payloads, inserted, key_for, lemma_hits_step, lemma_payloads_step, lemma_upsert_wf,
    row_fits, rows_view, search_hits, table_wf, upsert, Record, RecordView, Row, StorageKey,
};
use crate::types::{AccountId, BlockNumber, Config, Error, Event, EventView, KeyPolicy, payloads_view};

verus! {

/// Why `new_conhecimento` refuses a payload of `len` bytes from `origin`, if it
/// does: a missing identity first, then a payload over `max_length`, then one
/// under `min_length`.
pub open spec fn insert_error(config: Config, origin: Option<AccountId>, len: nat) -> Option<Error> {
    if origin is None {
        Some(Error::Unauthenticated)
    } else if len > config.max_length {
        Some(Error::TooLong)
    } else if len < config.min_length {
        Some(Error::TooShort)
    } else {
        None
    }
}

/// Whether two keys are the same key.
fn same_key(a: &StorageKey, b: &StorageKey) -> (r: bool)
    ensures
        r == (a@ == b@),
{
    match (a, b) {
        (StorageKey::Hashed(x), StorageKey::Hashed(y)) => same_bytes(x, y),
        (StorageKey::Owner(x), StorageKey::Owner(y)) => *x == *y,
        _ => false,
    }
}

/// Whether `row` may stand in a table under `config`.
fn fits(config: Config, row: &(StorageKey, Record)) -> (r: bool)
    ensures
        r == row_fits(config, (row.0@, row.1@)),
{
    let len = row.1.payload.len();
    if len < config.min_length as usize || len > config.max_length as usize {
        return false;
    }
    match (config.policy, &row.0) {
        (KeyPolicy::ContentKeyed, StorageKey::Hashed(_)) => true,
        (KeyPolicy::OwnerKeyed, StorageKey::Owner(o)) => *o == row.1.owner,
        _ => false,
    }
}

/// A copy of a byte vector.
fn copy_bytes(v: &Vec<u8>) -> (r: Vec<u8>)
    ensures
        r@ == v@,
{
    let r = v.clone();
    assert(r@ =~= v@);
    r
}

/// The knowledge store: one table of records under a fixed configuration.
pub struct Pallet {
    config: Config,
    rows: Vec<(StorageKey, Record)>,
}

impl Pallet {
    /// The configuration the store was made with.
    pub closed spec fn config(&self) -> Config {
        self.config
    }

    /// The table's rows, in table order.
    pub closed spec fn table(&self) -> Seq<Row> {
        rows_view(self.rows@)
    }

    /// The store's invariant.
    pub open spec fn wf(&self) -> bool {
        table_wf(self.config(), self.table())
    }

    /// An empty store under `config`.
    pub fn new(config: Config) -> (p: Pallet)
        ensures
            p.wf(),
            p.config() == config,
            p.table() == Seq::<Row>::empty(),
    {
        let p = Pallet { config, rows: Vec::new() };
        assert(p.table() =~= Seq::<Row>::empty());
        p
    }

    /// A store under `config` that holds `rows` in the given order, when they
    /// form a valid table: each payload within bounds, each key of the shape
    /// the policy gives, no key twice. `None` otherwise.
    pub fn restore(config: Config, rows: Vec<(StorageKey, Record)>) -> (r: Option<Pallet>)
        ensures
            r is Some <==> table_wf(config, rows_view(rows@)),
            r is Some ==> r->0.config() == config && r->0.table() == rows_view(rows@),
    {
        let ghost v = rows_view(rows@);
        let n: usize = rows.len();
        let mut i: usize = 0;
        while i < n
            invariant
                n == v.len(),
                v == rows_view(rows@),
                i <= n,
                forall|a: int| 0 <= a < i ==> row_fits(config, #[trigger] v[a]),
                forall|a: int, b: int|
                    0 <= a < i && 0 <= b < n && a != b ==> #[trigger] v[a].0 != #[trigger] v[b].0,
            decreases n - i,
        {
            if !fits(config, &rows[i]) {
                assert(!row_fits(config, v[i as int]));
                return None;
            }
            let mut j: usize = 0;
            while j < n
                invariant
                    n == v.len(),
                    v == rows_view(rows@),
                    i < n,
                    j <= n,
                    forall|b: int| 0 <= b < j && b != i ==> v[i as int].0 != #[trigger] v[b].0,
                decreases n - j,
            {
                if j != i && same_key(&rows[i].0, &rows[j].0) {
                    assert(v[i as int].0 == v[j as int].0);
                    return None;
                }
                j = j + 1;
            }
            i = i + 1;
        }
        Some(Pallet { config, rows })
    }

    /// The store's rows, in table order, for the host to keep.
    pub fn into_rows(self) -> (r: Vec<(StorageKey, Record)>)
        ensures
            rows_view(r@) == self.table(),
    {
        self.rows
    }

    /// The position of the row with key `key`, if there is one.
    fn find_key(&self, key: &StorageKey) -> (r: Option<usize>)
        ensures
            match r {
                Some(i) => i < self.table().len() && self.table()[i as int].0 == key@,
                None => forall|i: int| 0 <= i < self.table().len() ==> #[trigger] self.table()[i].0 != key@,
            },
    {
        let mut i: usize = 0;
        while i < self.rows.len()
            invariant
                i <= self.rows@.len(),
                forall|j: int| 0 <= j < i ==> #[trigger] self.table()[j].0 != key@,
            decreases self.rows@.len() - i,
        {
            if same_key(&self.rows[i].0, key) {
                return Some(i);
            }
            i = i + 1;
        }
        None
    }

    /// Stores `record` under `key`, overwriting the row that holds `key`.
    fn put(&mut self, key: StorageKey, record: Record)
        requires
            old(self).wf(),
            row_fits(old(self).config(), (key@, record@)),
        ensures
            final(self).wf(),
            final(self).config() == old(self).config(),
            final(self).table() == upsert(old(self).table(), key@, record@),
    {
        let ghost k = key@;
        let ghost rec = record@;
        let ghost before = self.table();
        proof {
            lemma_upsert_wf(self.config, before, k, rec);
        }
        match self.find_key(&key) {
            Some(i) => {
                self.rows.set(i, (key, record));
                assert(self.table() =~= upsert(before, k, rec));
            },
            None => {
                self.rows.push((key, record));
                assert(self.table() =~= before.push((k, rec)));
            },
        }
    }

    /// The key that this store's policy gives to a record of `owner` inserted
    /// at block `now`.
    pub fn derive_key(&self, owner: AccountId, now: BlockNumber) -> (r: StorageKey)
        ensures
            r@ == key_for(self.config().policy, owner, now),
    {
        match self.config.policy {
            KeyPolicy::ContentKeyed => StorageKey::Hashed(hash_block_number(now)),
            KeyPolicy::OwnerKeyed => StorageKey::Owner(owner),
        }
    }

    /// Stores `text` under `categoria` for the caller; the key comes from the
    /// store's policy and the block number `now`. Returns the event that
    /// announces the new payload.
    pub fn new_conhecimento(
        &mut self,
        origin: Option<AccountId>,
        text: Vec<u8>,
        categoria: i32,
        now: BlockNumber,
    ) -> (r: Result<Event, Error>)
        requires
            old(self).wf(),
        ensures
            final(self).wf(),
            final(self).config() == old(self).config(),
            match insert_error(old(self).config(), origin, text@.len()) {
                Some(e) => r == Err::<Event, Error>(e) && final(self).table() == old(self).table(),
                None => {
                    &&& r is Ok
                    &&& r->Ok_0@ == EventView::AddConhecimentos { conhecimento: text@ }
                    &&& final(self).table() == inserted(
                        old(self).config(),
                        old(self).table(),
                        origin->0,
                        text@,
                        categoria,
                        now,
                    )
                },
            },
    {
        let caller = match origin {
            Some(c) => c,
            None => return Err(Error::Unauthenticated),
        };
        if text.len() > self.config.max_length as usize {
            return Err(Error::TooLong);
        }
        if text.len() < self.config.min_length as usize {
            return Err(Error::TooShort);
        }
        let key = self.derive_key(caller, now);
        let event = Event::AddConhecimentos { conhecimento: copy_bytes(&text) };
        let record = Record { payload: text, category: categoria, owner: caller };
        self.put(key, record);
        Ok(event)
    }

    /// The caller's payloads tagged `categoria` that contain `search`, in
    /// table order, as a search event.
    pub fn search(&self, origin: Option<AccountId>, search: Vec<u8>, categoria_id: i32) -> (r: Result<Event, Error>)
        ensures
            origin is None ==> r == Err::<Event, Error>(Error::Unauthenticated),
            origin is Some ==> {
                &&& r is Ok
                &&& r->Ok_0@ == EventView::SearchConhecimentos {
                    dono: origin->0,
                    conhecimentos: search_hits(self.table(), origin->0, search@, categoria_id),
                }
            },
    {
        let who = match origin {
            Some(c) => c,
            None => return Err(Error::Unauthenticated),
        };
        let mut result: Vec<Vec<u8>> = Vec::new();
        let mut i: usize = 0;
        while i < self.rows.len()
            invariant
                i <= self.rows@.len(),
                payloads_view(result@) == search_hits(
                    self.table().subrange(0, i as int),
                    who,
                    search@,
                    categoria_id,
                ),
            decreases self.rows@.len() - i,
        {
            let rec = &self.rows[i].1;
            proof {
                lemma_hits_step(self.table(), who, search@, categoria_id, i as int);
            }
            if rec.category == categoria_id && rec.owner == who && contains_pattern(&rec.payload, &search) {
                let ghost prev = result@;
                result.push(copy_bytes(&rec.payload));
                assert(payloads_view(result@) =~= payloads_view(prev).push(rec.payload@));
            }
            i = i + 1;
        }
        assert(self.table().subrange(0, self.rows@.len() as int) =~= self.table());
        Ok(Event::SearchConhecimentos { dono: who, conhecimentos: result })
    }

    /// Every payload in the table, whoever owns it, in table order, as a
    /// listing event. The listing is not scoped to the caller.
    pub fn get_all_conhecimento(&self, origin: Option<AccountId>) -> (r: Result<Event, Error>)
        ensures
            origin is None ==> r == Err::<Event, Error>(Error::Unauthenticated),
            origin is Some ==> {
                &&& r is Ok
                &&& r->Ok_0@ == EventView::ListConhecimentos { conhecimentos: all_payloads(self.table()) }
            },
    {
        if origin.is_none() {
            return Err(Error::Unauthenticated);
        }
        let mut all: Vec<Vec<u8>> = Vec::new();
        let mut i: usize = 0;
        while i < self.rows.len()
            invariant
                i <= self.rows@.len(),
                payloads_view(all@) == all_payloads(self.table().subrange(0, i as int)),
            decreases self.rows@.len() - i,
        {
            proof {
                lemma_payloads_step(self.table(), i as int);
            }
            let ghost prev = all@;
            all.push(copy_bytes(&self.rows[i].1.payload));
            assert(payloads_view(all@) =~= payloads_view(prev).push(self.rows@[i as int].1.payload@));
            i = i + 1;
        }
        assert(self.table().subrange(0, self.rows@.len() as int) =~= self.table());
        Ok(Event::ListConhecimentos { conhecimentos: all })
    }
}

} // verus!
