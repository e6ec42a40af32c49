use vstd::prelude::*;

verus! {

/// The identity of a caller, as verified by the host.
pub type AccountId = u64;

/// The host's block height: a counter that never decreases.
pub type BlockNumber = u64;

/// How the key of a new record is derived.
#[derive(Clone, Copy, Debug, PartialEq, Eq, Structural)]
pub enum KeyPolicy {
    /// The key is the digest of the block number at insertion time. Two
    /// inserts within one block share a key: the later one overwrites.
    ContentKeyed,
    /// The key is the owner: each owner holds at most one record, and a new
    /// insert replaces it.
    OwnerKeyed,
}

/// Deployment settings of a store; fixed once the store exists.
#[derive(Clone, Copy, Debug, PartialEq, Eq, Structural)]
pub struct Config {
    pub min_length: u32,
    pub max_length: u32,
    pub policy: KeyPolicy,
}

/// Why a call was refused.
#[derive(Clone, Copy, Debug, PartialEq, Eq, Structural)]
pub enum Error {
    /// Reserved; no operation returns it.
    NoneValue,
    /// Reserved; no operation returns it.
    StorageOverflow,
    /// The payload is shorter than `min_length`.
    TooShort,
    /// The payload is longer than `max_length`.
    TooLong,
    /// Reserved; no operation returns it.
    Unnamed,
    /// No verified caller identity came with the call.
    Unauthenticated,
}

/// The notification that an operation hands to the host for delivery.
#[derive(Debug)]
pub enum Event {
    AddConhecimentos { conhecimento: Vec<u8> },
    ListConhecimentos { conhecimentos: Vec<Vec<u8>> },
    SearchConhecimentos { dono: AccountId, conhecimentos: Vec<Vec<u8>> },
}

/// An event with its byte vectors seen as sequences.
pub ghost enum EventView {
    AddConhecimentos { conhecimento: Seq<u8> },
    ListConhecimentos { conhecimentos: Seq<Seq<u8>> },
    SearchConhecimentos { dono: AccountId, conhecimentos: Seq<Seq<u8>> },
}

/// The payloads of a list of byte vectors, as sequences.
pub open spec fn payloads_view(v: Seq<Vec<u8>>) -> Seq<Seq<u8>> {
    v.map_values(|p: Vec<u8>| p@)
}

impl View for Event {
    type V = EventView;

    open spec fn view(&self) -> EventView {
        match self {
            Event::AddConhecimentos { conhecimento } => EventView::AddConhecimentos {
                conhecimento: conhecimento@,
            },
            Event::ListConhecimentos { conhecimentos } => EventView::ListConhecimentos {
                conhecimentos: payloads_view(conhecimentos@),
            },
            Event::SearchConhecimentos { dono, conhecimentos } => EventView::SearchConhecimentos {
                dono: *dono,
                conhecimentos: payloads_view(conhecimentos@),
            },
        }
    }
}

} // verus!
