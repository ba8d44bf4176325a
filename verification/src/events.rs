//! The events that the ledger raises, one per completed mutation.

use crate::amount::amounts_of;
use crate::ledger::demand;
use crate::storage::{ids_of, TokenId};
use casper_types::{Key, U256};
use vstd::prelude::*;

verus! {

/// The record of one completed mutation.
#[derive(Debug, PartialEq, Eq)]
pub enum CEP47Event {
    /// The metadata of `token_id` was replaced.
    MetadataUpdate { token_id: TokenId },
    /// `values` of `token_ids` moved from `sender` to `recipient`.
    Transfer { sender: Key, recipient: Key, token_ids: Vec<TokenId>, values: Vec<U256> },
    /// `values` of `token_ids` were minted to `recipient`.
    Mint { recipient: Key, token_ids: Vec<TokenId>, values: Vec<U256> },
    /// `values` of `token_ids` were taken from `owner`.
    Burn { owner: Key, token_ids: Vec<TokenId>, values: Vec<U256> },
}

/// What an event says: the identifiers, addresses and quantities involved.
pub enum EventView {
    MetadataUpdate { token_id: Seq<char> },
    Transfer { sender: Key, recipient: Key, token_ids: Seq<Seq<char>>, values: Seq<nat> },
    Mint { recipient: Key, token_ids: Seq<Seq<char>>, values: Seq<nat> },
    Burn { owner: Key, token_ids: Seq<Seq<char>>, values: Seq<nat> },
}

impl View for CEP47Event {
    type V = EventView;

    open spec fn view(&self) -> EventView {
        match *self {
            CEP47Event::MetadataUpdate { token_id } => EventView::MetadataUpdate {
                token_id: token_id@,
            },
            CEP47Event::Transfer { sender, recipient, token_ids, values } => EventView::Transfer {
                sender,
                recipient,
                token_ids: ids_of(token_ids@),
                values: amounts_of(values@),
            },
            CEP47Event::Mint { recipient, token_ids, values } => EventView::Mint {
                recipient,
                token_ids: ids_of(token_ids@),
                values: amounts_of(values@),
            },
            CEP47Event::Burn { owner, token_ids, values } => EventView::Burn {
                owner,
                token_ids: ids_of(token_ids@),
                values: amounts_of(values@),
            },
        }
    }
}

impl EventView {
    /// The tag under which indexers file an event of this variant.
    pub open spec fn type_tag(self) -> Seq<char> {
        match self {
            EventView::MetadataUpdate { .. } => "cep47_metadata_update"@,
            EventView::Transfer { .. } => "cep47_transfer_token"@,
            EventView::Mint { .. } => "cep47_mint_one"@,
            EventView::Burn { .. } => "cep47_burn_one"@,
        }
    }
}

impl EventView {
    /// How much of `id` the event says was minted.
    pub open spec fn mints(self, id: Seq<char>) -> nat {
        match self {
            EventView::Mint { token_ids, values, .. } => demand(token_ids, values, id),
            _ => 0,
        }
    }

    /// How much of `id` the event says was burned.
    pub open spec fn burns(self, id: Seq<char>) -> nat {
        match self {
            EventView::Burn { token_ids, values, .. } => demand(token_ids, values, id),
            _ => 0,
        }
    }

    /// The identifiers that the event says were minted.
    pub open spec fn minted_ids(self) -> Seq<Seq<char>> {
        match self {
            EventView::Mint { token_ids, .. } => token_ids,
            _ => Seq::empty(),
        }
    }
}

/// How much of `id` the `Mint` events of a log say was minted.
pub open spec fn log_minted(events: Seq<EventView>, id: Seq<char>) -> nat
    decreases events.len(),
{
    if events.len() == 0 {
        0
    } else {
        log_minted(events.drop_last(), id) + events.last().mints(id)
    }
}

/// How much of `id` the `Burn` events of a log say was burned.
pub open spec fn log_burned(events: Seq<EventView>, id: Seq<char>) -> nat
    decreases events.len(),
{
    if events.len() == 0 {
        0
    } else {
        log_burned(events.drop_last(), id) + events.last().burns(id)
    }
}

/// The identifiers that the `Mint` events of a log list, oldest first.
pub open spec fn log_minted_ids(events: Seq<EventView>) -> Seq<Seq<char>>
    decreases events.len(),
{
    if events.len() == 0 {
        Seq::empty()
    } else {
        log_minted_ids(events.drop_last()) + events.last().minted_ids()
    }
}

impl CEP47Event {
    /// The event's type tag, which depends on its variant alone.
    pub fn type_tag(&self) -> (name: String)
        ensures
            name@ == self@.type_tag(),
    {
        match self {
            CEP47Event::MetadataUpdate { .. } => "cep47_metadata_update".to_owned(),
            CEP47Event::Transfer { .. } => "cep47_transfer_token".to_owned(),
            CEP47Event::Mint { .. } => "cep47_mint_one".to_owned(),
            CEP47Event::Burn { .. } => "cep47_burn_one".to_owned(),
        }
    }
}

} // verus!
