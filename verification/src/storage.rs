//! The storage backend: the capability that owns all durable state.
//!
//! The host implements [`CEP47Storage`]. Each method's contract says what the
//! backend does to the [`Ledger`] that it stands for; the facade is verified
//! against these contracts and holds of every backend that keeps them.

use crate::amount::{amount_of, amounts_of};
use crate::events::CEP47Event;
use crate::ledger::{Ledger, MetaView};
use casper_types::{Key, U256};
use std::collections::BTreeMap;
use vstd::prelude::*;

verus! {

/// A token identifier: a string that names one token of the collection.
pub type TokenId = String;

/// Metadata: a mapping from string keys to string values.
pub type Meta = BTreeMap<String, String>;

/// The identifiers of a batch as sequences of characters.
pub open spec fn ids_of(ids: Seq<TokenId>) -> Seq<Seq<char>> {
    ids.map_values(|id: TokenId| id@)
}

/// The metadata of a batch as mappings.
pub open spec fn metas_of(metas: Seq<Meta>) -> Seq<MetaView> {
    metas.map_values(|meta: Meta| meta.deep_view())
}

/// What a storage backend owes the ledger. The facade treats every call as
/// infallible: a backend that cannot keep a contract must stop the host, not
/// return.
pub trait CEP47Storage {
    /// The ledger that the backend holds.
    spec fn ledger(&self) -> Ledger;

    /// The collection's name.
    fn name(&self) -> (name: String)
        ensures
            name@ == self.ledger().name,
    ;

    /// The collection's symbol.
    fn symbol(&self) -> (symbol: String)
        ensures
            symbol@ == self.ledger().symbol,
    ;

    /// The collection's metadata.
    fn meta(&self) -> (meta: Meta)
        ensures
            meta.deep_view() == self.ledger().meta,
    ;

    /// The quantity of `token_id` that `owner` holds.
    fn balance_of(&self, owner: &Key, token_id: TokenId) -> (balance: U256)
        ensures
            amount_of(balance) == self.ledger().balance_of(*owner, token_id@),
    ;

    /// The total supply of `token_id`: the sum over the balance entries that
    /// the backend holds, of which there are finitely many.
    fn total_supply(&self, token_id: TokenId) -> (supply: U256)
        ensures
            self.ledger().wf(),
            amount_of(supply) == self.ledger().total_supply(token_id@),
    ;

    /// The metadata recorded for `token_id`, if any.
    fn token_meta(&self, token_id: &TokenId) -> (meta: Option<Meta>)
        ensures
            meta is Some <==> self.ledger().token_metas.contains_key(token_id@),
            meta is Some ==> meta->0.deep_view() == self.ledger().token_metas[token_id@],
    ;

    /// Whether transfers are blocked.
    fn is_paused(&self) -> (paused: bool)
        ensures
            paused == self.ledger().paused,
    ;

    /// Blocks transfers.
    fn pause(&mut self)
        ensures
            final(self).ledger() == old(self).ledger().set_paused(true),
    ;

    /// Allows transfers.
    fn unpause(&mut self)
        ensures
            final(self).ledger() == old(self).ledger().set_paused(false),
    ;

    /// Records each identifier with its metadata and credits its quantity to
    /// `recipient`.
    fn mint_many(
        &mut self,
        recipient: &Key,
        token_ids: &Vec<TokenId>,
        token_metas: &Vec<Meta>,
        values: &Vec<U256>,
    )
        requires
            token_ids.len() == token_metas.len(),
            token_ids.len() == values.len(),
            old(self).ledger().can_mint(ids_of(token_ids@)),
        ensures
            final(self).ledger() == old(self).ledger().mint(
                *recipient,
                ids_of(token_ids@),
                metas_of(token_metas@),
                amounts_of(values@),
            ),
    ;

    /// Moves each listed quantity from `sender` to `recipient`.
    fn transfer_many(
        &mut self,
        sender: &Key,
        recipient: &Key,
        token_ids: &Vec<TokenId>,
        values: &Vec<U256>,
    )
        requires
            token_ids.len() == values.len(),
            old(self).ledger().owns_all(*sender, ids_of(token_ids@), amounts_of(values@)),
        ensures
            final(self).ledger() == old(self).ledger().transfer(
                *sender,
                *recipient,
                ids_of(token_ids@),
                amounts_of(values@),
            ),
    ;

    /// Takes each listed quantity from `owner`.
    fn burn_many(&mut self, owner: &Key, token_ids: &Vec<TokenId>, values: &Vec<U256>)
        requires
            token_ids.len() == values.len(),
            old(self).ledger().owns_all(*owner, ids_of(token_ids@), amounts_of(values@)),
        ensures
            final(self).ledger() == old(self).ledger().burn(
                *owner,
                ids_of(token_ids@),
                amounts_of(values@),
            ),
    ;

    /// Replaces the metadata of `token_id`.
    fn update_token_metadata(&mut self, token_id: &TokenId, meta: Meta)
        ensures
            final(self).ledger() == old(self).ledger().set_token_meta(
                token_id@,
                meta.deep_view(),
            ),
    ;

    /// Generates `n` identifiers that may be minted. The ledger is as before.
    fn gen_token_ids(&mut self, n: usize) -> (token_ids: Vec<TokenId>)
        ensures
            token_ids.len() == n,
            old(self).ledger().can_mint(ids_of(token_ids@)),
            final(self).ledger() == old(self).ledger(),
    ;

    /// Whether the identifiers may be minted: none is live, none occurs twice.
    fn validate_token_ids(&self, token_ids: &Vec<TokenId>) -> (valid: bool)
        ensures
            valid == self.ledger().can_mint(ids_of(token_ids@)),
    ;

    /// Whether `owner` owns every listed identifier.
    fn are_all_owner_tokens(&self, owner: &Key, token_ids: &Vec<TokenId>) -> (all: bool)
        ensures
            all == self.ledger().owns_each(*owner, ids_of(token_ids@)),
    ;

    /// Appends `event` to the events of the ledger.
    fn emit(&mut self, event: CEP47Event)
        ensures
            final(self).ledger() == old(self).ledger().emit(event@),
    ;
}

} // verus!
