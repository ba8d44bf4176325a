//! The ledger facade: the operations that callers invoke.
//!
//! Each operation checks the request against the ledger that the storage
//! backend holds, and only when every check has passed does it apply the
//! whole batch through the backend and raise one event. A request that is
//! refused leaves the backend untouched.

use crate::amount::{amount_of, amounts_of, checked_sub, is_zero};
use crate::error::Error;
use crate::events::{CEP47Event, EventView};
use crate::laws::{
    law_supply_counts_owners, lemma_burn_frame, lemma_demand_covers_each, lemma_demand_grows,
    lemma_demand_unlisted, lemma_mint_frame, lemma_transfer_frame,
};
use crate::ledger::{demand, Ledger};
use crate::storage::{ids_of, metas_of, CEP47Storage, Meta, TokenId};
use casper_types::{Key, U256};
use vstd::prelude::*;

verus! {

/// The identifiers that a caller supplied for minting, if any.
pub open spec fn supplied_ids(token_ids: Option<Vec<TokenId>>) -> Option<Seq<Seq<char>>> {
    match token_ids {
        Some(token_ids) => Some(ids_of(token_ids@)),
        None => None,
    }
}

/// The identifier that a caller supplied for minting one token, if any, as a
/// batch of one.
pub open spec fn supplied_id(token_id: Option<TokenId>) -> Option<Seq<Seq<char>>> {
    match token_id {
        Some(token_id) => Some(seq![token_id@]),
        None => None,
    }
}

/// A copy of a batch of identifiers.
fn copy_ids(token_ids: &Vec<TokenId>) -> (copy: Vec<TokenId>)
    ensures
        ids_of(copy@) == ids_of(token_ids@),
{
    let mut copy: Vec<TokenId> = Vec::new();
    let mut i: usize = 0;
    while i < token_ids.len()
        invariant
            i <= token_ids.len(),
            copy.len() == i,
            forall|j: int| 0 <= j < i ==> copy[j]@ == token_ids[j]@,
        decreases token_ids.len() - i,
    {
        copy.push(token_ids[i].clone());
        i += 1;
    }
    assert(ids_of(copy@) =~= ids_of(token_ids@));
    copy
}

/// A copy of a batch of quantities.
fn copy_values(values: &Vec<U256>) -> (copy: Vec<U256>)
    ensures
        copy@ == values@,
{
    let mut copy: Vec<U256> = Vec::new();
    let mut i: usize = 0;
    while i < values.len()
        invariant
            i <= values.len(),
            copy.len() == i,
            forall|j: int| 0 <= j < i ==> copy[j] == values[j],
        decreases values.len() - i,
    {
        copy.push(values[i]);
        i += 1;
    }
    assert(copy@ =~= values@);
    copy
}

/// Whether `owner` holds none of the identifier at index `i` of the batch, or
/// less than the value listed beside it.
pub open spec fn holds_short(
    l: Ledger,
    owner: Key,
    token_ids: Seq<TokenId>,
    values: Seq<U256>,
    i: int,
) -> bool {
    &&& 0 <= i < token_ids.len()
    &&& l.balance_of(owner, token_ids[i]@) == 0 || (i < values.len() && l.balance_of(
        owner,
        token_ids[i]@,
    ) < amount_of(values[i]))
}

/// An owner that holds short at some index cannot give up the batch.
proof fn lemma_short_holding(l: Ledger, owner: Key, token_ids: Seq<TokenId>, values: Seq<U256>)
    ensures
        forall|i: int|
            #![trigger token_ids[i]]
            holds_short(l, owner, token_ids, values, i) ==> !l.owns_all(
                owner,
                ids_of(token_ids),
                amounts_of(values),
            ),
{
    assert forall|i: int| #![trigger token_ids[i]] holds_short(l, owner, token_ids, values, i)
    implies !l.owns_all(owner, ids_of(token_ids), amounts_of(values)) by {
        assert(ids_of(token_ids)[i] == token_ids[i]@);
        if i < values.len() {
            assert(amounts_of(values)[i] == amount_of(values[i]));
        }
    }
}

/// Whether the holdings of `owner` cover the batch.
///
/// Where the two lists are of one length the batch is weighed as a whole:
/// for each listed identifier, every value listed beside it is taken from
/// what `owner` holds of it, and the holding must last. Where they are not,
/// each value that stands beside an identifier is held against the holding
/// on its own.
pub fn covers_batch<Storage: CEP47Storage>(
    storage: &Storage,
    owner: &Key,
    token_ids: &Vec<TokenId>,
    values: &Vec<U256>,
) -> (covered: bool)
    ensures
        covered == storage.ledger().covers(*owner, ids_of(token_ids@), amounts_of(values@)),
{
    let ghost l = storage.ledger();
    let ghost ids = ids_of(token_ids@);
    let ghost asked = amounts_of(values@);
    if token_ids.len() != values.len() {
        let n = if token_ids.len() < values.len() {
            token_ids.len()
        } else {
            values.len()
        };
        let mut i: usize = 0;
        while i < n
            invariant
                i <= n,
                n <= token_ids.len(),
                n <= values.len(),
                n == token_ids.len() || n == values.len(),
                l == storage.ledger(),
                ids == ids_of(token_ids@),
                asked == amounts_of(values@),
                forall|k: int| 0 <= k < i ==> asked[k] <= l.balance_of(*owner, #[trigger] ids[k]),
            decreases n - i,
        {
            let held = storage.balance_of(owner, token_ids[i].clone());
            if checked_sub(&held, &values[i]).is_none() {
                assert(asked[i as int] > l.balance_of(*owner, ids[i as int]));
                return false;
            }
            i += 1;
        }
        return true;
    }
    let n = token_ids.len();
    let mut i: usize = 0;
    while i < n
        invariant
            i <= n,
            n == token_ids.len(),
            n == values.len(),
            l == storage.ledger(),
            ids == ids_of(token_ids@),
            asked == amounts_of(values@),
            forall|k: int|
                0 <= k < i ==> demand(ids, asked, #[trigger] ids[k]) <= l.balance_of(
                    *owner,
                    ids[k],
                ),
        decreases n - i,
    {
        let mut left = storage.balance_of(owner, token_ids[i].clone());
        let mut j: usize = 0;
        while j < n
            invariant
                j <= n,
                i < n,
                n == token_ids.len(),
                n == values.len(),
                l == storage.ledger(),
                ids == ids_of(token_ids@),
                asked == amounts_of(values@),
                amount_of(left) + demand(ids.take(j as int), asked.take(j as int), ids[i as int])
                    == l.balance_of(*owner, ids[i as int]),
            decreases n - j,
        {
            proof {
                assert(ids.take(j + 1).drop_last() =~= ids.take(j as int));
                assert(asked.take(j + 1).drop_last() =~= asked.take(j as int));
                assert(ids.take(j + 1).last() == ids[j as int]);
                assert(asked.take(j + 1).last() == asked[j as int]);
            }
            if token_ids[j] == token_ids[i] {
                match checked_sub(&left, &values[j]) {
                    Some(rest) => {
                        left = rest;
                    },
                    None => {
                        proof {
                            lemma_demand_grows(ids, asked, j + 1, ids[i as int]);
                            assert(demand(ids, asked, ids[i as int]) > l.balance_of(
                                *owner,
                                ids[i as int],
                            ));
                        }
                        return false;
                    },
                }
            }
            j += 1;
        }
        assert(ids.take(n as int) =~= ids);
        assert(asked.take(n as int) =~= asked);
        i += 1;
    }
    proof {
        assert forall|id: Seq<char>| #[trigger] demand(ids, asked, id) <= l.balance_of(
            *owner,
            id,
        ) by {
            if ids.contains(id) {
                let k = choose|k: int| 0 <= k < ids.len() && ids[k] == id;
                assert(demand(ids, asked, ids[k]) <= l.balance_of(*owner, ids[k]));
            } else {
                lemma_demand_unlisted(ids, asked, id);
            }
        }
        assert forall|k: int| 0 <= k < ids.len() && k < asked.len() implies asked[k]
            <= l.balance_of(*owner, #[trigger] ids[k]) by {
            lemma_demand_covers_each(ids, asked, k);
        }
    }
    true
}

/// Access to the storage backend that a contract works on.
pub trait WithStorage<Storage: CEP47Storage> {
    /// The backend as it stands.
    spec fn storage_view(&self) -> Storage;

    /// The backend, for reading.
    fn storage(&self) -> (storage: &Storage)
        ensures
            *storage == self.storage_view(),
    ;

    /// The backend, for writing: what is written through the reference is
    /// what the contract holds afterwards.
    fn storage_mut(&mut self) -> (storage: &mut Storage)
        ensures
            *storage == old(self).storage_view(),
            final(self).storage_view() == *final(storage),
    ;
}

/// The operations of the ledger, on whatever gives access to a backend.
pub trait CEP47Contract<Storage: CEP47Storage>: WithStorage<Storage> {
    /// The collection's name.
    fn name(&self) -> (name: String)
        ensures
            name@ == self.storage_view().ledger().name,
    {
        self.storage().name()
    }

    /// The collection's symbol.
    fn symbol(&self) -> (symbol: String)
        ensures
            symbol@ == self.storage_view().ledger().symbol,
    {
        self.storage().symbol()
    }

    /// The collection's metadata.
    fn meta(&self) -> (meta: Meta)
        ensures
            meta.deep_view() == self.storage_view().ledger().meta,
    {
        self.storage().meta()
    }

    /// The quantity of `token_id` that `owner` holds.
    fn balance_of(&self, owner: &Key, token_id: TokenId) -> (balance: U256)
        ensures
            amount_of(balance) == self.storage_view().ledger().balance_of(*owner, token_id@),
    {
        self.storage().balance_of(owner, token_id)
    }

    /// The total supply of `token_id`: the sum of all owners' quantities.
    fn total_supply(&self, token_id: TokenId) -> (supply: U256)
        ensures
            self.storage_view().ledger().wf(),
            amount_of(supply) == self.storage_view().ledger().total_supply(token_id@),
    {
        self.storage().total_supply(token_id)
    }

    /// The metadata recorded for `token_id`, if any.
    fn token_meta(&self, token_id: &TokenId) -> (meta: Option<Meta>)
        ensures
            meta is Some <==> self.storage_view().ledger().token_metas.contains_key(token_id@),
            meta is Some ==> meta->0.deep_view() == self.storage_view().ledger().token_metas[token_id@],
    {
        self.storage().token_meta(token_id)
    }

    /// Whether transfers are blocked.
    fn is_paused(&self) -> (paused: bool)
        ensures
            paused == self.storage_view().ledger().paused,
    {
        self.storage().is_paused()
    }

    /// Blocks transfers. Nothing else changes, and pausing twice is pausing once.
    fn pause(&mut self)
        ensures
            final(self).storage_view().ledger() == old(self).storage_view().ledger().set_paused(
                true,
            ),
    {
        self.storage_mut().pause();
    }

    /// Allows transfers. Nothing else changes.
    fn unpause(&mut self)
        ensures
            final(self).storage_view().ledger() == old(self).storage_view().ledger().set_paused(
                false,
            ),
    {
        self.storage_mut().unpause();
    }

    /// Mints one token: `mint_many` on a batch of one.
    fn mint_one(
        &mut self,
        recipient: &Key,
        token_id: Option<TokenId>,
        token_meta: Meta,
        value: U256,
    ) -> (r: Result<(), Error>)
        ensures
            r == old(self).storage_view().ledger().mint_result(
                supplied_id(token_id),
                seq![token_meta.deep_view()],
                seq![amount_of(value)],
            ),
            r is Err ==> final(self).storage_view() == old(self).storage_view(),
            r is Ok ==> ({
                let before = old(self).storage_view().ledger();
                let after = final(self).storage_view().ledger();
                let ids = after.last_minted();
                &&& ids.len() == 1
                &&& token_id is Some ==> ids == seq![token_id->0@]
                &&& before.can_mint(ids)
                &&& after == before.minted(
                    *recipient,
                    ids,
                    seq![token_meta.deep_view()],
                    seq![amount_of(value)],
                )
                &&& after.events == before.events.push(
                    EventView::Mint {
                        recipient: *recipient,
                        token_ids: ids,
                        values: seq![amount_of(value)],
                    },
                )
            }),
            token_id is Some && old(self).storage_view().ledger().is_live(token_id->0@) ==> r
                == Err::<(), Error>(Error::TokenIdAlreadyExists),
    {
        let ghost meta_view = token_meta.deep_view();
        let token_ids = match token_id {
            Some(id) => {
                let ids = vec![id];
                assert(ids_of(ids@) =~= seq![id@]);
                Some(ids)
            },
            None => None,
        };
        let token_metas = vec![token_meta];
        let values = vec![value];
        assert(metas_of(token_metas@) =~= seq![meta_view]);
        assert(amounts_of(values@) =~= seq![amount_of(value)]);
        self.mint_many(recipient, token_ids, token_metas, values)
    }

    /// Mints a batch to `recipient`.
    ///
    /// With identifiers supplied, the three lists must be of one length and
    /// no identifier may be live or occur twice. Without, as many fresh
    /// identifiers as there are metadata are generated. An accepted batch is
    /// minted whole and one `Mint` event carries the recipient, the final
    /// identifiers and the quantities; a refused one changes nothing.
    fn mint_many(
        &mut self,
        recipient: &Key,
        token_ids: Option<Vec<TokenId>>,
        token_metas: Vec<Meta>,
        values: Vec<U256>,
    ) -> (r: Result<(), Error>)
        ensures
            r == old(self).storage_view().ledger().mint_result(
                supplied_ids(token_ids),
                metas_of(token_metas@),
                amounts_of(values@),
            ),
            r is Err ==> final(self).storage_view() == old(self).storage_view(),
            r is Ok ==> ({
                let before = old(self).storage_view().ledger();
                let after = final(self).storage_view().ledger();
                let ids = after.last_minted();
                &&& ids.len() == token_metas.len()
                &&& token_ids is Some ==> ids == ids_of(token_ids->0@)
                &&& before.can_mint(ids)
                &&& after == before.minted(
                    *recipient,
                    ids,
                    metas_of(token_metas@),
                    amounts_of(values@),
                )
                &&& after.events == before.events.push(
                    EventView::Mint {
                        recipient: *recipient,
                        token_ids: ids,
                        values: amounts_of(values@),
                    },
                )
            }),
            forall|i: int|
                #![trigger token_ids->0@[i]]
                token_ids is Some && 0 <= i < token_ids->0.len() && old(
                    self,
                ).storage_view().ledger().is_live(token_ids->0@[i]@) ==> {
                    &&& r is Err
                    &&& token_ids->0.len() == token_metas.len() && values.len()
                        == token_metas.len() ==> r == Err::<(), Error>(
                        Error::TokenIdAlreadyExists,
                    )
                },
    {
        proof {
            if token_ids is Some {
                let supplied = token_ids->0@;
                assert forall|i: int| 0 <= i < supplied.len() implies ids_of(supplied)[i]
                    == (#[trigger] supplied[i])@ by {}
            }
        }
        let unique_token_ids = match token_ids {
            Some(token_ids) => {
                if token_ids.len() != token_metas.len() || values.len() != token_metas.len() {
                    return Err(Error::ArgumentsError);
                }
                let valid = self.storage().validate_token_ids(&token_ids);
                if !valid {
                    return Err(Error::TokenIdAlreadyExists);
                }
                token_ids
            },
            None => {
                if values.len() != token_metas.len() {
                    return Err(Error::ArgumentsError);
                }
                self.storage_mut().gen_token_ids(token_metas.len())
            },
        };
        proof {
            lemma_mint_frame(
                self.storage_view().ledger(),
                *recipient,
                ids_of(unique_token_ids@),
                metas_of(token_metas@),
                amounts_of(values@),
            );
        }
        self.storage_mut().mint_many(recipient, &unique_token_ids, &token_metas, &values);
        self.storage_mut().emit(
            CEP47Event::Mint { recipient: *recipient, token_ids: unique_token_ids, values },
        );
        Ok(())
    }

    /// Burns one token: `burn_many` on a batch of one.
    fn burn_one(&mut self, owner: &Key, token_id: TokenId, value: U256) -> (r: Result<(), Error>)
        ensures
            r == old(self).storage_view().ledger().burn_result(
                *owner,
                seq![token_id@],
                seq![amount_of(value)],
            ),
            r is Err ==> final(self).storage_view() == old(self).storage_view(),
            final(self).storage_view().ledger() == old(self).storage_view().ledger().burned(
                *owner,
                seq![token_id@],
                seq![amount_of(value)],
            ),
            r is Ok ==> final(self).storage_view().ledger().events == old(
                self,
            ).storage_view().ledger().events.push(
                EventView::Burn {
                    owner: *owner,
                    token_ids: seq![token_id@],
                    values: seq![amount_of(value)],
                },
            ),
            old(self).storage_view().ledger().balance_of(*owner, token_id@) == 0 || old(
                self,
            ).storage_view().ledger().balance_of(*owner, token_id@) < amount_of(value) ==> r
                == Err::<(), Error>(Error::NotAnOwner),
    {
        let token_ids = vec![token_id];
        let values = vec![value];
        assert(ids_of(token_ids@) =~= seq![token_id@]);
        assert(amounts_of(values@) =~= seq![amount_of(value)]);
        assert(holds_short(self.storage_view().ledger(), *owner, token_ids@, values@, 0)
            <==> self.storage_view().ledger().balance_of(*owner, token_id@) == 0
            || self.storage_view().ledger().balance_of(*owner, token_id@) < amount_of(value));
        self.burn_many(owner, token_ids, values)
    }

    /// Burns a batch held by `owner`.
    ///
    /// `owner` must own every listed identifier and hold what the batch asks
    /// of each, else the batch is refused with `NotAnOwner`; after that the
    /// two lists must be of one length. An accepted batch is burned whole and
    /// one `Burn` event raised; a refused one changes nothing. The pause
    /// switch plays no part.
    fn burn_many(&mut self, owner: &Key, token_ids: Vec<TokenId>, values: Vec<U256>) -> (r: Result<
        (),
        Error,
    >)
        ensures
            r == old(self).storage_view().ledger().burn_result(
                *owner,
                ids_of(token_ids@),
                amounts_of(values@),
            ),
            r is Err ==> final(self).storage_view() == old(self).storage_view(),
            final(self).storage_view().ledger() == old(self).storage_view().ledger().burned(
                *owner,
                ids_of(token_ids@),
                amounts_of(values@),
            ),
            r is Ok ==> final(self).storage_view().ledger().events == old(
                self,
            ).storage_view().ledger().events.push(
                EventView::Burn {
                    owner: *owner,
                    token_ids: ids_of(token_ids@),
                    values: amounts_of(values@),
                },
            ),
            forall|i: int|
                #![trigger token_ids@[i]]
                holds_short(old(self).storage_view().ledger(), *owner, token_ids@, values@, i)
                    ==> r == Err::<(), Error>(Error::NotAnOwner),
    {
        proof {
            lemma_short_holding(self.storage_view().ledger(), *owner, token_ids@, values@);
        }
        if !self.storage().are_all_owner_tokens(owner, &token_ids) {
            return Err(Error::NotAnOwner);
        }
        if !covers_batch(self.storage(), owner, &token_ids, &values) {
            return Err(Error::NotAnOwner);
        }
        if token_ids.len() != values.len() {
            return Err(Error::ArgumentsError);
        }
        proof {
            lemma_burn_frame(
                self.storage_view().ledger(),
                *owner,
                ids_of(token_ids@),
                amounts_of(values@),
            );
        }
        self.storage_mut().burn_many(owner, &token_ids, &values);
        self.storage_mut().emit(CEP47Event::Burn { owner: *owner, token_ids, values });
        Ok(())
    }

    /// Transfers one token: `transfer_many_tokens` on a batch of one.
    fn transfer_token(&mut self, sender: &Key, recipient: &Key, token_id: &TokenId, value: U256) -> (r:
        Result<(), Error>)
        ensures
            r == old(self).storage_view().ledger().transfer_result(
                *sender,
                seq![token_id@],
                seq![amount_of(value)],
            ),
            r is Err ==> final(self).storage_view() == old(self).storage_view(),
            final(self).storage_view().ledger() == old(self).storage_view().ledger().transferred(
                *sender,
                *recipient,
                seq![token_id@],
                seq![amount_of(value)],
            ),
            r is Ok ==> final(self).storage_view().ledger().events == old(
                self,
            ).storage_view().ledger().events.push(
                EventView::Transfer {
                    sender: *sender,
                    recipient: *recipient,
                    token_ids: seq![token_id@],
                    values: seq![amount_of(value)],
                },
            ),
            !old(self).storage_view().ledger().paused && (old(
                self,
            ).storage_view().ledger().balance_of(*sender, token_id@) == 0 || old(
                self,
            ).storage_view().ledger().balance_of(*sender, token_id@) < amount_of(value)) ==> r
                == Err::<(), Error>(Error::NotAnOwner),
    {
        let token_ids = vec![token_id.clone()];
        let values = vec![value];
        assert(ids_of(token_ids@) =~= seq![token_id@]);
        assert(amounts_of(values@) =~= seq![amount_of(value)]);
        assert(holds_short(self.storage_view().ledger(), *sender, token_ids@, values@, 0)
            <==> self.storage_view().ledger().balance_of(*sender, token_id@) == 0
            || self.storage_view().ledger().balance_of(*sender, token_id@) < amount_of(value));
        self.transfer_many_tokens(sender, recipient, &token_ids, &values)
    }

    /// Transfers a batch from `sender` to `recipient`.
    ///
    /// Refused while the collection is paused. Otherwise `sender` must own
    /// every listed identifier and hold what the batch asks of each, else the
    /// batch is refused with `NotAnOwner`; after that the two lists must be
    /// of one length. An accepted batch is moved whole and one `Transfer`
    /// event raised; a refused one changes nothing.
    fn transfer_many_tokens(
        &mut self,
        sender: &Key,
        recipient: &Key,
        token_ids: &Vec<TokenId>,
        values: &Vec<U256>,
    ) -> (r: Result<(), Error>)
        ensures
            r == old(self).storage_view().ledger().transfer_result(
                *sender,
                ids_of(token_ids@),
                amounts_of(values@),
            ),
            r is Err ==> final(self).storage_view() == old(self).storage_view(),
            final(self).storage_view().ledger() == old(self).storage_view().ledger().transferred(
                *sender,
                *recipient,
                ids_of(token_ids@),
                amounts_of(values@),
            ),
            r is Ok ==> final(self).storage_view().ledger().events == old(
                self,
            ).storage_view().ledger().events.push(
                EventView::Transfer {
                    sender: *sender,
                    recipient: *recipient,
                    token_ids: ids_of(token_ids@),
                    values: amounts_of(values@),
                },
            ),
            old(self).storage_view().ledger().paused <==> r == Err::<(), Error>(
                Error::PermissionDenied,
            ),
            forall|i: int|
                #![trigger token_ids@[i]]
                holds_short(old(self).storage_view().ledger(), *sender, token_ids@, values@, i)
                    && !old(self).storage_view().ledger().paused ==> r == Err::<(), Error>(
                    Error::NotAnOwner,
                ),
    {
        proof {
            lemma_short_holding(self.storage_view().ledger(), *sender, token_ids@, values@);
        }
        if self.is_paused() {
            return Err(Error::PermissionDenied);
        }
        if !self.storage().are_all_owner_tokens(sender, token_ids) {
            return Err(Error::NotAnOwner);
        }
        if !covers_batch(self.storage(), sender, token_ids, values) {
            return Err(Error::NotAnOwner);
        }
        if token_ids.len() != values.len() {
            return Err(Error::ArgumentsError);
        }
        proof {
            lemma_transfer_frame(
                self.storage_view().ledger(),
                *sender,
                *recipient,
                ids_of(token_ids@),
                amounts_of(values@),
            );
        }
        self.storage_mut().transfer_many(sender, recipient, token_ids, values);
        let event_ids = copy_ids(token_ids);
        let event_values = copy_values(values);
        self.storage_mut().emit(
            CEP47Event::Transfer {
                sender: *sender,
                recipient: *recipient,
                token_ids: event_ids,
                values: event_values,
            },
        );
        Ok(())
    }

    /// Replaces the metadata of `token_id`.
    ///
    /// Refused where the identifier has no current owner: nobody holds a
    /// positive quantity of it. Otherwise the metadata is overwritten and one
    /// `MetadataUpdate` event raised, which carries the identifier alone.
    fn update_token_metadata(&mut self, token_id: TokenId, meta: Meta) -> (r: Result<(), Error>)
        ensures
            r == old(self).storage_view().ledger().update_result(token_id@),
            r is Err ==> final(self).storage_view() == old(self).storage_view(),
            final(self).storage_view().ledger() == old(self).storage_view().ledger().updated(
                token_id@,
                meta.deep_view(),
            ),
            r is Ok ==> final(self).storage_view().ledger().events == old(
                self,
            ).storage_view().ledger().events.push(EventView::MetadataUpdate { token_id: token_id@ }),
    {
        let supply = self.storage().total_supply(token_id.clone());
        proof {
            law_supply_counts_owners(self.storage_view().ledger(), token_id@);
        }
        if is_zero(&supply) {
            return Err(Error::TokenIdDoesntExist);
        }
        self.storage_mut().update_token_metadata(&token_id, meta);
        self.storage_mut().emit(CEP47Event::MetadataUpdate { token_id });
        Ok(())
    }
}

/// A ledger that is nothing but its storage backend.
pub struct LedgerFacade<Storage: CEP47Storage> {
    pub storage: Storage,
}

impl<Storage: CEP47Storage> LedgerFacade<Storage> {
    /// The ledger over `storage`.
    pub fn new(storage: Storage) -> (facade: Self)
        ensures
            facade.storage == storage,
    {
        LedgerFacade { storage }
    }
}

impl<Storage: CEP47Storage> WithStorage<Storage> for LedgerFacade<Storage> {
    open spec fn storage_view(&self) -> Storage {
        self.storage
    }

    fn storage(&self) -> (storage: &Storage) {
        &self.storage
    }

    fn storage_mut(&mut self) -> (storage: &mut Storage) {
        &mut self.storage
    }
}

impl<Storage: CEP47Storage> CEP47Contract<Storage> for LedgerFacade<Storage> {

}

} // verus!
