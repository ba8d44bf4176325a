//! The ledger as a mathematical value: who holds how much of which token,
//! the metadata of each token, the pause switch and the events raised so far.
//!
//! Every contract of the library is stated over this value. The functions
//! here say what an operation is; the storage backend performs it.

use crate::error::Error;
use crate::events::EventView;
use casper_types::Key;
use vstd::prelude::*;

verus! {

/// `casper_types::Key`, the address of an owner, as an opaque value that is
/// copied and compared for equality only.
#[verifier::external_type_specification]
#[verifier::external_body]
pub struct ExKey(Key);

/// Metadata as a mapping from keys to values.
pub type MetaView = Map<Seq<char>, Seq<char>>;

/// The sum of the quantities in a finite table of balance entries.
pub open spec fn total<K>(m: Map<K, nat>) -> nat
    decreases m.dom().len(),
    when m.dom().finite()
{
    if m.dom().len() == 0 {
        0
    } else {
        let k = m.dom().choose();
        m[k] + total(m.remove(k))
    }
}

/// How much of `id` a batch asks for: the sum of the values listed beside it.
pub open spec fn demand(ids: Seq<Seq<char>>, values: Seq<nat>, id: Seq<char>) -> nat
    recommends
        ids.len() == values.len(),
    decreases ids.len(),
{
    if ids.len() == 0 {
        0
    } else {
        demand(ids.drop_last(), values.drop_last(), id) + if ids.last() == id {
            values.last()
        } else {
            0
        }
    }
}

/// A request that changes the ledger, with its effective arguments: a mint
/// lists the identifiers that it assigns, supplied or generated.
pub enum Request {
    Mint { recipient: Key, ids: Seq<Seq<char>>, metas: Seq<MetaView>, values: Seq<nat> },
    Burn { owner: Key, ids: Seq<Seq<char>>, values: Seq<nat> },
    Transfer { sender: Key, recipient: Key, ids: Seq<Seq<char>>, values: Seq<nat> },
    UpdateMetadata { id: Seq<char>, meta: MetaView },
    Pause,
    Unpause,
}

impl Request {
    /// How much of `id` the request asks to mint.
    pub open spec fn mints(self, id: Seq<char>) -> nat {
        match self {
            Request::Mint { ids, values, .. } => demand(ids, values, id),
            _ => 0,
        }
    }

    /// How much of `id` the request asks to burn.
    pub open spec fn burns(self, id: Seq<char>) -> nat {
        match self {
            Request::Burn { ids, values, .. } => demand(ids, values, id),
            _ => 0,
        }
    }

    /// The identifiers that the request asks to mint.
    pub open spec fn minted_ids(self) -> Seq<Seq<char>> {
        match self {
            Request::Mint { ids, .. } => ids,
            _ => Seq::empty(),
        }
    }

    /// The events that record the request once it is carried out: one for a
    /// mint, a burn, a transfer or a metadata update, none for the pause switch.
    pub open spec fn events(self) -> Seq<EventView> {
        match self {
            Request::Mint { recipient, ids, values, .. } => seq![
                EventView::Mint { recipient, token_ids: ids, values },
            ],
            Request::Burn { owner, ids, values } => seq![
                EventView::Burn { owner, token_ids: ids, values },
            ],
            Request::Transfer { sender, recipient, ids, values } => seq![
                EventView::Transfer { sender, recipient, token_ids: ids, values },
            ],
            Request::UpdateMetadata { id, .. } => seq![EventView::MetadataUpdate { token_id: id }],
            Request::Pause => Seq::empty(),
            Request::Unpause => Seq::empty(),
        }
    }
}

/// The state of one collection.
pub struct Ledger {
    /// The collection's name.
    pub name: Seq<char>,
    /// The collection's symbol.
    pub symbol: Seq<char>,
    /// The collection's own metadata.
    pub meta: MetaView,
    /// Whether transfers are blocked.
    pub paused: bool,
    /// The balance entries. An absent entry and one of quantity zero mean the same.
    pub balances: Map<(Key, Seq<char>), nat>,
    /// The metadata recorded for each token identifier.
    pub token_metas: Map<Seq<char>, MetaView>,
    /// The events raised so far, oldest first.
    pub events: Seq<EventView>,
}

impl Ledger {
    /// A ledger holds finitely many balance entries.
    pub open spec fn wf(self) -> bool {
        self.balances.dom().finite()
    }

    /// The quantity of `id` that `owner` holds.
    pub open spec fn balance_of(self, owner: Key, id: Seq<char>) -> nat {
        if self.balances.contains_key((owner, id)) {
            self.balances[(owner, id)]
        } else {
            0
        }
    }

    /// The balance entries of one token identifier.
    pub open spec fn holdings(self, id: Seq<char>) -> Map<(Key, Seq<char>), nat> {
        self.balances.restrict(Set::new(|k: (Key, Seq<char>)| k.1 == id))
    }

    /// The total supply of `id`: the sum of all owners' quantities of it.
    pub open spec fn total_supply(self, id: Seq<char>) -> nat {
        total(self.holdings(id))
    }

    /// Whether some address holds a positive quantity of `id`.
    pub open spec fn has_owner(self, id: Seq<char>) -> bool {
        exists|owner: Key| self.balance_of(owner, id) > 0
    }

    /// Whether `id` is live: it has recorded metadata or an owner.
    pub open spec fn is_live(self, id: Seq<char>) -> bool {
        self.token_metas.contains_key(id) || self.has_owner(id)
    }

    /// Whether `ids` may be minted: none is live and none occurs twice.
    pub open spec fn can_mint(self, ids: Seq<Seq<char>>) -> bool {
        &&& ids.no_duplicates()
        &&& forall|i: int| 0 <= i < ids.len() ==> !self.is_live(#[trigger] ids[i])
    }

    /// Whether `owner` owns every listed identifier: it holds a positive
    /// quantity of each.
    pub open spec fn owns_each(self, owner: Key, ids: Seq<Seq<char>>) -> bool {
        forall|i: int| 0 <= i < ids.len() ==> self.balance_of(owner, #[trigger] ids[i]) > 0
    }

    /// Whether the holdings of `owner` cover the batch: it holds at least
    /// each value listed beside an identifier; and where the two lists are of
    /// one length, of no identifier does the whole batch ask more than it
    /// holds.
    pub open spec fn covers(self, owner: Key, ids: Seq<Seq<char>>, values: Seq<nat>) -> bool {
        &&& forall|i: int|
            0 <= i < ids.len() && i < values.len() ==> values[i] <= self.balance_of(
                owner,
                #[trigger] ids[i],
            )
        &&& ids.len() == values.len() ==> forall|id: Seq<char>| #[trigger]
            demand(ids, values, id) <= self.balance_of(owner, id)
    }

    /// Whether `owner` can give up the batch: it owns every listed identifier
    /// and its holdings cover the batch.
    pub open spec fn owns_all(self, owner: Key, ids: Seq<Seq<char>>, values: Seq<nat>) -> bool {
        self.owns_each(owner, ids) && self.covers(owner, ids, values)
    }

    /// The ledger with `value` more of `id` in the hands of `owner`.
    pub open spec fn credit(self, owner: Key, id: Seq<char>, value: nat) -> Ledger {
        Ledger {
            balances: self.balances.insert((owner, id), self.balance_of(owner, id) + value),
            ..self
        }
    }

    /// The ledger with `value` less of `id` in the hands of `owner`.
    pub open spec fn debit(self, owner: Key, id: Seq<char>, value: nat) -> Ledger
        recommends
            value <= self.balance_of(owner, id),
    {
        Ledger {
            balances: self.balances.insert(
                (owner, id),
                (self.balance_of(owner, id) - value) as nat,
            ),
            ..self
        }
    }

    /// The ledger with `meta` recorded as the metadata of `id`.
    pub open spec fn set_token_meta(self, id: Seq<char>, meta: MetaView) -> Ledger {
        Ledger { token_metas: self.token_metas.insert(id, meta), ..self }
    }

    /// The ledger with the pause switch set to `paused`.
    pub open spec fn set_paused(self, paused: bool) -> Ledger {
        Ledger { paused, ..self }
    }

    /// The ledger with `event` appended to its events.
    pub open spec fn emit(self, event: EventView) -> Ledger {
        Ledger { events: self.events.push(event), ..self }
    }

    /// The ledger after each listed identifier was recorded with its metadata
    /// and its quantity credited to `recipient`, in the order of the batch.
    pub open spec fn mint(
        self,
        recipient: Key,
        ids: Seq<Seq<char>>,
        metas: Seq<MetaView>,
        values: Seq<nat>,
    ) -> Ledger
        recommends
            ids.len() == metas.len(),
            ids.len() == values.len(),
        decreases ids.len(),
    {
        if ids.len() == 0 {
            self
        } else {
            self.mint(recipient, ids.drop_last(), metas.drop_last(), values.drop_last()).credit(
                recipient,
                ids.last(),
                values.last(),
            ).set_token_meta(ids.last(), metas.last())
        }
    }

    /// The ledger after each listed quantity was taken from `owner`, in the
    /// order of the batch. The metadata stays: an identifier that was minted
    /// remains live when its supply has gone, and is never assigned again.
    pub open spec fn burn(self, owner: Key, ids: Seq<Seq<char>>, values: Seq<nat>) -> Ledger
        recommends
            ids.len() == values.len(),
        decreases ids.len(),
    {
        if ids.len() == 0 {
            self
        } else {
            self.burn(owner, ids.drop_last(), values.drop_last()).debit(
                owner,
                ids.last(),
                values.last(),
            )
        }
    }

    /// The ledger after each listed quantity was moved from `sender` to
    /// `recipient`, in the order of the batch.
    pub open spec fn transfer(
        self,
        sender: Key,
        recipient: Key,
        ids: Seq<Seq<char>>,
        values: Seq<nat>,
    ) -> Ledger
        recommends
            ids.len() == values.len(),
        decreases ids.len(),
    {
        if ids.len() == 0 {
            self
        } else {
            self.transfer(sender, recipient, ids.drop_last(), values.drop_last()).debit(
                sender,
                ids.last(),
                values.last(),
            ).credit(recipient, ids.last(), values.last())
        }
    }

    /// How a request to mint is answered. With identifiers supplied, the three
    /// lists must be of one length and the identifiers mintable; without, the
    /// backend generates them and only the lengths count.
    pub open spec fn mint_result(
        self,
        ids: Option<Seq<Seq<char>>>,
        metas: Seq<MetaView>,
        values: Seq<nat>,
    ) -> Result<(), Error> {
        match ids {
            Some(ids) => if ids.len() != metas.len() || values.len() != metas.len() {
                Err(Error::ArgumentsError)
            } else if !self.can_mint(ids) {
                Err(Error::TokenIdAlreadyExists)
            } else {
                Ok(())
            },
            None => if values.len() != metas.len() {
                Err(Error::ArgumentsError)
            } else {
                Ok(())
            },
        }
    }

    /// The ledger after a mint that was accepted, its event included.
    pub open spec fn minted(
        self,
        recipient: Key,
        ids: Seq<Seq<char>>,
        metas: Seq<MetaView>,
        values: Seq<nat>,
    ) -> Ledger {
        self.mint(recipient, ids, metas, values).emit(
            EventView::Mint { recipient, token_ids: ids, values },
        )
    }

    /// The identifiers that the latest event says were minted; none, where the
    /// latest event is no mint.
    pub open spec fn last_minted(self) -> Seq<Seq<char>> {
        if self.events.len() > 0 && self.events.last() is Mint {
            self.events.last()->Mint_token_ids
        } else {
            Seq::empty()
        }
    }

    /// How a request to burn is answered: `NotAnOwner` where the owner cannot
    /// give up the batch, whatever the lengths of the lists; `ArgumentsError`
    /// where it can and the lengths differ.
    pub open spec fn burn_result(self, owner: Key, ids: Seq<Seq<char>>, values: Seq<nat>) -> Result<
        (),
        Error,
    > {
        if !self.owns_all(owner, ids, values) {
            Err(Error::NotAnOwner)
        } else if ids.len() != values.len() {
            Err(Error::ArgumentsError)
        } else {
            Ok(())
        }
    }

    /// The ledger after a request to burn: changed, with one event, where the
    /// request was accepted, and as it was where not.
    pub open spec fn burned(self, owner: Key, ids: Seq<Seq<char>>, values: Seq<nat>) -> Ledger {
        if self.burn_result(owner, ids, values) is Ok {
            self.burn(owner, ids, values).emit(EventView::Burn { owner, token_ids: ids, values })
        } else {
            self
        }
    }

    /// How a request to transfer is answered: `PermissionDenied` while the
    /// collection is paused; else as a request to burn is.
    pub open spec fn transfer_result(
        self,
        sender: Key,
        ids: Seq<Seq<char>>,
        values: Seq<nat>,
    ) -> Result<(), Error> {
        if self.paused {
            Err(Error::PermissionDenied)
        } else if !self.owns_all(sender, ids, values) {
            Err(Error::NotAnOwner)
        } else if ids.len() != values.len() {
            Err(Error::ArgumentsError)
        } else {
            Ok(())
        }
    }

    /// The ledger after a request to transfer: changed, with one event, where
    /// the request was accepted, and as it was where not.
    pub open spec fn transferred(
        self,
        sender: Key,
        recipient: Key,
        ids: Seq<Seq<char>>,
        values: Seq<nat>,
    ) -> Ledger {
        if self.transfer_result(sender, ids, values) is Ok {
            self.transfer(sender, recipient, ids, values).emit(
                EventView::Transfer { sender, recipient, token_ids: ids, values },
            )
        } else {
            self
        }
    }

    /// The ledger after a request to mint the listed identifiers: changed,
    /// with one event, where the request was accepted, and as it was where not.
    pub open spec fn mint_applied(
        self,
        recipient: Key,
        ids: Seq<Seq<char>>,
        metas: Seq<MetaView>,
        values: Seq<nat>,
    ) -> Ledger {
        if self.mint_result(Some(ids), metas, values) is Ok {
            self.minted(recipient, ids, metas, values)
        } else {
            self
        }
    }

    /// How a request to replace the metadata of `id` is answered.
    pub open spec fn update_result(self, id: Seq<char>) -> Result<(), Error> {
        if !self.has_owner(id) {
            Err(Error::TokenIdDoesntExist)
        } else {
            Ok(())
        }
    }

    /// The ledger after a request to replace the metadata of `id`.
    pub open spec fn updated(self, id: Seq<char>, meta: MetaView) -> Ledger {
        if self.update_result(id) is Ok {
            self.set_token_meta(id, meta).emit(EventView::MetadataUpdate { token_id: id })
        } else {
            self
        }
    }

    /// How a request is answered.
    pub open spec fn answer(self, request: Request) -> Result<(), Error> {
        match request {
            Request::Mint { ids, metas, values, .. } => self.mint_result(Some(ids), metas, values),
            Request::Burn { owner, ids, values } => self.burn_result(owner, ids, values),
            Request::Transfer { sender, ids, values, .. } => self.transfer_result(
                sender,
                ids,
                values,
            ),
            Request::UpdateMetadata { id, .. } => self.update_result(id),
            Request::Pause => Ok(()),
            Request::Unpause => Ok(()),
        }
    }

    /// The ledger after a request.
    pub open spec fn apply(self, request: Request) -> Ledger {
        match request {
            Request::Mint { recipient, ids, metas, values } => self.mint_applied(
                recipient,
                ids,
                metas,
                values,
            ),
            Request::Burn { owner, ids, values } => self.burned(owner, ids, values),
            Request::Transfer { sender, recipient, ids, values } => self.transferred(
                sender,
                recipient,
                ids,
                values,
            ),
            Request::UpdateMetadata { id, meta } => self.updated(id, meta),
            Request::Pause => self.set_paused(true),
            Request::Unpause => self.set_paused(false),
        }
    }

    /// The ledger after a sequence of requests, the first first.
    pub open spec fn run(self, requests: Seq<Request>) -> Ledger
        decreases requests.len(),
    {
        if requests.len() == 0 {
            self
        } else {
            self.run(requests.drop_last()).apply(requests.last())
        }
    }

    /// How much of `id` the accepted requests of a sequence minted.
    pub open spec fn minted_total(self, requests: Seq<Request>, id: Seq<char>) -> nat
        decreases requests.len(),
    {
        if requests.len() == 0 {
            0
        } else {
            self.minted_total(requests.drop_last(), id) + if self.run(
                requests.drop_last(),
            ).answer(requests.last()) is Ok {
                requests.last().mints(id)
            } else {
                0
            }
        }
    }

    /// How much of `id` the accepted requests of a sequence burned.
    pub open spec fn burned_total(self, requests: Seq<Request>, id: Seq<char>) -> nat
        decreases requests.len(),
    {
        if requests.len() == 0 {
            0
        } else {
            self.burned_total(requests.drop_last(), id) + if self.run(
                requests.drop_last(),
            ).answer(requests.last()) is Ok {
                requests.last().burns(id)
            } else {
                0
            }
        }
    }

    /// The identifiers that the accepted requests of a sequence minted, in
    /// the order in which they were minted.
    pub open spec fn minted_ids(self, requests: Seq<Request>) -> Seq<Seq<char>>
        decreases requests.len(),
    {
        if requests.len() == 0 {
            Seq::empty()
        } else {
            self.minted_ids(requests.drop_last()) + if self.run(requests.drop_last()).answer(
                requests.last(),
            ) is Ok {
                requests.last().minted_ids()
            } else {
                Seq::empty()
            }
        }
    }

    /// Every identifier of which someone holds a positive quantity has
    /// metadata: nobody holds a token that was never minted.
    pub open spec fn sound(self) -> bool {
        forall|owner: Key, id: Seq<char>|
            #[trigger] self.balance_of(owner, id) > 0 ==> self.token_metas.contains_key(id)
    }
}

} // verus!
