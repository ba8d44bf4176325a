//! What holds of the ledger whatever is asked of it.

use crate::error::Error;
use crate::events::{log_burned, log_minted, log_minted_ids, EventView};
use crate::ledger::{demand, total, Ledger, MetaView, Request};
use casper_types::Key;
use vstd::prelude::*;

verus! {

/// Any entry of a finite table can be taken out of its sum.
pub proof fn lemma_total_peel<K>(m: Map<K, nat>, k: K)
    requires
        m.dom().finite(),
        m.contains_key(k),
    ensures
        total(m) == m[k] + total(m.remove(k)),
    decreases m.dom().len(),
{
    let c = m.dom().choose();
    if c != k {
        lemma_total_peel(m.remove(c), k);
        lemma_total_peel(m.remove(k), c);
        assert(m.remove(c).remove(k) =~= m.remove(k).remove(c));
    }
}

/// Writing one entry of a finite table changes its sum by the difference.
pub proof fn lemma_total_insert<K>(m: Map<K, nat>, k: K, v: nat)
    requires
        m.dom().finite(),
    ensures
        total(m.insert(k, v)) + (if m.contains_key(k) { m[k] } else { 0 }) == total(m) + v,
{
    lemma_total_peel(m.insert(k, v), k);
    assert(m.insert(k, v).remove(k) =~= m.remove(k));
    if m.contains_key(k) {
        lemma_total_peel(m, k);
    } else {
        assert(m.remove(k) =~= m);
    }
}

/// The sum of a finite table is zero exactly when every entry is zero.
pub proof fn lemma_total_zero<K>(m: Map<K, nat>)
    requires
        m.dom().finite(),
    ensures
        total(m) == 0 <==> forall|k: K| m.contains_key(k) ==> m[k] == 0,
    decreases m.dom().len(),
{
    if m.dom().len() != 0 {
        let c = m.dom().choose();
        let rest = m.remove(c);
        lemma_total_zero(rest);
        assert(total(m) == m[c] + total(rest));
        if total(m) == 0 {
            assert forall|k: K| m.contains_key(k) implies m[k] == 0 by {
                if k != c {
                    assert(rest.contains_key(k));
                    assert(rest[k] == m[k]);
                }
            }
        }
        if forall|k: K| m.contains_key(k) ==> m[k] == 0 {
            assert forall|k: K| rest.contains_key(k) implies rest[k] == 0 by {
                assert(m.contains_key(k));
            }
        }
    }
}

/// Writing one balance entry changes the supply of its identifier by the
/// difference, and no other supply.
pub proof fn lemma_write_supply(l: Ledger, owner: Key, id: Seq<char>, value: nat, t: Seq<char>)
    requires
        l.wf(),
    ensures
        ({
            let w = Ledger { balances: l.balances.insert((owner, id), value), ..l };
            &&& w.wf()
            &&& t != id ==> w.total_supply(t) == l.total_supply(t)
            &&& t == id ==> w.total_supply(t) + l.balance_of(owner, id) == l.total_supply(t) + value
        }),
{
    let w = Ledger { balances: l.balances.insert((owner, id), value), ..l };
    vstd::set_lib::lemma_set_subset_finite(l.balances.dom(), l.holdings(t).dom());
    if t == id {
        assert(w.holdings(t) =~= l.holdings(t).insert((owner, id), value));
        lemma_total_insert(l.holdings(t), (owner, id), value);
    } else {
        assert(w.holdings(t) =~= l.holdings(t));
    }
}

/// An identifier that a batch does not list is not asked for.
pub proof fn lemma_demand_unlisted(ids: Seq<Seq<char>>, values: Seq<nat>, t: Seq<char>)
    requires
        !ids.contains(t),
    ensures
        demand(ids, values, t) == 0,
    decreases ids.len(),
{
    if ids.len() > 0 {
        assert(ids.last() == ids[ids.len() - 1]);
        assert forall|i: int| 0 <= i < ids.drop_last().len() implies ids.drop_last()[i] != t by {
            assert(ids.drop_last()[i] == ids[i]);
        }
        lemma_demand_unlisted(ids.drop_last(), values.drop_last(), t);
    }
}

/// What a batch asks of an identifier is at least each value listed beside it.
pub proof fn lemma_demand_covers_each(ids: Seq<Seq<char>>, values: Seq<nat>, i: int)
    requires
        ids.len() == values.len(),
        0 <= i < ids.len(),
    ensures
        values[i] <= demand(ids, values, ids[i]),
    decreases ids.len(),
{
    if i < ids.len() - 1 {
        lemma_demand_covers_each(ids.drop_last(), values.drop_last(), i);
    }
}

/// The front of a batch asks no more of an identifier than the batch does.
pub proof fn lemma_demand_grows(ids: Seq<Seq<char>>, values: Seq<nat>, k: int, t: Seq<char>)
    requires
        ids.len() == values.len(),
        0 <= k <= ids.len(),
    ensures
        demand(ids.take(k), values.take(k), t) <= demand(ids, values, t),
    decreases ids.len() - k,
{
    if k == ids.len() {
        assert(ids.take(k) =~= ids);
        assert(values.take(k) =~= values);
    } else {
        lemma_demand_grows(ids.drop_last(), values.drop_last(), k, t);
        assert(ids.drop_last().take(k) =~= ids.take(k));
        assert(values.drop_last().take(k) =~= values.take(k));
    }
}

/// Where a batch lists each identifier once, it asks of each exactly the value
/// listed beside it.
pub proof fn lemma_demand_of_distinct(ids: Seq<Seq<char>>, values: Seq<nat>, i: int)
    requires
        ids.len() == values.len(),
        ids.no_duplicates(),
        0 <= i < ids.len(),
    ensures
        demand(ids, values, ids[i]) == values[i],
    decreases ids.len(),
{
    if i < ids.len() - 1 {
        assert(ids.drop_last()[i] == ids[i]);
        assert(ids[i] != ids[ids.len() - 1]);
        lemma_demand_of_distinct(ids.drop_last(), values.drop_last(), i);
    } else {
        assert forall|j: int| 0 <= j < ids.drop_last().len() implies ids.drop_last()[j]
            != ids[i] by {
            assert(ids.drop_last()[j] == ids[j]);
        }
        lemma_demand_unlisted(ids.drop_last(), values.drop_last(), ids[i]);
    }
}

/// A mint writes balances and token metadata and nothing else; it records
/// metadata for exactly the identifiers that it lists.
pub proof fn lemma_mint_frame(
    l: Ledger,
    recipient: Key,
    ids: Seq<Seq<char>>,
    metas: Seq<MetaView>,
    values: Seq<nat>,
)
    requires
        ids.len() == metas.len(),
        ids.len() == values.len(),
    ensures
        ({
            let m = l.mint(recipient, ids, metas, values);
            &&& m.name == l.name
            &&& m.symbol == l.symbol
            &&& m.meta == l.meta
            &&& m.paused == l.paused
            &&& m.events == l.events
            &&& l.wf() ==> m.wf()
            &&& forall|t: Seq<char>| #[trigger]
                m.token_metas.contains_key(t) <==> l.token_metas.contains_key(t) || ids.contains(t)
        }),
    decreases ids.len(),
{
    if ids.len() > 0 {
        let m = l.mint(recipient, ids, metas, values);
        lemma_mint_frame(l, recipient, ids.drop_last(), metas.drop_last(), values.drop_last());
        assert forall|t: Seq<char>| #[trigger]
            m.token_metas.contains_key(t) <==> l.token_metas.contains_key(t) || ids.contains(
                t,
            ) by {
            if ids.drop_last().contains(t) {
                let i = choose|i: int| 0 <= i < ids.drop_last().len() && ids.drop_last()[i] == t;
                assert(ids[i] == t);
            }
            if ids.contains(t) && t != ids.last() {
                let i = choose|i: int| 0 <= i < ids.len() && ids[i] == t;
                assert(ids.drop_last()[i] == t);
            }
            assert(ids[ids.len() - 1] == ids.last());
        }
    }
}

/// After a mint the recipient holds, of each identifier, what it held and
/// what the batch asked; every other balance is as it was.
pub proof fn lemma_mint_balance(
    l: Ledger,
    recipient: Key,
    ids: Seq<Seq<char>>,
    metas: Seq<MetaView>,
    values: Seq<nat>,
    owner: Key,
    t: Seq<char>,
)
    requires
        ids.len() == metas.len(),
        ids.len() == values.len(),
    ensures
        l.mint(recipient, ids, metas, values).balance_of(owner, t) == l.balance_of(owner, t) + (
        if owner == recipient {
            demand(ids, values, t)
        } else {
            0
        }),
    decreases ids.len(),
{
    if ids.len() > 0 {
        lemma_mint_balance(
            l,
            recipient,
            ids.drop_last(),
            metas.drop_last(),
            values.drop_last(),
            owner,
            t,
        );
    }
}

/// A mint raises the supply of each identifier by what the batch asked of it.
pub proof fn lemma_mint_supply(
    l: Ledger,
    recipient: Key,
    ids: Seq<Seq<char>>,
    metas: Seq<MetaView>,
    values: Seq<nat>,
    t: Seq<char>,
)
    requires
        l.wf(),
        ids.len() == metas.len(),
        ids.len() == values.len(),
    ensures
        l.mint(recipient, ids, metas, values).total_supply(t) == l.total_supply(t) + demand(
            ids,
            values,
            t,
        ),
    decreases ids.len(),
{
    if ids.len() > 0 {
        let before = l.mint(recipient, ids.drop_last(), metas.drop_last(), values.drop_last());
        lemma_mint_supply(l, recipient, ids.drop_last(), metas.drop_last(), values.drop_last(), t);
        lemma_mint_frame(l, recipient, ids.drop_last(), metas.drop_last(), values.drop_last());
        let credited = before.credit(recipient, ids.last(), values.last());
        lemma_write_supply(
            before,
            recipient,
            ids.last(),
            before.balance_of(recipient, ids.last()) + values.last(),
            t,
        );
        assert(credited.set_token_meta(ids.last(), metas.last()).holdings(t)
            == credited.holdings(t));
    }
}

/// After a mint of identifiers that occur once each, each identifier has the
/// metadata listed beside it.
pub proof fn law_mint_records_metadata(
    l: Ledger,
    recipient: Key,
    ids: Seq<Seq<char>>,
    metas: Seq<MetaView>,
    values: Seq<nat>,
    i: int,
)
    requires
        ids.len() == metas.len(),
        ids.len() == values.len(),
        ids.no_duplicates(),
        0 <= i < ids.len(),
    ensures
        l.mint(recipient, ids, metas, values).token_metas.contains_key(ids[i]),
        l.mint(recipient, ids, metas, values).token_metas[ids[i]] == metas[i],
    decreases ids.len(),
{
    if i < ids.len() - 1 {
        assert(ids.drop_last()[i] == ids[i]);
        assert(ids[i] != ids[ids.len() - 1]);
        law_mint_records_metadata(
            l,
            recipient,
            ids.drop_last(),
            metas.drop_last(),
            values.drop_last(),
            i,
        );
    }
}

/// Holdings that cover a batch cover its front, and what the batch asks of
/// its last identifier.
pub proof fn lemma_front_is_covered(l: Ledger, owner: Key, ids: Seq<Seq<char>>, values: Seq<nat>)
    requires
        ids.len() == values.len(),
        ids.len() > 0,
        forall|id: Seq<char>| #[trigger] demand(ids, values, id) <= l.balance_of(owner, id),
    ensures
        forall|id: Seq<char>| #[trigger]
            demand(ids.drop_last(), values.drop_last(), id) <= l.balance_of(owner, id),
        demand(ids, values, ids.last()) <= l.balance_of(owner, ids.last()),
{
    assert forall|id: Seq<char>| #[trigger]
        demand(ids.drop_last(), values.drop_last(), id) <= l.balance_of(owner, id) by {
        assert(demand(ids.drop_last(), values.drop_last(), id) <= demand(ids, values, id));
    }
}

/// A burn writes balances and nothing else.
pub proof fn lemma_burn_frame(l: Ledger, owner: Key, ids: Seq<Seq<char>>, values: Seq<nat>)
    requires
        ids.len() == values.len(),
    ensures
        ({
            let b = l.burn(owner, ids, values);
            &&& b.name == l.name
            &&& b.symbol == l.symbol
            &&& b.meta == l.meta
            &&& b.paused == l.paused
            &&& b.events == l.events
            &&& b.token_metas == l.token_metas
            &&& l.wf() ==> b.wf()
        }),
    decreases ids.len(),
{
    if ids.len() > 0 {
        lemma_burn_frame(l, owner, ids.drop_last(), values.drop_last());
    }
}

/// After a burn that the owner's holdings cover, the owner holds of each
/// identifier what it held less what the batch asked; every other balance is
/// as it was.
pub proof fn lemma_burn_balance(
    l: Ledger,
    owner: Key,
    ids: Seq<Seq<char>>,
    values: Seq<nat>,
    holder: Key,
    t: Seq<char>,
)
    requires
        ids.len() == values.len(),
        forall|id: Seq<char>| #[trigger] demand(ids, values, id) <= l.balance_of(owner, id),
    ensures
        l.burn(owner, ids, values).balance_of(holder, t) + (if holder == owner {
            demand(ids, values, t)
        } else {
            0
        }) == l.balance_of(holder, t),
    decreases ids.len(),
{
    if ids.len() > 0 {
        let front = ids.drop_last();
        let front_values = values.drop_last();
        lemma_front_is_covered(l, owner, ids, values);
        lemma_burn_balance(l, owner, front, front_values, holder, t);
        lemma_burn_balance(l, owner, front, front_values, owner, ids.last());
    }
}

/// A burn that the owner's holdings cover lowers the supply of each
/// identifier by what the batch asked of it.
pub proof fn lemma_burn_supply(
    l: Ledger,
    owner: Key,
    ids: Seq<Seq<char>>,
    values: Seq<nat>,
    t: Seq<char>,
)
    requires
        l.wf(),
        ids.len() == values.len(),
        forall|id: Seq<char>| #[trigger] demand(ids, values, id) <= l.balance_of(owner, id),
    ensures
        l.burn(owner, ids, values).total_supply(t) + demand(ids, values, t) == l.total_supply(t),
    decreases ids.len(),
{
    if ids.len() > 0 {
        let front = ids.drop_last();
        let front_values = values.drop_last();
        let before = l.burn(owner, front, front_values);
        lemma_front_is_covered(l, owner, ids, values);
        lemma_burn_supply(l, owner, front, front_values, t);
        lemma_burn_frame(l, owner, front, front_values);
        lemma_burn_balance(l, owner, front, front_values, owner, ids.last());
        lemma_write_supply(
            before,
            owner,
            ids.last(),
            (before.balance_of(owner, ids.last()) - values.last()) as nat,
            t,
        );
    }
}

/// A transfer writes balances and nothing else.
pub proof fn lemma_transfer_frame(
    l: Ledger,
    sender: Key,
    recipient: Key,
    ids: Seq<Seq<char>>,
    values: Seq<nat>,
)
    requires
        ids.len() == values.len(),
    ensures
        ({
            let m = l.transfer(sender, recipient, ids, values);
            &&& m.name == l.name
            &&& m.symbol == l.symbol
            &&& m.meta == l.meta
            &&& m.paused == l.paused
            &&& m.events == l.events
            &&& m.token_metas == l.token_metas
            &&& l.wf() ==> m.wf()
        }),
    decreases ids.len(),
{
    if ids.len() > 0 {
        lemma_transfer_frame(l, sender, recipient, ids.drop_last(), values.drop_last());
    }
}

/// After a transfer that the sender's holdings cover, the sender holds of
/// each identifier what the batch asked less, the recipient as much more, and
/// every other balance is as it was.
pub proof fn lemma_transfer_balance(
    l: Ledger,
    sender: Key,
    recipient: Key,
    ids: Seq<Seq<char>>,
    values: Seq<nat>,
    holder: Key,
    t: Seq<char>,
)
    requires
        ids.len() == values.len(),
        forall|id: Seq<char>| #[trigger] demand(ids, values, id) <= l.balance_of(sender, id),
    ensures
        l.transfer(sender, recipient, ids, values).balance_of(holder, t) + (if holder == sender {
            demand(ids, values, t)
        } else {
            0
        }) == l.balance_of(holder, t) + (if holder == recipient {
            demand(ids, values, t)
        } else {
            0
        }),
    decreases ids.len(),
{
    if ids.len() > 0 {
        let front = ids.drop_last();
        let front_values = values.drop_last();
        lemma_front_is_covered(l, sender, ids, values);
        lemma_transfer_balance(l, sender, recipient, front, front_values, holder, t);
        lemma_transfer_balance(l, sender, recipient, front, front_values, sender, ids.last());
    }
}

/// A transfer that the sender's holdings cover changes no supply.
pub proof fn lemma_transfer_supply(
    l: Ledger,
    sender: Key,
    recipient: Key,
    ids: Seq<Seq<char>>,
    values: Seq<nat>,
    t: Seq<char>,
)
    requires
        l.wf(),
        ids.len() == values.len(),
        forall|id: Seq<char>| #[trigger] demand(ids, values, id) <= l.balance_of(sender, id),
    ensures
        l.transfer(sender, recipient, ids, values).total_supply(t) == l.total_supply(t),
    decreases ids.len(),
{
    if ids.len() > 0 {
        let front = ids.drop_last();
        let front_values = values.drop_last();
        let before = l.transfer(sender, recipient, front, front_values);
        lemma_front_is_covered(l, sender, ids, values);
        lemma_transfer_supply(l, sender, recipient, front, front_values, t);
        lemma_transfer_frame(l, sender, recipient, front, front_values);
        lemma_transfer_balance(l, sender, recipient, front, front_values, sender, ids.last());
        let debited = before.debit(sender, ids.last(), values.last());
        lemma_write_supply(
            before,
            sender,
            ids.last(),
            (before.balance_of(sender, ids.last()) - values.last()) as nat,
            t,
        );
        lemma_write_supply(
            debited,
            recipient,
            ids.last(),
            debited.balance_of(recipient, ids.last()) + values.last(),
            t,
        );
    }
}

/// Two ledgers with the same balances and token metadata answer every check
/// alike.
pub proof fn lemma_checks_read_balances_and_metadata(
    a: Ledger,
    b: Ledger,
    owner: Key,
    ids: Seq<Seq<char>>,
    values: Seq<nat>,
)
    requires
        a.balances == b.balances,
        a.token_metas == b.token_metas,
    ensures
        a.can_mint(ids) == b.can_mint(ids),
        a.owns_all(owner, ids, values) == b.owns_all(owner, ids, values),
        forall|id: Seq<char>| a.total_supply(id) == b.total_supply(id),
        forall|id: Seq<char>| a.is_live(id) == b.is_live(id),
{
    assert forall|holder: Key, id: Seq<char>| a.balance_of(holder, id) == b.balance_of(holder, id) by {}
    assert forall|id: Seq<char>| a.is_live(id) == b.is_live(id) by {
        if a.has_owner(id) {
            let holder = choose|holder: Key| a.balance_of(holder, id) > 0;
            assert(b.balance_of(holder, id) > 0);
        }
        if b.has_owner(id) {
            let holder = choose|holder: Key| b.balance_of(holder, id) > 0;
            assert(a.balance_of(holder, id) > 0);
        }
    }
    assert forall|id: Seq<char>| a.total_supply(id) == b.total_supply(id) by {
        assert(a.holdings(id) == b.holdings(id));
    }
}

/// The total supply of an identifier is positive exactly when someone owns it.
pub proof fn law_supply_counts_owners(l: Ledger, id: Seq<char>)
    requires
        l.wf(),
    ensures
        l.total_supply(id) > 0 <==> l.has_owner(id),
{
    let h = l.holdings(id);
    vstd::set_lib::lemma_set_subset_finite(l.balances.dom(), h.dom());
    lemma_total_zero(h);
    if l.has_owner(id) {
        let owner = choose|owner: Key| l.balance_of(owner, id) > 0;
        assert(h.contains_key((owner, id)));
        assert(h[(owner, id)] > 0);
    }
    if l.total_supply(id) > 0 {
        let k = choose|k: (Key, Seq<char>)| h.contains_key(k) && h[k] != 0;
        assert(l.balance_of(k.0, id) > 0);
    }
}

/// Whatever the request, the supply of each identifier moves by what an
/// accepted request mints and burns of it, and by nothing else.
pub proof fn lemma_apply_supply(l: Ledger, request: Request, t: Seq<char>)
    requires
        l.wf(),
    ensures
        l.apply(request).wf(),
        l.answer(request) is Ok ==> l.apply(request).total_supply(t) + request.burns(t)
            == l.total_supply(t) + request.mints(t),
        l.answer(request) is Err ==> l.apply(request) == l,
{
    let after = l.apply(request);
    if l.answer(request) is Ok {
        match request {
            Request::Mint { recipient, ids, metas, values } => {
                let m = l.mint(recipient, ids, metas, values);
                lemma_mint_frame(l, recipient, ids, metas, values);
                lemma_mint_supply(l, recipient, ids, metas, values, t);
                assert(after.holdings(t) == m.holdings(t));
            },
            Request::Burn { owner, ids, values } => {
                let b = l.burn(owner, ids, values);
                lemma_burn_frame(l, owner, ids, values);
                lemma_burn_supply(l, owner, ids, values, t);
                assert(after.holdings(t) == b.holdings(t));
            },
            Request::Transfer { sender, recipient, ids, values } => {
                let m = l.transfer(sender, recipient, ids, values);
                lemma_transfer_frame(l, sender, recipient, ids, values);
                lemma_transfer_supply(l, sender, recipient, ids, values, t);
                assert(after.holdings(t) == m.holdings(t));
            },
            _ => {
                assert(after.holdings(t) == l.holdings(t));
            },
        }
    }
}

/// Conservation: after any sequence of requests, the total supply of an
/// identifier is what it was, plus what the accepted requests minted of it,
/// less what they burned of it.
pub proof fn law_supply_is_conserved(l: Ledger, requests: Seq<Request>, id: Seq<char>)
    requires
        l.wf(),
    ensures
        l.run(requests).wf(),
        l.run(requests).total_supply(id) + l.burned_total(requests, id) == l.total_supply(id)
            + l.minted_total(requests, id),
    decreases requests.len(),
{
    if requests.len() > 0 {
        law_supply_is_conserved(l, requests.drop_last(), id);
        lemma_apply_supply(l.run(requests.drop_last()), requests.last(), id);
    }
}

/// Conservation: a request to transfer, accepted or not, changes no total
/// supply.
pub proof fn law_transfer_keeps_supply(
    l: Ledger,
    sender: Key,
    recipient: Key,
    ids: Seq<Seq<char>>,
    values: Seq<nat>,
    id: Seq<char>,
)
    requires
        l.wf(),
    ensures
        l.transferred(sender, recipient, ids, values).total_supply(id) == l.total_supply(id),
{
    lemma_apply_supply(l, Request::Transfer { sender, recipient, ids, values }, id);
}

/// No request takes recorded metadata away.
pub proof fn lemma_apply_keeps_metadata(l: Ledger, request: Request, t: Seq<char>)
    requires
        l.token_metas.contains_key(t),
    ensures
        l.apply(request).token_metas.contains_key(t),
{
    if l.answer(request) is Ok {
        match request {
            Request::Mint { recipient, ids, metas, values } => {
                lemma_mint_frame(l, recipient, ids, metas, values);
            },
            Request::Burn { owner, ids, values } => {
                lemma_burn_frame(l, owner, ids, values);
            },
            Request::Transfer { sender, recipient, ids, values } => {
                lemma_transfer_frame(l, sender, recipient, ids, values);
            },
            _ => {},
        }
    }
}

/// Uniqueness: over any sequence of requests, no identifier is minted twice,
/// and every identifier that was minted is live at the end.
pub proof fn law_minted_ids_are_unique(l: Ledger, requests: Seq<Request>)
    ensures
        l.minted_ids(requests).no_duplicates(),
        forall|i: int|
            0 <= i < l.minted_ids(requests).len() ==> l.run(requests).token_metas.contains_key(
                #[trigger] l.minted_ids(requests)[i],
            ),
        forall|i: int|
            0 <= i < l.minted_ids(requests).len() ==> l.run(requests).is_live(
                #[trigger] l.minted_ids(requests)[i],
            ),
    decreases requests.len(),
{
    if requests.len() > 0 {
        let front = requests.drop_last();
        let request = requests.last();
        let before = l.run(front);
        let after = l.run(requests);
        let earlier = l.minted_ids(front);
        let all = l.minted_ids(requests);
        law_minted_ids_are_unique(l, front);
        if before.answer(request) is Ok && request is Mint {
            let recipient = request->Mint_recipient;
            let ids = request->Mint_ids;
            let metas = request->Mint_metas;
            let values = request->Mint_values;
            assert(all == earlier + ids);
            assert(before.can_mint(ids));
            lemma_mint_frame(before, recipient, ids, metas, values);
            assert(after.token_metas == before.mint(recipient, ids, metas, values).token_metas);
            assert forall|i: int| 0 <= i < all.len() implies after.token_metas.contains_key(
                #[trigger] all[i],
            ) by {
                if i < earlier.len() {
                    assert(all[i] == earlier[i]);
                } else {
                    assert(all[i] == ids[i - earlier.len()]);
                    assert(ids.contains(all[i]));
                }
            }
            assert forall|i: int, j: int| 0 <= i < j < all.len() implies all[i] != all[j] by {
                if j < earlier.len() {
                    assert(all[i] == earlier[i] && all[j] == earlier[j]);
                } else if i >= earlier.len() {
                    assert(all[i] == ids[i - earlier.len()] && all[j] == ids[j - earlier.len()]);
                } else {
                    assert(all[i] == earlier[i]);
                    assert(before.is_live(earlier[i]));
                    assert(all[j] == ids[j - earlier.len()]);
                    assert(!before.is_live(ids[j - earlier.len()]));
                }
            }
        } else {
            assert(all =~= earlier);
            assert forall|i: int| 0 <= i < all.len() implies after.token_metas.contains_key(
                #[trigger] all[i],
            ) by {
                lemma_apply_keeps_metadata(before, request, all[i]);
            }
        }
    }
}

/// Ownership gate: where the acting address holds none of a listed
/// identifier, or less than the value listed beside it, a burn is refused
/// with `NotAnOwner` whatever the lengths of the two lists, and so is a
/// transfer unless the collection is paused; either way the ledger is as it
/// was.
pub proof fn law_short_balance_refuses_batch(
    l: Ledger,
    owner: Key,
    recipient: Key,
    ids: Seq<Seq<char>>,
    values: Seq<nat>,
    i: int,
)
    requires
        0 <= i < ids.len(),
        l.balance_of(owner, ids[i]) == 0 || (i < values.len() && l.balance_of(owner, ids[i])
            < values[i]),
    ensures
        l.burn_result(owner, ids, values) == Err::<(), Error>(Error::NotAnOwner),
        l.burned(owner, ids, values) == l,
        !l.paused ==> l.transfer_result(owner, ids, values) == Err::<(), Error>(Error::NotAnOwner),
        l.transferred(owner, recipient, ids, values) == l,
{
}

/// Lists of different lengths are refused with `ArgumentsError` only where
/// the acting address owns every listed identifier and holds each value
/// listed beside one.
pub proof fn law_lengths_count_after_ownership(
    l: Ledger,
    owner: Key,
    ids: Seq<Seq<char>>,
    values: Seq<nat>,
)
    ensures
        l.burn_result(owner, ids, values) == Err::<(), Error>(Error::ArgumentsError) <==> {
            &&& ids.len() != values.len()
            &&& l.owns_all(owner, ids, values)
        },
        l.transfer_result(owner, ids, values) == Err::<(), Error>(Error::ArgumentsError) <==> {
            &&& !l.paused
            &&& ids.len() != values.len()
            &&& l.owns_all(owner, ids, values)
        },
        l.burn_result(owner, ids, values) == Err::<(), Error>(Error::NotAnOwner)
            <==> !l.owns_all(owner, ids, values),
        l.transfer_result(owner, ids, values) == Err::<(), Error>(Error::NotAnOwner) <==> !l.paused
            && !l.owns_all(owner, ids, values),
{
}

/// Ownership gate: of a batch that lists each identifier once, the owner can
/// give up exactly those of which it holds a positive quantity that is at
/// least the value listed beside the identifier.
pub proof fn law_distinct_batch_is_weighed_per_id(
    l: Ledger,
    owner: Key,
    ids: Seq<Seq<char>>,
    values: Seq<nat>,
)
    requires
        ids.len() == values.len(),
        ids.no_duplicates(),
    ensures
        l.owns_all(owner, ids, values) <==> forall|i: int|
            0 <= i < ids.len() ==> 0 < l.balance_of(owner, #[trigger] ids[i]) && values[i]
                <= l.balance_of(owner, ids[i]),
{
    if l.owns_all(owner, ids, values) {
        assert forall|i: int| 0 <= i < ids.len() implies 0 < l.balance_of(
            owner,
            #[trigger] ids[i],
        ) && values[i] <= l.balance_of(owner, ids[i]) by {
            lemma_demand_of_distinct(ids, values, i);
            assert(demand(ids, values, ids[i]) <= l.balance_of(owner, ids[i]));
        }
    }
    if forall|i: int|
        0 <= i < ids.len() ==> 0 < l.balance_of(owner, #[trigger] ids[i]) && values[i]
            <= l.balance_of(owner, ids[i]) {
        assert forall|id: Seq<char>| #[trigger]
            demand(ids, values, id) <= l.balance_of(owner, id) by {
            if ids.contains(id) {
                let i = choose|i: int| 0 <= i < ids.len() && ids[i] == id;
                lemma_demand_of_distinct(ids, values, i);
            } else {
                lemma_demand_unlisted(ids, values, id);
            }
        }
    }
}

/// Pause gate: a transfer is refused with `PermissionDenied` exactly when the
/// collection is paused, and the pause switch changes neither the answer to a
/// mint or a burn nor what they do.
pub proof fn law_pause_blocks_transfers_only(
    l: Ledger,
    paused: bool,
    owner: Key,
    ids: Seq<Seq<char>>,
    metas: Seq<MetaView>,
    values: Seq<nat>,
)
    ensures
        l.transfer_result(owner, ids, values) == Err::<(), Error>(Error::PermissionDenied)
            <==> l.paused,
        l.set_paused(paused).burn_result(owner, ids, values) == l.burn_result(owner, ids, values),
        l.set_paused(paused).mint_result(Some(ids), metas, values) == l.mint_result(
            Some(ids),
            metas,
            values,
        ),
        l.set_paused(paused).mint_result(None, metas, values) == l.mint_result(None, metas, values),
        l.set_paused(paused).burned(owner, ids, values) == l.burned(owner, ids, values).set_paused(
            paused,
        ),
        l.set_paused(paused).mint_applied(owner, ids, metas, values) == l.mint_applied(
            owner,
            ids,
            metas,
            values,
        ).set_paused(paused),
        l.burned(owner, ids, values).paused == l.paused,
        l.mint_applied(owner, ids, metas, values).paused == l.paused,
        l.transferred(owner, owner, ids, values).paused == l.paused,
        l.paused ==> l.transferred(owner, owner, ids, values) == l,
{
    lemma_checks_read_balances_and_metadata(l.set_paused(paused), l, owner, ids, values);
    lemma_pause_commutes(l, paused, owner, ids, metas, values);
    if l.burn_result(owner, ids, values) is Ok {
        lemma_burn_frame(l, owner, ids, values);
    }
    if l.mint_result(Some(ids), metas, values) is Ok {
        lemma_mint_frame(l, owner, ids, metas, values);
    }
    if l.transfer_result(owner, ids, values) is Ok {
        lemma_transfer_frame(l, owner, owner, ids, values);
    }
}

/// Minting and burning go on as they would, whatever the pause switch says.
proof fn lemma_pause_commutes(
    l: Ledger,
    paused: bool,
    owner: Key,
    ids: Seq<Seq<char>>,
    metas: Seq<MetaView>,
    values: Seq<nat>,
)
    ensures
        l.set_paused(paused).burn(owner, ids, values) == l.burn(owner, ids, values).set_paused(
            paused,
        ),
        l.set_paused(paused).mint(owner, ids, metas, values) == l.mint(
            owner,
            ids,
            metas,
            values,
        ).set_paused(paused),
    decreases ids.len(),
{
    if ids.len() > 0 {
        lemma_pause_commutes(
            l,
            paused,
            owner,
            ids.drop_last(),
            metas.drop_last(),
            values.drop_last(),
        );
    }
}

/// Atomicity of a mint: where one supplied identifier is live or occurs
/// twice, the whole batch is refused, with `TokenIdAlreadyExists` where the
/// three lists are of one length, and the ledger is as it was.
pub proof fn law_taken_id_refuses_mint(
    l: Ledger,
    recipient: Key,
    ids: Seq<Seq<char>>,
    metas: Seq<MetaView>,
    values: Seq<nat>,
    i: int,
    j: int,
)
    requires
        0 <= i < ids.len(),
        0 <= j < ids.len(),
        l.is_live(ids[i]) || (i != j && ids[i] == ids[j]),
    ensures
        l.mint_result(Some(ids), metas, values) is Err,
        ids.len() == metas.len() && ids.len() == values.len() ==> l.mint_result(
            Some(ids),
            metas,
            values,
        ) == Err::<(), Error>(Error::TokenIdAlreadyExists),
        l.mint_applied(recipient, ids, metas, values) == l,
{
}

/// Atomicity: a request that is refused leaves the whole ledger, balances
/// and events included, as it was.
pub proof fn law_refused_request_changes_nothing(l: Ledger, request: Request)
    requires
        l.answer(request) is Err,
    ensures
        l.apply(request) == l,
{
}

/// Event correspondence: an accepted mint, burn, transfer or metadata update
/// appends exactly one event, of its own variant and with its own arguments;
/// the pause switch and a refused request append none.
pub proof fn law_one_event_per_mutation(l: Ledger, request: Request)
    ensures
        l.answer(request) is Ok ==> l.apply(request).events == l.events + request.events(),
        l.answer(request) is Err ==> l.apply(request).events == l.events,
        request is Pause || request is Unpause ==> l.apply(request).events == l.events,
        !(request is Pause || request is Unpause) ==> request.events().len() == 1,
        request is Mint ==> request.events()[0].type_tag() == "cep47_mint_one"@,
        request is Burn ==> request.events()[0].type_tag() == "cep47_burn_one"@,
        request is Transfer ==> request.events()[0].type_tag() == "cep47_transfer_token"@,
        request is UpdateMetadata ==> request.events()[0].type_tag() == "cep47_metadata_update"@,
{
    if l.answer(request) is Ok {
        match request {
            Request::Mint { recipient, ids, metas, values } => {
                lemma_mint_frame(l, recipient, ids, metas, values);
            },
            Request::Burn { owner, ids, values } => {
                lemma_burn_frame(l, owner, ids, values);
            },
            Request::Transfer { sender, recipient, ids, values } => {
                lemma_transfer_frame(l, sender, recipient, ids, values);
            },
            _ => {},
        }
        assert(l.apply(request).events =~= l.events + request.events());
    }
}

/// No request leaves a balance of a token that was never minted: a ledger
/// that is sound stays so.
pub proof fn law_requests_keep_the_ledger_sound(l: Ledger, request: Request)
    requires
        l.wf(),
        l.sound(),
    ensures
        l.apply(request).wf(),
        l.apply(request).sound(),
{
    let after = l.apply(request);
    lemma_apply_supply(l, request, Seq::empty());
    if l.answer(request) is Ok {
        assert forall|holder: Key, t: Seq<char>| #[trigger]
            after.balance_of(holder, t) > 0 implies after.token_metas.contains_key(t) by {
            match request {
                Request::Mint { recipient, ids, metas, values } => {
                    lemma_mint_frame(l, recipient, ids, metas, values);
                    lemma_mint_balance(l, recipient, ids, metas, values, holder, t);
                    assert(after.balance_of(holder, t) == l.mint(
                        recipient,
                        ids,
                        metas,
                        values,
                    ).balance_of(holder, t));
                    if l.balance_of(holder, t) == 0 {
                        if !ids.contains(t) {
                            lemma_demand_unlisted(ids, values, t);
                        }
                    }
                },
                Request::Burn { owner, ids, values } => {
                    lemma_burn_frame(l, owner, ids, values);
                    lemma_burn_balance(l, owner, ids, values, holder, t);
                    assert(after.balance_of(holder, t) == l.burn(owner, ids, values).balance_of(
                        holder,
                        t,
                    ));
                    assert(l.balance_of(holder, t) > 0);
                },
                Request::Transfer { sender, recipient, ids, values } => {
                    lemma_transfer_frame(l, sender, recipient, ids, values);
                    lemma_transfer_balance(l, sender, recipient, ids, values, holder, t);
                    assert(after.balance_of(holder, t) == l.transfer(
                        sender,
                        recipient,
                        ids,
                        values,
                    ).balance_of(holder, t));
                    if l.balance_of(holder, t) == 0 {
                        if !ids.contains(t) {
                            lemma_demand_unlisted(ids, values, t);
                        }
                        let i = choose|i: int| 0 <= i < ids.len() && ids[i] == t;
                        assert(l.balance_of(sender, ids[i]) > 0);
                    }
                },
                _ => {
                    assert(after.balance_of(holder, t) == l.balance_of(holder, t));
                },
            }
        }
    }
}

/// A ledger that is sound stays so over any sequence of requests.
pub proof fn law_runs_keep_the_ledger_sound(l: Ledger, requests: Seq<Request>)
    requires
        l.wf(),
        l.sound(),
    ensures
        l.run(requests).wf(),
        l.run(requests).sound(),
    decreases requests.len(),
{
    if requests.len() > 0 {
        law_runs_keep_the_ledger_sound(l, requests.drop_last());
        law_requests_keep_the_ledger_sound(l.run(requests.drop_last()), requests.last());
    }
}

/// The pause switch is idempotent: setting it to what it says changes
/// nothing, and setting it twice is setting it once.
pub proof fn law_pause_is_idempotent(l: Ledger, paused: bool)
    ensures
        l.paused == paused ==> l.set_paused(paused) == l,
        l.set_paused(paused).set_paused(paused) == l.set_paused(paused),
{
}

/// What a request adds to the log is what it minted and burned, where it was
/// accepted, and nothing where it was refused.
pub proof fn lemma_apply_log(l: Ledger, request: Request, id: Seq<char>)
    ensures
        log_minted(l.apply(request).events, id) == log_minted(l.events, id) + (if l.answer(
            request,
        ) is Ok {
            request.mints(id)
        } else {
            0
        }),
        log_burned(l.apply(request).events, id) == log_burned(l.events, id) + (if l.answer(
            request,
        ) is Ok {
            request.burns(id)
        } else {
            0
        }),
        log_minted_ids(l.apply(request).events) == log_minted_ids(l.events) + (if l.answer(
            request,
        ) is Ok {
            request.minted_ids()
        } else {
            Seq::empty()
        }),
{
    law_one_event_per_mutation(l, request);
    let after = l.apply(request).events;
    if l.answer(request) is Ok && !(request is Pause || request is Unpause) {
        let event = request.events()[0];
        assert(after =~= l.events.push(event));
        assert(after.drop_last() =~= l.events);
        assert(after.last() == event);
    } else {
        assert(after =~= l.events);
        assert(log_minted_ids(l.events) + Seq::<Seq<char>>::empty() =~= log_minted_ids(l.events));
    }
}

/// Over any sequence of requests, the log grows by what the accepted
/// requests minted and burned.
pub proof fn lemma_run_log(l: Ledger, requests: Seq<Request>, id: Seq<char>)
    ensures
        log_minted(l.run(requests).events, id) == log_minted(l.events, id) + l.minted_total(
            requests,
            id,
        ),
        log_burned(l.run(requests).events, id) == log_burned(l.events, id) + l.burned_total(
            requests,
            id,
        ),
        log_minted_ids(l.run(requests).events) == log_minted_ids(l.events) + l.minted_ids(
            requests,
        ),
    decreases requests.len(),
{
    if requests.len() > 0 {
        lemma_run_log(l, requests.drop_last(), id);
        lemma_apply_log(l.run(requests.drop_last()), requests.last(), id);
        let grown = if l.run(requests.drop_last()).answer(requests.last()) is Ok {
            requests.last().minted_ids()
        } else {
            Seq::empty()
        };
        assert((log_minted_ids(l.events) + l.minted_ids(requests.drop_last())) + grown
            =~= log_minted_ids(l.events) + (l.minted_ids(requests.drop_last()) + grown));
    } else {
        assert(log_minted_ids(l.events) + Seq::<Seq<char>>::empty() =~= log_minted_ids(l.events));
    }
}

/// Conservation, read off the log: over any sequence of requests the total
/// supply of an identifier moves by what the new `Mint` events list of it,
/// less what the new `Burn` events list of it; `Transfer` events do not
/// count. From a ledger without balances or events, the supply is what the
/// log says was minted less what it says was burned.
pub proof fn law_supply_matches_the_log(l: Ledger, requests: Seq<Request>, id: Seq<char>)
    requires
        l.wf(),
    ensures
        l.run(requests).total_supply(id) + log_burned(l.run(requests).events, id) + log_minted(
            l.events,
            id,
        ) == l.total_supply(id) + log_minted(l.run(requests).events, id) + log_burned(
            l.events,
            id,
        ),
        l.events.len() == 0 && l.total_supply(id) == 0 ==> l.run(requests).total_supply(id)
            + log_burned(l.run(requests).events, id) == log_minted(l.run(requests).events, id),
{
    law_supply_is_conserved(l, requests, id);
    lemma_run_log(l, requests, id);
}

/// Uniqueness, read off the log: from a ledger without events, over any
/// sequence of requests, the identifiers that the `Mint` events list name no
/// identifier twice, and each of them is live.
pub proof fn law_log_names_no_id_twice(l: Ledger, requests: Seq<Request>)
    requires
        l.events.len() == 0,
    ensures
        log_minted_ids(l.run(requests).events).no_duplicates(),
        forall|i: int|
            0 <= i < log_minted_ids(l.run(requests).events).len() ==> l.run(requests).is_live(
                #[trigger] log_minted_ids(l.run(requests).events)[i],
            ),
{
    law_minted_ids_are_unique(l, requests);
    lemma_run_log(l, requests, Seq::empty());
    assert(log_minted_ids(l.events) + l.minted_ids(requests) =~= l.minted_ids(requests));
}

} // verus!
