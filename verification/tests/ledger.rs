use casper_types::account::AccountHash;
use casper_types::{ApiError, Key, U256};
use cep47_logic::ledger::Ledger;
use cep47_logic::{
    covers_batch, CEP47Contract, CEP47Event, CEP47Storage, Error, LedgerFacade, Meta, TokenId,
    WithStorage,
};
use std::cell::Cell;
use std::collections::BTreeMap;

/// A backend that keeps the ledger in memory and counts the calls made to it.
struct MemoryStorage {
    name: String,
    symbol: String,
    meta: Meta,
    paused: bool,
    balances: BTreeMap<(Key, TokenId), U256>,
    token_metas: BTreeMap<TokenId, Meta>,
    events: Vec<CEP47Event>,
    generated: u64,
    calls: Cell<usize>,
}

impl MemoryStorage {
    fn new() -> Self {
        let mut meta = Meta::new();
        meta.insert("origin".to_string(), "mint house".to_string());
        MemoryStorage {
            name: "Dragons".to_string(),
            symbol: "DRAG".to_string(),
            meta,
            paused: false,
            balances: BTreeMap::new(),
            token_metas: BTreeMap::new(),
            events: Vec::new(),
            generated: 0,
            calls: Cell::new(0),
        }
    }

    fn held(&self, owner: &Key, token_id: &TokenId) -> U256 {
        match self.balances.get(&(*owner, token_id.clone())) {
            Some(value) => *value,
            None => U256::zero(),
        }
    }

    fn has_owner(&self, token_id: &TokenId) -> bool {
        self.balances.iter().any(|((_, id), value)| id == token_id && !value.is_zero())
    }

    fn called(&self) {
        self.calls.set(self.calls.get() + 1);
    }

    fn is_live(&self, token_id: &TokenId) -> bool {
        self.token_metas.contains_key(token_id) || self.has_owner(token_id)
    }
}

impl CEP47Storage for MemoryStorage {
    fn ledger(&self) -> Ledger {
        unreachable!()
    }

    fn name(&self) -> String {
        self.called();
        self.name.clone()
    }

    fn symbol(&self) -> String {
        self.called();
        self.symbol.clone()
    }

    fn meta(&self) -> Meta {
        self.called();
        self.meta.clone()
    }

    fn balance_of(&self, owner: &Key, token_id: TokenId) -> U256 {
        self.called();
        self.held(owner, &token_id)
    }

    fn total_supply(&self, token_id: TokenId) -> U256 {
        self.called();
        let mut supply = U256::zero();
        for ((_, id), value) in self.balances.iter() {
            if *id == token_id {
                supply = supply.checked_add(*value).unwrap();
            }
        }
        supply
    }

    fn token_meta(&self, token_id: &TokenId) -> Option<Meta> {
        self.called();
        self.token_metas.get(token_id).cloned()
    }

    fn is_paused(&self) -> bool {
        self.called();
        self.paused
    }

    fn pause(&mut self) {
        self.called();
        self.paused = true;
    }

    fn unpause(&mut self) {
        self.called();
        self.paused = false;
    }

    fn mint_many(
        &mut self,
        recipient: &Key,
        token_ids: &Vec<TokenId>,
        token_metas: &Vec<Meta>,
        values: &Vec<U256>,
    ) {
        self.called();
        for i in 0..token_ids.len() {
            let held = self.held(recipient, &token_ids[i]);
            let value = held.checked_add(values[i]).unwrap();
            self.balances.insert((*recipient, token_ids[i].clone()), value);
            self.token_metas.insert(token_ids[i].clone(), token_metas[i].clone());
        }
    }

    fn transfer_many(
        &mut self,
        sender: &Key,
        recipient: &Key,
        token_ids: &Vec<TokenId>,
        values: &Vec<U256>,
    ) {
        self.called();
        for i in 0..token_ids.len() {
            let left = self.held(sender, &token_ids[i]).checked_sub(values[i]).unwrap();
            self.balances.insert((*sender, token_ids[i].clone()), left);
            let gained = self.held(recipient, &token_ids[i]).checked_add(values[i]).unwrap();
            self.balances.insert((*recipient, token_ids[i].clone()), gained);
        }
    }

    fn burn_many(&mut self, owner: &Key, token_ids: &Vec<TokenId>, values: &Vec<U256>) {
        self.called();
        for i in 0..token_ids.len() {
            let left = self.held(owner, &token_ids[i]).checked_sub(values[i]).unwrap();
            self.balances.insert((*owner, token_ids[i].clone()), left);
        }
    }

    fn update_token_metadata(&mut self, token_id: &TokenId, meta: Meta) {
        self.called();
        self.token_metas.insert(token_id.clone(), meta);
    }

    fn gen_token_ids(&mut self, n: usize) -> Vec<TokenId> {
        self.called();
        let mut token_ids = Vec::new();
        while token_ids.len() < n {
            let candidate = format!("token-{}", self.generated);
            self.generated += 1;
            if !self.is_live(&candidate) {
                token_ids.push(candidate);
            }
        }
        token_ids
    }

    fn validate_token_ids(&self, token_ids: &Vec<TokenId>) -> bool {
        self.called();
        for i in 0..token_ids.len() {
            if self.is_live(&token_ids[i]) || token_ids[..i].contains(&token_ids[i]) {
                return false;
            }
        }
        true
    }

    fn are_all_owner_tokens(&self, owner: &Key, token_ids: &Vec<TokenId>) -> bool {
        self.called();
        token_ids.iter().all(|token_id| !self.held(owner, token_id).is_zero())
    }

    fn emit(&mut self, event: CEP47Event) {
        self.called();
        self.events.push(event);
    }
}

type Collection = LedgerFacade<MemoryStorage>;

fn collection() -> Collection {
    LedgerFacade::new(MemoryStorage::new())
}

fn address(byte: u8) -> Key {
    Key::Account(AccountHash::new([byte; 32]))
}

fn id(name: &str) -> TokenId {
    name.to_string()
}

fn ids(names: &[&str]) -> Vec<TokenId> {
    names.iter().map(|name| name.to_string()).collect()
}

fn amounts(values: &[u64]) -> Vec<U256> {
    values.iter().map(|value| U256::from(*value)).collect()
}

fn meta(color: &str) -> Meta {
    let mut meta = Meta::new();
    meta.insert("color".to_string(), color.to_string());
    meta
}

fn metas(colors: &[&str]) -> Vec<Meta> {
    colors.iter().map(|color| meta(color)).collect()
}

/// The balances, metadata, pause switch and events of a collection.
fn snapshot(
    c: &Collection,
) -> (BTreeMap<(Key, TokenId), U256>, BTreeMap<TokenId, Meta>, bool, String) {
    (
        c.storage.balances.clone(),
        c.storage.token_metas.clone(),
        c.storage.paused,
        format!("{:?}", c.storage.events),
    )
}


fn tokens(values: u64) -> U256 {
    U256::from(values)
}

/// A collection in which `x` holds 5 of "sword" and 2 of "shield".
fn stocked(x: &Key) -> Collection {
    let mut c = collection();
    let r = c.mint_many(
        x,
        Some(ids(&["sword", "shield"])),
        metas(&["grey", "brown"]),
        amounts(&[5, 2]),
    );
    assert_eq!(r, Ok(()));
    c
}

#[test]
fn mint_two_generated_ids() {
    let mut c = collection();
    let x = address(1);
    let r = c.mint_many(&x, None, metas(&["red", "blue"]), amounts(&[1, 1]));
    assert_eq!(r, Ok(()));
    assert_eq!(c.storage.events.len(), 1);
    match &c.storage.events[0] {
        CEP47Event::Mint { recipient, token_ids, values } => {
            assert_eq!(*recipient, x);
            assert_eq!(token_ids.len(), 2);
            assert_ne!(token_ids[0], token_ids[1]);
            assert_eq!(*values, amounts(&[1, 1]));
            for token_id in token_ids {
                assert_eq!(c.total_supply(token_id.clone()), tokens(1));
                assert_eq!(c.balance_of(&x, token_id.clone()), tokens(1));
            }
            assert_eq!(c.token_meta(&token_ids[0]), Some(meta("red")));
            assert_eq!(c.token_meta(&token_ids[1]), Some(meta("blue")));
        }
        other => panic!("not a mint event: {:?}", other),
    }
}

#[test]
fn transfer_moves_one_unit() {
    let x = address(1);
    let y = address(2);
    let mut c = stocked(&x);
    let r = c.transfer_many_tokens(&x, &y, &ids(&["sword"]), &amounts(&[1]));
    assert_eq!(r, Ok(()));
    assert_eq!(c.balance_of(&x, id("sword")), tokens(4));
    assert_eq!(c.balance_of(&y, id("sword")), tokens(1));
    assert_eq!(c.total_supply(id("sword")), tokens(5));
    assert_eq!(c.storage.events.len(), 2);
    assert_eq!(
        c.storage.events[1],
        CEP47Event::Transfer {
            sender: x,
            recipient: y,
            token_ids: ids(&["sword"]),
            values: amounts(&[1]),
        }
    );
}

#[test]
fn transfer_while_paused_is_denied() {
    let x = address(1);
    let y = address(2);
    let mut c = stocked(&x);
    c.pause();
    let before = snapshot(&c);
    let r = c.transfer_many_tokens(&x, &y, &ids(&["sword"]), &amounts(&[1]));
    assert_eq!(r, Err(Error::PermissionDenied));
    assert_eq!(r.unwrap_err().code(), 1);
    assert_eq!(snapshot(&c), before);
    assert_eq!(c.storage.events.len(), 1);
}

#[test]
fn burn_more_than_owned_is_refused() {
    let x = address(1);
    let mut c = stocked(&x);
    let before = snapshot(&c);
    let r = c.burn_many(&x, ids(&["shield"]), amounts(&[3]));
    assert_eq!(r, Err(Error::NotAnOwner));
    assert_eq!(r.unwrap_err().code(), 5);
    assert_eq!(snapshot(&c), before);
    assert_eq!(c.balance_of(&x, id("shield")), tokens(2));
}

#[test]
fn mint_with_mismatched_lengths_makes_no_storage_call() {
    let mut c = collection();
    let x = address(1);
    let r = c.mint_many(&x, Some(ids(&["a", "b"])), metas(&["red"]), amounts(&[1]));
    assert_eq!(r, Err(Error::ArgumentsError));
    assert_eq!(r.unwrap_err().code(), 2);
    assert_eq!(c.storage.calls.get(), 0);
    assert!(c.storage.balances.is_empty());
    assert!(c.storage.events.is_empty());

    let r = c.mint_many(&x, Some(ids(&["a"])), metas(&["red"]), amounts(&[1, 1]));
    assert_eq!(r, Err(Error::ArgumentsError));
    let r = c.mint_many(&x, None, metas(&["red"]), amounts(&[]));
    assert_eq!(r, Err(Error::ArgumentsError));
    assert_eq!(c.storage.calls.get(), 0);
}

#[test]
fn update_metadata_without_owner_is_refused() {
    let x = address(1);
    let mut c = stocked(&x);
    let before = snapshot(&c);
    let r = c.update_token_metadata(id("never minted"), meta("gold"));
    assert_eq!(r, Err(Error::TokenIdDoesntExist));
    assert_eq!(r.unwrap_err().code(), 4);
    assert_eq!(snapshot(&c), before);

    assert_eq!(c.burn_one(&x, id("shield"), tokens(2)), Ok(()));
    assert_eq!(c.total_supply(id("shield")), tokens(0));
    let r = c.update_token_metadata(id("shield"), meta("gold"));
    assert_eq!(r, Err(Error::TokenIdDoesntExist));
    assert_eq!(c.token_meta(&id("shield")), Some(meta("brown")));
}

#[test]
fn update_metadata_overwrites_and_names_the_id_only() {
    let x = address(1);
    let mut c = stocked(&x);
    let r = c.update_token_metadata(id("sword"), meta("silver"));
    assert_eq!(r, Ok(()));
    assert_eq!(c.token_meta(&id("sword")), Some(meta("silver")));
    assert_eq!(c.token_meta(&id("shield")), Some(meta("brown")));
    assert_eq!(c.storage.events.len(), 2);
    assert_eq!(c.storage.events[1], CEP47Event::MetadataUpdate { token_id: id("sword") });
    assert_eq!(c.balance_of(&x, id("sword")), tokens(5));
}

#[test]
fn supplied_ids_must_be_free_and_distinct() {
    let x = address(1);
    let mut c = stocked(&x);
    let before = snapshot(&c);
    let r = c.mint_many(&x, Some(ids(&["axe", "sword"])), metas(&["a", "b"]), amounts(&[1, 1]));
    assert_eq!(r, Err(Error::TokenIdAlreadyExists));
    assert_eq!(r.unwrap_err().code(), 3);
    assert_eq!(snapshot(&c), before);
    assert_eq!(c.token_meta(&id("axe")), None);

    let r = c.mint_many(&x, Some(ids(&["axe", "axe"])), metas(&["a", "b"]), amounts(&[1, 1]));
    assert_eq!(r, Err(Error::TokenIdAlreadyExists));
    assert_eq!(snapshot(&c), before);

    let r = c.mint_one(&x, Some(id("sword")), meta("a"), tokens(1));
    assert_eq!(r, Err(Error::TokenIdAlreadyExists));
    assert_eq!(snapshot(&c), before);
}

#[test]
fn a_burned_out_id_stays_taken() {
    let x = address(1);
    let mut c = stocked(&x);
    assert_eq!(c.burn_one(&x, id("shield"), tokens(2)), Ok(()));
    let r = c.mint_one(&x, Some(id("shield")), meta("new"), tokens(1));
    assert_eq!(r, Err(Error::TokenIdAlreadyExists));
}

#[test]
fn generated_ids_never_repeat() {
    let mut c = collection();
    let x = address(1);
    assert_eq!(c.mint_one(&x, Some(id("token-1")), meta("own"), tokens(1)), Ok(()));
    assert_eq!(c.mint_many(&x, None, metas(&["a", "b"]), amounts(&[1, 1])), Ok(()));
    assert_eq!(c.mint_one(&x, None, meta("c"), tokens(1)), Ok(()));
    let mut seen: Vec<TokenId> = Vec::new();
    for event in &c.storage.events {
        match event {
            CEP47Event::Mint { token_ids, .. } => {
                for token_id in token_ids {
                    assert!(!seen.contains(token_id));
                    seen.push(token_id.clone());
                }
            }
            other => panic!("not a mint event: {:?}", other),
        }
    }
    assert_eq!(seen.len(), 4);
    assert_eq!(c.storage.token_metas.len(), 4);
}

#[test]
fn supply_is_minted_less_burned() {
    let x = address(1);
    let y = address(2);
    let mut c = collection();
    assert_eq!(c.mint_one(&x, Some(id("coin")), meta("gold"), tokens(10)), Ok(()));
    assert_eq!(c.total_supply(id("coin")), tokens(10));
    assert_eq!(c.transfer_token(&x, &y, &id("coin"), tokens(4)), Ok(()));
    assert_eq!(c.total_supply(id("coin")), tokens(10));
    assert_eq!(c.burn_one(&y, id("coin"), tokens(3)), Ok(()));
    assert_eq!(c.total_supply(id("coin")), tokens(7));
    assert_eq!(c.burn_one(&y, id("coin"), tokens(2)), Err(Error::NotAnOwner));
    assert_eq!(c.total_supply(id("coin")), tokens(7));
    assert_eq!(c.transfer_token(&y, &x, &id("coin"), tokens(1)), Ok(()));
    assert_eq!(c.burn_one(&x, id("coin"), tokens(7)), Ok(()));
    assert_eq!(c.total_supply(id("coin")), tokens(0));
    assert_eq!(c.balance_of(&x, id("coin")), tokens(0));
    assert_eq!(c.balance_of(&y, id("coin")), tokens(0));
    assert_eq!(c.total_supply(id("other")), tokens(0));
}

#[test]
fn short_balance_is_not_an_owner() {
    let x = address(1);
    let y = address(2);
    let mut c = stocked(&x);
    let before = snapshot(&c);
    let r = c.transfer_token(&x, &y, &id("shield"), tokens(3));
    assert_eq!(r, Err(Error::NotAnOwner));
    let r = c.transfer_token(&y, &x, &id("sword"), tokens(1));
    assert_eq!(r, Err(Error::NotAnOwner));
    let r = c.burn_one(&y, id("sword"), tokens(1));
    assert_eq!(r, Err(Error::NotAnOwner));
    assert_eq!(snapshot(&c), before);
    assert_eq!(c.transfer_token(&x, &y, &id("shield"), tokens(2)), Ok(()));
    assert_eq!(c.balance_of(&x, id("shield")), tokens(0));
    assert_eq!(c.balance_of(&y, id("shield")), tokens(2));
}

#[test]
fn holding_zero_is_not_owning() {
    let x = address(1);
    let y = address(2);
    let mut c = stocked(&x);
    assert_eq!(c.transfer_token(&y, &x, &id("sword"), tokens(0)), Err(Error::NotAnOwner));
    assert_eq!(c.burn_one(&y, id("sword"), tokens(0)), Err(Error::NotAnOwner));
    assert_eq!(c.burn_one(&x, id("shield"), tokens(2)), Ok(()));
    assert_eq!(c.burn_one(&x, id("shield"), tokens(0)), Err(Error::NotAnOwner));
    assert_eq!(c.burn_one(&x, id("sword"), tokens(0)), Ok(()));
    assert_eq!(c.balance_of(&x, id("sword")), tokens(5));
}

#[test]
fn a_batch_is_weighed_as_a_whole() {
    let x = address(1);
    let y = address(2);
    let mut c = stocked(&x);
    let before = snapshot(&c);
    let r = c.transfer_many_tokens(&x, &y, &ids(&["sword", "sword"]), &amounts(&[3, 3]));
    assert_eq!(r, Err(Error::NotAnOwner));
    assert_eq!(snapshot(&c), before);
    let r = c.transfer_many_tokens(&x, &y, &ids(&["sword", "sword"]), &amounts(&[3, 2]));
    assert_eq!(r, Ok(()));
    assert_eq!(c.balance_of(&x, id("sword")), tokens(0));
    assert_eq!(c.balance_of(&y, id("sword")), tokens(5));
    let r = c.burn_many(&y, ids(&["sword", "sword", "sword"]), amounts(&[1, 1, 1]));
    assert_eq!(r, Ok(()));
    assert_eq!(c.balance_of(&y, id("sword")), tokens(2));
    assert_eq!(c.total_supply(id("sword")), tokens(2));
}

#[test]
fn pause_blocks_transfers_only() {
    let x = address(1);
    let y = address(2);
    let mut c = stocked(&x);
    assert!(!c.is_paused());
    c.pause();
    assert!(c.is_paused());
    c.pause();
    assert!(c.is_paused());
    assert_eq!(c.transfer_token(&x, &y, &id("sword"), tokens(1)), Err(Error::PermissionDenied));
    assert_eq!(
        c.transfer_many_tokens(&x, &y, &ids(&["sword"]), &amounts(&[1, 2])),
        Err(Error::PermissionDenied)
    );
    assert_eq!(c.transfer_token(&y, &x, &id("sword"), tokens(1)), Err(Error::PermissionDenied));
    assert_eq!(c.mint_one(&x, Some(id("axe")), meta("iron"), tokens(1)), Ok(()));
    assert_eq!(c.burn_one(&x, id("sword"), tokens(1)), Ok(()));
    assert_eq!(c.update_token_metadata(id("axe"), meta("steel")), Ok(()));
    assert_eq!(c.balance_of(&x, id("sword")), tokens(4));
    c.unpause();
    assert!(!c.is_paused());
    c.unpause();
    assert!(!c.is_paused());
    assert_eq!(c.transfer_token(&x, &y, &id("sword"), tokens(1)), Ok(()));
    assert_eq!(c.balance_of(&y, id("sword")), tokens(1));
}

#[test]
fn pause_changes_the_switch_alone() {
    let x = address(1);
    let mut c = stocked(&x);
    let (balances, token_metas, _, events) = snapshot(&c);
    c.pause();
    assert_eq!(snapshot(&c), (balances, token_metas, true, events));
}

#[test]
fn one_bad_id_refuses_the_whole_batch() {
    let x = address(1);
    let y = address(2);
    let mut c = stocked(&x);
    let before = snapshot(&c);
    let r = c.transfer_many_tokens(
        &x,
        &y,
        &ids(&["sword", "ghost", "shield"]),
        &amounts(&[1, 1, 1]),
    );
    assert_eq!(r, Err(Error::NotAnOwner));
    assert_eq!(snapshot(&c), before);
    let r = c.burn_many(&x, ids(&["sword", "shield", "ghost"]), amounts(&[1, 1, 1]));
    assert_eq!(r, Err(Error::NotAnOwner));
    assert_eq!(snapshot(&c), before);
    assert_eq!(c.balance_of(&x, id("sword")), tokens(5));
    assert_eq!(c.balance_of(&x, id("shield")), tokens(2));
    assert_eq!(c.balance_of(&y, id("sword")), tokens(0));
    assert_eq!(c.storage.events.len(), 1);
}

#[test]
fn mismatched_lengths_refuse_burn_and_transfer() {
    let x = address(1);
    let y = address(2);
    let mut c = stocked(&x);
    let before = snapshot(&c);
    let r = c.burn_many(&x, ids(&["sword", "shield"]), amounts(&[1]));
    assert_eq!(r, Err(Error::ArgumentsError));
    let r = c.transfer_many_tokens(&x, &y, &ids(&["sword"]), &amounts(&[1, 1]));
    assert_eq!(r, Err(Error::ArgumentsError));
    assert_eq!(snapshot(&c), before);
}

#[test]
fn a_short_holding_counts_before_the_lengths() {
    let x = address(1);
    let y = address(2);
    let mut c = stocked(&x);
    let before = snapshot(&c);
    let r = c.burn_many(&x, ids(&["sword", "shield"]), amounts(&[6]));
    assert_eq!(r, Err(Error::NotAnOwner));
    let r = c.burn_many(&x, ids(&["sword", "ghost"]), amounts(&[1]));
    assert_eq!(r, Err(Error::NotAnOwner));
    let r = c.burn_many(&y, ids(&["sword"]), amounts(&[]));
    assert_eq!(r, Err(Error::NotAnOwner));
    let r = c.transfer_many_tokens(&x, &y, &ids(&["shield"]), &amounts(&[3, 1]));
    assert_eq!(r, Err(Error::NotAnOwner));
    let r = c.transfer_many_tokens(&x, &y, &ids(&["sword", "ghost"]), &amounts(&[1]));
    assert_eq!(r, Err(Error::NotAnOwner));
    let r = c.transfer_many_tokens(&x, &y, &ids(&["sword", "shield"]), &amounts(&[5]));
    assert_eq!(r, Err(Error::ArgumentsError));
    let r = c.burn_many(&x, ids(&[]), amounts(&[9]));
    assert_eq!(r, Err(Error::ArgumentsError));
    assert_eq!(snapshot(&c), before);
    assert_eq!(c.storage.events.len(), 1);
}

#[test]
fn holdings_cover_what_a_batch_asks() {
    let x = address(1);
    let y = address(2);
    let c = stocked(&x);
    let s = &c.storage;
    assert!(covers_batch(s, &x, &ids(&["sword", "shield"]), &amounts(&[5, 2])));
    assert!(!covers_batch(s, &x, &ids(&["sword", "shield"]), &amounts(&[5, 3])));
    assert!(!covers_batch(s, &x, &ids(&["sword", "shield"]), &amounts(&[6, 2])));
    assert!(covers_batch(s, &x, &ids(&["sword", "shield", "sword"]), &amounts(&[2, 1, 3])));
    assert!(!covers_batch(s, &x, &ids(&["sword", "shield", "sword"]), &amounts(&[2, 1, 4])));
    assert!(!covers_batch(s, &x, &ids(&["shield", "shield", "shield"]), &amounts(&[1, 1, 1])));
    assert!(covers_batch(s, &x, &ids(&["sword", "sword"]), &amounts(&[5])));
    assert!(!covers_batch(s, &x, &ids(&["sword", "sword"]), &amounts(&[6])));
    assert!(covers_batch(s, &x, &ids(&["shield"]), &amounts(&[2, 9])));
    assert!(!covers_batch(s, &x, &ids(&["shield"]), &amounts(&[3, 0])));
    assert!(covers_batch(s, &x, &ids(&[]), &amounts(&[])));
    assert!(covers_batch(s, &y, &ids(&["sword"]), &amounts(&[0])));
    assert!(!covers_batch(s, &y, &ids(&["sword"]), &amounts(&[1])));
    assert!(covers_batch(s, &x, &ids(&["ghost"]), &amounts(&[0])));
    let big = U256::MAX;
    assert!(!covers_batch(s, &x, &ids(&["sword", "sword"]), &vec![big, big]));
}

#[test]
fn every_mutation_raises_its_own_event() {
    let x = address(1);
    let y = address(2);
    let mut c = collection();
    assert_eq!(
        c.mint_many(&x, Some(ids(&["a", "b"])), metas(&["red", "blue"]), amounts(&[3, 4])),
        Ok(())
    );
    assert_eq!(c.transfer_many_tokens(&x, &y, &ids(&["a", "b"]), &amounts(&[1, 2])), Ok(()));
    assert_eq!(c.burn_many(&y, ids(&["b"]), amounts(&[2])), Ok(()));
    assert_eq!(c.update_token_metadata(id("a"), meta("green")), Ok(()));
    assert_eq!(c.burn_many(&y, ids(&["b"]), amounts(&[1])), Err(Error::NotAnOwner));
    c.pause();
    c.unpause();
    let expected = vec![
        CEP47Event::Mint { recipient: x, token_ids: ids(&["a", "b"]), values: amounts(&[3, 4]) },
        CEP47Event::Transfer {
            sender: x,
            recipient: y,
            token_ids: ids(&["a", "b"]),
            values: amounts(&[1, 2]),
        },
        CEP47Event::Burn { owner: y, token_ids: ids(&["b"]), values: amounts(&[2]) },
        CEP47Event::MetadataUpdate { token_id: id("a") },
    ];
    assert_eq!(c.storage.events, expected);
    assert_eq!(c.balance_of(&x, id("a")), tokens(2));
    assert_eq!(c.balance_of(&y, id("a")), tokens(1));
    assert_eq!(c.balance_of(&x, id("b")), tokens(2));
    assert_eq!(c.balance_of(&y, id("b")), tokens(0));
}

#[test]
fn single_operations_are_batches_of_one() {
    let x = address(1);
    let y = address(2);
    let mut one = collection();
    let mut many = collection();
    assert_eq!(one.mint_one(&x, Some(id("a")), meta("red"), tokens(3)), Ok(()));
    assert_eq!(many.mint_many(&x, Some(ids(&["a"])), metas(&["red"]), amounts(&[3])), Ok(()));
    assert_eq!(one.transfer_token(&x, &y, &id("a"), tokens(2)), Ok(()));
    assert_eq!(many.transfer_many_tokens(&x, &y, &ids(&["a"]), &amounts(&[2])), Ok(()));
    assert_eq!(one.burn_one(&y, id("a"), tokens(1)), Ok(()));
    assert_eq!(many.burn_many(&y, ids(&["a"]), amounts(&[1])), Ok(()));
    assert_eq!(one.burn_one(&y, id("a"), tokens(5)), Err(Error::NotAnOwner));
    assert_eq!(many.burn_many(&y, ids(&["a"]), amounts(&[5])), Err(Error::NotAnOwner));
    assert_eq!(one.storage.events, many.storage.events);
    assert_eq!(snapshot(&one), snapshot(&many));
    assert_eq!(one.storage.events.len(), 3);
}

#[test]
fn mint_one_without_id_generates_one() {
    let mut c = collection();
    let x = address(1);
    assert_eq!(c.mint_one(&x, None, meta("red"), tokens(7)), Ok(()));
    assert_eq!(c.storage.events.len(), 1);
    match &c.storage.events[0] {
        CEP47Event::Mint { recipient, token_ids, values } => {
            assert_eq!(*recipient, x);
            assert_eq!(token_ids.len(), 1);
            assert_eq!(*values, amounts(&[7]));
            assert_eq!(c.balance_of(&x, token_ids[0].clone()), tokens(7));
            assert_eq!(c.token_meta(&token_ids[0]), Some(meta("red")));
        }
        other => panic!("not a mint event: {:?}", other),
    }
}

#[test]
fn mint_adds_to_what_the_recipient_holds() {
    let x = address(1);
    let y = address(2);
    let mut c = collection();
    assert_eq!(
        c.mint_many(&x, Some(ids(&["a", "b"])), metas(&["red", "blue"]), amounts(&[3, 0])),
        Ok(())
    );
    assert_eq!(c.balance_of(&x, id("a")), tokens(3));
    assert_eq!(c.balance_of(&x, id("b")), tokens(0));
    assert_eq!(c.balance_of(&y, id("a")), tokens(0));
    assert_eq!(c.total_supply(id("b")), tokens(0));
    assert_eq!(c.token_meta(&id("b")), Some(meta("blue")));
    assert_eq!(c.update_token_metadata(id("b"), meta("green")), Err(Error::TokenIdDoesntExist));
}

#[test]
fn empty_batches_are_accepted() {
    let x = address(1);
    let y = address(2);
    let mut c = stocked(&x);
    assert_eq!(c.mint_many(&x, Some(ids(&[])), metas(&[]), amounts(&[])), Ok(()));
    assert_eq!(c.mint_many(&x, None, metas(&[]), amounts(&[])), Ok(()));
    assert_eq!(c.transfer_many_tokens(&x, &y, &ids(&[]), &amounts(&[])), Ok(()));
    assert_eq!(c.burn_many(&y, ids(&[]), amounts(&[])), Ok(()));
    assert_eq!(c.storage.events.len(), 5);
    assert_eq!(
        c.storage.events[4],
        CEP47Event::Burn { owner: y, token_ids: ids(&[]), values: amounts(&[]) }
    );
    assert_eq!(c.balance_of(&x, id("sword")), tokens(5));
}

#[test]
fn transfer_to_oneself_changes_no_balance() {
    let x = address(1);
    let mut c = stocked(&x);
    assert_eq!(c.transfer_token(&x, &x, &id("sword"), tokens(5)), Ok(()));
    assert_eq!(c.balance_of(&x, id("sword")), tokens(5));
    assert_eq!(c.total_supply(id("sword")), tokens(5));
    assert_eq!(c.storage.events.len(), 2);
}

#[test]
fn the_facade_works_on_its_backend() {
    let x = address(1);
    let mut c = collection();
    assert_eq!(c.storage().calls.get(), 0);
    c.storage_mut().paused = true;
    assert!(c.is_paused());
    assert!(c.storage.paused);
    assert_eq!(c.mint_one(&x, Some(id("a")), meta("red"), tokens(1)), Ok(()));
    assert_eq!(c.storage().held(&x, &id("a")), tokens(1));
}

#[test]
fn accessors_read_the_collection() {
    let x = address(1);
    let c = stocked(&x);
    assert_eq!(c.name(), "Dragons");
    assert_eq!(c.symbol(), "DRAG");
    let mut expected = Meta::new();
    expected.insert("origin".to_string(), "mint house".to_string());
    assert_eq!(c.meta(), expected);
    assert_eq!(c.token_meta(&id("sword")), Some(meta("grey")));
    assert_eq!(c.token_meta(&id("ghost")), None);
    assert_eq!(c.balance_of(&x, id("ghost")), tokens(0));
    assert!(!c.is_paused());
    assert_eq!(c.storage.events.len(), 1);
}

#[test]
fn large_quantities_pass_through_unchanged() {
    let x = address(1);
    let y = address(2);
    let mut c = collection();
    let big = U256::MAX - U256::from(1u64);
    assert_eq!(c.mint_one(&x, Some(id("whale")), meta("blue"), big), Ok(()));
    assert_eq!(c.total_supply(id("whale")), big);
    assert_eq!(c.transfer_token(&x, &y, &id("whale"), big), Ok(()));
    assert_eq!(c.balance_of(&y, id("whale")), big);
    assert_eq!(c.update_token_metadata(id("whale"), meta("white")), Ok(()));
    assert_eq!(
        c.storage.events[1],
        CEP47Event::Transfer {
            sender: x,
            recipient: y,
            token_ids: ids(&["whale"]),
            values: vec![big],
        }
    );
}

#[test]
fn events_have_stable_type_tags() {
    let x = address(1);
    let y = address(2);
    let update = CEP47Event::MetadataUpdate { token_id: id("a") };
    let transfer = CEP47Event::Transfer {
        sender: x,
        recipient: y,
        token_ids: ids(&["a"]),
        values: amounts(&[1]),
    };
    let mint = CEP47Event::Mint { recipient: x, token_ids: ids(&["a", "b"]), values: amounts(&[1, 2]) };
    let burn = CEP47Event::Burn { owner: x, token_ids: ids(&[]), values: amounts(&[]) };
    assert_eq!(update.type_tag(), "cep47_metadata_update");
    assert_eq!(transfer.type_tag(), "cep47_transfer_token");
    assert_eq!(mint.type_tag(), "cep47_mint_one");
    assert_eq!(burn.type_tag(), "cep47_burn_one");
}

#[test]
fn error_codes_cross_to_the_host() {
    assert_eq!(Error::PermissionDenied.code(), 1);
    assert_eq!(Error::ArgumentsError.code(), 2);
    assert_eq!(Error::TokenIdAlreadyExists.code(), 3);
    assert_eq!(Error::TokenIdDoesntExist.code(), 4);
    assert_eq!(Error::NotAnOwner.code(), 5);
    assert_eq!(ApiError::from(Error::PermissionDenied), ApiError::User(1));
    assert_eq!(ApiError::from(Error::ArgumentsError), ApiError::User(2));
    assert_eq!(ApiError::from(Error::TokenIdAlreadyExists), ApiError::User(3));
    assert_eq!(ApiError::from(Error::TokenIdDoesntExist), ApiError::User(4));
    assert_eq!(ApiError::from(Error::NotAnOwner), ApiError::User(5));
    assert_eq!(u32::from(ApiError::from(Error::PermissionDenied)), 65_537);
    assert_eq!(u32::from(ApiError::from(Error::NotAnOwner)), 65_541);
}
