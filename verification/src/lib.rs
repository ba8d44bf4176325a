//! A multi-token ledger: the accounting rules of a token collection whose
//! durable state lives in a storage backend supplied by the host.
//!
//! The [`CEP47Contract`] facade validates every request against the current
//! state of a [`CEP47Storage`] backend, applies it through the backend and
//! raises one [`CEP47Event`] per completed mutation. What each operation does
//! is stated over the mathematical [`Ledger`] that a backend stands for.

pub mod amount;
pub mod contract;
pub mod error;
pub mod events;
pub mod laws;
pub mod ledger;
pub mod storage;

pub use crate::contract::{covers_batch, CEP47Contract, LedgerFacade, WithStorage};
pub use crate::error::Error;
pub use crate::events::CEP47Event;
pub use crate::storage::{CEP47Storage, Meta, TokenId};
