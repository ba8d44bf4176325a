//! Token quantities.
//!
//! A quantity is a `casper_types::U256`. The ledger carries quantities
//! between the caller, the storage backend and the events; it asks whether a
//! supply is zero, and takes the values of a batch from a holding to see
//! whether the holding covers them.

use casper_types::U256;
use vstd::prelude::*;

verus! {

/// `casper_types::U256`, carried through the ledger as an opaque value.
#[verifier::external_type_specification]
#[verifier::external_body]
pub struct ExU256(U256);

/// The natural number that a `U256` holds.
pub uninterp spec fn amount_of(v: U256) -> nat;

/// The numbers held by a batch of quantities, in order.
pub open spec fn amounts_of(values: Seq<U256>) -> Seq<nat> {
    values.map_values(|v: U256| amount_of(v))
}

/// `U256::is_zero`: true exactly when the quantity holds the number zero
/// (every limb of the integer is zero).
#[verifier::external_body]
pub(crate) fn is_zero(v: &U256) -> (r: bool)
    ensures
        r == (amount_of(*v) == 0),
{
    v.is_zero()
}

/// `U256::checked_sub`: the difference of the two quantities where the
/// second is no larger than the first, and `None` where it is larger.
#[verifier::external_body]
pub(crate) fn checked_sub(a: &U256, b: &U256) -> (r: Option<U256>)
    ensures
        match r {
            Some(rest) => amount_of(*b) <= amount_of(*a) && amount_of(rest) == amount_of(*a)
                - amount_of(*b),
            None => amount_of(*a) < amount_of(*b),
        },
{
    a.checked_sub(*b)
}

} // verus!
