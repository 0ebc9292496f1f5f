//! Balances and the total supply.

use vstd::prelude::*;

use super::storage_types::{Storage, StorageView};
use super::RwaError;
use crate::dividend::fits;
use crate::types::Address;

verus! {

broadcast use vstd::std_specs::hash::group_hash_axioms;

/// The balance of `a` (0 when never written).
pub open spec fn balance_of(v: StorageView, a: Address) -> i128 {
    if v.balances.contains_key(a) {
        v.balances[a]
    } else {
        0
    }
}

/// The balance of `addr`.
pub fn read_balance(store: &Storage, addr: Address) -> (r: i128)
    ensures
        r == balance_of(store@, addr),
{
    match store.balances.get(&addr) {
        None => 0,
        Some(b) => *b,
    }
}

/// Sets the balance of `addr`.
pub fn write_balance(store: &mut Storage, addr: Address, amount: i128)
    ensures
        final(store)@ == (StorageView { balances: old(store)@.balances.insert(addr, amount), ..old(store)@ }),
{
    store.balances.insert(addr, amount);
}

/// Credits `amount` to `addr`.
pub fn receive_balance(store: &mut Storage, addr: Address, amount: i128) -> (r: Result<(), RwaError>)
    ensures
        ({
            let b = balance_of(old(store)@, addr);
            if fits(b + amount) {
                r is Ok && final(store)@ == (StorageView {
                    balances: old(store)@.balances.insert(addr, (b + amount) as i128),
                    ..old(store)@
                })
            } else {
                r == Err::<(), RwaError>(RwaError::Overflow) && final(store)@ == old(store)@
            }
        }),
{
    let b = read_balance(store, addr);
    match b.checked_add(amount) {
        None => Err(RwaError::Overflow),
        Some(nb) => {
            write_balance(store, addr, nb);
            Ok(())
        },
    }
}

/// Debits `amount` from `addr`, refusing to go below the amount held.
pub fn spend_balance(store: &mut Storage, addr: Address, amount: i128) -> (r: Result<(), RwaError>)
    ensures
        ({
            let b = balance_of(old(store)@, addr);
            if b < amount {
                r == Err::<(), RwaError>(RwaError::InsufficientBalance) && final(store)@ == old(store)@
            } else if !fits(b - amount) {
                r == Err::<(), RwaError>(RwaError::Overflow) && final(store)@ == old(store)@
            } else {
                r is Ok && final(store)@ == (StorageView {
                    balances: old(store)@.balances.insert(addr, (b - amount) as i128),
                    ..old(store)@
                })
            }
        }),
{
    let b = read_balance(store, addr);
    if b < amount {
        return Err(RwaError::InsufficientBalance);
    }
    match b.checked_sub(amount) {
        None => Err(RwaError::Overflow),
        Some(nb) => {
            write_balance(store, addr, nb);
            Ok(())
        },
    }
}

/// The total supply.
pub fn read_total_supply(store: &Storage) -> (r: i128)
    ensures
        r == store@.total_supply,
{
    store.total_supply
}

/// Sets the total supply.
pub fn write_total_supply(store: &mut Storage, supply: i128)
    ensures
        final(store)@ == (StorageView { total_supply: supply, ..old(store)@ }),
{
    store.total_supply = supply;
}

} // verus!
