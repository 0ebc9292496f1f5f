//! Allowances for delegated transfers and burns.

use vstd::prelude::*;

use super::storage_types::{AllowanceValue, Storage, StorageView};
use super::RwaError;
use crate::types::Address;

verus! {

/// The allowance of `spender` over `from`'s tokens at ledger `sequence`: a
/// lapsed one counts as 0 but keeps its expiration; none counts as 0 until 0.
pub open spec fn allowance_at(v: StorageView, sequence: u32, from: Address, spender: Address) -> AllowanceValue {
    if v.allowances.contains_key((from, spender)) {
        let a = v.allowances[(from, spender)];
        if a.expiration_ledger < sequence {
            AllowanceValue { amount: 0, expiration_ledger: a.expiration_ledger }
        } else {
            a
        }
    } else {
        AllowanceValue { amount: 0, expiration_ledger: 0 }
    }
}

/// The allowance in effect at ledger `sequence`.
pub fn read_allowance(store: &Storage, sequence: u32, from: Address, spender: Address) -> (r: AllowanceValue)
    ensures
        r == allowance_at(store@, sequence, from, spender),
{
    match store.allowances.get(from, spender) {
        None => AllowanceValue { amount: 0, expiration_ledger: 0 },
        Some(a) => if a.expiration_ledger < sequence {
            AllowanceValue { amount: 0, expiration_ledger: a.expiration_ledger }
        } else {
            a
        },
    }
}

/// Stores an allowance; a positive amount may not expire before ledger `sequence`.
pub fn write_allowance(
    store: &mut Storage,
    sequence: u32,
    from: Address,
    spender: Address,
    amount: i128,
    expiration_ledger: u32,
) -> (r: Result<(), RwaError>)
    ensures
        amount > 0 && expiration_ledger < sequence ==> r == Err::<(), RwaError>(
            RwaError::ExpirationInPast,
        ) && final(store)@ == old(store)@,
        !(amount > 0 && expiration_ledger < sequence) ==> r is Ok && final(store)@ == (StorageView {
            allowances: old(store)@.allowances.insert(
                (from, spender),
                AllowanceValue { amount, expiration_ledger },
            ),
            ..old(store)@
        }),
{
    if amount > 0 && expiration_ledger < sequence {
        return Err(RwaError::ExpirationInPast);
    }
    store.allowances.insert(from, spender, AllowanceValue { amount, expiration_ledger });
    Ok(())
}

/// Spends `amount` (positive) of `spender`'s allowance over `from`'s tokens.
pub fn spend_allowance(store: &mut Storage, sequence: u32, from: Address, spender: Address, amount: i128) -> (r: Result<(), RwaError>)
    requires
        amount > 0,
    ensures
        ({
            let a = allowance_at(old(store)@, sequence, from, spender);
            if a.amount < amount {
                r == Err::<(), RwaError>(RwaError::InsufficientAllowance) && final(store)@ == old(store)@
            } else {
                r is Ok && final(store)@ == (StorageView {
                    allowances: old(store)@.allowances.insert(
                        (from, spender),
                        AllowanceValue {
                            amount: (a.amount - amount) as i128,
                            expiration_ledger: a.expiration_ledger,
                        },
                    ),
                    ..old(store)@
                })
            }
        }),
{
    let a = read_allowance(store, sequence, from, spender);
    if a.amount < amount {
        return Err(RwaError::InsufficientAllowance);
    }
    write_allowance(store, sequence, from, spender, a.amount - amount, a.expiration_ledger)
}

} // verus!
