//! Per-holder dividend accounting with a running dividend-per-share index:
//! a holder is owed `balance * dps - debt`, where `debt` is reset to
//! `balance * dps` whenever the balance changes, so a deposit costs O(1)
//! regardless of the number of holders. Rent and capital deposits are also
//! tracked on indices of their own, whose debts are reset the same way.

use vstd::prelude::*;

verus! {

/// Whether an integer fits an `i128`.
pub open spec fn fits(x: int) -> bool {
    i128::MIN <= x <= i128::MAX
}

/// The dividend position of one holder.
#[derive(Clone, Copy, Debug, PartialEq, Eq, Structural)]
pub struct Account {
    pub balance: i128,
    /// `balance * dps` at the last snapshot.
    pub debt: i128,
    /// Dividends snapshotted but not yet claimed.
    pub unclaimed: i128,
    pub debt_rent: i128,
    pub unclaimed_rent: i128,
    pub debt_capital: i128,
    pub unclaimed_capital: i128,
}

/// The position of an address that never held anything.
pub open spec fn zero_account() -> Account {
    Account {
        balance: 0,
        debt: 0,
        unclaimed: 0,
        debt_rent: 0,
        unclaimed_rent: 0,
        debt_capital: 0,
        unclaimed_capital: 0,
    }
}

pub fn new_account() -> (r: Account)
    ensures
        r == zero_account(),
{
    Account {
        balance: 0,
        debt: 0,
        unclaimed: 0,
        debt_rent: 0,
        unclaimed_rent: 0,
        debt_capital: 0,
        unclaimed_capital: 0,
    }
}

/// What the holder can claim in total: snapshotted plus accrued since.
pub open spec fn pending(a: Account, dps: i128) -> int {
    a.unclaimed + a.balance * dps - a.debt
}

/// What the holder can claim of rent yield.
pub open spec fn pending_rent(a: Account, dps_rent: i128) -> int {
    a.unclaimed_rent + a.balance * dps_rent - a.debt_rent
}

/// What the holder can claim of capital return.
pub open spec fn pending_capital(a: Account, dps_capital: i128) -> int {
    a.unclaimed_capital + a.balance * dps_capital - a.debt_capital
}

/// Adds a positive amount owed to a bucket; a non-positive one is dropped.
pub open spec fn credit(bucket: int, owed: int) -> int {
    if owed > 0 {
        bucket + owed
    } else {
        bucket
    }
}

/// Snapshots the rent and capital accruals into their buckets and resets the
/// typed debts; `None` when a value leaves the `i128` range.
pub open spec fn settled_typed(a: Account, dps_rent: i128, dps_capital: i128) -> Option<Account> {
    let br = a.balance * dps_rent;
    let owed_r = br - a.debt_rent;
    let ur = credit(a.unclaimed_rent as int, owed_r);
    let bc = a.balance * dps_capital;
    let owed_c = bc - a.debt_capital;
    let uc = credit(a.unclaimed_capital as int, owed_c);
    if fits(br) && fits(owed_r) && fits(ur) && fits(bc) && fits(owed_c) && fits(uc) {
        Some(
            Account {
                debt_rent: br as i128,
                unclaimed_rent: ur as i128,
                debt_capital: bc as i128,
                unclaimed_capital: uc as i128,
                ..a
            },
        )
    } else {
        None
    }
}

/// Snapshots every accrual into its bucket and resets the debts;
/// `None` when a value leaves the `i128` range.
pub open spec fn settled(a: Account, dps: i128, dps_rent: i128, dps_capital: i128) -> Option<Account> {
    let b = a.balance * dps;
    let owed = b - a.debt;
    let u = credit(a.unclaimed as int, owed);
    if fits(b) && fits(owed) && fits(u) {
        match settled_typed(Account { unclaimed: u as i128, ..a }, dps_rent, dps_capital) {
            None => None,
            Some(t) => Some(Account { debt: b as i128, ..t }),
        }
    } else {
        None
    }
}

/// Sets a new balance and rebases every debt (general, rent and capital) on
/// it, so that only what is earned from now on accrues; `None` when a value
/// leaves the `i128` range.
pub open spec fn rebased(a: Account, new_balance: int, dps: i128, dps_rent: i128, dps_capital: i128) -> Option<
    Account,
> {
    if fits(new_balance) && fits(new_balance * dps) && fits(new_balance * dps_rent) && fits(
        new_balance * dps_capital,
    ) {
        Some(
            Account {
                balance: new_balance as i128,
                debt: (new_balance * dps) as i128,
                debt_rent: (new_balance * dps_rent) as i128,
                debt_capital: (new_balance * dps_capital) as i128,
                ..a
            },
        )
    } else {
        None
    }
}

fn credit_exec(bucket: i128, owed: i128) -> (r: Option<i128>)
    ensures
        r == (if fits(credit(bucket as int, owed as int)) {
            Some(credit(bucket as int, owed as int) as i128)
        } else {
            None::<i128>
        }),
{
    if owed > 0 {
        bucket.checked_add(owed)
    } else {
        Some(bucket)
    }
}

/// Computes `settled_typed`.
pub fn settle_typed(a: Account, dps_rent: i128, dps_capital: i128) -> (r: Option<Account>)
    ensures
        r == settled_typed(a, dps_rent, dps_capital),
{
    let br = match a.balance.checked_mul(dps_rent) {
        None => {
            return None;
        },
        Some(x) => x,
    };
    let owed_r = match br.checked_sub(a.debt_rent) {
        None => {
            return None;
        },
        Some(x) => x,
    };
    let ur = match credit_exec(a.unclaimed_rent, owed_r) {
        None => {
            return None;
        },
        Some(x) => x,
    };
    let bc = match a.balance.checked_mul(dps_capital) {
        None => {
            return None;
        },
        Some(x) => x,
    };
    let owed_c = match bc.checked_sub(a.debt_capital) {
        None => {
            return None;
        },
        Some(x) => x,
    };
    let uc = match credit_exec(a.unclaimed_capital, owed_c) {
        None => {
            return None;
        },
        Some(x) => x,
    };
    Some(Account { debt_rent: br, unclaimed_rent: ur, debt_capital: bc, unclaimed_capital: uc, ..a })
}

/// Computes `settled`.
pub fn settle(a: Account, dps: i128, dps_rent: i128, dps_capital: i128) -> (r: Option<Account>)
    ensures
        r == settled(a, dps, dps_rent, dps_capital),
{
    let b = match a.balance.checked_mul(dps) {
        None => {
            return None;
        },
        Some(x) => x,
    };
    let owed = match b.checked_sub(a.debt) {
        None => {
            return None;
        },
        Some(x) => x,
    };
    let u = match credit_exec(a.unclaimed, owed) {
        None => {
            return None;
        },
        Some(x) => x,
    };
    match settle_typed(Account { unclaimed: u, ..a }, dps_rent, dps_capital) {
        None => None,
        Some(t) => Some(Account { debt: b, ..t }),
    }
}

/// Computes `rebased` for a balance already known to fit.
pub fn rebase(a: Account, new_balance: i128, dps: i128, dps_rent: i128, dps_capital: i128) -> (r: Option<Account>)
    ensures
        r == rebased(a, new_balance as int, dps, dps_rent, dps_capital),
{
    let d = match new_balance.checked_mul(dps) {
        None => {
            return None;
        },
        Some(d) => d,
    };
    let dr = match new_balance.checked_mul(dps_rent) {
        None => {
            return None;
        },
        Some(x) => x,
    };
    match new_balance.checked_mul(dps_capital) {
        None => None,
        Some(dc) => Some(Account { balance: new_balance, debt: d, debt_rent: dr, debt_capital: dc, ..a }),
    }
}

/// A snapshot leaves the balance alone and moves every accrual into the
/// buckets without losing or creating any of it, when nothing was owed
/// negatively.
pub proof fn lemma_settled_keeps_pending(a: Account, dps: i128, dps_rent: i128, dps_capital: i128)
    requires
        settled(a, dps, dps_rent, dps_capital) is Some,
        a.balance * dps - a.debt >= 0,
        a.balance * dps_rent - a.debt_rent >= 0,
        a.balance * dps_capital - a.debt_capital >= 0,
    ensures
        ({
            let s = settled(a, dps, dps_rent, dps_capital)->Some_0;
            &&& s.balance == a.balance
            &&& pending(s, dps) == pending(a, dps)
            &&& pending_rent(s, dps_rent) == pending_rent(a, dps_rent)
            &&& pending_capital(s, dps_capital) == pending_capital(a, dps_capital)
            &&& s.debt == a.balance * dps
            &&& s.unclaimed == pending(a, dps)
        }),
{
}

/// Snapshotting twice is the same as snapshotting once.
pub proof fn lemma_settled_idempotent(a: Account, dps: i128, dps_rent: i128, dps_capital: i128)
    requires
        settled(a, dps, dps_rent, dps_capital) is Some,
    ensures
        settled(settled(a, dps, dps_rent, dps_capital)->Some_0, dps, dps_rent, dps_capital) == settled(
            a,
            dps,
            dps_rent,
            dps_capital,
        ),
{
}

} // verus!
