//! Properties that hold across calls and across contracts, stated over the
//! same spec functions the contracts' own postconditions use.

use vstd::prelude::*;

use crate::carbon_credit_token::carbon_moved;
use crate::compliance_engine::{
    ComplianceEngineView, default_rules, transfer_verdict, with_holder, without_holder,
};
use crate::dividend::{
    Account, lemma_settled_keeps_pending, pending, pending_capital, pending_rent, rebased, settled, settled_typed,
};
use crate::invoice_token::{
    InvoiceLedgerView, InvoiceTokenView, balance_in, has_ledger, ledger_of, moved_ledger, redeemed,
    with_ledger,
};
use crate::kyc_registry::{
    ExpiringRecordView, KycRecordView, KycRegistryView, KycStatus, approved_at, expiring_from, record_or_default, with_record,
};
use crate::property_token::{
    PropertyView, account_of, add_holder, after_move, deposited, held, holder_sum, listed_exactly, listed_shares, mint_gate,
    minted_account, moved_accounts, shares_of, within_authorized,
};
use crate::rwa_token::{burned, minted, moved_balances, nonnegative_balances};
use crate::rwa_token::allowance::allowance_at;
use crate::rwa_token::balance::balance_of;
use crate::rwa_token::storage_types::{AllowanceValue, StorageView};
use crate::types::{Address, Invocation, no_duplicates, trunc_div, without};

verus! {

// ── Compliance engine ───────────────────────────────────────────────────────

/// While an initialized engine is paused, it refuses every transfer.
pub proof fn law_pause_blocks_every_transfer(
    v: ComplianceEngineView,
    kyc: KycRegistryView,
    now: u64,
    from: Address,
    to: Address,
    amount: i128,
)
    requires
        v.rules is Some,
        v.rules->Some_0.paused,
    ensures
        transfer_verdict(v, kyc, now, from, to, amount) == Ok::<bool, crate::compliance_engine::ComplianceError>(false),
{
}

/// An initialized, unpaused engine refuses every transfer from or to a
/// blocklisted address.
pub proof fn law_blocklist_blocks_both_directions(
    v: ComplianceEngineView,
    kyc: KycRegistryView,
    now: u64,
    from: Address,
    to: Address,
    amount: i128,
)
    requires
        v.rules is Some,
        v.blocklist.contains(from) || v.blocklist.contains(to),
    ensures
        transfer_verdict(v, kyc, now, from, to, amount) == Ok::<bool, crate::compliance_engine::ComplianceError>(false),
{
}

/// With the rules a fresh engine starts with, every transfer between
/// addresses that are not blocklisted is allowed.
pub proof fn law_default_rules_allow(
    v: ComplianceEngineView,
    kyc: KycRegistryView,
    now: u64,
    from: Address,
    to: Address,
    amount: i128,
)
    requires
        v.rules == Some(default_rules()),
        !v.blocklist.contains(from),
        !v.blocklist.contains(to),
    ensures
        transfer_verdict(v, kyc, now, from, to, amount) == Ok::<bool, crate::compliance_engine::ComplianceError>(true),
{
}

/// With the jurisdiction rule off, a transfer above a positive maximum amount
/// is refused.
pub proof fn law_max_transfer_amount_enforced(
    v: ComplianceEngineView,
    kyc: KycRegistryView,
    now: u64,
    from: Address,
    to: Address,
    amount: i128,
)
    requires
        v.rules is Some,
        !v.rules->Some_0.require_same_jurisdiction,
        v.rules->Some_0.max_transfer_amount > 0,
        amount > v.rules->Some_0.max_transfer_amount,
    ensures
        transfer_verdict(v, kyc, now, from, to, amount) == Ok::<bool, crate::compliance_engine::ComplianceError>(false),
{
}

/// With the jurisdiction rule off, a holder registered less than the minimum
/// holding period ago cannot send.
pub proof fn law_min_holding_period_enforced(
    v: ComplianceEngineView,
    kyc: KycRegistryView,
    now: u64,
    from: Address,
    to: Address,
    amount: i128,
)
    requires
        v.rules is Some,
        !v.rules->Some_0.require_same_jurisdiction,
        v.holder_since.contains_key(from),
        now >= v.holder_since[from],
        now - v.holder_since[from] < v.rules->Some_0.min_holding_period,
    ensures
        transfer_verdict(v, kyc, now, from, to, amount) == Ok::<bool, crate::compliance_engine::ComplianceError>(false),
{
}

/// Registering a holder twice counts it once.
pub proof fn law_register_holder_idempotent(v: ComplianceEngineView, t1: u64, t2: u64, addr: Address)
    ensures
        with_holder(with_holder(v, t1, addr), t2, addr).holder_count == with_holder(v, t1, addr).holder_count,
        with_holder(with_holder(v, t1, addr), t2, addr).holder_since.dom() == with_holder(v, t1, addr).holder_since.dom(),
{
    assert(with_holder(with_holder(v, t1, addr), t2, addr).holder_since.dom() =~= with_holder(v, t1, addr).holder_since.dom());
}

/// Unregistering an address just registered restores the registry as it was.
pub proof fn law_unregister_undoes_register(v: ComplianceEngineView, now: u64, addr: Address)
    requires
        !v.holder_since.contains_key(addr),
        v.holder_count < u32::MAX,
    ensures
        without_holder(with_holder(v, now, addr), addr) == v,
{
    assert(without_holder(with_holder(v, now, addr), addr).holder_since =~= v.holder_since);
}

/// An allowed transfer meets every rule of the engine: the engine is set up
/// and not paused, neither party is blocklisted, the parties share a
/// jurisdiction when that rule is on, the amount is within a positive maximum,
/// a registered sender has held for the minimum period, and a new receiver
/// fits under a positive holder cap.
pub proof fn law_allowed_transfer_meets_every_rule(
    v: ComplianceEngineView,
    kyc: KycRegistryView,
    now: u64,
    from: Address,
    to: Address,
    amount: i128,
)
    requires
        transfer_verdict(v, kyc, now, from, to, amount) == Ok::<bool, crate::compliance_engine::ComplianceError>(true),
    ensures
        v.rules is Some,
        !v.rules->Some_0.paused,
        !v.blocklist.contains(from),
        !v.blocklist.contains(to),
        v.rules->Some_0.require_same_jurisdiction ==> kyc.records.contains_key(from) && kyc.records.contains_key(to)
            && kyc.records[from].jurisdiction == kyc.records[to].jurisdiction,
        v.rules->Some_0.max_transfer_amount > 0 ==> amount <= v.rules->Some_0.max_transfer_amount,
        v.rules->Some_0.min_holding_period > 0 && v.holder_since.contains_key(from) ==> now - v.holder_since[from]
            >= v.rules->Some_0.min_holding_period,
        v.rules->Some_0.max_holders > 0 && !v.holder_since.contains_key(to) ==> v.holder_count
            < v.rules->Some_0.max_holders,
{
}

/// A transfer that meets every rule of a set-up engine is allowed; with the
/// jurisdiction rule on, the engine must also know its KYC registry.
pub proof fn law_transfer_meeting_every_rule_allowed(
    v: ComplianceEngineView,
    kyc: KycRegistryView,
    now: u64,
    from: Address,
    to: Address,
    amount: i128,
)
    requires
        v.rules is Some,
        !v.rules->Some_0.paused,
        !v.blocklist.contains(from),
        !v.blocklist.contains(to),
        v.rules->Some_0.require_same_jurisdiction ==> v.kyc_registry is Some && kyc.records.contains_key(from)
            && kyc.records.contains_key(to) && kyc.records[from].jurisdiction == kyc.records[to].jurisdiction,
        v.rules->Some_0.max_transfer_amount > 0 ==> amount <= v.rules->Some_0.max_transfer_amount,
        v.rules->Some_0.min_holding_period > 0 && v.holder_since.contains_key(from) ==> now - v.holder_since[from]
            >= v.rules->Some_0.min_holding_period,
        v.rules->Some_0.max_holders > 0 && !v.holder_since.contains_key(to) ==> v.holder_count
            < v.rules->Some_0.max_holders,
    ensures
        transfer_verdict(v, kyc, now, from, to, amount) == Ok::<bool, crate::compliance_engine::ComplianceError>(true),
{
}

/// Registering a holder records it as a holder since `now`, leaves every
/// other holder's time alone, and counts it only when it is new.
pub proof fn law_register_holder_records_time(v: ComplianceEngineView, now: u64, addr: Address, other: Address)
    requires
        other != addr,
        !v.holder_since.contains_key(addr) ==> v.holder_count < u32::MAX,
    ensures
        with_holder(v, now, addr).holder_since.contains_key(addr),
        with_holder(v, now, addr).holder_since[addr] == now,
        with_holder(v, now, addr).holder_since.contains_key(other) == v.holder_since.contains_key(other),
        v.holder_since.contains_key(other) ==> with_holder(v, now, addr).holder_since[other] == v.holder_since[other],
        with_holder(v, now, addr).holder_count == v.holder_count + (if v.holder_since.contains_key(addr) {
            0int
        } else {
            1int
        }),
{
}

// ── KYC registry ────────────────────────────────────────────────────────────

/// An approval stored for `subject` makes it approved at every time up to its
/// expiry (forever when the expiry is 0), and leaves every other address as
/// it was.
pub proof fn law_approval_holds_until_expiry(
    v: KycRegistryView,
    subject: Address,
    rec: KycRecordView,
    now: u64,
    other: Address,
)
    requires
        rec.status == KycStatus::Approved,
        rec.expiry == 0 || now <= rec.expiry,
        other != subject,
    ensures
        approved_at(with_record(v, subject, rec), now, subject),
        approved_at(with_record(v, subject, rec), now, other) == approved_at(v, now, other),
{
}

/// An approval is no longer honoured once its expiry has passed.
pub proof fn law_expired_approval_lapses(v: KycRegistryView, subject: Address, rec: KycRecordView, now: u64)
    requires
        rec.expiry != 0,
        now > rec.expiry,
    ensures
        !approved_at(with_record(v, subject, rec), now, subject),
{
}

/// After a reject or a revoke, the subject is not approved at any time.
pub proof fn law_rejected_or_revoked_not_approved(
    v: KycRegistryView,
    subject: Address,
    verifier: Address,
    status: KycStatus,
    now: u64,
)
    requires
        status == KycStatus::Rejected || status == KycStatus::Revoked,
    ensures
        !approved_at(
            with_record(v, subject, KycRecordView { status, ..record_or_default(v, subject, verifier) }),
            now,
            subject,
        ),
{
}

/// Every subject reported as expiring soon is one whose stored record is
/// Approved, reported with that record, and found at or after position `i`
/// of the expiry index with an indexed expiry inside `(now, now + within]`;
/// at most `budget` subjects are reported.
pub proof fn law_expiring_reports_only_approved(v: KycRegistryView, now: u64, within: u64, i: int, budget: int)
    ensures
        expiring_from(v, now, within, i, budget).len() <= if budget < 0 { 0 } else { budget },
        forall|k: int|
            0 <= k < expiring_from(v, now, within, i, budget).len() ==> {
                let e = #[trigger] expiring_from(v, now, within, i, budget)[k];
                &&& v.records.contains_key(e.addr)
                &&& e.record == v.records[e.addr]
                &&& e.record.status == KycStatus::Approved
                &&& exists|j: int|
                    #![trigger v.expiry_index[j]]
                    i <= j < v.expiry_index.len() && v.expiry_index[j].addr == e.addr && now
                        < v.expiry_index[j].expiry <= now + within
            },
    decreases v.expiry_index.len() - i,
{
    if i < 0 || i >= v.expiry_index.len() || budget <= 0 {
    } else {
        let e = v.expiry_index[i];
        let found = e.expiry > now && e.expiry <= now + within && v.records.contains_key(e.addr)
            && v.records[e.addr].status == KycStatus::Approved;
        if found {
            law_expiring_reports_only_approved(v, now, within, i + 1, budget - 1);
            let rest = expiring_from(v, now, within, i + 1, budget - 1);
            let head = seq![ExpiringRecordView { addr: e.addr, record: v.records[e.addr] }];
            let all = expiring_from(v, now, within, i, budget);
            assert(all == head + rest);
            assert forall|k: int| 0 <= k < all.len() implies {
                let x = #[trigger] all[k];
                &&& v.records.contains_key(x.addr)
                &&& x.record == v.records[x.addr]
                &&& x.record.status == KycStatus::Approved
                &&& exists|j: int|
                    #![trigger v.expiry_index[j]]
                    i <= j < v.expiry_index.len() && v.expiry_index[j].addr == x.addr && now
                        < v.expiry_index[j].expiry <= now + within
            } by {
                if k == 0 {
                    assert(all[0] == head[0]);
                    assert(v.expiry_index[i] == e);
                } else {
                    assert(all[k] == rest[k - 1]);
                }
            }
        } else {
            law_expiring_reports_only_approved(v, now, within, i + 1, budget);
        }
    }
}

// ── RWA token ───────────────────────────────────────────────────────────────

/// A transfer moves exactly `amount` from the sender to the receiver and
/// touches no other balance.
pub proof fn law_rwa_transfer_conserves(v: StorageView, from: Address, to: Address, amount: i128, other: Address)
    requires
        amount > 0,
        moved_balances(v, from, to, amount) is Ok,
        other != from,
        other != to,
    ensures
        ({
            let after = StorageView { balances: moved_balances(v, from, to, amount)->Ok_0, ..v };
            &&& from != to ==> balance_of(after, from) == balance_of(v, from) - amount
            &&& from != to ==> balance_of(after, to) == balance_of(v, to) + amount
            &&& from == to ==> balance_of(after, from) == balance_of(v, from)
            &&& balance_of(after, other) == balance_of(v, other)
        }),
{
}

/// Burning what was just minted restores every balance and the supply.
pub proof fn law_rwa_burn_undoes_mint(v: StorageView, to: Address, amount: i128, a: Address)
    requires
        amount > 0,
        nonnegative_balances(v),
        minted(v, to, amount) is Ok,
    ensures
        burned(minted(v, to, amount)->Ok_0, to, amount) is Ok,
        burned(minted(v, to, amount)->Ok_0, to, amount)->Ok_0.total_supply == v.total_supply,
        balance_of(burned(minted(v, to, amount)->Ok_0, to, amount)->Ok_0, a) == balance_of(v, a),
{
}

/// An allowance, once stored, is what a spender may move at every ledger up
/// to its expiration, and nothing after.
pub proof fn law_rwa_allowance_reads_back(
    v: StorageView,
    from: Address,
    spender: Address,
    amount: i128,
    expiration_ledger: u32,
    sequence: u32,
)
    ensures
        ({
            let after = StorageView {
                allowances: v.allowances.insert((from, spender), AllowanceValue { amount, expiration_ledger }),
                ..v
            };
            &&& sequence <= expiration_ledger ==> allowance_at(after, sequence, from, spender).amount == amount
            &&& sequence > expiration_ledger ==> allowance_at(after, sequence, from, spender).amount == 0
        }),
{
}

/// How a transfer changes the engine's holder registry: a receiver that held
/// nothing becomes a holder since `now`, a receiver that already held keeps
/// its holding time, a sender that gave away everything stops being a holder,
/// a sender that kept some keeps its time, every other entry is untouched,
/// and a transfer to oneself changes nothing.
pub proof fn law_rwa_transfer_holder_registry(
    e: ComplianceEngineView,
    now: u64,
    v: StorageView,
    from: Address,
    to: Address,
    amount: i128,
    other: Address,
)
    requires
        other != from,
        other != to,
    ensures
        ({
            let w = crate::rwa_token::moved_holders(e, now, v, from, to, amount);
            &&& from == to ==> w == e
            &&& from != to && balance_of(v, to) == 0 ==> w.holder_since.contains_key(to) && w.holder_since[to]
                == now
            &&& from != to && balance_of(v, to) != 0 ==> (w.holder_since.contains_key(to)
                == e.holder_since.contains_key(to) && (e.holder_since.contains_key(to) ==> w.holder_since[to]
                == e.holder_since[to]))
            &&& from != to && balance_of(v, from) == amount ==> !w.holder_since.contains_key(from)
            &&& from != to && balance_of(v, from) != amount ==> (w.holder_since.contains_key(from)
                == e.holder_since.contains_key(from) && (e.holder_since.contains_key(from)
                ==> w.holder_since[from] == e.holder_since[from]))
            &&& w.holder_since.contains_key(other) == e.holder_since.contains_key(other)
            &&& e.holder_since.contains_key(other) ==> w.holder_since[other] == e.holder_since[other]
        }),
{
}

/// A mint registers the receiver as a holder since `now` only when it held
/// nothing; a receiver that already held keeps its holding time.
pub proof fn law_rwa_mint_holder_registry(e: ComplianceEngineView, now: u64, v: StorageView, to: Address)
    ensures
        balance_of(v, to) == 0 ==> crate::rwa_token::minted_holders(e, now, v, to).holder_since.contains_key(to)
            && crate::rwa_token::minted_holders(e, now, v, to).holder_since[to] == now,
        balance_of(v, to) != 0 ==> crate::rwa_token::minted_holders(e, now, v, to) == e,
{
}

/// A burn unregisters the holder exactly when it burns its whole balance.
pub proof fn law_rwa_burn_holder_registry(e: ComplianceEngineView, v: StorageView, from: Address, amount: i128)
    ensures
        balance_of(v, from) == amount ==> !crate::rwa_token::burned_holders(e, v, from, amount).holder_since.contains_key(
            from,
        ),
        balance_of(v, from) != amount ==> crate::rwa_token::burned_holders(e, v, from, amount) == e,
{
}

/// An RWA transfer gets past its checks exactly when the authorizer signed,
/// the amount is positive, both parties hold an active KYC approval, and the
/// compliance engine allows it.
pub proof fn law_rwa_transfer_checks(
    kyc: KycRegistryView,
    engine: ComplianceEngineView,
    engine_kyc: KycRegistryView,
    inv: Invocation,
    authorizer: Address,
    from: Address,
    to: Address,
    amount: i128,
)
    ensures
        crate::rwa_token::move_gate(kyc, engine, engine_kyc, inv, authorizer, from, to, amount) is None <==> (
        inv.authorized(authorizer) && amount > 0 && approved_at(kyc, inv.timestamp, from) && approved_at(
            kyc,
            inv.timestamp,
            to,
        ) && transfer_verdict(engine, engine_kyc, inv.timestamp, from, to, amount) == Ok::<
            bool,
            crate::compliance_engine::ComplianceError,
        >(true)),
{
}

/// An RWA mint gets past its checks exactly when the admin signed, the amount
/// is positive, the receiver holds an active KYC approval, and, for a
/// receiver that held nothing, the compliance engine allows it; the engine is
/// not consulted for a receiver that already holds.
pub proof fn law_rwa_mint_checks(
    v: StorageView,
    kyc: KycRegistryView,
    engine: ComplianceEngineView,
    other_engine: ComplianceEngineView,
    engine_kyc: KycRegistryView,
    inv: Invocation,
    to: Address,
    amount: i128,
)
    ensures
        crate::rwa_token::mint_gate(v, kyc, engine, engine_kyc, inv, to, amount) is None <==> (inv.authorized(
            v.admin,
        ) && amount > 0 && approved_at(kyc, inv.timestamp, to) && (balance_of(v, to) == 0
            ==> transfer_verdict(engine, engine_kyc, inv.timestamp, to, to, amount) == Ok::<
            bool,
            crate::compliance_engine::ComplianceError,
        >(true))),
        balance_of(v, to) != 0 ==> crate::rwa_token::mint_gate(v, kyc, engine, engine_kyc, inv, to, amount)
            == crate::rwa_token::mint_gate(v, kyc, other_engine, engine_kyc, inv, to, amount),
{
}

// ── Carbon credit token ─────────────────────────────────────────────────────

/// A carbon-credit transfer moves exactly `amount` from sender to receiver
/// and touches no other balance.
pub proof fn law_carbon_transfer_conserves(
    balances: Map<Address, i128>,
    from: Address,
    to: Address,
    amount: i128,
    other: Address,
)
    requires
        carbon_moved(balances, from, to, amount) is Ok,
        from != to,
        other != from,
        other != to,
    ensures
        ({
            let m = carbon_moved(balances, from, to, amount)->Ok_0;
            let before = |a: Address| if balances.contains_key(a) { balances[a] as int } else { 0 };
            &&& m[from] == before(from) - amount
            &&& m[to] == before(to) + amount
            &&& m.contains_key(other) == balances.contains_key(other)
            &&& m.contains_key(other) ==> m[other] == balances[other]
        }),
{
}

// ── Invoice token ───────────────────────────────────────────────────────────

/// Reading an invoice's ledger gives back what was last written for it, and
/// writing one invoice's ledger leaves every other invoice's as it was.
pub proof fn law_invoice_ledger_read_after_write(v: InvoiceTokenView, l: InvoiceLedgerView, other: Seq<u8>)
    requires
        forall|i: int, j: int|
            0 <= i < v.ledgers.len() && 0 <= j < v.ledgers.len() && i != j ==> v.ledgers[i].id
                != v.ledgers[j].id,
        other != l.id,
    ensures
        ledger_of(with_ledger(v, l), l.id) == l,
        ledger_of(with_ledger(v, l), other) == ledger_of(v, other),
{
    let w = with_ledger(v, l);
    if has_ledger(v.ledgers, l.id) {
        let p = choose|i: int| 0 <= i < v.ledgers.len() && v.ledgers[i].id == l.id;
        assert(w.ledgers[p].id == l.id);
        assert(has_ledger(w.ledgers, l.id));
        let q = choose|i: int| 0 <= i < w.ledgers.len() && w.ledgers[i].id == l.id;
        assert(q == p);
        if has_ledger(v.ledgers, other) {
            let o = choose|i: int| 0 <= i < v.ledgers.len() && v.ledgers[i].id == other;
            assert(w.ledgers[o].id == other);
            assert(has_ledger(w.ledgers, other));
        } else {
            assert forall|i: int| 0 <= i < w.ledgers.len() implies w.ledgers[i].id != other by {
                if i != p {
                    assert(w.ledgers[i] == v.ledgers[i]);
                }
            }
        }
    } else {
        let n = v.ledgers.len() as int;
        assert(w.ledgers[n].id == l.id);
        assert(has_ledger(w.ledgers, l.id));
        let q = choose|i: int| 0 <= i < w.ledgers.len() && w.ledgers[i].id == l.id;
        assert(q == n);
        if has_ledger(v.ledgers, other) {
            let o = choose|i: int| 0 <= i < v.ledgers.len() && v.ledgers[i].id == other;
            assert(w.ledgers[o].id == other);
            assert(has_ledger(w.ledgers, other));
        } else {
            assert forall|i: int| 0 <= i < w.ledgers.len() implies w.ledgers[i].id != other by {
                if i < n {
                    assert(w.ledgers[i] == v.ledgers[i]);
                }
            }
        }
    }
}

/// An invoice transfer moves exactly `amount` from sender to receiver and
/// leaves the supply and every other balance unchanged.
pub proof fn law_invoice_transfer_conserves(l: InvoiceLedgerView, from: Address, to: Address, amount: i128, other: Address)
    requires
        amount >= 0,
        moved_ledger(l, from, to, amount) is Ok,
        other != from,
        other != to,
    ensures
        ({
            let m = moved_ledger(l, from, to, amount)->Ok_0;
            &&& m.total_supply == l.total_supply
            &&& from != to ==> balance_in(m, from) == balance_in(l, from) - amount
            &&& from != to ==> balance_in(m, to) == balance_in(l, to) + amount
            &&& from == to ==> balance_in(m, from) == balance_in(l, from)
            &&& balance_in(m, other) == balance_in(l, other)
        }),
{
}

/// A holder of a partly settled invoice never redeems more than its
/// proportional share of the settlement, and a redemption burns exactly what
/// is redeemed.
pub proof fn law_invoice_redemption_within_share(l: InvoiceLedgerView, from: Address, amount: i128)
    requires
        redeemed(l, from, amount) is Ok,
    ensures
        l.settled,
        amount <= balance_in(l, from),
        l.settlement_amount > 0 && l.total_supply > 0 ==> amount <= trunc_div(
            balance_in(l, from) * l.settlement_amount,
            l.total_supply as int,
        ),
        redeemed(l, from, amount)->Ok_0.total_supply == l.total_supply - amount,
        balance_in(redeemed(l, from, amount)->Ok_0, from) == balance_in(l, from) - amount,
{
}

// ── Property token ──────────────────────────────────────────────────────────

/// Raising the dividend-per-share index by `per` raises what every holder can
/// claim by its balance times `per`.
pub proof fn law_deposit_raises_pending(a: Account, dps: i128, per: int)
    requires
        crate::dividend::fits(dps + per),
    ensures
        pending(a, (dps + per) as i128) == pending(a, dps) + a.balance * per,
{
    assert(a.balance * (dps + per) == a.balance * dps + a.balance * per) by (nonlinear_arith);
}

/// A dividend deposit is pro rata: every holder can claim its share count
/// times the per-share amount (`amount / total_shares`, rounded toward zero)
/// more than before, and nobody's shares change.
pub proof fn law_deposit_is_pro_rata(v: PropertyView, inv: Invocation, amount: i128, distribution_type: u32, holder: Address)
    requires
        deposited(v, inv, amount, distribution_type) is Ok,
    ensures
        ({
            let after = deposited(v, inv, amount, distribution_type)->Ok_0;
            &&& shares_of(after, holder) == shares_of(v, holder)
            &&& pending(account_of(after, holder), after.dps) == pending(account_of(v, holder), v.dps)
                + shares_of(v, holder) * trunc_div(amount as int, v.total_shares as int)
        }),
{
    let per = trunc_div(amount as int, v.total_shares as int);
    law_deposit_raises_pending(account_of(v, holder), v.dps, per);
}

/// A dividend deposit raises the general dividend-per-share index by
/// `amount / total_shares` (rounded toward zero), the rent index by the same
/// only for a rent deposit (type 0), and the capital index only for a capital
/// deposit (type 1); the pool grows by the amount, the deposit is recorded,
/// and no position or share count changes. Only the admin may deposit, and
/// never into a token with no shares.
pub proof fn law_deposit_raises_only_its_index(v: PropertyView, inv: Invocation, amount: i128, distribution_type: u32)
    ensures
        !inv.authorized(v.admin) ==> deposited(v, inv, amount, distribution_type) == Err::<PropertyView, crate::property_token::PropertyError>(
            crate::property_token::PropertyError::Unauthorized,
        ),
        inv.authorized(v.admin) && v.total_shares == 0 ==> deposited(v, inv, amount, distribution_type) == Err::<
            PropertyView,
            crate::property_token::PropertyError,
        >(crate::property_token::PropertyError::NoShares),
        deposited(v, inv, amount, distribution_type) is Ok ==> {
            let after = deposited(v, inv, amount, distribution_type)->Ok_0;
            let per = trunc_div(amount as int, v.total_shares as int);
            &&& after.dps == v.dps + per
            &&& after.dps_rent == v.dps_rent + (if distribution_type == 0 { per } else { 0 })
            &&& after.dps_capital == v.dps_capital + (if distribution_type == 1 { per } else { 0 })
            &&& after.dividend_pool == v.dividend_pool + amount
            &&& after.accounts == v.accounts
            &&& after.holders == v.holders
            &&& after.total_shares == v.total_shares
            &&& after.deposits.len() == v.deposits.len() + 1
            &&& after.deposits.last().amount == amount
            &&& after.deposits.last().distribution_type == distribution_type
            &&& after.deposits.last().running_total_dps == after.dps
        },
{
}

/// A claim pays exactly what was pending, after which nothing is pending,
/// and a second claim finds nothing to pay.
pub proof fn law_claim_pays_pending_once(a: Account, dps: i128, dps_rent: i128, dps_capital: i128)
    requires
        settled(a, dps, dps_rent, dps_capital) is Some,
        a.balance * dps - a.debt >= 0,
        a.balance * dps_rent - a.debt_rent >= 0,
        a.balance * dps_capital - a.debt_capital >= 0,
    ensures
        ({
            let s = settled(a, dps, dps_rent, dps_capital)->Some_0;
            let after = Account { unclaimed: 0, ..s };
            &&& s.unclaimed == pending(a, dps)
            &&& pending(after, dps) == 0
            &&& settled(after, dps, dps_rent, dps_capital) is Some
            &&& settled(after, dps, dps_rent, dps_capital)->Some_0.unclaimed == 0
        }),
{
    lemma_settled_keeps_pending(a, dps, dps_rent, dps_capital);
}

/// A rent or capital claim pays exactly what was pending of that kind and
/// leaves the other kind and the general dividend as they were; after the
/// claim nothing of that kind is pending.
pub proof fn law_typed_claims_pay_pending_once(a: Account, dps: i128, dps_rent: i128, dps_capital: i128)
    requires
        settled_typed(a, dps_rent, dps_capital) is Some,
        a.balance * dps_rent - a.debt_rent >= 0,
        a.balance * dps_capital - a.debt_capital >= 0,
    ensures
        ({
            let s = settled_typed(a, dps_rent, dps_capital)->Some_0;
            &&& s.balance == a.balance
            &&& s.unclaimed_rent == pending_rent(a, dps_rent)
            &&& s.unclaimed_capital == pending_capital(a, dps_capital)
            &&& pending(s, dps) == pending(a, dps)
            &&& pending_rent(Account { unclaimed_rent: 0, ..s }, dps_rent) == 0
            &&& pending_capital(Account { unclaimed_rent: 0, ..s }, dps_capital) == pending_capital(a, dps_capital)
            &&& pending_capital(Account { unclaimed_capital: 0, ..s }, dps_capital) == 0
            &&& pending_rent(Account { unclaimed_capital: 0, ..s }, dps_rent) == pending_rent(a, dps_rent)
        }),
{
}

/// A share transfer moves exactly `shares` between the two parties and
/// leaves every other position untouched.
pub proof fn law_property_transfer_conserves(v: PropertyView, from: Address, to: Address, shares: i128, other: Address)
    requires
        moved_accounts(v, from, to, shares) is Ok,
        from != to,
        other != from,
        other != to,
    ensures
        ({
            let after = PropertyView { accounts: moved_accounts(v, from, to, shares)->Ok_0, ..v };
            &&& shares_of(after, from) == shares_of(v, from) - shares
            &&& shares_of(after, to) == shares_of(v, to) + shares
            &&& account_of(after, other) == account_of(v, other)
        }),
{
}

/// Changing a holder's share count, after its accruals are snapshotted,
/// keeps every kind of dividend it can claim (general, rent, capital)
/// exactly as it was, when nothing was owed negatively: what it earned stays
/// its own, and only what is deposited from now on accrues on the new count.
pub proof fn law_rebalance_keeps_dividends(a: Account, new_balance: int, dps: i128, dps_rent: i128, dps_capital: i128)
    requires
        settled(a, dps, dps_rent, dps_capital) is Some,
        rebased(settled(a, dps, dps_rent, dps_capital)->Some_0, new_balance, dps, dps_rent, dps_capital) is Some,
        a.balance * dps - a.debt >= 0,
        a.balance * dps_rent - a.debt_rent >= 0,
        a.balance * dps_capital - a.debt_capital >= 0,
    ensures
        ({
            let n = rebased(settled(a, dps, dps_rent, dps_capital)->Some_0, new_balance, dps, dps_rent, dps_capital)->Some_0;
            &&& n.balance == new_balance
            &&& pending(n, dps) == pending(a, dps)
            &&& pending_rent(n, dps_rent) == pending_rent(a, dps_rent)
            &&& pending_capital(n, dps_capital) == pending_capital(a, dps_capital)
        }),
{
    lemma_settled_keeps_pending(a, dps, dps_rent, dps_capital);
}

/// Dividends accrued before a share transfer stay with whoever earned them:
/// neither party's claimable general, rent or capital dividend changes, when
/// nothing was owed negatively.
pub proof fn law_property_transfer_keeps_dividends(v: PropertyView, from: Address, to: Address, shares: i128)
    requires
        moved_accounts(v, from, to, shares) is Ok,
        from != to,
        account_of(v, from).balance * v.dps - account_of(v, from).debt >= 0,
        account_of(v, from).balance * v.dps_rent - account_of(v, from).debt_rent >= 0,
        account_of(v, from).balance * v.dps_capital - account_of(v, from).debt_capital >= 0,
        account_of(v, to).balance * v.dps - account_of(v, to).debt >= 0,
        account_of(v, to).balance * v.dps_rent - account_of(v, to).debt_rent >= 0,
        account_of(v, to).balance * v.dps_capital - account_of(v, to).debt_capital >= 0,
    ensures
        ({
            let after = PropertyView { accounts: moved_accounts(v, from, to, shares)->Ok_0, ..v };
            &&& pending(account_of(after, from), v.dps) == pending(account_of(v, from), v.dps)
            &&& pending(account_of(after, to), v.dps) == pending(account_of(v, to), v.dps)
            &&& pending_rent(account_of(after, from), v.dps_rent) == pending_rent(account_of(v, from), v.dps_rent)
            &&& pending_rent(account_of(after, to), v.dps_rent) == pending_rent(account_of(v, to), v.dps_rent)
            &&& pending_capital(account_of(after, from), v.dps_capital) == pending_capital(
                account_of(v, from),
                v.dps_capital,
            )
            &&& pending_capital(account_of(after, to), v.dps_capital) == pending_capital(
                account_of(v, to),
                v.dps_capital,
            )
        }),
{
    let af = settled(account_of(v, from), v.dps, v.dps_rent, v.dps_capital)->Some_0;
    let at = settled(account_of(v, to), v.dps, v.dps_rent, v.dps_capital)->Some_0;
    law_rebalance_keeps_dividends(account_of(v, from), af.balance - shares, v.dps, v.dps_rent, v.dps_capital);
    law_rebalance_keeps_dividends(account_of(v, to), at.balance + shares, v.dps, v.dps_rent, v.dps_capital);
}

/// A holder receiving newly minted shares inherits nothing accrued before the
/// mint: what it can claim of each kind of dividend is unchanged, when
/// nothing was owed negatively.
pub proof fn law_mint_keeps_dividends(v: PropertyView, to: Address, shares: i128)
    requires
        minted_account(v, to, shares) is Some,
        account_of(v, to).balance * v.dps - account_of(v, to).debt >= 0,
        account_of(v, to).balance * v.dps_rent - account_of(v, to).debt_rent >= 0,
        account_of(v, to).balance * v.dps_capital - account_of(v, to).debt_capital >= 0,
    ensures
        ({
            let n = minted_account(v, to, shares)->Some_0;
            &&& n.balance == shares_of(v, to) + shares
            &&& pending(n, v.dps) == pending(account_of(v, to), v.dps)
            &&& pending_rent(n, v.dps_rent) == pending_rent(account_of(v, to), v.dps_rent)
            &&& pending_capital(n, v.dps_capital) == pending_capital(account_of(v, to), v.dps_capital)
        }),
{
    let a = settled(account_of(v, to), v.dps, v.dps_rent, v.dps_capital)->Some_0;
    law_rebalance_keeps_dividends(account_of(v, to), a.balance + shares, v.dps, v.dps_rent, v.dps_capital);
}

/// A property mint gets past its checks only when the admin signed, the share
/// count is positive, the receiver holds an active KYC approval of at least
/// the required tier, and the compliance engine allows a transfer from the
/// admin to the receiver.
pub proof fn law_property_mint_checks(
    v: PropertyView,
    kyc: KycRegistryView,
    engine: ComplianceEngineView,
    engine_kyc: KycRegistryView,
    inv: Invocation,
    to: Address,
    shares: i128,
)
    requires
        mint_gate(v, kyc, engine, engine_kyc, inv, to, shares) is None,
    ensures
        inv.authorized(v.admin),
        shares > 0,
        approved_at(kyc, inv.timestamp, to),
        kyc.records[to].tier >= v.meta.kyc_tier_required,
        transfer_verdict(engine, engine_kyc, inv.timestamp, v.admin, to, shares) == Ok::<
            bool,
            crate::compliance_engine::ComplianceError,
        >(true),
{
}

/// A property transfer gets past its checks only when the authorizer signed,
/// the share count is positive, both parties hold an active KYC approval, the
/// receiver has the required tier, and the compliance engine allows it.
pub proof fn law_property_transfer_checks(
    v: PropertyView,
    kyc: KycRegistryView,
    engine: ComplianceEngineView,
    engine_kyc: KycRegistryView,
    inv: Invocation,
    authorizer: Address,
    from: Address,
    to: Address,
    shares: i128,
)
    requires
        crate::property_token::move_gate(v, kyc, engine, engine_kyc, inv, authorizer, from, to, shares) is None,
    ensures
        inv.authorized(authorizer),
        shares > 0,
        approved_at(kyc, inv.timestamp, from),
        approved_at(kyc, inv.timestamp, to),
        kyc.records[to].tier >= v.meta.kyc_tier_required,
        transfer_verdict(engine, engine_kyc, inv.timestamp, from, to, shares) == Ok::<
            bool,
            crate::compliance_engine::ComplianceError,
        >(true),
{
}

// ── Property token: the authorized share count ──────────────────────────────

/// The checked sum of the listed holders' shares, when it exists, is their
/// plain sum.
pub(crate) proof fn lemma_holder_sum_is_listed(accounts: Map<Address, Account>, hs: Seq<Address>)
    requires
        holder_sum(accounts, hs) is Some,
    ensures
        holder_sum(accounts, hs) == Some(listed_shares(accounts, hs)),
    decreases hs.len(),
{
    if hs.len() > 0 {
        lemma_holder_sum_is_listed(accounts, hs.drop_last());
    }
}

/// Changing the position of an unlisted address leaves the listed sum alone.
pub(crate) proof fn lemma_listed_ignores_unlisted(accounts: Map<Address, Account>, hs: Seq<Address>, k: Address, x: Account)
    requires
        !hs.contains(k),
    ensures
        listed_shares(accounts.insert(k, x), hs) == listed_shares(accounts, hs),
    decreases hs.len(),
{
    if hs.len() > 0 {
        assert(!hs.drop_last().contains(k)) by {
            if hs.drop_last().contains(k) {
                let i = choose|i: int| 0 <= i < hs.drop_last().len() && hs.drop_last()[i] == k;
                assert(hs[i] == k);
            }
        }
        assert(hs.last() != k) by {
            assert(hs[hs.len() - 1] == hs.last());
        }
        lemma_listed_ignores_unlisted(accounts, hs.drop_last(), k, x);
    }
}

/// Changing the position of an address listed once changes the listed sum
/// by the change of its shares.
pub(crate) proof fn lemma_listed_tracks_listed(accounts: Map<Address, Account>, hs: Seq<Address>, k: Address, x: Account)
    requires
        no_duplicates(hs),
        hs.contains(k),
    ensures
        listed_shares(accounts.insert(k, x), hs) == listed_shares(accounts, hs) - held(accounts, k) + x.balance,
    decreases hs.len(),
{
    let init = hs.drop_last();
    assert(hs[hs.len() - 1] == hs.last());
    if hs.last() == k {
        assert(!init.contains(k)) by {
            if init.contains(k) {
                let i = choose|i: int| 0 <= i < init.len() && init[i] == k;
                assert(hs[i] == k && i != hs.len() - 1);
            }
        }
        lemma_listed_ignores_unlisted(accounts, init, k, x);
    } else {
        assert(init.contains(k)) by {
            let i = choose|i: int| 0 <= i < hs.len() && hs[i] == k;
            assert(i != hs.len() - 1);
            assert(init[i] == k);
        }
        assert(no_duplicates(init)) by {
            assert forall|i: int, j: int| 0 <= i < init.len() && 0 <= j < init.len() && i != j implies init[i]
                != init[j] by {
                assert(init[i] == hs[i] && init[j] == hs[j]);
            }
        }
        lemma_listed_tracks_listed(accounts, init, k, x);
    }
}

/// Unlisting an address takes its shares out of the listed sum.
pub(crate) proof fn lemma_listed_without(accounts: Map<Address, Account>, hs: Seq<Address>, k: Address)
    requires
        no_duplicates(hs),
    ensures
        listed_shares(accounts, without(hs, k)) == listed_shares(accounts, hs) - (if hs.contains(k) {
            held(accounts, k)
        } else {
            0
        }),
    decreases hs.len(),
{
    reveal_with_fuel(Seq::<_>::filter, 1);
    if hs.len() == 0 {
        assert(without(hs, k) =~= hs);
    } else {
        let init = hs.drop_last();
        let last = hs.last();
        assert(hs[hs.len() - 1] == last);
        assert(no_duplicates(init)) by {
            assert forall|i: int, j: int| 0 <= i < init.len() && 0 <= j < init.len() && i != j implies init[i]
                != init[j] by {
                assert(init[i] == hs[i] && init[j] == hs[j]);
            }
        }
        lemma_listed_without(accounts, init, k);
        assert(hs =~= init.push(last));
        assert(without(hs, k) == if last != k {
            without(init, k).push(last)
        } else {
            without(init, k)
        });
        if last != k {
            assert(without(hs, k).drop_last() =~= without(init, k));
            assert(init.contains(k) == hs.contains(k)) by {
                if hs.contains(k) {
                    let i = choose|i: int| 0 <= i < hs.len() && hs[i] == k;
                    assert(i != hs.len() - 1);
                    assert(init[i] == k);
                }
                if init.contains(k) {
                    let i = choose|i: int| 0 <= i < init.len() && init[i] == k;
                    assert(hs[i] == k);
                }
            }
        } else {
            assert(!init.contains(k)) by {
                if init.contains(k) {
                    let i = choose|i: int| 0 <= i < init.len() && init[i] == k;
                    assert(hs[i] == k && i != hs.len() - 1);
                }
            }
            assert(hs.contains(k));
        }
    }
}

/// A mint never lets the shares held by listed holders pass the authorized
/// count: they grow by exactly the minted shares and stay within
/// `total_shares`.
pub proof fn law_mint_within_authorized_shares(
    v: PropertyView,
    kyc: KycRegistryView,
    engine: ComplianceEngineView,
    engine_kyc: KycRegistryView,
    inv: Invocation,
    to: Address,
    shares: i128,
)
    requires
        no_duplicates(v.holders),
        listed_exactly(v),
        mint_gate(v, kyc, engine, engine_kyc, inv, to, shares) is None,
        minted_account(v, to, shares) is Some,
    ensures
        ({
            let accounts = v.accounts.insert(to, minted_account(v, to, shares)->Some_0);
            let hs = add_holder(v.holders, to);
            &&& listed_shares(accounts, hs) == listed_shares(v.accounts, v.holders) + shares
            &&& listed_shares(accounts, hs) <= v.total_shares
        }),
{
    let a = minted_account(v, to, shares)->Some_0;
    assert(shares_of(v, to) >= 0 && (v.holders.contains(to) <==> shares_of(v, to) > 0));
    lemma_holder_sum_is_listed(v.accounts, v.holders);
    assert(a.balance == shares_of(v, to) + shares);
    assert(held(v.accounts, to) == shares_of(v, to));
    if v.holders.contains(to) {
        lemma_listed_tracks_listed(v.accounts, v.holders, to, a);
    } else {
        lemma_listed_ignores_unlisted(v.accounts, v.holders, to, a);
        let accounts = v.accounts.insert(to, a);
        assert(add_holder(v.holders, to).drop_last() =~= v.holders);
    }
}

/// A share transfer keeps the shares held by listed holders unchanged.
pub proof fn law_transfer_keeps_listed_shares(v: PropertyView, from: Address, to: Address, shares: i128)
    requires
        no_duplicates(v.holders),
        listed_exactly(v),
        shares > 0,
        moved_accounts(v, from, to, shares) is Ok,
    ensures
        ({
            let after = after_move(v, moved_accounts(v, from, to, shares)->Ok_0, from, to, shares);
            listed_shares(after.accounts, after.holders) == listed_shares(v.accounts, v.holders)
        }),
{
    let m = moved_accounts(v, from, to, shares)->Ok_0;
    assert(shares_of(v, from) >= 0 && (v.holders.contains(from) <==> shares_of(v, from) > 0));
    assert(shares_of(v, to) >= 0 && (v.holders.contains(to) <==> shares_of(v, to) > 0));
    let af = settled(account_of(v, from), v.dps, v.dps_rent, v.dps_capital)->Some_0;
    assert(held(v.accounts, from) == shares_of(v, from));
    if from == to {
        assert(af.balance == shares_of(v, from));
        lemma_listed_tracks_listed(v.accounts, v.holders, from, af);
    } else {
        let at = settled(account_of(v, to), v.dps, v.dps_rent, v.dps_capital)->Some_0;
        let nf = rebased(af, af.balance - shares, v.dps, v.dps_rent, v.dps_capital)->Some_0;
        let nt = rebased(at, at.balance + shares, v.dps, v.dps_rent, v.dps_capital)->Some_0;
        let m1 = v.accounts.insert(from, nf);
        assert(m == m1.insert(to, nt));
        assert(held(v.accounts, to) == shares_of(v, to));
        lemma_listed_tracks_listed(v.accounts, v.holders, from, nf);
        let h = add_holder(v.holders, to);
        if v.holders.contains(to) {
            lemma_listed_tracks_listed(m1, v.holders, to, nt);
            assert(h == v.holders);
        } else {
            lemma_listed_ignores_unlisted(m1, v.holders, to, nt);
            assert(h.drop_last() =~= v.holders);
            assert(h.last() == to);
        }
        assert(listed_shares(m, h) == listed_shares(v.accounts, v.holders));
        if shares_of(v, from) == shares {
            assert(no_duplicates(h)) by {
                if !v.holders.contains(to) {
                    assert forall|i: int, j: int| 0 <= i < h.len() && 0 <= j < h.len() && i != j implies h[i]
                        != h[j] by {
                        if i == h.len() - 1 {
                            assert(h[j] == v.holders[j]);
                        } else if j == h.len() - 1 {
                            assert(h[i] == v.holders[i]);
                        } else {
                            assert(h[i] == v.holders[i] && h[j] == v.holders[j]);
                        }
                    }
                }
            }
            assert(h.contains(from)) by {
                let i = choose|i: int| 0 <= i < v.holders.len() && v.holders[i] == from;
                assert(h[i] == from);
            }
            lemma_listed_without(m, h, from);
            assert(held(m, from) == 0);
        }
    }
}

/// A buyback takes the bought shares out of both the listed holders' total
/// and the authorized count, when the seller is listed.
pub proof fn law_buyback_keeps_headroom(v: PropertyView, from: Address, shares: i128)
    requires
        no_duplicates(v.holders),
        v.holders.contains(from),
        settled(account_of(v, from), v.dps, v.dps_rent, v.dps_capital) is Some,
        settled(account_of(v, from), v.dps, v.dps_rent, v.dps_capital)->Some_0.balance >= shares,
        rebased(
            settled(account_of(v, from), v.dps, v.dps_rent, v.dps_capital)->Some_0,
            settled(account_of(v, from), v.dps, v.dps_rent, v.dps_capital)->Some_0.balance - shares,
            v.dps,
            v.dps_rent,
            v.dps_capital,
        ) is Some,
    ensures
        ({
            let a = settled(account_of(v, from), v.dps, v.dps_rent, v.dps_capital)->Some_0;
            let accounts = v.accounts.insert(from, rebased(a, a.balance - shares, v.dps, v.dps_rent, v.dps_capital)->Some_0);
            let hs = if a.balance == shares {
                without(v.holders, from)
            } else {
                v.holders
            };
            listed_shares(accounts, hs) == listed_shares(v.accounts, v.holders) - shares
        }),
{
    let a = settled(account_of(v, from), v.dps, v.dps_rent, v.dps_capital)->Some_0;
    let na = rebased(a, a.balance - shares, v.dps, v.dps_rent, v.dps_capital)->Some_0;
    let accounts = v.accounts.insert(from, na);
    assert(held(v.accounts, from) == a.balance);
    lemma_listed_tracks_listed(v.accounts, v.holders, from, na);
    if a.balance == shares {
        lemma_listed_without(accounts, v.holders, from);
        assert(held(accounts, from) == 0);
    }
}

/// With no listed holder holding a negative count, the listed sum is at
/// least what any one listed holder holds, and never negative.
proof fn lemma_listed_covers_each(accounts: Map<Address, Account>, hs: Seq<Address>, k: Address)
    requires
        forall|i: int| 0 <= i < hs.len() ==> held(accounts, #[trigger] hs[i]) >= 0,
    ensures
        listed_shares(accounts, hs) >= 0,
        hs.contains(k) ==> listed_shares(accounts, hs) >= held(accounts, k),
    decreases hs.len(),
{
    if hs.len() > 0 {
        let init = hs.drop_last();
        assert(hs[hs.len() - 1] == hs.last());
        assert forall|i: int| 0 <= i < init.len() implies held(accounts, #[trigger] init[i]) >= 0 by {
            assert(init[i] == hs[i]);
        }
        lemma_listed_covers_each(accounts, init, k);
        if hs.contains(k) && hs.last() != k {
            let i = choose|i: int| 0 <= i < hs.len() && hs[i] == k;
            assert(init[i] == k);
        }
    }
}

/// Nobody holds more than the authorized share count: in every state the
/// token keeps, a holding is never negative, and a positive holding is at
/// most `total_shares`.
pub proof fn law_holding_within_authorized(v: PropertyView, a: Address)
    requires
        listed_exactly(v),
        within_authorized(v),
    ensures
        shares_of(v, a) >= 0,
        shares_of(v, a) > 0 ==> shares_of(v, a) <= v.total_shares,
{
    assert(shares_of(v, a) >= 0 && (v.holders.contains(a) <==> shares_of(v, a) > 0));
    assert forall|i: int| 0 <= i < v.holders.len() implies held(v.accounts, #[trigger] v.holders[i]) >= 0 by {
        let x = v.holders[i];
        assert(shares_of(v, x) >= 0 && (v.holders.contains(x) <==> shares_of(v, x) > 0));
        assert(held(v.accounts, x) == shares_of(v, x));
    }
    lemma_listed_covers_each(v.accounts, v.holders, a);
    assert(held(v.accounts, a) == shares_of(v, a));
    if shares_of(v, a) > 0 {
        assert(v.holders[choose|i: int| 0 <= i < v.holders.len() && v.holders[i] == a] == a);
    }
}

// ── Property token: who is listed ───────────────────────────────────────────

/// An address is left in a list with one address taken out exactly when it
/// was there and is not that address.
pub(crate) proof fn lemma_without_contains(s: Seq<Address>, x: Address, y: Address)
    ensures
        without(s, x).contains(y) <==> (s.contains(y) && y != x),
{
    let p = crate::types::differs_from(x);
    if without(s, x).contains(y) {
        s.lemma_filter_contains_rev(p, y);
        let i = choose|i: int| 0 <= i < s.filter(p).len() && s.filter(p)[i] == y;
        s.lemma_filter_pred(p, i);
    }
    if s.contains(y) && y != x {
        let i = choose|i: int| 0 <= i < s.len() && s[i] == y;
        s.lemma_filter_contains(p, i);
    }
}

/// A freshly deployed token, holding no positions and listing nobody, lists
/// exactly the holders.
pub proof fn law_fresh_token_listed_exactly(v: PropertyView)
    requires
        v.accounts == Map::<Address, Account>::empty(),
        v.holders == Seq::<Address>::empty(),
    ensures
        listed_exactly(v),
{
}

/// A mint keeps the holder list naming exactly the addresses that hold
/// shares.
pub proof fn law_mint_keeps_listing(
    v: PropertyView,
    kyc: KycRegistryView,
    engine: ComplianceEngineView,
    engine_kyc: KycRegistryView,
    inv: Invocation,
    to: Address,
    shares: i128,
)
    requires
        listed_exactly(v),
        mint_gate(v, kyc, engine, engine_kyc, inv, to, shares) is None,
        minted_account(v, to, shares) is Some,
    ensures
        ({
            let hs = add_holder(v.holders, to);
            listed_exactly(
                PropertyView {
                    accounts: v.accounts.insert(to, minted_account(v, to, shares)->Some_0),
                    holders: hs,
                    holder_count: hs.len() as u32,
                    ..v
                },
            )
        }),
{
    let hs = add_holder(v.holders, to);
    let w = PropertyView {
        accounts: v.accounts.insert(to, minted_account(v, to, shares)->Some_0),
        holders: hs,
        holder_count: hs.len() as u32,
        ..v
    };
    assert(shares > 0);
    assert(shares_of(v, to) >= 0);
    assert forall|a: Address|
        #![trigger w.holders.contains(a)]
        #![trigger shares_of(w, a)]
        shares_of(w, a) >= 0 && (w.holders.contains(a) <==> shares_of(w, a) > 0) by {
        assert(shares_of(v, a) >= 0 && (v.holders.contains(a) <==> shares_of(v, a) > 0));
        if !v.holders.contains(to) {
            assert(hs =~= v.holders.push(to));
            if a != to {
                assert(hs.contains(a) ==> v.holders.contains(a)) by {
                    if hs.contains(a) {
                        let i = choose|i: int| 0 <= i < hs.len() && hs[i] == a;
                        assert(i < v.holders.len());
                        assert(v.holders[i] == a);
                    }
                }
                assert(v.holders.contains(a) ==> hs.contains(a)) by {
                    if v.holders.contains(a) {
                        let i = choose|i: int| 0 <= i < v.holders.len() && v.holders[i] == a;
                        assert(hs[i] == a);
                    }
                }
            } else {
                assert(hs[hs.len() - 1] == to);
            }
        }
    }
}

/// A share transfer keeps the holder list naming exactly the addresses that
/// hold shares.
pub proof fn law_transfer_keeps_listing(v: PropertyView, from: Address, to: Address, shares: i128)
    requires
        listed_exactly(v),
        shares > 0,
        moved_accounts(v, from, to, shares) is Ok,
    ensures
        listed_exactly(after_move(v, moved_accounts(v, from, to, shares)->Ok_0, from, to, shares)),
{
    let m = moved_accounts(v, from, to, shares)->Ok_0;
    let w = after_move(v, m, from, to, shares);
    let h = add_holder(v.holders, to);
    assert(shares_of(v, from) >= shares) by {
        assert(shares_of(v, from) == settled(account_of(v, from), v.dps, v.dps_rent, v.dps_capital)->Some_0.balance);
    }
    assert(shares_of(v, from) > 0);
    assert(v.holders.contains(from));
    assert forall|a: Address| #[trigger] h.contains(a) <==> (v.holders.contains(a) || a == to) by {
        if !v.holders.contains(to) {
            assert(h =~= v.holders.push(to));
            if h.contains(a) {
                let i = choose|i: int| 0 <= i < h.len() && h[i] == a;
                if i < v.holders.len() {
                    assert(v.holders[i] == a);
                }
            }
            if v.holders.contains(a) {
                let i = choose|i: int| 0 <= i < v.holders.len() && v.holders[i] == a;
                assert(h[i] == a);
            }
            if a == to {
                assert(h[h.len() - 1] == to);
            }
        }
    }
    assert forall|a: Address|
        #![trigger w.holders.contains(a)]
        #![trigger shares_of(w, a)]
        shares_of(w, a) >= 0 && (w.holders.contains(a) <==> shares_of(w, a) > 0) by {
        assert(shares_of(v, a) >= 0 && (v.holders.contains(a) <==> shares_of(v, a) > 0));
        assert(h.contains(a) <==> (v.holders.contains(a) || a == to));
        if shares_of(v, from) == shares && from != to {
            lemma_without_contains(h, from, a);
        }
        if from != to {
            assert(shares_of(v, to) >= 0);
            if a == from {
                assert(shares_of(w, a) == shares_of(v, from) - shares);
            } else if a == to {
                assert(shares_of(w, a) == shares_of(v, to) + shares);
            } else {
                assert(shares_of(w, a) == shares_of(v, a));
            }
        } else {
            if a == from {
                assert(shares_of(w, a) == shares_of(v, from));
            } else {
                assert(shares_of(w, a) == shares_of(v, a));
            }
        }
    }
}

/// A buyback keeps the holder list naming exactly the addresses that hold
/// shares.
pub proof fn law_buyback_keeps_listing(v: PropertyView, from: Address, shares: i128)
    requires
        listed_exactly(v),
        shares > 0,
        settled(account_of(v, from), v.dps, v.dps_rent, v.dps_capital) is Some,
        settled(account_of(v, from), v.dps, v.dps_rent, v.dps_capital)->Some_0.balance >= shares,
        rebased(
            settled(account_of(v, from), v.dps, v.dps_rent, v.dps_capital)->Some_0,
            settled(account_of(v, from), v.dps, v.dps_rent, v.dps_capital)->Some_0.balance - shares,
            v.dps,
            v.dps_rent,
            v.dps_capital,
        ) is Some,
    ensures
        ({
            let a = settled(account_of(v, from), v.dps, v.dps_rent, v.dps_capital)->Some_0;
            let hs = if a.balance == shares {
                without(v.holders, from)
            } else {
                v.holders
            };
            listed_exactly(
                PropertyView {
                    accounts: v.accounts.insert(
                        from,
                        rebased(a, a.balance - shares, v.dps, v.dps_rent, v.dps_capital)->Some_0,
                    ),
                    total_shares: (v.total_shares - shares) as i128,
                    holders: hs,
                    holder_count: hs.len() as u32,
                    ..v
                },
            )
        }),
{
    let a = settled(account_of(v, from), v.dps, v.dps_rent, v.dps_capital)->Some_0;
    let hs = if a.balance == shares {
        without(v.holders, from)
    } else {
        v.holders
    };
    let w = PropertyView {
        accounts: v.accounts.insert(from, rebased(a, a.balance - shares, v.dps, v.dps_rent, v.dps_capital)->Some_0),
        total_shares: (v.total_shares - shares) as i128,
        holders: hs,
        holder_count: hs.len() as u32,
        ..v
    };
    assert(a.balance == shares_of(v, from));
    assert forall|x: Address|
        #![trigger w.holders.contains(x)]
        #![trigger shares_of(w, x)]
        shares_of(w, x) >= 0 && (w.holders.contains(x) <==> shares_of(w, x) > 0) by {
        assert(shares_of(v, x) >= 0 && (v.holders.contains(x) <==> shares_of(v, x) > 0));
        if a.balance == shares {
            lemma_without_contains(v.holders, from, x);
        }
    }
}

} // verus!
