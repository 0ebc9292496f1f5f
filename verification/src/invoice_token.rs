//! Invoice Token: tokenizes accounts-receivable invoices. Each token unit
//! stands for one USD (7-decimal precision) of face value. One token contract
//! holds many invoices, each with its own supply, settlement state, balances
//! and allowances, all indexed by the invoice id.

use std::collections::HashMap;
use vstd::prelude::*;
use vstd::string::StrSliceExecFns;
use vstd::string::StringSliceAdditionalSpecFns;

use crate::compliance_engine::{ComplianceError, ComplianceEngine, ComplianceEngineView, transfer_verdict, with_holder};
use crate::dividend::fits;
use crate::kyc_registry::{KycRegistry, KycRegistryView, approved_at};
use crate::pair_map::PairMap;
use crate::types::{Address, Invocation, bytes_eq, copy_bytes, page, trunc_div, div_toward_zero};

verus! {

broadcast use vstd::std_specs::hash::group_hash_axioms;

/// Why an invoice-token call was refused.
#[derive(Clone, Copy, Debug, PartialEq, Eq, Structural)]
pub enum InvoiceError {
    AlreadyInitialized,
    AlreadySettled,
    NotSettled,
    InsufficientBalance,
    NegativeAmount,
    InsufficientAllowance,
    AllowanceExpired,
    KycNotApproved,
    CompliancePaused,
    Blocklisted,
    TransferBlocked,
    PastDueDate,
    InvoiceNotFound,
    InvoiceAlreadyExists,
    InvalidWebhook,
    /// The party whose authorization the call needs did not give it.
    Unauthorized,
    /// `accept_admin` was called with no admin proposed.
    NoPendingAdmin,
    /// A partial settlement amount was zero or negative.
    SettlementNotPositive,
    /// A partial settlement amount exceeded the face value.
    SettlementExceedsFaceValue,
    /// The compliance engine refused a redemption or burn.
    RedemptionBlocked,
    /// A redemption exceeded the holder's share of the settled amount.
    ExceedsProportionalSettlement,
    /// The compliance engine itself failed while checking the transfer.
    ComplianceCheckFailed,
    /// A value left the range of its machine integer.
    Overflow,
}

/// A delegated-transfer allowance.
#[derive(Clone, Copy, Debug, PartialEq, Eq, Structural)]
pub struct AllowanceValue {
    pub amount: i128,
    pub expiration_ledger: u32,
}

pub struct InvoiceMeta {
    pub invoice_id: Vec<u8>,
    pub issuer: Vec<u8>,
    pub debtor: Vec<u8>,
    /// In stroops (7 decimals).
    pub face_value_usd: i128,
    /// Basis points.
    pub discount_rate_bps: u32,
    /// Unix timestamp.
    pub due_date: u64,
    pub currency: Vec<u8>,
    pub ipfs_doc_hash: Vec<u8>,
    pub transfer_fee_bps: u32,
    pub fee_recipient: Option<Address>,
    /// Webhook for off-chain notification services; empty, or starting with "https://".
    pub notification_webhook: Vec<u8>,
}

pub struct InvoiceMetaView {
    pub invoice_id: Seq<u8>,
    pub issuer: Seq<u8>,
    pub debtor: Seq<u8>,
    pub face_value_usd: i128,
    pub discount_rate_bps: u32,
    pub due_date: u64,
    pub currency: Seq<u8>,
    pub ipfs_doc_hash: Seq<u8>,
    pub transfer_fee_bps: u32,
    pub fee_recipient: Option<Address>,
    pub notification_webhook: Seq<u8>,
}

impl View for InvoiceMeta {
    type V = InvoiceMetaView;

    open spec fn view(&self) -> InvoiceMetaView {
        InvoiceMetaView {
            invoice_id: self.invoice_id@,
            issuer: self.issuer@,
            debtor: self.debtor@,
            face_value_usd: self.face_value_usd,
            discount_rate_bps: self.discount_rate_bps,
            due_date: self.due_date,
            currency: self.currency@,
            ipfs_doc_hash: self.ipfs_doc_hash@,
            transfer_fee_bps: self.transfer_fee_bps,
            fee_recipient: self.fee_recipient,
            notification_webhook: self.notification_webhook@,
        }
    }
}

impl InvoiceMeta {
    pub fn duplicate(&self) -> (r: InvoiceMeta)
        ensures
            r@ == self@,
    {
        InvoiceMeta {
            invoice_id: copy_bytes(&self.invoice_id),
            issuer: copy_bytes(&self.issuer),
            debtor: copy_bytes(&self.debtor),
            face_value_usd: self.face_value_usd,
            discount_rate_bps: self.discount_rate_bps,
            due_date: self.due_date,
            currency: copy_bytes(&self.currency),
            ipfs_doc_hash: copy_bytes(&self.ipfs_doc_hash),
            transfer_fee_bps: self.transfer_fee_bps,
            fee_recipient: self.fee_recipient,
            notification_webhook: copy_bytes(&self.notification_webhook),
        }
    }
}

/// A webhook is empty, or 8 to 256 bytes long and starts with "https://".
pub open spec fn valid_webhook(w: Seq<u8>) -> bool {
    w.len() == 0 || (8 <= w.len() <= 256 && w.take(8) == "https://".spec_bytes())
}

/// Tests `valid_webhook`.
pub fn is_valid_webhook(w: &Vec<u8>) -> (r: bool)
    ensures
        r == valid_webhook(w@),
{
    if w.len() == 0 {
        return true;
    }
    if w.len() < 8 || w.len() > 256 {
        return false;
    }
    let mut prefix: Vec<u8> = Vec::new();
    let mut i: usize = 0;
    while i < 8
        invariant
            0 <= i <= 8 <= w.len(),
            prefix@ == w@.take(i as int),
        decreases 8 - i,
    {
        prefix.push(w[i]);
        proof {
            assert(w@.take(i as int + 1) =~= w@.take(i as int).push(w@[i as int]));
        }
        i = i + 1;
    }
    bytes_eq(&prefix, &"https://".as_bytes_vec())
}

/// Everything the token stores under one invoice id.
pub struct InvoiceLedger {
    id: Vec<u8>,
    meta: Option<InvoiceMeta>,
    total_supply: i128,
    settled: bool,
    settlement_amount: i128,
    balances: HashMap<Address, i128>,
    allowances: PairMap<AllowanceValue>,
}

pub struct InvoiceLedgerView {
    pub id: Seq<u8>,
    pub meta: Option<InvoiceMetaView>,
    pub total_supply: i128,
    pub settled: bool,
    pub settlement_amount: i128,
    pub balances: Map<Address, i128>,
    pub allowances: Map<(Address, Address), AllowanceValue>,
}

impl View for InvoiceLedger {
    type V = InvoiceLedgerView;

    closed spec fn view(&self) -> InvoiceLedgerView {
        InvoiceLedgerView {
            id: self.id@,
            meta: match self.meta {
                None => None,
                Some(m) => Some(m@),
            },
            total_supply: self.total_supply,
            settled: self.settled,
            settlement_amount: self.settlement_amount,
            balances: self.balances@,
            allowances: self.allowances@,
        }
    }
}

/// What is stored under an id nothing was ever written for.
pub open spec fn empty_ledger(id: Seq<u8>) -> InvoiceLedgerView {
    InvoiceLedgerView {
        id,
        meta: None,
        total_supply: 0,
        settled: false,
        settlement_amount: 0,
        balances: Map::empty(),
        allowances: Map::empty(),
    }
}

/// The balance of `a` in a ledger (0 when never written).
pub open spec fn balance_in(l: InvoiceLedgerView, a: Address) -> i128 {
    if l.balances.contains_key(a) {
        l.balances[a]
    } else {
        0
    }
}

/// The stored allowance (zero when never written).
pub open spec fn allowance_in(l: InvoiceLedgerView, from: Address, spender: Address) -> AllowanceValue {
    if l.allowances.contains_key((from, spender)) {
        l.allowances[(from, spender)]
    } else {
        AllowanceValue { amount: 0, expiration_ledger: 0 }
    }
}

/// The token's state.
pub struct InvoiceToken {
    id: Address,
    admin: Address,
    pending_admin: Option<Address>,
    kyc_registry: Address,
    compliance_engine: Address,
    ledgers: Vec<InvoiceLedger>,
    invoice_list: Vec<Vec<u8>>,
}

/// The token as a mathematical value.
pub struct InvoiceTokenView {
    pub id: Address,
    pub admin: Address,
    pub pending_admin: Option<Address>,
    pub kyc_registry: Address,
    pub compliance_engine: Address,
    /// One ledger per invoice id ever written to, in order of first write.
    pub ledgers: Seq<InvoiceLedgerView>,
    /// The ids of the created invoices, in order of creation.
    pub invoice_list: Seq<Seq<u8>>,
}

impl View for InvoiceToken {
    type V = InvoiceTokenView;

    closed spec fn view(&self) -> InvoiceTokenView {
        InvoiceTokenView {
            id: self.id,
            admin: self.admin,
            pending_admin: self.pending_admin,
            kyc_registry: self.kyc_registry,
            compliance_engine: self.compliance_engine,
            ledgers: self.ledgers@.map_values(|l: InvoiceLedger| l@),
            invoice_list: self.invoice_list@.map_values(|b: Vec<u8>| b@),
        }
    }
}

/// Whether some ledger has id `id`.
pub open spec fn has_ledger(ls: Seq<InvoiceLedgerView>, id: Seq<u8>) -> bool {
    exists|i: int| 0 <= i < ls.len() && ls[i].id == id
}

/// The position of the ledger with id `id` (meaningful when there is one).
pub open spec fn ledger_pos(ls: Seq<InvoiceLedgerView>, id: Seq<u8>) -> int {
    choose|i: int| 0 <= i < ls.len() && ls[i].id == id
}

/// The ledger stored under `id`.
pub open spec fn ledger_of(v: InvoiceTokenView, id: Seq<u8>) -> InvoiceLedgerView {
    if has_ledger(v.ledgers, id) {
        v.ledgers[ledger_pos(v.ledgers, id)]
    } else {
        empty_ledger(id)
    }
}

/// The ledgers after the one with id `l.id` becomes `l`.
pub open spec fn put_ledger(ls: Seq<InvoiceLedgerView>, l: InvoiceLedgerView) -> Seq<InvoiceLedgerView> {
    if has_ledger(ls, l.id) {
        ls.update(ledger_pos(ls, l.id), l)
    } else {
        ls.push(l)
    }
}

/// The token after the ledger with id `l.id` becomes `l`.
pub open spec fn with_ledger(v: InvoiceTokenView, l: InvoiceLedgerView) -> InvoiceTokenView {
    InvoiceTokenView { ledgers: put_ledger(v.ledgers, l), ..v }
}

/// The refusal, if any, that a compliance verdict turns into.
pub open spec fn invoice_verdict_gate(verdict: Result<bool, crate::compliance_engine::ComplianceError>, blocked: InvoiceError) -> Option<InvoiceError> {
    match verdict {
        Err(_) => Some(InvoiceError::ComplianceCheckFailed),
        Ok(false) => Some(blocked),
        Ok(true) => None,
    }
}

/// The ledger with a new balance for `a`.
pub open spec fn set_balance(l: InvoiceLedgerView, a: Address, b: i128) -> InvoiceLedgerView {
    InvoiceLedgerView { balances: l.balances.insert(a, b), ..l }
}

/// The refusal, if any, of a transfer of `amount` of invoice `id` from `from`
/// to `to` authorized by `authorizer`, before allowances and balances: the
/// invoice must be unsettled, exist and not be past due, the amount must not
/// be negative, both parties need active KYC, and the compliance engine must
/// allow it.
pub open spec fn invoice_move_gate(
    v: InvoiceTokenView,
    kyc: KycRegistryView,
    engine: ComplianceEngineView,
    engine_kyc: KycRegistryView,
    inv: Invocation,
    authorizer: Address,
    id: Seq<u8>,
    from: Address,
    to: Address,
    amount: i128,
) -> Option<InvoiceError> {
    let l = ledger_of(v, id);
    if !inv.authorized(authorizer) {
        Some(InvoiceError::Unauthorized)
    } else if l.settled {
        Some(InvoiceError::AlreadySettled)
    } else if l.meta is None {
        Some(InvoiceError::InvoiceNotFound)
    } else if inv.timestamp > l.meta->Some_0.due_date {
        Some(InvoiceError::PastDueDate)
    } else if amount < 0 {
        Some(InvoiceError::NegativeAmount)
    } else if !approved_at(kyc, inv.timestamp, from) || !approved_at(kyc, inv.timestamp, to) {
        Some(InvoiceError::KycNotApproved)
    } else {
        invoice_verdict_gate(
            transfer_verdict(engine, engine_kyc, inv.timestamp, from, to, amount),
            InvoiceError::TransferBlocked,
        )
    }
}

/// The ledger after `amount` moves from `from` to `to`, or why it cannot.
pub open spec fn moved_ledger(l: InvoiceLedgerView, from: Address, to: Address, amount: i128) -> Result<
    InvoiceLedgerView,
    InvoiceError,
> {
    let fb = balance_in(l, from);
    if fb < amount {
        Err(InvoiceError::InsufficientBalance)
    } else if from == to {
        Ok(set_balance(l, from, fb))
    } else if !fits(balance_in(l, to) + amount) {
        Err(InvoiceError::Overflow)
    } else {
        Ok(
            set_balance(
                set_balance(l, from, (fb - amount) as i128),
                to,
                (balance_in(l, to) + amount) as i128,
            ),
        )
    }
}

/// The ledger after `amount` is destroyed from `from`'s balance and the
/// supply, or why it cannot (the balance check aside).
pub open spec fn burned_ledger(l: InvoiceLedgerView, from: Address, amount: i128) -> Result<
    InvoiceLedgerView,
    InvoiceError,
> {
    let b = balance_in(l, from);
    if !fits(b - amount) || !fits(l.total_supply - amount) {
        Err(InvoiceError::Overflow)
    } else {
        Ok(
            InvoiceLedgerView {
                balances: l.balances.insert(from, (b - amount) as i128),
                total_supply: (l.total_supply - amount) as i128,
                ..l
            },
        )
    }
}

impl InvoiceLedger {
    fn balance_of(&self, a: Address) -> (r: i128)
        ensures
            r == balance_in(self@, a),
    {
        match self.balances.get(&a) {
            None => 0,
            Some(b) => *b,
        }
    }

    fn set_balance(&mut self, a: Address, b: i128)
        ensures
            final(self)@ == set_balance(old(self)@, a, b),
    {
        self.balances.insert(a, b);
    }

    fn allowance_of(&self, from: Address, spender: Address) -> (r: AllowanceValue)
        ensures
            r == allowance_in(self@, from, spender),
    {
        match self.allowances.get(from, spender) {
            None => AllowanceValue { amount: 0, expiration_ledger: 0 },
            Some(a) => a,
        }
    }

    fn set_allowance(&mut self, from: Address, spender: Address, a: AllowanceValue)
        ensures
            final(self)@ == (InvoiceLedgerView {
                allowances: old(self)@.allowances.insert((from, spender), a),
                ..old(self)@
            }),
    {
        self.allowances.insert(from, spender, a);
    }

    fn is_settled(&self) -> (r: bool)
        ensures
            r == self@.settled,
    {
        self.settled
    }

    fn face_and_due(&self) -> (r: Option<(i128, u64)>)
        ensures
            match self@.meta {
                None => r is None,
                Some(m) => r == Some((m.face_value_usd, m.due_date)),
            },
    {
        match &self.meta {
            None => None,
            Some(m) => Some((m.face_value_usd, m.due_date)),
        }
    }
}

/// The refusal, if any, that a compliance verdict on a redemption turns into.
pub open spec fn redeem_gate(verdict: Result<bool, crate::compliance_engine::ComplianceError>) -> Option<InvoiceError> {
    invoice_verdict_gate(verdict, InvoiceError::RedemptionBlocked)
}

/// The outcome of redeeming `amount` of `from`'s tokens from ledger `l`
/// (authorization and compliance aside).
pub open spec fn redeemed(l: InvoiceLedgerView, from: Address, amount: i128) -> Result<InvoiceLedgerView, InvoiceError> {
    let b = balance_in(l, from);
    if !l.settled {
        Err(InvoiceError::NotSettled)
    } else if b < amount {
        Err(InvoiceError::InsufficientBalance)
    } else if l.settlement_amount > 0 && l.total_supply > 0 && !fits(b * l.settlement_amount) {
        Err(InvoiceError::Overflow)
    } else if l.settlement_amount > 0 && l.total_supply > 0 && amount > trunc_div(
        b * l.settlement_amount,
        l.total_supply as int,
    ) {
        Err(InvoiceError::ExceedsProportionalSettlement)
    } else {
        burned_ledger(l, from, amount)
    }
}

impl InvoiceToken {
    /// The invariant the token keeps: no two ledgers share an id.
    pub open spec fn wf(&self) -> bool {
        forall|i: int, j: int|
            0 <= i < self@.ledgers.len() && 0 <= j < self@.ledgers.len() && i != j
                ==> self@.ledgers[i].id != self@.ledgers[j].id
    }

    /// Deploys the token at `id` and creates its first invoice from `meta`.
    pub fn new(id: Address, admin: Address, kyc_registry: Address, compliance_engine: Address, meta: InvoiceMeta) -> (r: Result<InvoiceToken, InvoiceError>)
        ensures
            !valid_webhook(meta.notification_webhook@) ==> r == Err::<InvoiceToken, InvoiceError>(
                InvoiceError::InvalidWebhook,
            ),
            valid_webhook(meta.notification_webhook@) ==> r is Ok && r->Ok_0.wf() && r->Ok_0@
                == (InvoiceTokenView {
                id,
                admin,
                pending_admin: None,
                kyc_registry,
                compliance_engine,
                ledgers: seq![InvoiceLedgerView { meta: Some(meta@), ..empty_ledger(meta.invoice_id@) }],
                invoice_list: seq![meta.invoice_id@],
            }),
    {
        let mut t = InvoiceToken {
            id,
            admin,
            pending_admin: None,
            kyc_registry,
            compliance_engine,
            ledgers: Vec::new(),
            invoice_list: Vec::new(),
        };
        proof {
            assert(t@.ledgers =~= Seq::empty());
            assert(t@.invoice_list =~= Seq::empty());
        }
        let ghost m = meta@;
        match t.do_create_invoice(meta) {
            Err(e) => Err(e),
            Ok(()) => {
                proof {
                    assert(!has_ledger(Seq::<InvoiceLedgerView>::empty(), m.invoice_id));
                    assert(t@.ledgers =~= seq![InvoiceLedgerView { meta: Some(m), ..empty_ledger(m.invoice_id) }]);
                    assert(t@.invoice_list =~= seq![m.invoice_id]);
                }
                Ok(t)
            },
        }
    }

    /// Initialization after deployment: always refused, since the token is
    /// set up when it is deployed and nobody may set it up again.
    pub fn initialize(&self, admin: Address, kyc_registry: Address, compliance_engine: Address, meta: InvoiceMeta) -> (r: Result<(), InvoiceError>)
        ensures
            r == Err::<(), InvoiceError>(InvoiceError::AlreadyInitialized),
    {
        Err(InvoiceError::AlreadyInitialized)
    }

    fn require_admin(&self, inv: &Invocation) -> (r: Result<(), InvoiceError>)
        ensures
            r is Ok <==> inv.authorized(self@.admin),
            r is Err ==> r == Err::<(), InvoiceError>(InvoiceError::Unauthorized),
    {
        if inv.is_authorized(self.admin) {
            Ok(())
        } else {
            Err(InvoiceError::Unauthorized)
        }
    }

    /// Points the token at another KYC registry (admin only).
    pub fn update_kyc_registry(&mut self, inv: &Invocation, new_registry: Address) -> (r: Result<(), InvoiceError>)
        requires
            old(self).wf(),
        ensures
            final(self).wf(),
            inv.authorized(old(self)@.admin) ==> r is Ok && final(self)@ == (InvoiceTokenView {
                kyc_registry: new_registry,
                ..old(self)@
            }),
            !inv.authorized(old(self)@.admin) ==> r == Err::<(), InvoiceError>(
                InvoiceError::Unauthorized,
            ) && final(self)@ == old(self)@,
    {
        self.require_admin(inv)?;
        self.kyc_registry = new_registry;
        Ok(())
    }

    /// Points the token at another compliance engine (admin only).
    pub fn update_compliance_engine(&mut self, inv: &Invocation, new_engine: Address) -> (r: Result<(), InvoiceError>)
        requires
            old(self).wf(),
        ensures
            final(self).wf(),
            inv.authorized(old(self)@.admin) ==> r is Ok && final(self)@ == (InvoiceTokenView {
                compliance_engine: new_engine,
                ..old(self)@
            }),
            !inv.authorized(old(self)@.admin) ==> r == Err::<(), InvoiceError>(
                InvoiceError::Unauthorized,
            ) && final(self)@ == old(self)@,
    {
        self.require_admin(inv)?;
        self.compliance_engine = new_engine;
        Ok(())
    }

    /// Proposes a new admin; the admin must authorize.
    pub fn propose_admin(&mut self, inv: &Invocation, new_admin: Address) -> (r: Result<(), InvoiceError>)
        requires
            old(self).wf(),
        ensures
            final(self).wf(),
            inv.authorized(old(self)@.admin) ==> r is Ok && final(self)@ == (InvoiceTokenView {
                pending_admin: Some(new_admin),
                ..old(self)@
            }),
            !inv.authorized(old(self)@.admin) ==> r == Err::<(), InvoiceError>(
                InvoiceError::Unauthorized,
            ) && final(self)@ == old(self)@,
    {
        self.require_admin(inv)?;
        self.pending_admin = Some(new_admin);
        Ok(())
    }

    /// The proposed admin takes over; it must authorize.
    pub fn accept_admin(&mut self, inv: &Invocation) -> (r: Result<(), InvoiceError>)
        requires
            old(self).wf(),
        ensures
            final(self).wf(),
            match old(self)@.pending_admin {
                None => r == Err::<(), InvoiceError>(InvoiceError::NoPendingAdmin) && final(self)@
                    == old(self)@,
                Some(p) => if inv.authorized(p) {
                    r is Ok && final(self)@ == (InvoiceTokenView {
                        admin: p,
                        pending_admin: None,
                        ..old(self)@
                    })
                } else {
                    r == Err::<(), InvoiceError>(InvoiceError::Unauthorized) && final(self)@ == old(self)@
                },
            },
    {
        let pending = match self.pending_admin {
            None => {
                return Err(InvoiceError::NoPendingAdmin);
            },
            Some(p) => p,
        };
        if !inv.is_authorized(pending) {
            return Err(InvoiceError::Unauthorized);
        }
        self.admin = pending;
        self.pending_admin = None;
        Ok(())
    }

    proof fn lemma_views(&self)
        ensures
            self@.ledgers.len() == self.ledgers@.len(),
            forall|j: int| 0 <= j < self.ledgers@.len() ==> #[trigger] self@.ledgers[j] == self.ledgers@[j]@,
            self@.invoice_list.len() == self.invoice_list@.len(),
            forall|j: int| 0 <= j < self.invoice_list@.len() ==> #[trigger] self@.invoice_list[j] == self.invoice_list@[j]@,
    {
    }

    /// Finds the ledger stored under `id`.
    fn find(&self, id: &Vec<u8>) -> (r: Option<usize>)
        requires
            self.wf(),
        ensures
            r is None <==> !has_ledger(self@.ledgers, id@),
            r matches Some(i) ==> i < self.ledgers@.len() && i as int == ledger_pos(self@.ledgers, id@)
                && self@.ledgers[i as int].id == id@ && ledger_of(self@, id@) == self.ledgers@[i as int]@
                && ledger_of(self@, id@) == self@.ledgers[i as int],
    {
        proof {
            self.lemma_views();
        }
        let mut i: usize = 0;
        while i < self.ledgers.len()
            invariant
                0 <= i <= self.ledgers.len(),
                self.wf(),
                self@.ledgers.len() == self.ledgers@.len(),
                forall|j: int| 0 <= j < i ==> self@.ledgers[j].id != id@,
            decreases self.ledgers.len() - i,
        {
            proof {
                self.lemma_views();
            }
            if bytes_eq(&self.ledgers[i].id, id) {
                proof {
                    assert(self@.ledgers[i as int].id == id@);
                    assert(has_ledger(self@.ledgers, id@));
                    let p = ledger_pos(self@.ledgers, id@);
                    assert(self@.ledgers[p].id == id@);
                    assert(p == i as int);
                }
                return Some(i);
            }
            i = i + 1;
        }
        None
    }

    /// Takes the ledger stored under `id` out of the table, or makes an empty
    /// one; `put` puts it back.
    fn take(&mut self, id: &Vec<u8>) -> (r: (InvoiceLedger, Option<usize>))
        requires
            old(self).wf(),
        ensures
            r.0@ == ledger_of(old(self)@, id@),
            r.1 == (if has_ledger(old(self)@.ledgers, id@) {
                Some(ledger_pos(old(self)@.ledgers, id@) as usize)
            } else {
                None::<usize>
            }),
            has_ledger(old(self)@.ledgers, id@) ==> final(self)@ == (InvoiceTokenView {
                ledgers: old(self)@.ledgers.remove(ledger_pos(old(self)@.ledgers, id@)),
                ..old(self)@
            }),
            !has_ledger(old(self)@.ledgers, id@) ==> final(self)@ == old(self)@,
    {
        match self.find(id) {
            Some(i) => {
                let l = self.ledgers.remove(i);
                proof {
                    assert(self@.ledgers =~= old(self)@.ledgers.remove(i as int));
                }
                (l, Some(i))
            },
            None => {
                let l = InvoiceLedger {
                    id: copy_bytes(id),
                    meta: None,
                    total_supply: 0,
                    settled: false,
                    settlement_amount: 0,
                    balances: HashMap::new(),
                    allowances: PairMap::new(),
                };
                proof {
                    assert(l@.balances =~= Map::empty());
                }
                (l, None)
            },
        }
    }

    fn put(&mut self, l: InvoiceLedger, pos: Option<usize>, Ghost(orig): Ghost<InvoiceTokenView>)
        requires
            forall|i: int, j: int|
                0 <= i < orig.ledgers.len() && 0 <= j < orig.ledgers.len() && i != j
                    ==> orig.ledgers[i].id != orig.ledgers[j].id,
            pos == (if has_ledger(orig.ledgers, l@.id) {
                Some(ledger_pos(orig.ledgers, l@.id) as usize)
            } else {
                None::<usize>
            }),
            has_ledger(orig.ledgers, l@.id) ==> old(self)@ == (InvoiceTokenView {
                ledgers: orig.ledgers.remove(ledger_pos(orig.ledgers, l@.id)),
                ..orig
            }),
            !has_ledger(orig.ledgers, l@.id) ==> old(self)@ == orig,
        ensures
            final(self).wf(),
            final(self)@ == with_ledger(orig, l@),
    {
        let ghost lv = l@;
        let stored = self.ledgers.len();
        proof {
            old(self).lemma_views();
        }
        match pos {
            Some(i) => {
                proof {
                    let p = ledger_pos(orig.ledgers, lv.id);
                    assert(0 <= p < orig.ledgers.len() && orig.ledgers[p].id == lv.id);
                    assert(old(self)@.ledgers.len() == orig.ledgers.len() - 1);
                    assert(stored as int == old(self).ledgers@.len());
                    assert(i as int == p);
                }
                self.ledgers.insert(i, l);
                proof {
                    self.lemma_views();
                    let p = ledger_pos(orig.ledgers, lv.id);
                    assert(self.ledgers@ == old(self).ledgers@.insert(i as int, l));
                    assert(old(self).ledgers@.insert(i as int, l).map_values(|x: InvoiceLedger| x@)
                        =~= old(self).ledgers@.map_values(|x: InvoiceLedger| x@).insert(i as int, lv));
                    assert(orig.ledgers.remove(p).insert(p, lv) =~= orig.ledgers.update(p, lv));
                    assert(self@.ledgers =~= orig.ledgers.update(p, lv));
                }
            },
            None => {
                self.ledgers.push(l);
                proof {
                    self.lemma_views();
                    assert(self@.ledgers =~= orig.ledgers.push(lv));
                    assert forall|j: int| 0 <= j < orig.ledgers.len() implies orig.ledgers[j].id != lv.id by {
                        if orig.ledgers[j].id == lv.id {
                            assert(has_ledger(orig.ledgers, lv.id));
                        }
                    }
                }
            },
        }
    }

    fn do_create_invoice(&mut self, meta: InvoiceMeta) -> (r: Result<(), InvoiceError>)
        requires
            old(self).wf(),
        ensures
            final(self).wf(),
            ({
                let l = ledger_of(old(self)@, meta.invoice_id@);
                if !valid_webhook(meta.notification_webhook@) {
                    r == Err::<(), InvoiceError>(InvoiceError::InvalidWebhook) && final(self)@ == old(self)@
                } else if l.meta is Some {
                    r == Err::<(), InvoiceError>(InvoiceError::InvoiceAlreadyExists) && final(self)@
                        == old(self)@
                } else {
                    r is Ok && final(self)@ == (InvoiceTokenView {
                        invoice_list: old(self)@.invoice_list.push(meta.invoice_id@),
                        ..with_ledger(
                            old(self)@,
                            InvoiceLedgerView {
                                meta: Some(meta@),
                                total_supply: 0,
                                settled: false,
                                ..l
                            },
                        )
                    })
                }
            }),
    {
        if !is_valid_webhook(&meta.notification_webhook) {
            return Err(InvoiceError::InvalidWebhook);
        }
        let id = copy_bytes(&meta.invoice_id);
        if let Some(i) = self.find(&id) {
            if self.ledgers[i].meta.is_some() {
                return Err(InvoiceError::InvoiceAlreadyExists);
            }
        }
        let ghost orig = self@;
        let (mut l, pos) = self.take(&id);
        l.meta = Some(meta);
        l.total_supply = 0;
        l.settled = false;
        self.put(l, pos, Ghost(orig));
        let id2 = copy_bytes(&id);
        self.invoice_list.push(id2);
        proof {
            assert(self@.invoice_list =~= orig.invoice_list.push(id@));
        }
        Ok(())
    }

    /// Creates another invoice (admin only). Its webhook must be valid and its
    /// id unused.
    pub fn create_invoice(&mut self, inv: &Invocation, meta: InvoiceMeta) -> (r: Result<(), InvoiceError>)
        requires
            old(self).wf(),
        ensures
            final(self).wf(),
            ({
                let l = ledger_of(old(self)@, meta.invoice_id@);
                if !inv.authorized(old(self)@.admin) {
                    r == Err::<(), InvoiceError>(InvoiceError::Unauthorized) && final(self)@ == old(self)@
                } else if !valid_webhook(meta.notification_webhook@) {
                    r == Err::<(), InvoiceError>(InvoiceError::InvalidWebhook) && final(self)@ == old(self)@
                } else if l.meta is Some {
                    r == Err::<(), InvoiceError>(InvoiceError::InvoiceAlreadyExists) && final(self)@
                        == old(self)@
                } else {
                    r is Ok && final(self)@ == (InvoiceTokenView {
                        invoice_list: old(self)@.invoice_list.push(meta.invoice_id@),
                        ..with_ledger(
                            old(self)@,
                            InvoiceLedgerView {
                                meta: Some(meta@),
                                total_supply: 0,
                                settled: false,
                                ..l
                            },
                        )
                    })
                }
            }),
    {
        self.require_admin(inv)?;
        self.do_create_invoice(meta)
    }

    /// At most `limit` (never more than 50) invoice ids from offset `start`,
    /// in order of creation.
    pub fn list_invoices(&self, start: u32, limit: u32) -> (r: Vec<Vec<u8>>)
        requires
            start < self@.invoice_list.len() ==> start + (if limit < 50 { limit as int } else { 50 }) <= u32::MAX,
        ensures
            r@.map_values(|b: Vec<u8>| b@) == page(self@.invoice_list, start as int, limit as int, 50),
    {
        let n: u64 = if limit > 50 { 50 } else { limit as u64 };
        let mut out: Vec<Vec<u8>> = Vec::new();
        if start as usize >= self.invoice_list.len() {
            proof {
                assert(out@.map_values(|b: Vec<u8>| b@) =~= Seq::<Seq<u8>>::empty());
            }
            return out;
        }
        let s: usize = start as usize;
        let end: usize = if (start as u64) + n < self.invoice_list.len() as u64 {
            (start as u64 + n) as usize
        } else {
            self.invoice_list.len()
        };
        let mut i: usize = s;
        while i < end
            invariant
                s <= i <= end <= self.invoice_list.len(),
                out@.map_values(|b: Vec<u8>| b@) =~= self@.invoice_list.subrange(s as int, i as int),
            decreases end - i,
        {
            let ghost before = out@.map_values(|b: Vec<u8>| b@);
            let c = copy_bytes(&self.invoice_list[i]);
            out.push(c);
            proof {
                self.lemma_views();
                assert(out@.map_values(|b: Vec<u8>| b@) =~= before.push(self@.invoice_list[i as int]));
                assert(self@.invoice_list.subrange(s as int, i as int + 1) =~= self@.invoice_list.subrange(
                    s as int,
                    i as int,
                ).push(self@.invoice_list[i as int]));
            }
            i = i + 1;
        }
        out
    }

    fn ledger_meta_opt(&self, id: &Vec<u8>) -> (r: Option<usize>)
        requires
            self.wf(),
        ensures
            r is Some <==> ledger_of(self@, id@).meta is Some,
            r matches Some(i) ==> i < self@.ledgers.len() && self@.ledgers[i as int] == ledger_of(self@, id@),
    {
        match self.find(id) {
            None => None,
            Some(i) => if self.ledgers[i].meta.is_some() {
                Some(i)
            } else {
                None
            },
        }
    }

    /// The metadata of invoice `invoice_id`.
    pub fn get_meta(&self, invoice_id: &Vec<u8>) -> (r: Result<InvoiceMeta, InvoiceError>)
        requires
            self.wf(),
        ensures
            match ledger_of(self@, invoice_id@).meta {
                None => r == Err::<InvoiceMeta, InvoiceError>(InvoiceError::InvoiceNotFound),
                Some(m) => r is Ok && r->Ok_0@ == m,
            },
    {
        match self.ledger_meta_opt(invoice_id) {
            None => Err(InvoiceError::InvoiceNotFound),
            Some(i) => match &self.ledgers[i].meta {
                Some(m) => Ok(m.duplicate()),
                None => Err(InvoiceError::InvoiceNotFound),
            },
        }
    }

    /// Replaces the metadata stored under `invoice_id` (admin only) unless the
    /// invoice is settled; the new webhook must be valid.
    pub fn update_meta(&mut self, inv: &Invocation, invoice_id: &Vec<u8>, new_meta: InvoiceMeta) -> (r: Result<(), InvoiceError>)
        requires
            old(self).wf(),
        ensures
            final(self).wf(),
            ({
                let l = ledger_of(old(self)@, invoice_id@);
                if !inv.authorized(old(self)@.admin) {
                    r == Err::<(), InvoiceError>(InvoiceError::Unauthorized) && final(self)@ == old(self)@
                } else if !valid_webhook(new_meta.notification_webhook@) {
                    r == Err::<(), InvoiceError>(InvoiceError::InvalidWebhook) && final(self)@ == old(self)@
                } else if l.settled {
                    r == Err::<(), InvoiceError>(InvoiceError::AlreadySettled) && final(self)@ == old(self)@
                } else {
                    r is Ok && final(self)@ == with_ledger(
                        old(self)@,
                        InvoiceLedgerView { meta: Some(new_meta@), ..l },
                    )
                }
            }),
    {
        self.require_admin(inv)?;
        if !is_valid_webhook(&new_meta.notification_webhook) {
            return Err(InvoiceError::InvalidWebhook);
        }
        if let Some(i) = self.find(invoice_id) {
            if self.ledgers[i].settled {
                return Err(InvoiceError::AlreadySettled);
            }
        }
        let ghost orig = self@;
        let (mut l, pos) = self.take(invoice_id);
        l.meta = Some(new_meta);
        self.put(l, pos, Ghost(orig));
        Ok(())
    }

    pub fn name(&self) -> (r: Vec<u8>)
        ensures
            r@ == "Veritoken Invoice".spec_bytes(),
    {
        "Veritoken Invoice".as_bytes_vec()
    }

    pub fn symbol(&self) -> (r: Vec<u8>)
        ensures
            r@ == "VTINV".spec_bytes(),
    {
        "VTINV".as_bytes_vec()
    }

    pub fn decimals(&self) -> (r: u32)
        ensures
            r == 7,
    {
        7
    }

    /// The release of the contract kit.
    pub fn version(&self) -> (r: Vec<u8>)
        ensures
            r@ == crate::compliance_engine::kit_version(),
    {
        crate::compliance_engine::version_string()
    }

    /// The balance of `id` in invoice `invoice_id`.
    pub fn balance(&self, id: Address, invoice_id: &Vec<u8>) -> (r: i128)
        requires
            self.wf(),
        ensures
            r == balance_in(ledger_of(self@, invoice_id@), id),
    {
        match self.find(invoice_id) {
            None => 0,
            Some(i) => match self.ledgers[i].balances.get(&id) {
                None => 0,
                Some(b) => *b,
            },
        }
    }

    /// The supply of invoice `invoice_id`.
    pub fn total_supply(&self, invoice_id: &Vec<u8>) -> (r: i128)
        requires
            self.wf(),
        ensures
            r == ledger_of(self@, invoice_id@).total_supply,
    {
        match self.find(invoice_id) {
            None => 0,
            Some(i) => self.ledgers[i].total_supply,
        }
    }

    /// Whether invoice `invoice_id` is settled.
    pub fn is_settled(&self, invoice_id: &Vec<u8>) -> (r: bool)
        requires
            self.wf(),
        ensures
            r == ledger_of(self@, invoice_id@).settled,
    {
        match self.find(invoice_id) {
            None => false,
            Some(i) => self.ledgers[i].settled,
        }
    }

    /// The settled amount of invoice `invoice_id` (0 before settlement).
    pub fn settlement_amount(&self, invoice_id: &Vec<u8>) -> (r: i128)
        requires
            self.wf(),
        ensures
            r == ledger_of(self@, invoice_id@).settlement_amount,
    {
        match self.find(invoice_id) {
            None => 0,
            Some(i) => self.ledgers[i].settlement_amount,
        }
    }

    /// What `spender` may still move of `from`'s tokens of invoice
    /// `invoice_id` at ledger `sequence`: 0 once the allowance lapsed.
    pub fn allowance(&self, sequence: u32, from: Address, spender: Address, invoice_id: &Vec<u8>) -> (r: i128)
        requires
            self.wf(),
        ensures
            ({
                let a = allowance_in(ledger_of(self@, invoice_id@), from, spender);
                r == if a.expiration_ledger < sequence {
                    0
                } else {
                    a.amount
                }
            }),
    {
        let a = match self.find(invoice_id) {
            None => AllowanceValue { amount: 0, expiration_ledger: 0 },
            Some(i) => match self.ledgers[i].allowances.get(from, spender) {
                None => AllowanceValue { amount: 0, expiration_ledger: 0 },
                Some(a) => a,
            },
        };
        if a.expiration_ledger < sequence {
            0
        } else {
            a.amount
        }
    }

    fn restore(&mut self, l: InvoiceLedger, pos: Option<usize>, Ghost(orig): Ghost<InvoiceTokenView>)
        requires
            forall|i: int, j: int|
                0 <= i < orig.ledgers.len() && 0 <= j < orig.ledgers.len() && i != j
                    ==> orig.ledgers[i].id != orig.ledgers[j].id,
            l@ == ledger_of(orig, l@.id),
            pos == (if has_ledger(orig.ledgers, l@.id) {
                Some(ledger_pos(orig.ledgers, l@.id) as usize)
            } else {
                None::<usize>
            }),
            has_ledger(orig.ledgers, l@.id) ==> old(self)@ == (InvoiceTokenView {
                ledgers: orig.ledgers.remove(ledger_pos(orig.ledgers, l@.id)),
                ..orig
            }),
            !has_ledger(orig.ledgers, l@.id) ==> old(self)@ == orig,
        ensures
            final(self).wf(),
            final(self)@ == orig,
    {
        if pos.is_some() {
            self.put(l, pos, Ghost(orig));
            proof {
                let p = ledger_pos(orig.ledgers, l@.id);
                assert(orig.ledgers.update(p, orig.ledgers[p]) =~= orig.ledgers);
            }
        }
    }

    fn check_verdict(engine: &ComplianceEngine, engine_kyc: &KycRegistry, now: u64, from: Address, to: Address, amount: i128, blocked: InvoiceError) -> (r: Option<InvoiceError>)
        requires
            engine@.kyc_registry matches Some(k) ==> k == engine_kyc.id(),
        ensures
            r == invoice_verdict_gate(transfer_verdict(engine@, engine_kyc@, now, from, to, amount), blocked),
    {
        match engine.can_transfer(engine_kyc, now, from, to, amount) {
            Err(_) => Some(InvoiceError::ComplianceCheckFailed),
            Ok(false) => Some(blocked),
            Ok(true) => None,
        }
    }

    /// Mints `amount` of invoice `invoice_id` to `to` (admin only); `to` needs
    /// active KYC, the invoice must exist and be unsettled. `to` is registered
    /// as a holder with the compliance engine.
    pub fn issue(&mut self, inv: &Invocation, kyc: &KycRegistry, engine: &mut ComplianceEngine, invoice_id: &Vec<u8>, to: Address, amount: i128) -> (r: Result<(), InvoiceError>)
        requires
            old(self).wf(),
            kyc.id() == old(self)@.kyc_registry,
            old(engine).id() == old(self)@.compliance_engine,
            !old(engine)@.holder_since.contains_key(to) ==> old(engine)@.holder_count < u32::MAX,
        ensures
            final(self).wf(),
            final(engine).id() == old(engine).id(),
            old(engine).wf() ==> final(engine).wf(),
            ({
                let l = ledger_of(old(self)@, invoice_id@);
                let b = balance_in(l, to);
                if !inv.authorized(old(self)@.admin) {
                    r == Err::<(), InvoiceError>(InvoiceError::Unauthorized) && final(self)@ == old(self)@ && final(engine)@ == old(engine)@
                } else if !approved_at(kyc@, inv.timestamp, to) {
                    r == Err::<(), InvoiceError>(InvoiceError::KycNotApproved) && final(self)@ == old(self)@ && final(engine)@ == old(engine)@
                } else if l.settled {
                    r == Err::<(), InvoiceError>(InvoiceError::AlreadySettled) && final(self)@ == old(self)@ && final(engine)@ == old(engine)@
                } else if !fits(b + amount) || !fits(l.total_supply + amount) {
                    r == Err::<(), InvoiceError>(InvoiceError::Overflow) && final(self)@ == old(self)@ && final(engine)@ == old(engine)@
                } else if l.meta is None {
                    r == Err::<(), InvoiceError>(InvoiceError::InvoiceNotFound) && final(self)@ == old(self)@ && final(engine)@ == old(engine)@
                } else {
                    r is Ok && final(self)@ == with_ledger(
                        old(self)@,
                        InvoiceLedgerView {
                            balances: l.balances.insert(to, (b + amount) as i128),
                            total_supply: (l.total_supply + amount) as i128,
                            ..l
                        },
                    ) && final(engine)@ == with_holder(old(engine)@, inv.timestamp, to)
                }
            }),
    {
        self.require_admin(inv)?;
        if !kyc.is_approved(inv.timestamp, to) {
            return Err(InvoiceError::KycNotApproved);
        }
        let ghost orig = self@;
        let (mut l, pos) = self.take(invoice_id);
        if l.is_settled() {
            self.restore(l, pos, Ghost(orig));
            return Err(InvoiceError::AlreadySettled);
        }
        let b = l.balance_of(to);
        let nb = match b.checked_add(amount) {
            None => {
                self.restore(l, pos, Ghost(orig));
                return Err(InvoiceError::Overflow);
            },
            Some(x) => x,
        };
        let ns = match l.total_supply.checked_add(amount) {
            None => {
                self.restore(l, pos, Ghost(orig));
                return Err(InvoiceError::Overflow);
            },
            Some(x) => x,
        };
        if l.meta.is_none() {
            self.restore(l, pos, Ghost(orig));
            return Err(InvoiceError::InvoiceNotFound);
        }
        l.set_balance(to, nb);
        l.total_supply = ns;
        self.put(l, pos, Ghost(orig));
        engine.register_holder(inv.timestamp, to);
        Ok(())
    }

    /// Marks invoice `invoice_id` fully settled (admin only): the settled
    /// amount becomes its face value.
    pub fn settle(&mut self, inv: &Invocation, invoice_id: &Vec<u8>) -> (r: Result<(), InvoiceError>)
        requires
            old(self).wf(),
        ensures
            final(self).wf(),
            ({
                let l = ledger_of(old(self)@, invoice_id@);
                if !inv.authorized(old(self)@.admin) {
                    r == Err::<(), InvoiceError>(InvoiceError::Unauthorized) && final(self)@ == old(self)@
                } else if l.meta is None {
                    r == Err::<(), InvoiceError>(InvoiceError::InvoiceNotFound) && final(self)@ == old(self)@
                } else {
                    r is Ok && final(self)@ == with_ledger(
                        old(self)@,
                        InvoiceLedgerView {
                            settled: true,
                            settlement_amount: l.meta->Some_0.face_value_usd,
                            ..l
                        },
                    )
                }
            }),
    {
        self.require_admin(inv)?;
        let ghost orig = self@;
        let (mut l, pos) = self.take(invoice_id);
        let face = match l.face_and_due() {
            None => {
                self.restore(l, pos, Ghost(orig));
                return Err(InvoiceError::InvoiceNotFound);
            },
            Some((f, _)) => f,
        };
        l.settled = true;
        l.settlement_amount = face;
        self.put(l, pos, Ghost(orig));
        Ok(())
    }

    /// Marks invoice `invoice_id` settled for `settlement_amount` (admin
    /// only), which must be positive and at most the face value. Holders may
    /// then redeem in proportion.
    pub fn partial_settle(&mut self, inv: &Invocation, invoice_id: &Vec<u8>, settlement_amount: i128) -> (r: Result<(), InvoiceError>)
        requires
            old(self).wf(),
        ensures
            final(self).wf(),
            ({
                let l = ledger_of(old(self)@, invoice_id@);
                if !inv.authorized(old(self)@.admin) {
                    r == Err::<(), InvoiceError>(InvoiceError::Unauthorized) && final(self)@ == old(self)@
                } else if settlement_amount <= 0 {
                    r == Err::<(), InvoiceError>(InvoiceError::SettlementNotPositive) && final(self)@ == old(self)@
                } else if l.meta is None {
                    r == Err::<(), InvoiceError>(InvoiceError::InvoiceNotFound) && final(self)@ == old(self)@
                } else if settlement_amount > l.meta->Some_0.face_value_usd {
                    r == Err::<(), InvoiceError>(InvoiceError::SettlementExceedsFaceValue) && final(self)@ == old(self)@
                } else {
                    r is Ok && final(self)@ == with_ledger(
                        old(self)@,
                        InvoiceLedgerView { settled: true, settlement_amount, ..l },
                    )
                }
            }),
    {
        self.require_admin(inv)?;
        if settlement_amount <= 0 {
            return Err(InvoiceError::SettlementNotPositive);
        }
        let ghost orig = self@;
        let (mut l, pos) = self.take(invoice_id);
        let face = match l.face_and_due() {
            None => {
                self.restore(l, pos, Ghost(orig));
                return Err(InvoiceError::InvoiceNotFound);
            },
            Some((f, _)) => f,
        };
        if settlement_amount > face {
            self.restore(l, pos, Ghost(orig));
            return Err(InvoiceError::SettlementExceedsFaceValue);
        }
        l.settled = true;
        l.settlement_amount = settlement_amount;
        self.put(l, pos, Ghost(orig));
        Ok(())
    }

    /// `from` (who must authorize) redeems `amount` of a settled invoice,
    /// destroying the tokens. The compliance engine must allow a transfer from
    /// `from` to itself, and with a settlement and a supply the redemption is
    /// capped at `balance * settlement / supply`.
    pub fn redeem(&mut self, inv: &Invocation, engine: &ComplianceEngine, engine_kyc: &KycRegistry, invoice_id: &Vec<u8>, from: Address, amount: i128) -> (r: Result<(), InvoiceError>)
        requires
            old(self).wf(),
            engine.id() == old(self)@.compliance_engine,
            engine@.kyc_registry matches Some(k) ==> k == engine_kyc.id(),
        ensures
            final(self).wf(),
            ({
                let l = ledger_of(old(self)@, invoice_id@);
                if !inv.authorized(from) {
                    r == Err::<(), InvoiceError>(InvoiceError::Unauthorized) && final(self)@ == old(self)@
                } else if !l.settled {
                    r == Err::<(), InvoiceError>(InvoiceError::NotSettled) && final(self)@ == old(self)@
                } else if redeem_gate(transfer_verdict(engine@, engine_kyc@, inv.timestamp, from, from, amount)) is Some {
                    r == Err::<(), InvoiceError>(redeem_gate(transfer_verdict(engine@, engine_kyc@, inv.timestamp, from, from, amount))->Some_0)
                        && final(self)@ == old(self)@
                } else {
                    match redeemed(l, from, amount) {
                        Err(e) => r == Err::<(), InvoiceError>(e) && final(self)@ == old(self)@,
                        Ok(nl) => r is Ok && final(self)@ == with_ledger(old(self)@, nl),
                    }
                }
            }),
    {
        if !inv.is_authorized(from) {
            return Err(InvoiceError::Unauthorized);
        }
        let ghost orig = self@;
        let (mut l, pos) = self.take(invoice_id);
        if !l.is_settled() {
            self.restore(l, pos, Ghost(orig));
            return Err(InvoiceError::NotSettled);
        }
        if let Some(e) = Self::check_verdict(engine, engine_kyc, inv.timestamp, from, from, amount, InvoiceError::RedemptionBlocked) {
            self.restore(l, pos, Ghost(orig));
            return Err(e);
        }
        let b = l.balance_of(from);
        if b < amount {
            self.restore(l, pos, Ghost(orig));
            return Err(InvoiceError::InsufficientBalance);
        }
        let settlement = l.settlement_amount;
        let supply = l.total_supply;
        if settlement > 0 && supply > 0 {
            let product = match b.checked_mul(settlement) {
                None => {
                    self.restore(l, pos, Ghost(orig));
                    return Err(InvoiceError::Overflow);
                },
                Some(x) => x,
            };
            let cap = div_toward_zero(product, supply);
            if amount > cap {
                self.restore(l, pos, Ghost(orig));
                return Err(InvoiceError::ExceedsProportionalSettlement);
            }
        }
        let nb = match b.checked_sub(amount) {
            None => {
                self.restore(l, pos, Ghost(orig));
                return Err(InvoiceError::Overflow);
            },
            Some(x) => x,
        };
        let ns = match supply.checked_sub(amount) {
            None => {
                self.restore(l, pos, Ghost(orig));
                return Err(InvoiceError::Overflow);
            },
            Some(x) => x,
        };
        l.set_balance(from, nb);
        l.total_supply = ns;
        self.put(l, pos, Ghost(orig));
        Ok(())
    }

    /// `from` (who must authorize, and needs active KYC) destroys `amount` of
    /// its tokens of invoice `invoice_id`; the compliance engine must allow a
    /// transfer from `from` to itself.
    pub fn burn(&mut self, inv: &Invocation, kyc: &KycRegistry, engine: &ComplianceEngine, engine_kyc: &KycRegistry, invoice_id: &Vec<u8>, from: Address, amount: i128) -> (r: Result<(), InvoiceError>)
        requires
            old(self).wf(),
            kyc.id() == old(self)@.kyc_registry,
            engine.id() == old(self)@.compliance_engine,
            engine@.kyc_registry matches Some(k) ==> k == engine_kyc.id(),
        ensures
            final(self).wf(),
            ({
                let l = ledger_of(old(self)@, invoice_id@);
                if !inv.authorized(from) {
                    r == Err::<(), InvoiceError>(InvoiceError::Unauthorized) && final(self)@ == old(self)@
                } else if !approved_at(kyc@, inv.timestamp, from) {
                    r == Err::<(), InvoiceError>(InvoiceError::KycNotApproved) && final(self)@ == old(self)@
                } else if redeem_gate(transfer_verdict(engine@, engine_kyc@, inv.timestamp, from, from, amount)) is Some {
                    r == Err::<(), InvoiceError>(redeem_gate(transfer_verdict(engine@, engine_kyc@, inv.timestamp, from, from, amount))->Some_0)
                        && final(self)@ == old(self)@
                } else if balance_in(l, from) < amount {
                    r == Err::<(), InvoiceError>(InvoiceError::InsufficientBalance) && final(self)@ == old(self)@
                } else {
                    match burned_ledger(l, from, amount) {
                        Err(e) => r == Err::<(), InvoiceError>(e) && final(self)@ == old(self)@,
                        Ok(nl) => r is Ok && final(self)@ == with_ledger(old(self)@, nl),
                    }
                }
            }),
    {
        if !inv.is_authorized(from) {
            return Err(InvoiceError::Unauthorized);
        }
        if !kyc.is_approved(inv.timestamp, from) {
            return Err(InvoiceError::KycNotApproved);
        }
        if let Some(e) = Self::check_verdict(engine, engine_kyc, inv.timestamp, from, from, amount, InvoiceError::RedemptionBlocked) {
            return Err(e);
        }
        let ghost orig = self@;
        let (mut l, pos) = self.take(invoice_id);
        let b = l.balance_of(from);
        if b < amount {
            self.restore(l, pos, Ghost(orig));
            return Err(InvoiceError::InsufficientBalance);
        }
        let nb = match b.checked_sub(amount) {
            None => {
                self.restore(l, pos, Ghost(orig));
                return Err(InvoiceError::Overflow);
            },
            Some(x) => x,
        };
        let ns = match l.total_supply.checked_sub(amount) {
            None => {
                self.restore(l, pos, Ghost(orig));
                return Err(InvoiceError::Overflow);
            },
            Some(x) => x,
        };
        l.set_balance(from, nb);
        l.total_supply = ns;
        self.put(l, pos, Ghost(orig));
        Ok(())
    }

    /// `spender` (who must authorize) destroys `amount` of `from`'s tokens of
    /// invoice `invoice_id` against its allowance; `from` needs active KYC and
    /// the compliance engine must allow a transfer from `from` to itself.
    pub fn burn_from(&mut self, inv: &Invocation, kyc: &KycRegistry, engine: &ComplianceEngine, engine_kyc: &KycRegistry, spender: Address, invoice_id: &Vec<u8>, from: Address, amount: i128) -> (r: Result<(), InvoiceError>)
        requires
            old(self).wf(),
            kyc.id() == old(self)@.kyc_registry,
            engine.id() == old(self)@.compliance_engine,
            engine@.kyc_registry matches Some(k) ==> k == engine_kyc.id(),
        ensures
            final(self).wf(),
            ({
                let l = ledger_of(old(self)@, invoice_id@);
                let al = allowance_in(l, from, spender);
                if !inv.authorized(spender) {
                    r == Err::<(), InvoiceError>(InvoiceError::Unauthorized) && final(self)@ == old(self)@
                } else if !approved_at(kyc@, inv.timestamp, from) {
                    r == Err::<(), InvoiceError>(InvoiceError::KycNotApproved) && final(self)@ == old(self)@
                } else if redeem_gate(transfer_verdict(engine@, engine_kyc@, inv.timestamp, from, from, amount)) is Some {
                    r == Err::<(), InvoiceError>(redeem_gate(transfer_verdict(engine@, engine_kyc@, inv.timestamp, from, from, amount))->Some_0)
                        && final(self)@ == old(self)@
                } else if al.amount < amount {
                    r == Err::<(), InvoiceError>(InvoiceError::InsufficientAllowance) && final(self)@ == old(self)@
                } else if al.expiration_ledger < inv.sequence {
                    r == Err::<(), InvoiceError>(InvoiceError::AllowanceExpired) && final(self)@ == old(self)@
                } else if !fits(al.amount - amount) {
                    r == Err::<(), InvoiceError>(InvoiceError::Overflow) && final(self)@ == old(self)@
                } else if balance_in(l, from) < amount {
                    r == Err::<(), InvoiceError>(InvoiceError::InsufficientBalance) && final(self)@ == old(self)@
                } else {
                    match burned_ledger(l, from, amount) {
                        Err(e) => r == Err::<(), InvoiceError>(e) && final(self)@ == old(self)@,
                        Ok(nl) => r is Ok && final(self)@ == with_ledger(
                            old(self)@,
                            InvoiceLedgerView {
                                allowances: nl.allowances.insert(
                                    (from, spender),
                                    AllowanceValue {
                                        amount: (al.amount - amount) as i128,
                                        expiration_ledger: al.expiration_ledger,
                                    },
                                ),
                                ..nl
                            },
                        ),
                    }
                }
            }),
    {
        if !inv.is_authorized(spender) {
            return Err(InvoiceError::Unauthorized);
        }
        if !kyc.is_approved(inv.timestamp, from) {
            return Err(InvoiceError::KycNotApproved);
        }
        if let Some(e) = Self::check_verdict(engine, engine_kyc, inv.timestamp, from, from, amount, InvoiceError::RedemptionBlocked) {
            return Err(e);
        }
        let ghost orig = self@;
        let (mut l, pos) = self.take(invoice_id);
        let al = l.allowance_of(from, spender);
        if al.amount < amount {
            self.restore(l, pos, Ghost(orig));
            return Err(InvoiceError::InsufficientAllowance);
        }
        if al.expiration_ledger < inv.sequence {
            self.restore(l, pos, Ghost(orig));
            return Err(InvoiceError::AllowanceExpired);
        }
        let na = match al.amount.checked_sub(amount) {
            None => {
                self.restore(l, pos, Ghost(orig));
                return Err(InvoiceError::Overflow);
            },
            Some(x) => x,
        };
        let b = l.balance_of(from);
        if b < amount {
            self.restore(l, pos, Ghost(orig));
            return Err(InvoiceError::InsufficientBalance);
        }
        let nb = match b.checked_sub(amount) {
            None => {
                self.restore(l, pos, Ghost(orig));
                return Err(InvoiceError::Overflow);
            },
            Some(x) => x,
        };
        let ns = match l.total_supply.checked_sub(amount) {
            None => {
                self.restore(l, pos, Ghost(orig));
                return Err(InvoiceError::Overflow);
            },
            Some(x) => x,
        };
        l.set_balance(from, nb);
        l.total_supply = ns;
        l.set_allowance(from, spender, AllowanceValue { amount: na, expiration_ledger: al.expiration_ledger });
        self.put(l, pos, Ghost(orig));
        Ok(())
    }

    fn check_move(
        &self,
        inv: &Invocation,
        kyc: &KycRegistry,
        engine: &ComplianceEngine,
        engine_kyc: &KycRegistry,
        authorizer: Address,
        invoice_id: &Vec<u8>,
        from: Address,
        to: Address,
        amount: i128,
    ) -> (r: Option<InvoiceError>)
        requires
            self.wf(),
            engine@.kyc_registry matches Some(k) ==> k == engine_kyc.id(),
        ensures
            r == invoice_move_gate(self@, kyc@, engine@, engine_kyc@, *inv, authorizer, invoice_id@, from, to, amount),
    {
        if !inv.is_authorized(authorizer) {
            return Some(InvoiceError::Unauthorized);
        }
        let (settled, fd) = match self.find(invoice_id) {
            None => (false, None),
            Some(i) => (self.ledgers[i].is_settled(), self.ledgers[i].face_and_due()),
        };
        if settled {
            return Some(InvoiceError::AlreadySettled);
        }
        let due = match fd {
            None => {
                return Some(InvoiceError::InvoiceNotFound);
            },
            Some((_, d)) => d,
        };
        if inv.timestamp > due {
            return Some(InvoiceError::PastDueDate);
        }
        if amount < 0 {
            return Some(InvoiceError::NegativeAmount);
        }
        if !kyc.is_approved(inv.timestamp, from) || !kyc.is_approved(inv.timestamp, to) {
            return Some(InvoiceError::KycNotApproved);
        }
        Self::check_verdict(engine, engine_kyc, inv.timestamp, from, to, amount, InvoiceError::TransferBlocked)
    }

    /// Applies `moved_ledger` to a ledger held outside the table.
    fn move_in(l: &mut InvoiceLedger, from: Address, to: Address, amount: i128) -> (r: Result<(), InvoiceError>)
        requires
            amount >= 0,
        ensures
            match moved_ledger(old(l)@, from, to, amount) {
                Err(e) => r == Err::<(), InvoiceError>(e) && final(l)@ == old(l)@,
                Ok(nl) => r is Ok && final(l)@ == nl,
            },
    {
        let fb = l.balance_of(from);
        if fb < amount {
            return Err(InvoiceError::InsufficientBalance);
        }
        if from == to {
            l.set_balance(from, fb);
            return Ok(());
        }
        let tb = l.balance_of(to);
        let nt = match tb.checked_add(amount) {
            None => {
                return Err(InvoiceError::Overflow);
            },
            Some(x) => x,
        };
        l.set_balance(from, fb - amount);
        l.set_balance(to, nt);
        Ok(())
    }

    /// Moves `amount` of invoice `invoice_id` from `from` (who must
    /// authorize) to `to`. The invoice must exist, be unsettled and not past
    /// due; both parties need active KYC and the compliance engine must allow
    /// the transfer; `to` is registered as a holder with the engine.
    pub fn transfer(&mut self, inv: &Invocation, kyc: &KycRegistry, engine: &mut ComplianceEngine, engine_kyc: &KycRegistry, invoice_id: &Vec<u8>, from: Address, to: Address, amount: i128) -> (r: Result<(), InvoiceError>)
        requires
            old(self).wf(),
            kyc.id() == old(self)@.kyc_registry,
            old(engine).id() == old(self)@.compliance_engine,
            old(engine)@.kyc_registry matches Some(k) ==> k == engine_kyc.id(),
            !old(engine)@.holder_since.contains_key(to) ==> old(engine)@.holder_count < u32::MAX,
        ensures
            final(self).wf(),
            final(engine).id() == old(engine).id(),
            old(engine).wf() ==> final(engine).wf(),
            r is Ok ==> approved_at(kyc@, inv.timestamp, from) && approved_at(kyc@, inv.timestamp, to)
                && transfer_verdict(old(engine)@, engine_kyc@, inv.timestamp, from, to, amount) == Ok::<
                bool,
                ComplianceError,
            >(true),
            match invoice_move_gate(old(self)@, kyc@, old(engine)@, engine_kyc@, *inv, from, invoice_id@, from, to, amount) {
                Some(e) => r == Err::<(), InvoiceError>(e) && final(self)@ == old(self)@ && final(engine)@ == old(engine)@,
                None => match moved_ledger(ledger_of(old(self)@, invoice_id@), from, to, amount) {
                    Err(e) => r == Err::<(), InvoiceError>(e) && final(self)@ == old(self)@ && final(engine)@ == old(engine)@,
                    Ok(nl) => r is Ok && final(self)@ == with_ledger(old(self)@, nl)
                        && final(engine)@ == with_holder(old(engine)@, inv.timestamp, to),
                },
            },
    {
        if let Some(e) = self.check_move(inv, kyc, engine, engine_kyc, from, invoice_id, from, to, amount) {
            return Err(e);
        }
        let ghost orig = self@;
        let (mut l, pos) = self.take(invoice_id);
        match Self::move_in(&mut l, from, to, amount) {
            Err(e) => {
                self.restore(l, pos, Ghost(orig));
                return Err(e);
            },
            Ok(()) => {},
        }
        self.put(l, pos, Ghost(orig));
        engine.register_holder(inv.timestamp, to);
        Ok(())
    }

    /// Moves `amount` of invoice `invoice_id` from `from` to `to` on
    /// `spender`'s allowance (`spender` must authorize), with the checks of
    /// `transfer`; the allowance must not have lapsed and must cover `amount`.
    pub fn transfer_from(&mut self, inv: &Invocation, kyc: &KycRegistry, engine: &mut ComplianceEngine, engine_kyc: &KycRegistry, spender: Address, invoice_id: &Vec<u8>, from: Address, to: Address, amount: i128) -> (r: Result<(), InvoiceError>)
        requires
            old(self).wf(),
            kyc.id() == old(self)@.kyc_registry,
            old(engine).id() == old(self)@.compliance_engine,
            old(engine)@.kyc_registry matches Some(k) ==> k == engine_kyc.id(),
            !old(engine)@.holder_since.contains_key(to) ==> old(engine)@.holder_count < u32::MAX,
        ensures
            final(self).wf(),
            final(engine).id() == old(engine).id(),
            old(engine).wf() ==> final(engine).wf(),
            r is Ok ==> approved_at(kyc@, inv.timestamp, from) && approved_at(kyc@, inv.timestamp, to)
                && transfer_verdict(old(engine)@, engine_kyc@, inv.timestamp, from, to, amount) == Ok::<
                bool,
                ComplianceError,
            >(true),
            match invoice_move_gate(old(self)@, kyc@, old(engine)@, engine_kyc@, *inv, spender, invoice_id@, from, to, amount) {
                Some(e) => r == Err::<(), InvoiceError>(e) && final(self)@ == old(self)@ && final(engine)@ == old(engine)@,
                None => {
                    let l = ledger_of(old(self)@, invoice_id@);
                    let al = allowance_in(l, from, spender);
                    if al.expiration_ledger < inv.sequence {
                        r == Err::<(), InvoiceError>(InvoiceError::AllowanceExpired) && final(self)@ == old(self)@ && final(engine)@ == old(engine)@
                    } else if al.amount < amount {
                        r == Err::<(), InvoiceError>(InvoiceError::InsufficientAllowance) && final(self)@ == old(self)@ && final(engine)@ == old(engine)@
                    } else {
                        match moved_ledger(l, from, to, amount) {
                            Err(e) => r == Err::<(), InvoiceError>(e) && final(self)@ == old(self)@ && final(engine)@ == old(engine)@,
                            Ok(nl) => r is Ok && final(self)@ == with_ledger(
                                old(self)@,
                                InvoiceLedgerView {
                                    allowances: nl.allowances.insert(
                                        (from, spender),
                                        AllowanceValue {
                                            amount: (al.amount - amount) as i128,
                                            expiration_ledger: al.expiration_ledger,
                                        },
                                    ),
                                    ..nl
                                },
                            ) && final(engine)@ == with_holder(old(engine)@, inv.timestamp, to),
                        }
                    }
                },
            },
    {
        if let Some(e) = self.check_move(inv, kyc, engine, engine_kyc, spender, invoice_id, from, to, amount) {
            return Err(e);
        }
        let ghost orig = self@;
        let (mut l, pos) = self.take(invoice_id);
        let al = l.allowance_of(from, spender);
        if al.expiration_ledger < inv.sequence {
            self.restore(l, pos, Ghost(orig));
            return Err(InvoiceError::AllowanceExpired);
        }
        if al.amount < amount {
            self.restore(l, pos, Ghost(orig));
            return Err(InvoiceError::InsufficientAllowance);
        }
        match Self::move_in(&mut l, from, to, amount) {
            Err(e) => {
                self.restore(l, pos, Ghost(orig));
                return Err(e);
            },
            Ok(()) => {},
        }
        l.set_allowance(from, spender, AllowanceValue { amount: al.amount - amount, expiration_ledger: al.expiration_ledger });
        self.put(l, pos, Ghost(orig));
        engine.register_holder(inv.timestamp, to);
        Ok(())
    }

    /// `from` (who must authorize) lets `spender` move up to `amount` (not
    /// negative) of its tokens of invoice `invoice_id` until ledger
    /// `expiration_ledger`.
    pub fn approve(&mut self, inv: &Invocation, from: Address, spender: Address, invoice_id: &Vec<u8>, amount: i128, expiration_ledger: u32) -> (r: Result<(), InvoiceError>)
        requires
            old(self).wf(),
        ensures
            final(self).wf(),
            ({
                let l = ledger_of(old(self)@, invoice_id@);
                if !inv.authorized(from) {
                    r == Err::<(), InvoiceError>(InvoiceError::Unauthorized) && final(self)@ == old(self)@
                } else if amount < 0 {
                    r == Err::<(), InvoiceError>(InvoiceError::NegativeAmount) && final(self)@ == old(self)@
                } else {
                    r is Ok && final(self)@ == with_ledger(
                        old(self)@,
                        InvoiceLedgerView {
                            allowances: l.allowances.insert((from, spender), AllowanceValue { amount, expiration_ledger }),
                            ..l
                        },
                    )
                }
            }),
    {
        if !inv.is_authorized(from) {
            return Err(InvoiceError::Unauthorized);
        }
        if amount < 0 {
            return Err(InvoiceError::NegativeAmount);
        }
        let ghost orig = self@;
        let (mut l, pos) = self.take(invoice_id);
        l.set_allowance(from, spender, AllowanceValue { amount, expiration_ledger });
        self.put(l, pos, Ghost(orig));
        Ok(())
    }
}

} // verus!
