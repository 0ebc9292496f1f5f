//! Carbon Credit Token: one token is one verified tonne of CO2 equivalent.
//! Tokens are retired (burned) to claim the offset; every retirement leaves a
//! permanent receipt. Minting is admin-gated and still enforces active KYC
//! and the engine's pause and blocklist.

use std::collections::HashMap;
use vstd::prelude::*;
use vstd::string::StrSliceExecFns;
use vstd::string::StringSliceAdditionalSpecFns;

use crate::compliance_engine::{ComplianceError, ComplianceEngine, ComplianceEngineView, transfer_verdict, with_holder};
use crate::dividend::fits;
use crate::kyc_registry::{KycRegistry, KycRegistryView, approved_at};
use crate::types::{Address, Invocation, append_bytes, bytes_eq, copy_bytes, lemma_total_of_empty, lemma_total_of_insert, page, total_of};

verus! {

broadcast use vstd::std_specs::hash::group_hash_axioms;

/// Why a carbon-credit call was refused.
#[derive(Clone, Copy, Debug, PartialEq, Eq, Structural)]
pub enum CarbonError {
    AlreadyInitialized,
    InsufficientBalance,
    KycNotApproved,
    CompliancePaused,
    Blocklisted,
    TransferBlocked,
    /// The project type is not forestry, renewable or methane_capture.
    InvalidProjectType,
    /// The vintage year lies outside 1990..=2050.
    InvalidVintageYear,
    /// A metadata update tried to change the project id.
    ProjectIdImmutable,
    /// The party whose authorization the call needs did not give it.
    Unauthorized,
    /// `accept_admin` was called with no admin proposed.
    NoPendingAdmin,
    /// No retirement receipt has that index.
    ReceiptNotFound,
    /// The compliance engine itself failed while checking.
    ComplianceCheckFailed,
    /// A value left the range of its machine integer.
    Overflow,
}

pub struct ProjectMeta {
    pub project_id: Vec<u8>,
    /// "VCS", "Gold Standard", "CDM", "ACR".
    pub standard: Vec<u8>,
    pub vintage_year: u32,
    pub project_name: Vec<u8>,
    /// "forestry", "renewable" or "methane_capture".
    pub project_type: Vec<u8>,
    pub country: Vec<u8>,
    pub verifier: Vec<u8>,
    /// Verification certificate anchor.
    pub ipfs_cert_hash: Vec<u8>,
}

pub struct ProjectMetaView {
    pub project_id: Seq<u8>,
    pub standard: Seq<u8>,
    pub vintage_year: u32,
    pub project_name: Seq<u8>,
    pub project_type: Seq<u8>,
    pub country: Seq<u8>,
    pub verifier: Seq<u8>,
    pub ipfs_cert_hash: Seq<u8>,
}

impl View for ProjectMeta {
    type V = ProjectMetaView;

    open spec fn view(&self) -> ProjectMetaView {
        ProjectMetaView {
            project_id: self.project_id@,
            standard: self.standard@,
            vintage_year: self.vintage_year,
            project_name: self.project_name@,
            project_type: self.project_type@,
            country: self.country@,
            verifier: self.verifier@,
            ipfs_cert_hash: self.ipfs_cert_hash@,
        }
    }
}

impl ProjectMeta {
    pub fn duplicate(&self) -> (r: ProjectMeta)
        ensures
            r@ == self@,
    {
        ProjectMeta {
            project_id: copy_bytes(&self.project_id),
            standard: copy_bytes(&self.standard),
            vintage_year: self.vintage_year,
            project_name: copy_bytes(&self.project_name),
            project_type: copy_bytes(&self.project_type),
            country: copy_bytes(&self.country),
            verifier: copy_bytes(&self.verifier),
            ipfs_cert_hash: copy_bytes(&self.ipfs_cert_hash),
        }
    }
}

/// A permanent record of one retirement.
pub struct RetirementReceipt {
    pub retiree: Address,
    pub amount: i128,
    pub timestamp: u64,
    pub beneficiary: Vec<u8>,
    pub retirement_reason: Vec<u8>,
}

pub struct RetirementReceiptView {
    pub retiree: Address,
    pub amount: i128,
    pub timestamp: u64,
    pub beneficiary: Seq<u8>,
    pub retirement_reason: Seq<u8>,
}

impl View for RetirementReceipt {
    type V = RetirementReceiptView;

    open spec fn view(&self) -> RetirementReceiptView {
        RetirementReceiptView {
            retiree: self.retiree,
            amount: self.amount,
            timestamp: self.timestamp,
            beneficiary: self.beneficiary@,
            retirement_reason: self.retirement_reason@,
        }
    }
}

impl RetirementReceipt {
    pub fn duplicate(&self) -> (r: RetirementReceipt)
        ensures
            r@ == self@,
    {
        RetirementReceipt {
            retiree: self.retiree,
            amount: self.amount,
            timestamp: self.timestamp,
            beneficiary: copy_bytes(&self.beneficiary),
            retirement_reason: copy_bytes(&self.retirement_reason),
        }
    }
}

/// The accepted project types.
pub open spec fn valid_project_type(t: Seq<u8>) -> bool {
    t == "forestry".spec_bytes() || t == "renewable".spec_bytes() || t == "methane_capture".spec_bytes()
}

fn is_valid_project_type(t: &Vec<u8>) -> (r: bool)
    ensures
        r == valid_project_type(t@),
{
    bytes_eq(t, &"forestry".as_bytes_vec()) || bytes_eq(t, &"renewable".as_bytes_vec())
        || bytes_eq(t, &"methane_capture".as_bytes_vec())
}

/// The accepted vintage years.
pub open spec fn valid_vintage_year(y: u32) -> bool {
    1990 <= y <= 2050
}

/// The decimal digits of `n`, most significant first, without leading zeros.
pub open spec fn decimal(n: nat) -> Seq<u8>
    decreases n,
{
    if n < 10 {
        seq![(48 + n) as u8]
    } else {
        decimal(n / 10).push((48 + n % 10) as u8)
    }
}

/// The decimal rendering of `i`, with a leading '-' when negative.
pub open spec fn signed_decimal(i: int) -> Seq<u8> {
    if i < 0 {
        seq![45u8] + decimal((-i) as nat)
    } else {
        decimal(i as nat)
    }
}

/// Renders `n` in decimal.
pub fn decimal_bytes(n: u128) -> (r: Vec<u8>)
    ensures
        r@ == decimal(n as nat),
    decreases n,
{
    if n < 10 {
        let mut v: Vec<u8> = Vec::new();
        v.push((48 + n) as u8);
        assert(v@ =~= decimal(n as nat));
        v
    } else {
        let mut v = decimal_bytes(n / 10);
        v.push((48 + n % 10) as u8);
        v
    }
}

/// Renders `n` in decimal, with a leading '-' when negative.
pub fn signed_decimal_bytes(n: i128) -> (r: Vec<u8>)
    ensures
        r@ == signed_decimal(n as int),
{
    if n < 0 {
        let magnitude: u128 = if n == i128::MIN {
            0x8000_0000_0000_0000_0000_0000_0000_0000u128
        } else {
            (-n) as u128
        };
        let mut out: Vec<u8> = Vec::new();
        out.push(45);
        let digits = decimal_bytes(magnitude);
        append_bytes(&mut out, &digits);
        assert(out@ =~= signed_decimal(n as int));
        out
    } else {
        decimal_bytes(n as u128)
    }
}

/// The JSON retirement certificate of receipt `r` of project `m`, with the
/// retiree's address rendered as `retiree`. Field values are inserted as they
/// are, without escaping.
pub open spec fn certificate_json(m: ProjectMetaView, r: RetirementReceiptView, retiree: Seq<u8>) -> Seq<u8> {
    "{\"project_id\":\"".spec_bytes() + m.project_id + "\",\"standard\":\"".spec_bytes()
        + m.standard + "\",\"vintage_year\":".spec_bytes() + decimal(m.vintage_year as nat)
        + ",\"retiree\":\"".spec_bytes() + retiree + "\",\"amount\":".spec_bytes()
        + signed_decimal(r.amount as int) + ",\"timestamp\":".spec_bytes() + decimal(
        r.timestamp as nat,
    ) + ",\"beneficiary\":\"".spec_bytes() + r.beneficiary + "\",\"retirement_reason\":\"".spec_bytes()
        + r.retirement_reason + "\"}".spec_bytes()
}

/// The token's state.
pub struct CarbonCreditToken {
    id: Address,
    admin: Address,
    pending_admin: Option<Address>,
    kyc_registry: Address,
    compliance_engine: Address,
    meta: ProjectMeta,
    balances: HashMap<Address, i128>,
    total_supply: i128,
    total_retired: i128,
    receipts: Vec<RetirementReceipt>,
}

/// The token as a mathematical value.
pub struct CarbonView {
    pub id: Address,
    pub admin: Address,
    pub pending_admin: Option<Address>,
    pub kyc_registry: Address,
    pub compliance_engine: Address,
    pub meta: ProjectMetaView,
    pub balances: Map<Address, i128>,
    pub total_supply: i128,
    pub total_retired: i128,
    pub receipts: Seq<RetirementReceiptView>,
}

impl View for CarbonCreditToken {
    type V = CarbonView;

    closed spec fn view(&self) -> CarbonView {
        CarbonView {
            id: self.id,
            admin: self.admin,
            pending_admin: self.pending_admin,
            kyc_registry: self.kyc_registry,
            compliance_engine: self.compliance_engine,
            meta: self.meta@,
            balances: self.balances@,
            total_supply: self.total_supply,
            total_retired: self.total_retired,
            receipts: self.receipts@.map_values(|r: RetirementReceipt| r@),
        }
    }
}

/// The credit balance of `a` (0 when never written).
pub open spec fn credits_of(v: CarbonView, a: Address) -> i128 {
    if v.balances.contains_key(a) {
        v.balances[a]
    } else {
        0
    }
}

/// The refusal, if any, that a compliance verdict turns into.
pub open spec fn carbon_verdict_gate(verdict: Result<bool, crate::compliance_engine::ComplianceError>) -> Option<CarbonError> {
    match verdict {
        Err(_) => Some(CarbonError::ComplianceCheckFailed),
        Ok(false) => Some(CarbonError::TransferBlocked),
        Ok(true) => None,
    }
}

/// The refusal, if any, of a mint to `to` before its arithmetic: admin
/// authorization, the receiver's KYC, and the engine's pause and blocklist.
pub open spec fn carbon_mint_gate(v: CarbonView, kyc: KycRegistryView, engine: ComplianceEngineView, inv: Invocation, to: Address) -> Option<CarbonError> {
    if !inv.authorized(v.admin) {
        Some(CarbonError::Unauthorized)
    } else if !approved_at(kyc, inv.timestamp, to) {
        Some(CarbonError::KycNotApproved)
    } else if engine.rules is None {
        Some(CarbonError::ComplianceCheckFailed)
    } else if engine.rules->Some_0.paused {
        Some(CarbonError::CompliancePaused)
    } else if engine.blocklist.contains(to) {
        Some(CarbonError::Blocklisted)
    } else {
        None
    }
}

/// The balances after `amount` moves from `from` to `to`: the sender is
/// debited first, then the receiver (read afresh) credited.
pub open spec fn carbon_moved(balances: Map<Address, i128>, from: Address, to: Address, amount: i128) -> Result<
    Map<Address, i128>,
    CarbonError,
> {
    let fb = if balances.contains_key(from) { balances[from] } else { 0 };
    if fb < amount {
        Err(CarbonError::InsufficientBalance)
    } else if !fits(fb - amount) {
        Err(CarbonError::Overflow)
    } else {
        let b1 = balances.insert(from, (fb - amount) as i128);
        let tb = if b1.contains_key(to) { b1[to] } else { 0 };
        if !fits(tb + amount) {
            Err(CarbonError::Overflow)
        } else {
            Ok(b1.insert(to, (tb + amount) as i128))
        }
    }
}

impl CarbonCreditToken {
    /// The invariant the token keeps: the receipt count fits its 32-bit
    /// counter, and the supply is the sum of all balances.
    pub open spec fn wf(&self) -> bool {
        &&& self@.receipts.len() <= u32::MAX
        &&& self@.total_supply == total_of(self@.balances)
    }

    /// Deploys the token at `id`; an invalid project type is refused.
    pub fn new(id: Address, admin: Address, kyc_registry: Address, compliance_engine: Address, meta: ProjectMeta) -> (r: Result<CarbonCreditToken, CarbonError>)
        ensures
            !valid_project_type(meta.project_type@) ==> r == Err::<CarbonCreditToken, CarbonError>(
                CarbonError::InvalidProjectType,
            ),
            valid_project_type(meta.project_type@) ==> r is Ok && r->Ok_0.wf() && r->Ok_0@ == (CarbonView {
                id,
                admin,
                pending_admin: None,
                kyc_registry,
                compliance_engine,
                meta: meta@,
                balances: Map::empty(),
                total_supply: 0,
                total_retired: 0,
                receipts: Seq::empty(),
            }),
    {
        if !is_valid_project_type(&meta.project_type) {
            return Err(CarbonError::InvalidProjectType);
        }
        let t = CarbonCreditToken {
            id,
            admin,
            pending_admin: None,
            kyc_registry,
            compliance_engine,
            meta,
            balances: HashMap::new(),
            total_supply: 0,
            total_retired: 0,
            receipts: Vec::new(),
        };
        proof {
            assert(t@.balances =~= Map::empty());
            lemma_total_of_empty();
            assert(t@.receipts =~= Seq::empty());
        }
        Ok(t)
    }

    /// Initialization after deployment: always refused, since the token is
    /// set up when it is deployed and nobody may set it up again.
    pub fn initialize(&self, admin: Address, kyc_registry: Address, compliance_engine: Address, meta: ProjectMeta) -> (r: Result<(), CarbonError>)
        ensures
            r == Err::<(), CarbonError>(CarbonError::AlreadyInitialized),
    {
        Err(CarbonError::AlreadyInitialized)
    }

    fn require_admin(&self, inv: &Invocation) -> (r: Result<(), CarbonError>)
        ensures
            r is Ok <==> inv.authorized(self@.admin),
            r is Err ==> r == Err::<(), CarbonError>(CarbonError::Unauthorized),
    {
        if inv.is_authorized(self.admin) {
            Ok(())
        } else {
            Err(CarbonError::Unauthorized)
        }
    }

    /// Points the token at another KYC registry (admin only).
    pub fn update_kyc_registry(&mut self, inv: &Invocation, new_registry: Address) -> (r: Result<(), CarbonError>)
        requires
            old(self).wf(),
        ensures
            final(self).wf(),
            inv.authorized(old(self)@.admin) ==> r is Ok && final(self)@ == (CarbonView {
                kyc_registry: new_registry,
                ..old(self)@
            }),
            !inv.authorized(old(self)@.admin) ==> r == Err::<(), CarbonError>(
                CarbonError::Unauthorized,
            ) && final(self)@ == old(self)@,
    {
        self.require_admin(inv)?;
        self.kyc_registry = new_registry;
        Ok(())
    }

    /// Points the token at another compliance engine (admin only).
    pub fn update_compliance_engine(&mut self, inv: &Invocation, new_engine: Address) -> (r: Result<(), CarbonError>)
        requires
            old(self).wf(),
        ensures
            final(self).wf(),
            inv.authorized(old(self)@.admin) ==> r is Ok && final(self)@ == (CarbonView {
                compliance_engine: new_engine,
                ..old(self)@
            }),
            !inv.authorized(old(self)@.admin) ==> r == Err::<(), CarbonError>(
                CarbonError::Unauthorized,
            ) && final(self)@ == old(self)@,
    {
        self.require_admin(inv)?;
        self.compliance_engine = new_engine;
        Ok(())
    }

    /// Proposes a new admin; the admin must authorize.
    pub fn propose_admin(&mut self, inv: &Invocation, new_admin: Address) -> (r: Result<(), CarbonError>)
        requires
            old(self).wf(),
        ensures
            final(self).wf(),
            inv.authorized(old(self)@.admin) ==> r is Ok && final(self)@ == (CarbonView {
                pending_admin: Some(new_admin),
                ..old(self)@
            }),
            !inv.authorized(old(self)@.admin) ==> r == Err::<(), CarbonError>(
                CarbonError::Unauthorized,
            ) && final(self)@ == old(self)@,
    {
        self.require_admin(inv)?;
        self.pending_admin = Some(new_admin);
        Ok(())
    }

    /// The proposed admin takes over; it must authorize.
    pub fn accept_admin(&mut self, inv: &Invocation) -> (r: Result<(), CarbonError>)
        requires
            old(self).wf(),
        ensures
            final(self).wf(),
            match old(self)@.pending_admin {
                None => r == Err::<(), CarbonError>(CarbonError::NoPendingAdmin) && final(self)@ == old(self)@,
                Some(p) => if inv.authorized(p) {
                    r is Ok && final(self)@ == (CarbonView { admin: p, pending_admin: None, ..old(self)@ })
                } else {
                    r == Err::<(), CarbonError>(CarbonError::Unauthorized) && final(self)@ == old(self)@
                },
            },
    {
        let pending = match self.pending_admin {
            None => {
                return Err(CarbonError::NoPendingAdmin);
            },
            Some(p) => p,
        };
        if !inv.is_authorized(pending) {
            return Err(CarbonError::Unauthorized);
        }
        self.admin = pending;
        self.pending_admin = None;
        Ok(())
    }

    /// The project metadata.
    pub fn get_meta(&self) -> (r: ProjectMeta)
        ensures
            r@ == self@.meta,
    {
        self.meta.duplicate()
    }

    /// Replaces the project metadata (admin only): the project type must stay
    /// valid, the vintage year within 1990..=2050, and the project id unchanged.
    pub fn update_meta(&mut self, inv: &Invocation, new_meta: ProjectMeta) -> (r: Result<(), CarbonError>)
        requires
            old(self).wf(),
        ensures
            final(self).wf(),
            if !inv.authorized(old(self)@.admin) {
                r == Err::<(), CarbonError>(CarbonError::Unauthorized) && final(self)@ == old(self)@
            } else if !valid_project_type(new_meta.project_type@) {
                r == Err::<(), CarbonError>(CarbonError::InvalidProjectType) && final(self)@ == old(self)@
            } else if !valid_vintage_year(new_meta.vintage_year) {
                r == Err::<(), CarbonError>(CarbonError::InvalidVintageYear) && final(self)@ == old(self)@
            } else if new_meta.project_id@ != old(self)@.meta.project_id {
                r == Err::<(), CarbonError>(CarbonError::ProjectIdImmutable) && final(self)@ == old(self)@
            } else {
                r is Ok && final(self)@ == (CarbonView { meta: new_meta@, ..old(self)@ })
            },
    {
        self.require_admin(inv)?;
        if !is_valid_project_type(&new_meta.project_type) {
            return Err(CarbonError::InvalidProjectType);
        }
        if new_meta.vintage_year < 1990 || new_meta.vintage_year > 2050 {
            return Err(CarbonError::InvalidVintageYear);
        }
        if !bytes_eq(&new_meta.project_id, &self.meta.project_id) {
            return Err(CarbonError::ProjectIdImmutable);
        }
        self.meta = new_meta;
        Ok(())
    }

    pub fn name(&self) -> (r: Vec<u8>)
        ensures
            r@ == "Veritoken Carbon Credit".spec_bytes(),
    {
        "Veritoken Carbon Credit".as_bytes_vec()
    }

    pub fn symbol(&self) -> (r: Vec<u8>)
        ensures
            r@ == "VTCC".spec_bytes(),
    {
        "VTCC".as_bytes_vec()
    }

    pub fn decimals(&self) -> (r: u32)
        ensures
            r == 0,
    {
        0
    }

    /// The release of the contract kit.
    pub fn version(&self) -> (r: Vec<u8>)
        ensures
            r@ == crate::compliance_engine::kit_version(),
    {
        crate::compliance_engine::version_string()
    }

    /// The credit balance of `id`.
    pub fn balance(&self, id: Address) -> (r: i128)
        ensures
            r == credits_of(self@, id),
    {
        match self.balances.get(&id) {
            None => 0,
            Some(b) => *b,
        }
    }

    /// The credits in circulation.
    pub fn total_supply(&self) -> (r: i128)
        ensures
            r == self@.total_supply,
    {
        self.total_supply
    }

    /// The credits retired so far.
    pub fn total_retired(&self) -> (r: i128)
        ensures
            r == self@.total_retired,
    {
        self.total_retired
    }

    /// The number of retirements so far.
    pub fn retirement_count(&self) -> (r: u32)
        requires
            self.wf(),
        ensures
            r == self@.receipts.len(),
    {
        self.receipts.len() as u32
    }

    proof fn lemma_receipt_views(&self)
        ensures
            self@.receipts.len() == self.receipts@.len(),
            forall|j: int| 0 <= j < self.receipts@.len() ==> #[trigger] self@.receipts[j] == self.receipts@[j]@,
    {
    }

    /// The receipt of retirement number `index` (from 0).
    pub fn get_receipt(&self, index: u32) -> (r: Result<RetirementReceipt, CarbonError>)
        ensures
            index < self@.receipts.len() ==> r is Ok && r->Ok_0@ == self@.receipts[index as int],
            index >= self@.receipts.len() ==> r == Err::<RetirementReceipt, CarbonError>(
                CarbonError::ReceiptNotFound,
            ),
    {
        proof {
            self.lemma_receipt_views();
        }
        if (index as usize) < self.receipts.len() {
            Ok(self.receipts[index as usize].duplicate())
        } else {
            Err(CarbonError::ReceiptNotFound)
        }
    }

    /// At most `limit` (never more than 100) receipts from offset `start`.
    pub fn get_receipts(&self, start: u32, limit: u32) -> (r: Vec<RetirementReceipt>)
        requires
            start + (if limit < 100 { limit as int } else { 100 }) <= u32::MAX,
        ensures
            r@.map_values(|x: RetirementReceipt| x@) == page(self@.receipts, start as int, limit as int, 100),
    {
        proof {
            self.lemma_receipt_views();
        }
        let n: u64 = if limit > 100 { 100 } else { limit as u64 };
        let mut out: Vec<RetirementReceipt> = Vec::new();
        if start as usize >= self.receipts.len() {
            proof {
                assert(out@.map_values(|x: RetirementReceipt| x@) =~= Seq::<RetirementReceiptView>::empty());
            }
            return out;
        }
        let s: usize = start as usize;
        let end: usize = if (start as u64) + n < self.receipts.len() as u64 {
            (start as u64 + n) as usize
        } else {
            self.receipts.len()
        };
        let mut i: usize = s;
        while i < end
            invariant
                s <= i <= end <= self.receipts.len(),
                self@.receipts.len() == self.receipts@.len(),
                forall|j: int| 0 <= j < self.receipts@.len() ==> #[trigger] self@.receipts[j] == self.receipts@[j]@,
                out@.map_values(|x: RetirementReceipt| x@) =~= self@.receipts.subrange(s as int, i as int),
            decreases end - i,
        {
            let ghost before = out@.map_values(|x: RetirementReceipt| x@);
            let c = self.receipts[i].duplicate();
            out.push(c);
            proof {
                assert(out@.map_values(|x: RetirementReceipt| x@) =~= before.push(self@.receipts[i as int]));
                assert(self@.receipts.subrange(s as int, i as int + 1) =~= self@.receipts.subrange(
                    s as int,
                    i as int,
                ).push(self@.receipts[i as int]));
            }
            i = i + 1;
        }
        out
    }

    /// The JSON retirement certificate of receipt `index`, where `retiree` is
    /// the retiree's address as text.
    pub fn to_certificate_json(&self, index: u32, retiree: &Vec<u8>) -> (r: Result<Vec<u8>, CarbonError>)
        ensures
            index < self@.receipts.len() ==> r is Ok && r->Ok_0@ == certificate_json(
                self@.meta,
                self@.receipts[index as int],
                retiree@,
            ),
            index >= self@.receipts.len() ==> r == Err::<Vec<u8>, CarbonError>(
                CarbonError::ReceiptNotFound,
            ),
    {
        proof {
            self.lemma_receipt_views();
        }
        if index as usize >= self.receipts.len() {
            return Err(CarbonError::ReceiptNotFound);
        }
        let receipt = &self.receipts[index as usize];
        let meta = &self.meta;
        let mut out: Vec<u8> = Vec::new();
        append_bytes(&mut out, &"{\"project_id\":\"".as_bytes_vec());
        append_bytes(&mut out, &meta.project_id);
        append_bytes(&mut out, &"\",\"standard\":\"".as_bytes_vec());
        append_bytes(&mut out, &meta.standard);
        append_bytes(&mut out, &"\",\"vintage_year\":".as_bytes_vec());
        append_bytes(&mut out, &decimal_bytes(meta.vintage_year as u128));
        append_bytes(&mut out, &",\"retiree\":\"".as_bytes_vec());
        append_bytes(&mut out, retiree);
        append_bytes(&mut out, &"\",\"amount\":".as_bytes_vec());
        append_bytes(&mut out, &signed_decimal_bytes(receipt.amount));
        append_bytes(&mut out, &",\"timestamp\":".as_bytes_vec());
        append_bytes(&mut out, &decimal_bytes(receipt.timestamp as u128));
        append_bytes(&mut out, &",\"beneficiary\":\"".as_bytes_vec());
        append_bytes(&mut out, &receipt.beneficiary);
        append_bytes(&mut out, &"\",\"retirement_reason\":\"".as_bytes_vec());
        append_bytes(&mut out, &receipt.retirement_reason);
        append_bytes(&mut out, &"\"}".as_bytes_vec());
        proof {
            assert(out@ =~= certificate_json(self@.meta, self@.receipts[index as int], retiree@));
        }
        Ok(out)
    }

    fn check_verdict(engine: &ComplianceEngine, engine_kyc: &KycRegistry, now: u64, from: Address, to: Address, amount: i128) -> (r: Option<CarbonError>)
        requires
            engine@.kyc_registry matches Some(k) ==> k == engine_kyc.id(),
        ensures
            r == carbon_verdict_gate(transfer_verdict(engine@, engine_kyc@, now, from, to, amount)),
    {
        match engine.can_transfer(engine_kyc, now, from, to, amount) {
            Err(_) => Some(CarbonError::ComplianceCheckFailed),
            Ok(false) => Some(CarbonError::TransferBlocked),
            Ok(true) => None,
        }
    }

    fn balance_of(&self, a: Address) -> (r: i128)
        ensures
            r == credits_of(self@, a),
    {
        self.balance(a)
    }

    /// Issues `amount` credits to `to` (admin only); `to` needs active KYC,
    /// and the compliance engine must be neither paused nor blocking `to`.
    /// `to` is registered as a holder with the engine.
    pub fn mint(&mut self, inv: &Invocation, kyc: &KycRegistry, engine: &mut ComplianceEngine, to: Address, amount: i128) -> (r: Result<(), CarbonError>)
        requires
            old(self).wf(),
            kyc.id() == old(self)@.kyc_registry,
            old(engine).id() == old(self)@.compliance_engine,
            !old(engine)@.holder_since.contains_key(to) ==> old(engine)@.holder_count < u32::MAX,
        ensures
            final(self).wf(),
            final(engine).id() == old(engine).id(),
            old(engine).wf() ==> final(engine).wf(),
            match carbon_mint_gate(old(self)@, kyc@, old(engine)@, *inv, to) {
                Some(e) => r == Err::<(), CarbonError>(e) && final(self)@ == old(self)@ && final(engine)@ == old(engine)@,
                None => {
                    let b = credits_of(old(self)@, to);
                    if !fits(b + amount) || !fits(old(self)@.total_supply + amount) {
                        r == Err::<(), CarbonError>(CarbonError::Overflow) && final(self)@ == old(self)@ && final(engine)@ == old(engine)@
                    } else {
                        r is Ok && final(self)@ == (CarbonView {
                            balances: old(self)@.balances.insert(to, (b + amount) as i128),
                            total_supply: (old(self)@.total_supply + amount) as i128,
                            ..old(self)@
                        }) && final(engine)@ == with_holder(old(engine)@, inv.timestamp, to)
                    }
                },
            },
    {
        self.require_admin(inv)?;
        if !kyc.is_approved(inv.timestamp, to) {
            return Err(CarbonError::KycNotApproved);
        }
        let rules = match engine.get_rules() {
            Err(_) => {
                return Err(CarbonError::ComplianceCheckFailed);
            },
            Ok(r) => r,
        };
        if rules.paused {
            return Err(CarbonError::CompliancePaused);
        }
        if engine.is_blocklisted(to) {
            return Err(CarbonError::Blocklisted);
        }
        let b = self.balance_of(to);
        let nb = match b.checked_add(amount) {
            None => {
                return Err(CarbonError::Overflow);
            },
            Some(x) => x,
        };
        let ns = match self.total_supply.checked_add(amount) {
            None => {
                return Err(CarbonError::Overflow);
            },
            Some(x) => x,
        };
        proof {
            lemma_total_of_insert(self@.balances, to, nb);
        }
        self.balances.insert(to, nb);
        self.total_supply = ns;
        engine.register_holder(inv.timestamp, to);
        Ok(())
    }

    /// Moves `amount` credits from `from` (who must authorize) to `to`; both
    /// need active KYC and the compliance engine must allow the transfer.
    /// `to` is registered as a holder with the engine.
    pub fn transfer(&mut self, inv: &Invocation, kyc: &KycRegistry, engine: &mut ComplianceEngine, engine_kyc: &KycRegistry, from: Address, to: Address, amount: i128) -> (r: Result<(), CarbonError>)
        requires
            old(self).wf(),
            kyc.id() == old(self)@.kyc_registry,
            old(engine).id() == old(self)@.compliance_engine,
            old(engine)@.kyc_registry matches Some(k) ==> k == engine_kyc.id(),
            !old(engine)@.holder_since.contains_key(to) ==> old(engine)@.holder_count < u32::MAX,
        ensures
            final(self).wf(),
            final(engine).id() == old(engine).id(),
            old(engine).wf() ==> final(engine).wf(),
            r is Ok ==> approved_at(kyc@, inv.timestamp, from) && approved_at(kyc@, inv.timestamp, to)
                && transfer_verdict(old(engine)@, engine_kyc@, inv.timestamp, from, to, amount) == Ok::<
                bool,
                ComplianceError,
            >(true),
            if !inv.authorized(from) {
                r == Err::<(), CarbonError>(CarbonError::Unauthorized) && final(self)@ == old(self)@ && final(engine)@ == old(engine)@
            } else if !approved_at(kyc@, inv.timestamp, from) || !approved_at(kyc@, inv.timestamp, to) {
                r == Err::<(), CarbonError>(CarbonError::KycNotApproved) && final(self)@ == old(self)@ && final(engine)@ == old(engine)@
            } else if carbon_verdict_gate(transfer_verdict(old(engine)@, engine_kyc@, inv.timestamp, from, to, amount)) is Some {
                r == Err::<(), CarbonError>(carbon_verdict_gate(transfer_verdict(old(engine)@, engine_kyc@, inv.timestamp, from, to, amount))->Some_0)
                    && final(self)@ == old(self)@ && final(engine)@ == old(engine)@
            } else {
                match carbon_moved(old(self)@.balances, from, to, amount) {
                    Err(e) => r == Err::<(), CarbonError>(e) && final(self)@ == old(self)@ && final(engine)@ == old(engine)@,
                    Ok(m) => r is Ok && final(self)@ == (CarbonView { balances: m, ..old(self)@ })
                        && final(engine)@ == with_holder(old(engine)@, inv.timestamp, to),
                }
            },
    {
        if !inv.is_authorized(from) {
            return Err(CarbonError::Unauthorized);
        }
        if !kyc.is_approved(inv.timestamp, from) || !kyc.is_approved(inv.timestamp, to) {
            return Err(CarbonError::KycNotApproved);
        }
        if let Some(e) = Self::check_verdict(engine, engine_kyc, inv.timestamp, from, to, amount) {
            return Err(e);
        }
        let fb = self.balance_of(from);
        if fb < amount {
            return Err(CarbonError::InsufficientBalance);
        }
        let nf = match fb.checked_sub(amount) {
            None => {
                return Err(CarbonError::Overflow);
            },
            Some(x) => x,
        };
        let tb = if from == to {
            nf
        } else {
            self.balance_of(to)
        };
        let nt = match tb.checked_add(amount) {
            None => {
                return Err(CarbonError::Overflow);
            },
            Some(x) => x,
        };
        proof {
            lemma_total_of_insert(self@.balances, from, nf);
            lemma_total_of_insert(self@.balances.insert(from, nf), to, nt);
        }
        self.balances.insert(from, nf);
        self.balances.insert(to, nt);
        proof {
            let b1 = old(self)@.balances.insert(from, nf);
            assert(self@.balances =~= b1.insert(to, nt));
        }
        engine.register_holder(inv.timestamp, to);
        Ok(())
    }

    /// `retiree` (who must authorize, and needs active KYC) permanently
    /// retires `amount` credits; the compliance engine must allow a transfer
    /// from the retiree to itself. The supply shrinks, the retired total grows,
    /// and a receipt is recorded and returned.
    pub fn retire(&mut self, inv: &Invocation, kyc: &KycRegistry, engine: &ComplianceEngine, engine_kyc: &KycRegistry, retiree: Address, amount: i128, beneficiary: Vec<u8>, reason: Vec<u8>) -> (r: Result<RetirementReceipt, CarbonError>)
        requires
            old(self).wf(),
            inv.authorized(retiree) && approved_at(kyc@, inv.timestamp, retiree) && carbon_verdict_gate(
                transfer_verdict(engine@, engine_kyc@, inv.timestamp, retiree, retiree, amount),
            ) is None && credits_of(old(self)@, retiree) >= amount && fits(credits_of(old(self)@, retiree) - amount)
                && fits(old(self)@.total_supply - amount) && fits(old(self)@.total_retired + amount)
                ==> old(self)@.receipts.len() < u32::MAX,
            kyc.id() == old(self)@.kyc_registry,
            engine.id() == old(self)@.compliance_engine,
            engine@.kyc_registry matches Some(k) ==> k == engine_kyc.id(),
        ensures
            final(self).wf(),
            r is Ok ==> approved_at(kyc@, inv.timestamp, retiree) && transfer_verdict(
                engine@,
                engine_kyc@,
                inv.timestamp,
                retiree,
                retiree,
                amount,
            ) == Ok::<bool, ComplianceError>(true),
            r is Ok ==> final(self)@.total_supply + final(self)@.total_retired == old(self)@.total_supply
                + old(self)@.total_retired,
            r is Ok ==> credits_of(final(self)@, retiree) == credits_of(old(self)@, retiree) - amount
                && final(self)@.receipts.len() == old(self)@.receipts.len() + 1,
            final(self)@.receipts.take(old(self)@.receipts.len() as int) == old(self)@.receipts,
            ({
                let v = old(self)@;
                let b = credits_of(v, retiree);
                let receipt = RetirementReceiptView {
                    retiree,
                    amount,
                    timestamp: inv.timestamp,
                    beneficiary: beneficiary@,
                    retirement_reason: reason@,
                };
                if !inv.authorized(retiree) {
                    r == Err::<RetirementReceipt, CarbonError>(CarbonError::Unauthorized) && final(self)@ == v
                } else if !approved_at(kyc@, inv.timestamp, retiree) {
                    r == Err::<RetirementReceipt, CarbonError>(CarbonError::KycNotApproved) && final(self)@ == v
                } else if carbon_verdict_gate(transfer_verdict(engine@, engine_kyc@, inv.timestamp, retiree, retiree, amount)) is Some {
                    r == Err::<RetirementReceipt, CarbonError>(carbon_verdict_gate(transfer_verdict(engine@, engine_kyc@, inv.timestamp, retiree, retiree, amount))->Some_0)
                        && final(self)@ == v
                } else if b < amount {
                    r == Err::<RetirementReceipt, CarbonError>(CarbonError::InsufficientBalance) && final(self)@ == v
                } else if !fits(b - amount) || !fits(v.total_supply - amount) || !fits(v.total_retired + amount) {
                    r == Err::<RetirementReceipt, CarbonError>(CarbonError::Overflow) && final(self)@ == v
                } else {
                    r is Ok && r->Ok_0@ == receipt && final(self)@ == (CarbonView {
                        balances: v.balances.insert(retiree, (b - amount) as i128),
                        total_supply: (v.total_supply - amount) as i128,
                        total_retired: (v.total_retired + amount) as i128,
                        receipts: v.receipts.push(receipt),
                        ..v
                    })
                }
            }),
    {
        if !inv.is_authorized(retiree) {
            return Err(CarbonError::Unauthorized);
        }
        if !kyc.is_approved(inv.timestamp, retiree) {
            return Err(CarbonError::KycNotApproved);
        }
        if let Some(e) = Self::check_verdict(engine, engine_kyc, inv.timestamp, retiree, retiree, amount) {
            return Err(e);
        }
        let b = self.balance_of(retiree);
        if b < amount {
            return Err(CarbonError::InsufficientBalance);
        }
        let nb = match b.checked_sub(amount) {
            None => {
                return Err(CarbonError::Overflow);
            },
            Some(x) => x,
        };
        let ns = match self.total_supply.checked_sub(amount) {
            None => {
                return Err(CarbonError::Overflow);
            },
            Some(x) => x,
        };
        let nr = match self.total_retired.checked_add(amount) {
            None => {
                return Err(CarbonError::Overflow);
            },
            Some(x) => x,
        };
        proof {
            lemma_total_of_insert(self@.balances, retiree, nb);
        }
        self.balances.insert(retiree, nb);
        self.total_supply = ns;
        self.total_retired = nr;
        let receipt = RetirementReceipt {
            retiree,
            amount,
            timestamp: inv.timestamp,
            beneficiary,
            retirement_reason: reason,
        };
        let out = receipt.duplicate();
        let ghost rv = receipt@;
        self.receipts.push(receipt);
        proof {
            assert(self@.receipts =~= old(self)@.receipts.push(rv));
        }
        Ok(out)
    }
}

} // verus!
