//! Property Token: fractional ownership of real estate. Each token is one
//! share out of `total_shares`; dividends are distributed pro rata through a
//! dividend-per-share index. Minting is admin-gated and still enforces active
//! KYC, the configured minimum KYC tier, and the compliance engine.

use std::collections::HashMap;
use vstd::prelude::*;
use vstd::string::StrSliceExecFns;
use vstd::string::StringSliceAdditionalSpecFns;

use crate::compliance_engine::{ComplianceError, ComplianceEngine, ComplianceEngineView, transfer_verdict, with_holder};
use crate::dividend::{
    Account, fits, new_account, pending, rebase, rebased, settle, settle_typed, settled,
    settled_typed, zero_account,
};
use crate::kyc_registry::{KycRegistry, KycRegistryView, approved_at};
use crate::pair_map::PairMap;
use crate::types::{
    Address, Invocation, bytes_eq, contains_address, copy_addresses, copy_bytes, no_duplicates,
    page, page_of, remove_address, trunc_div, div_toward_zero, without, differs_from,
};

verus! {

broadcast use vstd::std_specs::hash::group_hash_axioms;

/// Why a property-token call was refused.
#[derive(Clone, Copy, Debug, PartialEq, Eq, Structural)]
pub enum PropertyError {
    AlreadyInitialized,
    NegativeShares,
    InsufficientShares,
    NoShares,
    KycNotApproved,
    KycTierTooLow,
    CompliancePaused,
    Blocklisted,
    TransferBlocked,
    /// The property type is not residential, commercial or land.
    InvalidPropertyType,
    /// The party whose authorization the call needs did not give it.
    Unauthorized,
    /// `accept_admin` was called with no admin proposed.
    NoPendingAdmin,
    /// A metadata update tried to change the property id or the share count.
    ImmutableField,
    /// A mint would take the outstanding shares past the authorized count.
    ExceedsAuthorizedShares,
    /// The compliance engine refused a mint.
    MintBlocked,
    InsufficientAllowance,
    /// A positive allowance was given an expiration ledger already passed.
    ExpirationInPast,
    /// The compliance engine itself failed while checking the transfer.
    ComplianceCheckFailed,
    /// A value left the range of its machine integer.
    Overflow,
}

#[derive(Clone, Copy, Debug, PartialEq, Eq, Structural)]
pub enum DistributionType {
    Rent,
    Capital,
    Other,
}

impl DistributionType {
    /// The number that stands for the type in deposits: 0, 1, 2.
    pub fn code(&self) -> (r: u32)
        ensures
            r == distribution_code(*self),
    {
        match self {
            DistributionType::Rent => 0,
            DistributionType::Capital => 1,
            DistributionType::Other => 2,
        }
    }
}

pub open spec fn distribution_code(t: DistributionType) -> u32 {
    match t {
        DistributionType::Rent => 0,
        DistributionType::Capital => 1,
        DistributionType::Other => 2,
    }
}

/// One dividend deposit as recorded in the history.
#[derive(Clone, Copy, Debug, PartialEq, Eq, Structural)]
pub struct DividendEvent {
    pub amount: i128,
    pub timestamp: u64,
    /// The general dividend-per-share index after this deposit.
    pub running_total_dps: i128,
    pub distribution_type: u32,
}

/// A delegated-transfer allowance.
#[derive(Clone, Copy, Debug, PartialEq, Eq, Structural)]
pub struct AllowanceValue {
    pub amount: i128,
    pub expiration_ledger: u32,
}

pub struct PropertyMeta {
    pub property_id: Vec<u8>,
    pub legal_name: Vec<u8>,
    pub jurisdiction: Vec<u8>,
    pub address: Vec<u8>,
    pub total_valuation_usd: i128,
    pub total_shares: i128,
    /// "residential", "commercial" or "land".
    pub property_type: Vec<u8>,
    /// Off-chain title document anchor.
    pub ipfs_title_hash: Vec<u8>,
    /// Minimum KYC tier for shareholders.
    pub kyc_tier_required: u32,
}

pub struct PropertyMetaView {
    pub property_id: Seq<u8>,
    pub legal_name: Seq<u8>,
    pub jurisdiction: Seq<u8>,
    pub address: Seq<u8>,
    pub total_valuation_usd: i128,
    pub total_shares: i128,
    pub property_type: Seq<u8>,
    pub ipfs_title_hash: Seq<u8>,
    pub kyc_tier_required: u32,
}

impl View for PropertyMeta {
    type V = PropertyMetaView;

    open spec fn view(&self) -> PropertyMetaView {
        PropertyMetaView {
            property_id: self.property_id@,
            legal_name: self.legal_name@,
            jurisdiction: self.jurisdiction@,
            address: self.address@,
            total_valuation_usd: self.total_valuation_usd,
            total_shares: self.total_shares,
            property_type: self.property_type@,
            ipfs_title_hash: self.ipfs_title_hash@,
            kyc_tier_required: self.kyc_tier_required,
        }
    }
}

impl PropertyMeta {
    pub fn duplicate(&self) -> (r: PropertyMeta)
        ensures
            r@ == self@,
    {
        PropertyMeta {
            property_id: copy_bytes(&self.property_id),
            legal_name: copy_bytes(&self.legal_name),
            jurisdiction: copy_bytes(&self.jurisdiction),
            address: copy_bytes(&self.address),
            total_valuation_usd: self.total_valuation_usd,
            total_shares: self.total_shares,
            property_type: copy_bytes(&self.property_type),
            ipfs_title_hash: copy_bytes(&self.ipfs_title_hash),
            kyc_tier_required: self.kyc_tier_required,
        }
    }
}

/// The accepted property types.
pub open spec fn valid_property_type(t: Seq<u8>) -> bool {
    t == "residential".spec_bytes() || t == "commercial".spec_bytes() || t == "land".spec_bytes()
}

fn is_valid_property_type(t: &Vec<u8>) -> (r: bool)
    ensures
        r == valid_property_type(t@),
{
    bytes_eq(t, &"residential".as_bytes_vec()) || bytes_eq(t, &"commercial".as_bytes_vec())
        || bytes_eq(t, &"land".as_bytes_vec())
}

/// The token's state.
pub struct PropertyToken {
    id: Address,
    admin: Address,
    pending_admin: Option<Address>,
    kyc_registry: Address,
    compliance_engine: Address,
    meta: PropertyMeta,
    total_shares: i128,
    dividend_pool: i128,
    dps: i128,
    dps_rent: i128,
    dps_capital: i128,
    accounts: HashMap<Address, Account>,
    allowances: PairMap<AllowanceValue>,
    holders: Vec<Address>,
    holder_count: u32,
    deposits: Vec<DividendEvent>,
}

/// The token as a mathematical value.
pub struct PropertyView {
    pub id: Address,
    pub admin: Address,
    pub pending_admin: Option<Address>,
    pub kyc_registry: Address,
    pub compliance_engine: Address,
    pub meta: PropertyMetaView,
    /// The authorized share count (the meta value at deployment, reduced by buybacks).
    pub total_shares: i128,
    /// Deposited and not yet claimed dividends.
    pub dividend_pool: i128,
    pub dps: i128,
    pub dps_rent: i128,
    pub dps_capital: i128,
    pub accounts: Map<Address, Account>,
    pub allowances: Map<(Address, Address), AllowanceValue>,
    pub holders: Seq<Address>,
    pub holder_count: u32,
    pub deposits: Seq<DividendEvent>,
}

impl View for PropertyToken {
    type V = PropertyView;

    closed spec fn view(&self) -> PropertyView {
        PropertyView {
            id: self.id,
            admin: self.admin,
            pending_admin: self.pending_admin,
            kyc_registry: self.kyc_registry,
            compliance_engine: self.compliance_engine,
            meta: self.meta@,
            total_shares: self.total_shares,
            dividend_pool: self.dividend_pool,
            dps: self.dps,
            dps_rent: self.dps_rent,
            dps_capital: self.dps_capital,
            accounts: self.accounts@,
            allowances: self.allowances@,
            holders: self.holders@,
            holder_count: self.holder_count,
            deposits: self.deposits@,
        }
    }
}

/// The position of `a` (all zero for an address never seen).
pub open spec fn account_of(v: PropertyView, a: Address) -> Account {
    if v.accounts.contains_key(a) {
        v.accounts[a]
    } else {
        zero_account()
    }
}

/// The share balance of `a`.
pub open spec fn shares_of(v: PropertyView, a: Address) -> i128 {
    account_of(v, a).balance
}

/// The holder list after `a` receives shares.
pub open spec fn add_holder(hs: Seq<Address>, a: Address) -> Seq<Address> {
    if hs.contains(a) {
        hs
    } else {
        hs.push(a)
    }
}

/// The sum of the balances of the listed holders, added up front to back;
/// `None` when a partial sum leaves the `i128` range.
pub open spec fn holder_sum(accounts: Map<Address, Account>, hs: Seq<Address>) -> Option<int>
    decreases hs.len(),
{
    if hs.len() == 0 {
        Some(0)
    } else {
        match holder_sum(accounts, hs.drop_last()) {
            None => None,
            Some(s) => {
                let b = if accounts.contains_key(hs.last()) {
                    accounts[hs.last()].balance as int
                } else {
                    0
                };
                if fits(s + b) {
                    Some(s + b)
                } else {
                    None
                }
            },
        }
    }
}

/// The shares `a` holds in `accounts` (0 for an address never seen).
pub open spec fn held(accounts: Map<Address, Account>, a: Address) -> int {
    if accounts.contains_key(a) {
        accounts[a].balance as int
    } else {
        0
    }
}

/// The shares held by the listed holders, as an unbounded sum.
pub open spec fn listed_shares(accounts: Map<Address, Account>, hs: Seq<Address>) -> int
    decreases hs.len(),
{
    if hs.len() == 0 {
        0
    } else {
        listed_shares(accounts, hs.drop_last()) + held(accounts, hs.last())
    }
}

/// The holder list names exactly the addresses that hold shares, and no
/// share count is negative.
pub open spec fn listed_exactly(v: PropertyView) -> bool {
    forall|a: Address|
        #![trigger v.holders.contains(a)]
        #![trigger shares_of(v, a)]
        shares_of(v, a) >= 0 && (v.holders.contains(a) <==> shares_of(v, a) > 0)
}

/// Once anybody holds shares, the shares held by listed holders are at most
/// the authorized count. (A token deployed with a negative count never has a
/// holder.)
pub open spec fn within_authorized(v: PropertyView) -> bool {
    v.holders.len() == 0 || listed_shares(v.accounts, v.holders) <= v.total_shares
}

/// The allowance `spender` holds over `from`'s shares at ledger `sequence`:
/// a lapsed one counts as 0 but keeps its expiration.
pub open spec fn effective_allowance(
    allowances: Map<(Address, Address), AllowanceValue>,
    sequence: u32,
    from: Address,
    spender: Address,
) -> AllowanceValue {
    if allowances.contains_key((from, spender)) {
        let a = allowances[(from, spender)];
        if a.expiration_ledger < sequence {
            AllowanceValue { amount: 0, expiration_ledger: a.expiration_ledger }
        } else {
            a
        }
    } else {
        AllowanceValue { amount: 0, expiration_ledger: 0 }
    }
}

/// The refusal, if any, that a compliance verdict turns into.
pub open spec fn verdict_gate(verdict: Result<bool, crate::compliance_engine::ComplianceError>, blocked: PropertyError) -> Option<PropertyError> {
    match verdict {
        Err(_) => Some(PropertyError::ComplianceCheckFailed),
        Ok(false) => Some(blocked),
        Ok(true) => None,
    }
}

/// The refusal, if any, of a transfer of `shares` from `from` to `to`
/// authorized by `authorizer`, before balances are looked at: authorization,
/// KYC of both parties, the receiver's tier, the compliance engine, and a
/// positive share count.
pub open spec fn move_gate(
    v: PropertyView,
    kyc: KycRegistryView,
    engine: ComplianceEngineView,
    engine_kyc: KycRegistryView,
    inv: Invocation,
    authorizer: Address,
    from: Address,
    to: Address,
    shares: i128,
) -> Option<PropertyError> {
    if !inv.authorized(authorizer) {
        Some(PropertyError::Unauthorized)
    } else if !approved_at(kyc, inv.timestamp, from) || !approved_at(kyc, inv.timestamp, to) {
        Some(PropertyError::KycNotApproved)
    } else if kyc.records[to].tier < v.meta.kyc_tier_required {
        Some(PropertyError::KycTierTooLow)
    } else if verdict_gate(
        transfer_verdict(engine, engine_kyc, inv.timestamp, from, to, shares as i128),
        PropertyError::TransferBlocked,
    ) is Some {
        verdict_gate(
            transfer_verdict(engine, engine_kyc, inv.timestamp, from, to, shares as i128),
            PropertyError::TransferBlocked,
        )
    } else if shares <= 0 {
        Some(PropertyError::NegativeShares)
    } else {
        None
    }
}

/// The positions after `shares` move from `from` to `to`: both parties'
/// accruals are snapshotted, the balances change, and the debts are rebased.
pub open spec fn moved_accounts(v: PropertyView, from: Address, to: Address, shares: i128) -> Result<
    Map<Address, Account>,
    PropertyError,
> {
    if from == to {
        match settled(account_of(v, from), v.dps, v.dps_rent, v.dps_capital) {
            None => Err(PropertyError::Overflow),
            Some(a) => if a.balance < shares {
                Err(PropertyError::InsufficientShares)
            } else {
                Ok(v.accounts.insert(from, a))
            },
        }
    } else {
        match settled(account_of(v, from), v.dps, v.dps_rent, v.dps_capital) {
            None => Err(PropertyError::Overflow),
            Some(af) => match settled(account_of(v, to), v.dps, v.dps_rent, v.dps_capital) {
                None => Err(PropertyError::Overflow),
                Some(at) => if af.balance < shares {
                    Err(PropertyError::InsufficientShares)
                } else {
                    match rebased(af, af.balance - shares, v.dps, v.dps_rent, v.dps_capital) {
                        None => Err(PropertyError::Overflow),
                        Some(nf) => match rebased(at, at.balance + shares, v.dps, v.dps_rent, v.dps_capital) {
                            None => Err(PropertyError::Overflow),
                            Some(nt) => Ok(v.accounts.insert(from, nf).insert(to, nt)),
                        },
                    }
                },
            },
        }
    }
}

/// The holder list after `shares` move from `from` to `to`: the receiver is
/// added, and the sender is dropped when it moved its whole balance. A move
/// to oneself changes no holding and leaves the list as it is.
pub open spec fn moved_holders(v: PropertyView, from: Address, to: Address, shares: i128) -> Seq<Address> {
    if from == to {
        v.holders
    } else {
        let h = add_holder(v.holders, to);
        if shares_of(v, from) == shares {
            without(h, from)
        } else {
            h
        }
    }
}

/// The token after a successful move whose new positions are `accounts`.
pub open spec fn after_move(v: PropertyView, accounts: Map<Address, Account>, from: Address, to: Address, shares: i128) -> PropertyView {
    let h = moved_holders(v, from, to, shares);
    PropertyView { accounts, holders: h, holder_count: h.len() as u32, ..v }
}

/// The refusal, if any, of a mint of `shares` to `to`.
pub open spec fn mint_gate(
    v: PropertyView,
    kyc: KycRegistryView,
    engine: ComplianceEngineView,
    engine_kyc: KycRegistryView,
    inv: Invocation,
    to: Address,
    shares: i128,
) -> Option<PropertyError> {
    if !inv.authorized(v.admin) {
        Some(PropertyError::Unauthorized)
    } else if !approved_at(kyc, inv.timestamp, to) {
        Some(PropertyError::KycNotApproved)
    } else if kyc.records[to].tier < v.meta.kyc_tier_required {
        Some(PropertyError::KycTierTooLow)
    } else if verdict_gate(
        transfer_verdict(engine, engine_kyc, inv.timestamp, v.admin, to, shares),
        PropertyError::MintBlocked,
    ) is Some {
        verdict_gate(
            transfer_verdict(engine, engine_kyc, inv.timestamp, v.admin, to, shares),
            PropertyError::MintBlocked,
        )
    } else if shares <= 0 {
        Some(PropertyError::NegativeShares)
    } else {
        match holder_sum(v.accounts, v.holders) {
            None => Some(PropertyError::Overflow),
            Some(o) => if !fits(o + shares) {
                Some(PropertyError::Overflow)
            } else if o + shares > v.total_shares {
                Some(PropertyError::ExceedsAuthorizedShares)
            } else {
                None
            },
        }
    }
}

/// The position of `to` after receiving `shares` by mint.
pub open spec fn minted_account(v: PropertyView, to: Address, shares: i128) -> Option<Account> {
    match settled(account_of(v, to), v.dps, v.dps_rent, v.dps_capital) {
        None => None,
        Some(a) => rebased(a, a.balance + shares, v.dps, v.dps_rent, v.dps_capital),
    }
}

impl PropertyToken {
    /// The holder count is the length of the holder list, no holder is
    /// listed twice, and the deposit history fits its 32-bit counter.
    pub open spec fn well_shaped(&self) -> bool {
        &&& self@.holder_count == self@.holders.len()
        &&& no_duplicates(self@.holders)
        &&& self@.deposits.len() <= u32::MAX
    }

    /// The invariant the token keeps: it is well shaped, the holder list
    /// names exactly the addresses that hold shares, and the shares held stay
    /// within the authorized count.
    pub open spec fn wf(&self) -> bool {
        &&& self.well_shaped()
        &&& listed_exactly(self@)
        &&& within_authorized(self@)
    }

    /// Deploys the token at `id`; an invalid property type is refused. The
    /// authorized share count is taken from the metadata.
    pub fn new(id: Address, admin: Address, kyc_registry: Address, compliance_engine: Address, meta: PropertyMeta) -> (r: Result<PropertyToken, PropertyError>)
        ensures
            !valid_property_type(meta.property_type@) ==> r == Err::<PropertyToken, PropertyError>(
                PropertyError::InvalidPropertyType,
            ),
            valid_property_type(meta.property_type@) ==> r is Ok && r->Ok_0.wf() && r->Ok_0@
                == (PropertyView {
                id,
                admin,
                pending_admin: None,
                kyc_registry,
                compliance_engine,
                meta: meta@,
                total_shares: meta.total_shares,
                dividend_pool: 0,
                dps: 0,
                dps_rent: 0,
                dps_capital: 0,
                accounts: Map::empty(),
                allowances: Map::empty(),
                holders: Seq::empty(),
                holder_count: 0,
                deposits: Seq::empty(),
            }),
    {
        if !is_valid_property_type(&meta.property_type) {
            return Err(PropertyError::InvalidPropertyType);
        }
        let total = meta.total_shares;
        let t = PropertyToken {
            id,
            admin,
            pending_admin: None,
            kyc_registry,
            compliance_engine,
            meta,
            total_shares: total,
            dividend_pool: 0,
            dps: 0,
            dps_rent: 0,
            dps_capital: 0,
            accounts: HashMap::new(),
            allowances: PairMap::new(),
            holders: Vec::new(),
            holder_count: 0,
            deposits: Vec::new(),
        };
        proof {
            assert(t@.accounts =~= Map::empty());
        }
        Ok(t)
    }

    /// Initialization after deployment: always refused, since the token is
    /// set up when it is deployed and nobody may set it up again.
    pub fn initialize(&self, admin: Address, kyc_registry: Address, compliance_engine: Address, meta: PropertyMeta) -> (r: Result<(), PropertyError>)
        ensures
            r == Err::<(), PropertyError>(PropertyError::AlreadyInitialized),
    {
        Err(PropertyError::AlreadyInitialized)
    }

    fn account(&self, a: Address) -> (r: Account)
        ensures
            r == account_of(self@, a),
    {
        match self.accounts.get(&a) {
            Some(x) => *x,
            None => new_account(),
        }
    }

    fn require_admin(&self, inv: &Invocation) -> (r: Result<(), PropertyError>)
        ensures
            r is Ok <==> inv.authorized(self@.admin),
            r is Err ==> r == Err::<(), PropertyError>(PropertyError::Unauthorized),
    {
        if inv.is_authorized(self.admin) {
            Ok(())
        } else {
            Err(PropertyError::Unauthorized)
        }
    }

    /// Points the token at another KYC registry (admin only).
    pub fn update_kyc_registry(&mut self, inv: &Invocation, new_registry: Address) -> (r: Result<(), PropertyError>)
        requires
            old(self).wf(),
        ensures
            final(self).wf(),
            inv.authorized(old(self)@.admin) ==> r is Ok && final(self)@ == (PropertyView {
                kyc_registry: new_registry,
                ..old(self)@
            }),
            !inv.authorized(old(self)@.admin) ==> r == Err::<(), PropertyError>(
                PropertyError::Unauthorized,
            ) && final(self)@ == old(self)@,
    {
        self.require_admin(inv)?;
        self.kyc_registry = new_registry;
        proof {
            lemma_invariant_follows_holdings(old(self)@, self@);
        }
        Ok(())
    }

    /// Points the token at another compliance engine (admin only).
    pub fn update_compliance_engine(&mut self, inv: &Invocation, new_engine: Address) -> (r: Result<(), PropertyError>)
        requires
            old(self).wf(),
        ensures
            final(self).wf(),
            inv.authorized(old(self)@.admin) ==> r is Ok && final(self)@ == (PropertyView {
                compliance_engine: new_engine,
                ..old(self)@
            }),
            !inv.authorized(old(self)@.admin) ==> r == Err::<(), PropertyError>(
                PropertyError::Unauthorized,
            ) && final(self)@ == old(self)@,
    {
        self.require_admin(inv)?;
        self.compliance_engine = new_engine;
        proof {
            lemma_invariant_follows_holdings(old(self)@, self@);
        }
        Ok(())
    }

    /// Proposes a new admin; the admin must authorize.
    pub fn propose_admin(&mut self, inv: &Invocation, new_admin: Address) -> (r: Result<(), PropertyError>)
        requires
            old(self).wf(),
        ensures
            final(self).wf(),
            inv.authorized(old(self)@.admin) ==> r is Ok && final(self)@ == (PropertyView {
                pending_admin: Some(new_admin),
                ..old(self)@
            }),
            !inv.authorized(old(self)@.admin) ==> r == Err::<(), PropertyError>(
                PropertyError::Unauthorized,
            ) && final(self)@ == old(self)@,
    {
        self.require_admin(inv)?;
        self.pending_admin = Some(new_admin);
        proof {
            lemma_invariant_follows_holdings(old(self)@, self@);
        }
        Ok(())
    }

    /// The proposed admin takes over; it must authorize.
    pub fn accept_admin(&mut self, inv: &Invocation) -> (r: Result<(), PropertyError>)
        requires
            old(self).wf(),
        ensures
            final(self).wf(),
            match old(self)@.pending_admin {
                None => r == Err::<(), PropertyError>(PropertyError::NoPendingAdmin) && final(self)@
                    == old(self)@,
                Some(p) => if inv.authorized(p) {
                    r is Ok && final(self)@ == (PropertyView {
                        admin: p,
                        pending_admin: None,
                        ..old(self)@
                    })
                } else {
                    r == Err::<(), PropertyError>(PropertyError::Unauthorized) && final(self)@ == old(self)@
                },
            },
    {
        let pending = match self.pending_admin {
            None => {
                return Err(PropertyError::NoPendingAdmin);
            },
            Some(p) => p,
        };
        if !inv.is_authorized(pending) {
            return Err(PropertyError::Unauthorized);
        }
        self.admin = pending;
        self.pending_admin = None;
        proof {
            lemma_invariant_follows_holdings(old(self)@, self@);
        }
        Ok(())
    }

    /// The property metadata.
    pub fn get_meta(&self) -> (r: PropertyMeta)
        ensures
            r@ == self@.meta,
    {
        self.meta.duplicate()
    }

    /// Replaces the metadata (admin only). The property type must stay valid,
    /// and the property id and share count cannot change.
    pub fn update_meta(&mut self, inv: &Invocation, new_meta: PropertyMeta) -> (r: Result<(), PropertyError>)
        requires
            old(self).wf(),
        ensures
            final(self).wf(),
            if !inv.authorized(old(self)@.admin) {
                r == Err::<(), PropertyError>(PropertyError::Unauthorized) && final(self)@ == old(self)@
            } else if !valid_property_type(new_meta.property_type@) {
                r == Err::<(), PropertyError>(PropertyError::InvalidPropertyType) && final(self)@
                    == old(self)@
            } else if new_meta.property_id@ != old(self)@.meta.property_id || new_meta.total_shares
                != old(self)@.meta.total_shares {
                r == Err::<(), PropertyError>(PropertyError::ImmutableField) && final(self)@ == old(self)@
            } else {
                r is Ok && final(self)@ == (PropertyView { meta: new_meta@, ..old(self)@ })
            },
    {
        self.require_admin(inv)?;
        if !is_valid_property_type(&new_meta.property_type) {
            return Err(PropertyError::InvalidPropertyType);
        }
        if !bytes_eq(&new_meta.property_id, &self.meta.property_id) || new_meta.total_shares
            != self.meta.total_shares {
            return Err(PropertyError::ImmutableField);
        }
        self.meta = new_meta;
        proof {
            lemma_invariant_follows_holdings(old(self)@, self@);
        }
        Ok(())
    }

    pub fn name(&self) -> (r: Vec<u8>)
        ensures
            r@ == "Veritoken Property".spec_bytes(),
    {
        "Veritoken Property".as_bytes_vec()
    }

    pub fn symbol(&self) -> (r: Vec<u8>)
        ensures
            r@ == "VTPROP".spec_bytes(),
    {
        "VTPROP".as_bytes_vec()
    }

    pub fn decimals(&self) -> (r: u32)
        ensures
            r == 0,
    {
        0
    }

    /// The release of the contract kit.
    pub fn version(&self) -> (r: Vec<u8>)
        ensures
            r@ == crate::compliance_engine::kit_version(),
    {
        crate::compliance_engine::version_string()
    }

    /// The share balance of `id`.
    pub fn balance(&self, id: Address) -> (r: i128)
        ensures
            r == shares_of(self@, id),
    {
        self.account(id).balance
    }

    /// The authorized share count.
    pub fn total_shares(&self) -> (r: i128)
        ensures
            r == self@.total_shares,
    {
        self.total_shares
    }

    /// The number of listed holders.
    pub fn holder_count(&self) -> (r: u32)
        ensures
            r == self@.holder_count,
    {
        self.holder_count
    }

    /// At most `limit` (never more than 50) holders from offset `start`.
    pub fn get_holders(&self, start: u32, limit: u32) -> (r: Vec<Address>)
        requires
            start + (if limit < 50 { limit as int } else { 50 }) <= u32::MAX,
        ensures
            r@ == page(self@.holders, start as int, limit as int, 50),
    {
        page_of(&self.holders, start, limit, 50)
    }

    /// The number of dividend deposits so far.
    pub fn dividend_deposit_count(&self) -> (r: u32)
        requires
            self.wf(),
        ensures
            r == self@.deposits.len(),
    {
        self.deposits.len() as u32
    }

    /// At most `limit` (never more than 50) recorded deposits from offset `start`.
    pub fn get_dividend_history(&self, start: u32, limit: u32) -> (r: Vec<DividendEvent>)
        requires
            start + (if limit < 50 { limit as int } else { 50 }) <= u32::MAX,
        ensures
            r@ == page(self@.deposits, start as int, limit as int, 50),
    {
        page_of(&self.deposits, start, limit, 50)
    }

    /// The shares `spender` may still move on behalf of `from` at ledger
    /// `sequence` (0 when none was given or it lapsed).
    pub fn allowance(&self, sequence: u32, from: Address, spender: Address) -> (r: i128)
        ensures
            r == effective_allowance(self@.allowances, sequence, from, spender).amount,
    {
        self.read_allowance(sequence, from, spender).amount
    }

    fn read_allowance(&self, sequence: u32, from: Address, spender: Address) -> (r: AllowanceValue)
        ensures
            r == effective_allowance(self@.allowances, sequence, from, spender),
    {
        match self.allowances.get(from, spender) {
            None => AllowanceValue { amount: 0, expiration_ledger: 0 },
            Some(a) => if a.expiration_ledger < sequence {
                AllowanceValue { amount: 0, expiration_ledger: a.expiration_ledger }
            } else {
                a
            },
        }
    }

    /// `from` lets `spender` move up to `amount` shares until ledger
    /// `expiration_ledger` (inclusive); an amount of 0 revokes.
    pub fn approve(&mut self, inv: &Invocation, from: Address, spender: Address, amount: i128, expiration_ledger: u32) -> (r: Result<(), PropertyError>)
        requires
            old(self).wf(),
        ensures
            final(self).wf(),
            if !inv.authorized(from) {
                r == Err::<(), PropertyError>(PropertyError::Unauthorized) && final(self)@ == old(self)@
            } else if amount > 0 && expiration_ledger < inv.sequence {
                r == Err::<(), PropertyError>(PropertyError::ExpirationInPast) && final(self)@
                    == old(self)@
            } else {
                r is Ok && final(self)@ == (PropertyView {
                    allowances: old(self)@.allowances.insert(
                        (from, spender),
                        AllowanceValue { amount, expiration_ledger },
                    ),
                    ..old(self)@
                })
            },
    {
        if !inv.is_authorized(from) {
            return Err(PropertyError::Unauthorized);
        }
        if amount > 0 && expiration_ledger < inv.sequence {
            return Err(PropertyError::ExpirationInPast);
        }
        self.allowances.insert(from, spender, AllowanceValue { amount, expiration_ledger });
        proof {
            lemma_invariant_follows_holdings(old(self)@, self@);
        }
        Ok(())
    }

    fn add_holder_local(&mut self, a: Address)
        requires
            old(self).well_shaped(),
            !old(self)@.holders.contains(a) ==> old(self)@.holders.len() < u32::MAX,
        ensures
            final(self).well_shaped(),
            final(self)@ == (PropertyView {
                holders: add_holder(old(self)@.holders, a),
                holder_count: add_holder(old(self)@.holders, a).len() as u32,
                ..old(self)@
            }),
    {
        if !contains_address(&self.holders, a) {
            self.holders.push(a);
            self.holder_count = self.holder_count + 1;
            proof {
                let s = self.holders@;
                assert forall|i: int, j: int|
                    0 <= i < s.len() && 0 <= j < s.len() && i != j implies s[i] != s[j] by {
                    if i == s.len() - 1 {
                        assert(old(self)@.holders[j] == s[j]);
                    } else if j == s.len() - 1 {
                        assert(old(self)@.holders[i] == s[i]);
                    }
                }
            }
        }
    }

    fn remove_holder_local(&mut self, a: Address)
        requires
            old(self).well_shaped(),
        ensures
            final(self).well_shaped(),
            final(self)@ == (PropertyView {
                holders: without(old(self)@.holders, a),
                holder_count: without(old(self)@.holders, a).len() as u32,
                ..old(self)@
            }),
    {
        proof {
            crate::types::lemma_without_unique(self.holders@, a);
        }
        if contains_address(&self.holders, a) {
            self.holders = remove_address(&self.holders, a);
            let c = self.holder_count;
            self.holder_count = if c > 0 {
                c - 1
            } else {
                0
            };
        }
    }

    fn check_verdict(engine: &ComplianceEngine, engine_kyc: &KycRegistry, now: u64, from: Address, to: Address, amount: i128, blocked: PropertyError) -> (r: Option<PropertyError>)
        requires
            engine@.kyc_registry matches Some(k) ==> k == engine_kyc.id(),
        ensures
            r == verdict_gate(transfer_verdict(engine@, engine_kyc@, now, from, to, amount), blocked),
    {
        match engine.can_transfer(engine_kyc, now, from, to, amount) {
            Err(_) => Some(PropertyError::ComplianceCheckFailed),
            Ok(false) => Some(blocked),
            Ok(true) => None,
        }
    }

    fn check_move(
        &self,
        inv: &Invocation,
        kyc: &KycRegistry,
        engine: &ComplianceEngine,
        engine_kyc: &KycRegistry,
        authorizer: Address,
        from: Address,
        to: Address,
        shares: i128,
    ) -> (r: Option<PropertyError>)
        requires
            engine@.kyc_registry matches Some(k) ==> k == engine_kyc.id(),
        ensures
            r == move_gate(self@, kyc@, engine@, engine_kyc@, *inv, authorizer, from, to, shares),
    {
        if !inv.is_authorized(authorizer) {
            return Some(PropertyError::Unauthorized);
        }
        if !kyc.is_approved(inv.timestamp, from) || !kyc.is_approved(inv.timestamp, to) {
            return Some(PropertyError::KycNotApproved);
        }
        match kyc.get_tier(to) {
            Ok(t) => {
                if t < self.meta.kyc_tier_required {
                    return Some(PropertyError::KycTierTooLow);
                }
            },
            Err(_) => {
                return Some(PropertyError::KycTierTooLow);
            },
        }
        if let Some(e) = Self::check_verdict(engine, engine_kyc, inv.timestamp, from, to, shares, PropertyError::TransferBlocked) {
            return Some(e);
        }
        if shares <= 0 {
            return Some(PropertyError::NegativeShares);
        }
        None
    }

    /// Computes the positions after a move, without touching the state.
    fn compute_move(&self, from: Address, to: Address, shares: i128) -> (r: Result<(Account, Account), PropertyError>)
        requires
            shares > 0,
        ensures
            match moved_accounts(self@, from, to, shares) {
                Err(e) => r == Err::<(Account, Account), PropertyError>(e),
                Ok(m) => r is Ok && (from == to ==> m == self@.accounts.insert(from, r->Ok_0.0))
                    && (from != to ==> m == self@.accounts.insert(from, r->Ok_0.0).insert(to, r->Ok_0.1)),
            },
    {
        let af = match settle(self.account(from), self.dps, self.dps_rent, self.dps_capital) {
            None => {
                return Err(PropertyError::Overflow);
            },
            Some(a) => a,
        };
        if from == to {
            if af.balance < shares {
                return Err(PropertyError::InsufficientShares);
            }
            return Ok((af, af));
        }
        let at = match settle(self.account(to), self.dps, self.dps_rent, self.dps_capital) {
            None => {
                return Err(PropertyError::Overflow);
            },
            Some(a) => a,
        };
        if af.balance < shares {
            return Err(PropertyError::InsufficientShares);
        }
        let nf = match rebase(af, af.balance - shares, self.dps, self.dps_rent, self.dps_capital) {
            None => {
                return Err(PropertyError::Overflow);
            },
            Some(a) => a,
        };
        let to_bal = match at.balance.checked_add(shares) {
            None => {
                return Err(PropertyError::Overflow);
            },
            Some(b) => b,
        };
        let nt = match rebase(at, to_bal, self.dps, self.dps_rent, self.dps_capital) {
            None => {
                return Err(PropertyError::Overflow);
            },
            Some(a) => a,
        };
        Ok((nf, nt))
    }

    /// Commits the positions computed by `compute_move` and updates the holder list.
    fn commit_move(&mut self, from: Address, to: Address, shares: i128, nf: Account, nt: Account)
        requires
            old(self).well_shaped(),
            from != to && !old(self)@.holders.contains(to) ==> old(self)@.holders.len() < u32::MAX,
        ensures
            final(self).well_shaped(),
            final(self)@ == after_move(
                old(self)@,
                if from == to {
                    old(self)@.accounts.insert(from, nf)
                } else {
                    old(self)@.accounts.insert(from, nf).insert(to, nt)
                },
                from,
                to,
                shares,
            ),
    {
        if from == to {
            self.accounts.insert(from, nf);
            return;
        }
        let drained = self.account(from).balance == shares;
        self.accounts.insert(from, nf);
        self.accounts.insert(to, nt);
        self.add_holder_local(to);
        if drained {
            self.remove_holder_local(from);
        }
    }

    /// Moves `shares` from `from` to `to`; `from` must authorize. Both parties
    /// need active KYC, the receiver the required tier, and the compliance
    /// engine must allow the transfer. Accrued dividends stay with the party
    /// that accrued them; the receiver is registered as a holder with the
    /// engine and listed locally, and a sender left with nothing is unlisted.
    pub fn transfer(
        &mut self,
        inv: &Invocation,
        kyc: &KycRegistry,
        engine: &mut ComplianceEngine,
        engine_kyc: &KycRegistry,
        from: Address,
        to: Address,
        shares: i128,
    ) -> (r: Result<(), PropertyError>)
        requires
            old(self).wf(),
            kyc.id() == old(self)@.kyc_registry,
            old(engine).id() == old(self)@.compliance_engine,
            old(engine)@.kyc_registry matches Some(k) ==> k == engine_kyc.id(),
            !old(engine)@.holder_since.contains_key(to) ==> old(engine)@.holder_count < u32::MAX,
            from != to && !old(self)@.holders.contains(to) ==> old(self)@.holders.len() < u32::MAX,
        ensures
            final(self).wf(),
            final(engine).id() == old(engine).id(),
            old(engine).wf() ==> final(engine).wf(),
            r is Ok ==> approved_at(kyc@, inv.timestamp, from) && approved_at(kyc@, inv.timestamp, to)
                && transfer_verdict(old(engine)@, engine_kyc@, inv.timestamp, from, to, shares as i128) == Ok::<
                bool,
                ComplianceError,
            >(true),
            r is Ok ==> kyc@.records[to].tier >= old(self)@.meta.kyc_tier_required,
            match move_gate(old(self)@, kyc@, old(engine)@, engine_kyc@, *inv, from, from, to, shares) {
                Some(e) => r == Err::<(), PropertyError>(e) && final(self)@ == old(self)@ && final(engine)@
                    == old(engine)@,
                None => match moved_accounts(old(self)@, from, to, shares) {
                    Err(e) => r == Err::<(), PropertyError>(e) && final(self)@ == old(self)@ && final(engine)@
                        == old(engine)@,
                    Ok(m) => r is Ok && final(self)@ == after_move(old(self)@, m, from, to, shares)
                        && final(engine)@ == with_holder(old(engine)@, inv.timestamp, to),
                },
            },
    {
        if let Some(e) = self.check_move(inv, kyc, engine, engine_kyc, from, from, to, shares) {
            return Err(e);
        }
        let (nf, nt) = self.compute_move(from, to, shares)?;
        self.commit_move(from, to, shares, nf, nt);
        proof {
            lemma_move_keeps_invariant(old(self)@, from, to, shares);
        }
        engine.register_holder(inv.timestamp, to);
        Ok(())
    }

    /// Moves `shares` from `from` to `to` on `spender`'s allowance; `spender`
    /// must authorize. Runs the same checks and dividend snapshots as
    /// `transfer`, and spends the allowance.
    pub fn transfer_from(
        &mut self,
        inv: &Invocation,
        kyc: &KycRegistry,
        engine: &mut ComplianceEngine,
        engine_kyc: &KycRegistry,
        spender: Address,
        from: Address,
        to: Address,
        shares: i128,
    ) -> (r: Result<(), PropertyError>)
        requires
            old(self).wf(),
            kyc.id() == old(self)@.kyc_registry,
            old(engine).id() == old(self)@.compliance_engine,
            old(engine)@.kyc_registry matches Some(k) ==> k == engine_kyc.id(),
            !old(engine)@.holder_since.contains_key(to) ==> old(engine)@.holder_count < u32::MAX,
            from != to && !old(self)@.holders.contains(to) ==> old(self)@.holders.len() < u32::MAX,
        ensures
            final(self).wf(),
            final(engine).id() == old(engine).id(),
            old(engine).wf() ==> final(engine).wf(),
            r is Ok ==> approved_at(kyc@, inv.timestamp, from) && approved_at(kyc@, inv.timestamp, to)
                && transfer_verdict(old(engine)@, engine_kyc@, inv.timestamp, from, to, shares as i128) == Ok::<
                bool,
                ComplianceError,
            >(true),
            r is Ok ==> kyc@.records[to].tier >= old(self)@.meta.kyc_tier_required,
            match move_gate(old(self)@, kyc@, old(engine)@, engine_kyc@, *inv, spender, from, to, shares) {
                Some(e) => r == Err::<(), PropertyError>(e) && final(self)@ == old(self)@ && final(engine)@
                    == old(engine)@,
                None => {
                    let al = effective_allowance(old(self)@.allowances, inv.sequence, from, spender);
                    if al.amount < shares {
                        r == Err::<(), PropertyError>(PropertyError::InsufficientAllowance) && final(self)@
                            == old(self)@ && final(engine)@ == old(engine)@
                    } else {
                        match moved_accounts(old(self)@, from, to, shares) {
                            Err(e) => r == Err::<(), PropertyError>(e) && final(self)@ == old(self)@
                                && final(engine)@ == old(engine)@,
                            Ok(m) => r is Ok && final(self)@ == (PropertyView {
                                allowances: old(self)@.allowances.insert(
                                    (from, spender),
                                    AllowanceValue {
                                        amount: (al.amount - shares) as i128,
                                        expiration_ledger: al.expiration_ledger,
                                    },
                                ),
                                ..after_move(old(self)@, m, from, to, shares)
                            }) && final(engine)@ == with_holder(old(engine)@, inv.timestamp, to),
                        }
                    }
                },
            },
    {
        if let Some(e) = self.check_move(inv, kyc, engine, engine_kyc, spender, from, to, shares) {
            return Err(e);
        }
        let al = self.read_allowance(inv.sequence, from, spender);
        if al.amount < shares {
            return Err(PropertyError::InsufficientAllowance);
        }
        let (nf, nt) = self.compute_move(from, to, shares)?;
        self.allowances.insert(
            from,
            spender,
            AllowanceValue { amount: al.amount - shares, expiration_ledger: al.expiration_ledger },
        );
        self.commit_move(from, to, shares, nf, nt);
        proof {
            lemma_move_keeps_invariant(old(self)@, from, to, shares);
            lemma_invariant_follows_holdings(
                after_move(old(self)@, moved_accounts(old(self)@, from, to, shares)->Ok_0, from, to, shares),
                self@,
            );
        }
        engine.register_holder(inv.timestamp, to);
        Ok(())
    }

    /// Sums the balances of the listed holders.
    fn outstanding(&self) -> (r: Option<i128>)
        ensures
            match holder_sum(self@.accounts, self@.holders) {
                None => r is None,
                Some(s) => r == Some(s as i128),
            },
    {
        let mut total: i128 = 0;
        let mut i: usize = 0;
        while i < self.holders.len()
            invariant
                0 <= i <= self.holders.len(),
                holder_sum(self@.accounts, self@.holders.take(i as int)) == Some(total as int),
            decreases self.holders.len() - i,
        {
            let b = self.account(self.holders[i]).balance;
            proof {
                assert(self@.holders.take(i as int + 1).drop_last() =~= self@.holders.take(i as int));
                assert(self@.holders.take(i as int + 1).last() == self@.holders[i as int]);
            }
            match total.checked_add(b) {
                None => {
                    proof {
                        lemma_holder_sum_none_extends(self@.accounts, self@.holders, i as int + 1);
                        assert(self@.holders.take(self@.holders.len() as int) =~= self@.holders);
                    }
                    return None;
                },
                Some(t) => {
                    total = t;
                },
            }
            i = i + 1;
        }
        proof {
            assert(self@.holders.take(self@.holders.len() as int) =~= self@.holders);
        }
        Some(total)
    }

    /// Mints `shares` to `to` (admin only). The receiver needs active KYC and
    /// the required tier, the compliance engine must allow a transfer from the
    /// admin to it, and the shares held by listed holders may not pass the
    /// authorized count.
    pub fn mint(
        &mut self,
        inv: &Invocation,
        kyc: &KycRegistry,
        engine: &mut ComplianceEngine,
        engine_kyc: &KycRegistry,
        to: Address,
        shares: i128,
    ) -> (r: Result<(), PropertyError>)
        requires
            old(self).wf(),
            kyc.id() == old(self)@.kyc_registry,
            old(engine).id() == old(self)@.compliance_engine,
            old(engine)@.kyc_registry matches Some(k) ==> k == engine_kyc.id(),
            !old(engine)@.holder_since.contains_key(to) ==> old(engine)@.holder_count < u32::MAX,
            !old(self)@.holders.contains(to) ==> old(self)@.holders.len() < u32::MAX,
        ensures
            final(self).wf(),
            final(engine).id() == old(engine).id(),
            old(engine).wf() ==> final(engine).wf(),
            match mint_gate(old(self)@, kyc@, old(engine)@, engine_kyc@, *inv, to, shares) {
                Some(e) => r == Err::<(), PropertyError>(e) && final(self)@ == old(self)@ && final(engine)@
                    == old(engine)@,
                None => match minted_account(old(self)@, to, shares) {
                    None => r == Err::<(), PropertyError>(PropertyError::Overflow) && final(self)@
                        == old(self)@ && final(engine)@ == old(engine)@,
                    Some(a) => r is Ok && final(self)@ == (PropertyView {
                        accounts: old(self)@.accounts.insert(to, a),
                        holders: add_holder(old(self)@.holders, to),
                        holder_count: add_holder(old(self)@.holders, to).len() as u32,
                        ..old(self)@
                    }) && final(engine)@ == with_holder(old(engine)@, inv.timestamp, to),
                },
            },
    {
        self.require_admin(inv)?;
        if !kyc.is_approved(inv.timestamp, to) {
            return Err(PropertyError::KycNotApproved);
        }
        match kyc.get_tier(to) {
            Ok(t) => {
                if t < self.meta.kyc_tier_required {
                    return Err(PropertyError::KycTierTooLow);
                }
            },
            Err(_) => {
                return Err(PropertyError::KycTierTooLow);
            },
        }
        if let Some(e) = Self::check_verdict(engine, engine_kyc, inv.timestamp, self.admin, to, shares, PropertyError::MintBlocked) {
            return Err(e);
        }
        if shares <= 0 {
            return Err(PropertyError::NegativeShares);
        }
        let outstanding = match self.outstanding() {
            None => {
                return Err(PropertyError::Overflow);
            },
            Some(o) => o,
        };
        let after = match outstanding.checked_add(shares) {
            None => {
                return Err(PropertyError::Overflow);
            },
            Some(x) => x,
        };
        if after > self.total_shares {
            return Err(PropertyError::ExceedsAuthorizedShares);
        }
        let a = match settle(self.account(to), self.dps, self.dps_rent, self.dps_capital) {
            None => {
                return Err(PropertyError::Overflow);
            },
            Some(a) => a,
        };
        let new_bal = match a.balance.checked_add(shares) {
            None => {
                return Err(PropertyError::Overflow);
            },
            Some(b) => b,
        };
        let na = match rebase(a, new_bal, self.dps, self.dps_rent, self.dps_capital) {
            None => {
                return Err(PropertyError::Overflow);
            },
            Some(x) => x,
        };
        self.accounts.insert(to, na);
        self.add_holder_local(to);
        proof {
            crate::laws::law_mint_keeps_listing(old(self)@, kyc@, old(engine)@, engine_kyc@, *inv, to, shares);
            crate::laws::law_mint_within_authorized_shares(old(self)@, kyc@, old(engine)@, engine_kyc@, *inv, to, shares);
        }
        engine.register_holder(inv.timestamp, to);
        Ok(())
    }

    /// Admin-initiated forced redemption of `shares` from `from`, who must have
    /// active KYC. Accrued dividends are snapshotted first and kept; the
    /// authorized share count shrinks by `shares`; a holder left with nothing
    /// is unlisted.
    pub fn buyback(&mut self, inv: &Invocation, kyc: &KycRegistry, from: Address, shares: i128) -> (r: Result<(), PropertyError>)
        requires
            old(self).wf(),
            kyc.id() == old(self)@.kyc_registry,
        ensures
            final(self).wf(),
            if !inv.authorized(old(self)@.admin) {
                r == Err::<(), PropertyError>(PropertyError::Unauthorized) && final(self)@ == old(self)@
            } else if !approved_at(kyc@, inv.timestamp, from) {
                r == Err::<(), PropertyError>(PropertyError::KycNotApproved) && final(self)@ == old(self)@
            } else if shares <= 0 {
                r == Err::<(), PropertyError>(PropertyError::NegativeShares) && final(self)@ == old(self)@
            } else {
                let v = old(self)@;
                match settled(account_of(v, from), v.dps, v.dps_rent, v.dps_capital) {
                    None => r == Err::<(), PropertyError>(PropertyError::Overflow) && final(self)@ == v,
                    Some(a) => if a.balance < shares {
                        r == Err::<(), PropertyError>(PropertyError::InsufficientShares) && final(self)@ == v
                    } else if !fits(v.total_shares - shares) || rebased(a, a.balance - shares, v.dps, v.dps_rent, v.dps_capital) is None {
                        r == Err::<(), PropertyError>(PropertyError::Overflow) && final(self)@ == v
                    } else {
                        let hs = if a.balance == shares {
                            without(v.holders, from)
                        } else {
                            v.holders
                        };
                        r is Ok && final(self)@ == (PropertyView {
                            accounts: v.accounts.insert(
                                from,
                                rebased(a, a.balance - shares, v.dps, v.dps_rent, v.dps_capital)->Some_0,
                            ),
                            total_shares: (v.total_shares - shares) as i128,
                            holders: hs,
                            holder_count: hs.len() as u32,
                            ..v
                        })
                    },
                }
            },
    {
        self.require_admin(inv)?;
        if !kyc.is_approved(inv.timestamp, from) {
            return Err(PropertyError::KycNotApproved);
        }
        if shares <= 0 {
            return Err(PropertyError::NegativeShares);
        }
        let a = match settle(self.account(from), self.dps, self.dps_rent, self.dps_capital) {
            None => {
                return Err(PropertyError::Overflow);
            },
            Some(a) => a,
        };
        if a.balance < shares {
            return Err(PropertyError::InsufficientShares);
        }
        let total = match self.total_shares.checked_sub(shares) {
            None => {
                return Err(PropertyError::Overflow);
            },
            Some(t) => t,
        };
        let na = match rebase(a, a.balance - shares, self.dps, self.dps_rent, self.dps_capital) {
            None => {
                return Err(PropertyError::Overflow);
            },
            Some(x) => x,
        };
        self.accounts.insert(from, na);
        self.total_shares = total;
        if a.balance == shares {
            self.remove_holder_local(from);
        } else {
            proof {
                assert(self@.holders.len() == self@.holder_count);
            }
        }
        proof {
            let v = old(self)@;
            assert(shares_of(v, from) >= 0 && (v.holders.contains(from) <==> shares_of(v, from) > 0));
            crate::laws::law_buyback_keeps_listing(v, from, shares);
            crate::laws::law_buyback_keeps_headroom(v, from, shares);
        }
        Ok(())
    }

    /// Deposits `amount` of dividends (admin only), raising the
    /// dividend-per-share index by `amount / total_shares` (rounded toward
    /// zero) and, for a rent (0) or capital (1) deposit, the index of that type
    /// too. The deposit is recorded in the history.
    pub fn deposit_dividend(&mut self, inv: &Invocation, amount: i128, distribution_type: u32) -> (r: Result<(), PropertyError>)
        requires
            old(self).wf(),
            old(self)@.deposits.len() < u32::MAX,
        ensures
            final(self).wf(),
            match deposited(old(self)@, *inv, amount, distribution_type) {
                Err(e) => r == Err::<(), PropertyError>(e) && final(self)@ == old(self)@,
                Ok(v) => r is Ok && final(self)@ == v,
            },
    {
        self.require_admin(inv)?;
        let total = self.total_shares;
        if total == 0 {
            return Err(PropertyError::NoShares);
        }
        if amount == i128::MIN && total == -1 {
            return Err(PropertyError::Overflow);
        }
        let per = div_toward_zero(amount, total);
        let new_dps = match self.dps.checked_add(per) {
            None => {
                return Err(PropertyError::Overflow);
            },
            Some(x) => x,
        };
        let new_rent = if distribution_type == 0 {
            match self.dps_rent.checked_add(per) {
                None => {
                    return Err(PropertyError::Overflow);
                },
                Some(x) => x,
            }
        } else {
            self.dps_rent
        };
        let new_capital = if distribution_type == 1 {
            match self.dps_capital.checked_add(per) {
                None => {
                    return Err(PropertyError::Overflow);
                },
                Some(x) => x,
            }
        } else {
            self.dps_capital
        };
        let pool = match self.dividend_pool.checked_add(amount) {
            None => {
                return Err(PropertyError::Overflow);
            },
            Some(x) => x,
        };
        self.dps = new_dps;
        self.dps_rent = new_rent;
        self.dps_capital = new_capital;
        self.dividend_pool = pool;
        self.deposits.push(
            DividendEvent {
                amount,
                timestamp: inv.timestamp,
                running_total_dps: new_dps,
                distribution_type,
            },
        );
        proof {
            lemma_invariant_follows_holdings(old(self)@, self@);
        }
        Ok(())
    }

    /// `holder` claims every dividend owed to it (it must authorize); returns
    /// the amount, or 0 when nothing is owed. The snapshot of its accruals is
    /// kept either way.
    pub fn claim_dividend(&mut self, inv: &Invocation, holder: Address) -> (r: Result<i128, PropertyError>)
        requires
            old(self).wf(),
        ensures
            final(self).wf(),
            if !inv.authorized(holder) {
                r == Err::<i128, PropertyError>(PropertyError::Unauthorized) && final(self)@ == old(self)@
            } else {
                let v = old(self)@;
                match settled(account_of(v, holder), v.dps, v.dps_rent, v.dps_capital) {
                    None => r == Err::<i128, PropertyError>(PropertyError::Overflow) && final(self)@ == v,
                    Some(a) => if a.unclaimed <= 0 {
                        r == Ok::<i128, PropertyError>(0) && final(self)@ == (PropertyView {
                            accounts: v.accounts.insert(holder, a),
                            ..v
                        })
                    } else if !fits(v.dividend_pool - a.unclaimed) {
                        r == Err::<i128, PropertyError>(PropertyError::Overflow) && final(self)@ == v
                    } else {
                        r == Ok::<i128, PropertyError>(a.unclaimed) && final(self)@ == (PropertyView {
                            accounts: v.accounts.insert(holder, Account { unclaimed: 0, ..a }),
                            dividend_pool: (v.dividend_pool - a.unclaimed) as i128,
                            ..v
                        })
                    },
                }
            },
    {
        if !inv.is_authorized(holder) {
            return Err(PropertyError::Unauthorized);
        }
        let a = match settle(self.account(holder), self.dps, self.dps_rent, self.dps_capital) {
            None => {
                return Err(PropertyError::Overflow);
            },
            Some(a) => a,
        };
        let amount = a.unclaimed;
        if amount <= 0 {
            self.accounts.insert(holder, a);
            proof {
                lemma_same_shares_keep_invariant(old(self)@, holder, a);
                lemma_invariant_follows_holdings(PropertyView { accounts: old(self)@.accounts.insert(holder, a), ..old(self)@ }, self@);
            }
            return Ok(0);
        }
        let pool = match self.dividend_pool.checked_sub(amount) {
            None => {
                return Err(PropertyError::Overflow);
            },
            Some(p) => p,
        };
        self.accounts.insert(holder, Account { unclaimed: 0, ..a });
        self.dividend_pool = pool;
        proof {
            let x = Account { unclaimed: 0, ..a };
            lemma_same_shares_keep_invariant(old(self)@, holder, x);
            lemma_invariant_follows_holdings(PropertyView { accounts: old(self)@.accounts.insert(holder, x), ..old(self)@ }, self@);
        }
        Ok(amount)
    }

    /// `holder` claims its rent yield only (it must authorize).
    pub fn claim_rent_yield(&mut self, inv: &Invocation, holder: Address) -> (r: Result<i128, PropertyError>)
        requires
            old(self).wf(),
        ensures
            final(self).wf(),
            if !inv.authorized(holder) {
                r == Err::<i128, PropertyError>(PropertyError::Unauthorized) && final(self)@ == old(self)@
            } else {
                let v = old(self)@;
                match settled_typed(account_of(v, holder), v.dps_rent, v.dps_capital) {
                    None => r == Err::<i128, PropertyError>(PropertyError::Overflow) && final(self)@ == v,
                    Some(a) => if a.unclaimed_rent <= 0 {
                        r == Ok::<i128, PropertyError>(0) && final(self)@ == (PropertyView {
                            accounts: v.accounts.insert(holder, a),
                            ..v
                        })
                    } else if !fits(v.dividend_pool - a.unclaimed_rent) {
                        r == Err::<i128, PropertyError>(PropertyError::Overflow) && final(self)@ == v
                    } else {
                        r == Ok::<i128, PropertyError>(a.unclaimed_rent) && final(self)@ == (PropertyView {
                            accounts: v.accounts.insert(holder, Account { unclaimed_rent: 0, ..a }),
                            dividend_pool: (v.dividend_pool - a.unclaimed_rent) as i128,
                            ..v
                        })
                    },
                }
            },
    {
        if !inv.is_authorized(holder) {
            return Err(PropertyError::Unauthorized);
        }
        let a = match settle_typed(self.account(holder), self.dps_rent, self.dps_capital) {
            None => {
                return Err(PropertyError::Overflow);
            },
            Some(a) => a,
        };
        let amount = a.unclaimed_rent;
        if amount <= 0 {
            self.accounts.insert(holder, a);
            proof {
                lemma_same_shares_keep_invariant(old(self)@, holder, a);
                lemma_invariant_follows_holdings(PropertyView { accounts: old(self)@.accounts.insert(holder, a), ..old(self)@ }, self@);
            }
            return Ok(0);
        }
        let pool = match self.dividend_pool.checked_sub(amount) {
            None => {
                return Err(PropertyError::Overflow);
            },
            Some(p) => p,
        };
        self.accounts.insert(holder, Account { unclaimed_rent: 0, ..a });
        self.dividend_pool = pool;
        proof {
            let x = Account { unclaimed_rent: 0, ..a };
            lemma_same_shares_keep_invariant(old(self)@, holder, x);
            lemma_invariant_follows_holdings(PropertyView { accounts: old(self)@.accounts.insert(holder, x), ..old(self)@ }, self@);
        }
        Ok(amount)
    }

    /// `holder` claims its capital return only (it must authorize).
    pub fn claim_capital_return(&mut self, inv: &Invocation, holder: Address) -> (r: Result<i128, PropertyError>)
        requires
            old(self).wf(),
        ensures
            final(self).wf(),
            if !inv.authorized(holder) {
                r == Err::<i128, PropertyError>(PropertyError::Unauthorized) && final(self)@ == old(self)@
            } else {
                let v = old(self)@;
                match settled_typed(account_of(v, holder), v.dps_rent, v.dps_capital) {
                    None => r == Err::<i128, PropertyError>(PropertyError::Overflow) && final(self)@ == v,
                    Some(a) => if a.unclaimed_capital <= 0 {
                        r == Ok::<i128, PropertyError>(0) && final(self)@ == (PropertyView {
                            accounts: v.accounts.insert(holder, a),
                            ..v
                        })
                    } else if !fits(v.dividend_pool - a.unclaimed_capital) {
                        r == Err::<i128, PropertyError>(PropertyError::Overflow) && final(self)@ == v
                    } else {
                        r == Ok::<i128, PropertyError>(a.unclaimed_capital) && final(self)@ == (PropertyView {
                            accounts: v.accounts.insert(holder, Account { unclaimed_capital: 0, ..a }),
                            dividend_pool: (v.dividend_pool - a.unclaimed_capital) as i128,
                            ..v
                        })
                    },
                }
            },
    {
        if !inv.is_authorized(holder) {
            return Err(PropertyError::Unauthorized);
        }
        let a = match settle_typed(self.account(holder), self.dps_rent, self.dps_capital) {
            None => {
                return Err(PropertyError::Overflow);
            },
            Some(a) => a,
        };
        let amount = a.unclaimed_capital;
        if amount <= 0 {
            self.accounts.insert(holder, a);
            proof {
                lemma_same_shares_keep_invariant(old(self)@, holder, a);
                lemma_invariant_follows_holdings(PropertyView { accounts: old(self)@.accounts.insert(holder, a), ..old(self)@ }, self@);
            }
            return Ok(0);
        }
        let pool = match self.dividend_pool.checked_sub(amount) {
            None => {
                return Err(PropertyError::Overflow);
            },
            Some(p) => p,
        };
        self.accounts.insert(holder, Account { unclaimed_capital: 0, ..a });
        self.dividend_pool = pool;
        proof {
            let x = Account { unclaimed_capital: 0, ..a };
            lemma_same_shares_keep_invariant(old(self)@, holder, x);
            lemma_invariant_follows_holdings(PropertyView { accounts: old(self)@.accounts.insert(holder, x), ..old(self)@ }, self@);
        }
        Ok(amount)
    }

    /// The total dividends `holder` can claim now.
    pub fn pending_dividend(&self, holder: Address) -> (r: Result<i128, PropertyError>)
        ensures
            ({
                let a = account_of(self@, holder);
                if fits(a.balance * self@.dps) && fits(a.balance * self@.dps - a.debt) && fits(
                    pending(a, self@.dps),
                ) {
                    r == Ok::<i128, PropertyError>(pending(a, self@.dps) as i128)
                } else {
                    r == Err::<i128, PropertyError>(PropertyError::Overflow)
                }
            }),
    {
        let a = self.account(holder);
        let b = match a.balance.checked_mul(self.dps) {
            None => {
                return Err(PropertyError::Overflow);
            },
            Some(x) => x,
        };
        let accrued = match b.checked_sub(a.debt) {
            None => {
                return Err(PropertyError::Overflow);
            },
            Some(x) => x,
        };
        match a.unclaimed.checked_add(accrued) {
            None => Err(PropertyError::Overflow),
            Some(x) => Ok(x),
        }
    }
}

/// The token after a deposit of `amount` of type `distribution_type`, or why
/// it is refused (admin authorization aside).
pub open spec fn deposited(v: PropertyView, inv: Invocation, amount: i128, distribution_type: u32) -> Result<
    PropertyView,
    PropertyError,
> {
    if !inv.authorized(v.admin) {
        Err(PropertyError::Unauthorized)
    } else if v.total_shares == 0 {
        Err(PropertyError::NoShares)
    } else if amount == i128::MIN && v.total_shares == -1 {
        Err(PropertyError::Overflow)
    } else {
        let per = trunc_div(amount as int, v.total_shares as int);
        let dps = v.dps + per;
        let rent = if distribution_type == 0 {
            v.dps_rent + per
        } else {
            v.dps_rent as int
        };
        let capital = if distribution_type == 1 {
            v.dps_capital + per
        } else {
            v.dps_capital as int
        };
        let pool = v.dividend_pool + amount;
        if !fits(dps) || !fits(rent) || !fits(capital) || !fits(pool) {
            Err(PropertyError::Overflow)
        } else {
            Ok(
                PropertyView {
                    dps: dps as i128,
                    dps_rent: rent as i128,
                    dps_capital: capital as i128,
                    dividend_pool: pool as i128,
                    deposits: v.deposits.push(
                        DividendEvent {
                            amount,
                            timestamp: inv.timestamp,
                            running_total_dps: dps as i128,
                            distribution_type,
                        },
                    ),
                    ..v
                },
            )
        }
    }
}

/// The token's invariant on holdings looks only at the positions, the holder
/// list and the authorized count.
proof fn lemma_invariant_follows_holdings(v: PropertyView, w: PropertyView)
    requires
        w.accounts == v.accounts,
        w.holders == v.holders,
        w.total_shares == v.total_shares,
        listed_exactly(v),
        within_authorized(v),
    ensures
        listed_exactly(w),
        within_authorized(w),
{
    assert forall|a: Address|
        #![trigger w.holders.contains(a)]
        #![trigger shares_of(w, a)]
        shares_of(w, a) >= 0 && (w.holders.contains(a) <==> shares_of(w, a) > 0) by {
        assert(shares_of(w, a) == shares_of(v, a));
        assert(shares_of(v, a) >= 0 && (v.holders.contains(a) <==> shares_of(v, a) > 0));
    }
}

/// Replacing a position by one with the same share count keeps the token's
/// invariant on holdings.
proof fn lemma_same_shares_keep_invariant(v: PropertyView, k: Address, x: Account)
    requires
        no_duplicates(v.holders),
        listed_exactly(v),
        within_authorized(v),
        x.balance == shares_of(v, k),
    ensures
        listed_exactly(PropertyView { accounts: v.accounts.insert(k, x), ..v }),
        within_authorized(PropertyView { accounts: v.accounts.insert(k, x), ..v }),
{
    let w = PropertyView { accounts: v.accounts.insert(k, x), ..v };
    assert(held(v.accounts, k) == shares_of(v, k));
    if v.holders.contains(k) {
        crate::laws::lemma_listed_tracks_listed(v.accounts, v.holders, k, x);
    } else {
        crate::laws::lemma_listed_ignores_unlisted(v.accounts, v.holders, k, x);
    }
    assert forall|a: Address|
        #![trigger w.holders.contains(a)]
        #![trigger shares_of(w, a)]
        shares_of(w, a) >= 0 && (w.holders.contains(a) <==> shares_of(w, a) > 0) by {
        assert(shares_of(w, a) == shares_of(v, a));
        assert(shares_of(v, a) >= 0 && (v.holders.contains(a) <==> shares_of(v, a) > 0));
    }
}

/// A successful move keeps the token's invariant on holdings.
proof fn lemma_move_keeps_invariant(v: PropertyView, from: Address, to: Address, shares: i128)
    requires
        no_duplicates(v.holders),
        listed_exactly(v),
        within_authorized(v),
        shares > 0,
        moved_accounts(v, from, to, shares) is Ok,
    ensures
        listed_exactly(after_move(v, moved_accounts(v, from, to, shares)->Ok_0, from, to, shares)),
        within_authorized(after_move(v, moved_accounts(v, from, to, shares)->Ok_0, from, to, shares)),
{
    crate::laws::law_transfer_keeps_listing(v, from, to, shares);
    crate::laws::law_transfer_keeps_listed_shares(v, from, to, shares);
    assert(shares_of(v, from) == settled(account_of(v, from), v.dps, v.dps_rent, v.dps_capital)->Some_0.balance);
    assert(shares_of(v, from) >= 0 && (v.holders.contains(from) <==> shares_of(v, from) > 0));
    assert(v.holders.len() > 0) by {
        let i = choose|i: int| 0 <= i < v.holders.len() && v.holders[i] == from;
    }
}

/// Once a prefix of the holder list overflows, the whole sum does.
proof fn lemma_holder_sum_none_extends(accounts: Map<Address, Account>, hs: Seq<Address>, k: int)
    requires
        0 <= k <= hs.len(),
        holder_sum(accounts, hs.take(k)) is None,
    ensures
        holder_sum(accounts, hs) is None,
    decreases hs.len() - k,
{
    if k == hs.len() {
        assert(hs.take(k) =~= hs);
    } else {
        assert(hs.take(k + 1).drop_last() =~= hs.take(k));
        lemma_holder_sum_none_extends(accounts, hs, k + 1);
    }
}

} // verus!
