//! RWA token: a fungible token for real-world assets with the standard token
//! interface, where every mint and every transfer passes the KYC registry and
//! the compliance engine, and the token carries compliance metadata (legal
//! entity, governing law, ISIN, prospectus hash).

pub mod admin;
pub mod allowance;
pub mod balance;
pub mod compliance;
pub mod kyc;
pub mod metadata;
pub mod storage_types;

use std::collections::HashMap;
use vstd::prelude::*;
use vstd::string::StrSliceExecFns;
use vstd::string::StringSliceAdditionalSpecFns;

use crate::compliance_engine::{ComplianceEngine, ComplianceEngineView, ComplianceError, transfer_verdict, with_holder, without_holder};
use crate::dividend::fits;
use crate::kyc_registry::{KycRegistry, KycRegistryView, approved_at};
use crate::pair_map::PairMap;
use crate::types::{Address, Invocation, bytes_eq, lemma_total_of_empty, lemma_total_of_insert, total_of};
use self::allowance::allowance_at;
use self::balance::balance_of;
use self::compliance::{engine_gate, meta_set, meta_value};
use self::storage_types::{
    AllowanceValue, Storage, StorageView, TokenMetadata, TokenMetadataView, unique_meta_keys,
};

verus! {

broadcast use vstd::std_specs::hash::group_hash_axioms;

/// Why an RWA-token call was refused.
#[derive(Clone, Copy, Debug, PartialEq, Eq, Structural)]
pub enum RwaError {
    AlreadyInitialized,
    KycNotApproved,
    TransferBlocked,
    InsufficientBalance,
    AllowanceExpired,
    InsufficientAllowance,
    /// The asset type is not invoice, property or carbon_credit.
    InvalidAssetType,
    /// The party whose authorization the call needs did not give it.
    Unauthorized,
    /// An amount to move, mint or burn was zero or negative.
    NonPositiveAmount,
    /// A positive allowance was given an expiration ledger already passed.
    ExpirationInPast,
    /// The compliance engine could not answer (not initialized, or a party
    /// without a KYC record under the same-jurisdiction rule).
    ComplianceCheckFailed,
    /// A balance or the total supply would leave the range of `i128`.
    Overflow,
}

/// The compliance metadata a token may be deployed with; each field is
/// optional.
pub struct ComplianceMetadata {
    pub legal_entity: Option<Vec<u8>>,
    pub governing_law: Option<Vec<u8>>,
    pub isin: Option<Vec<u8>>,
    pub prospectus_hash: Option<Vec<u8>>,
}

pub struct ComplianceMetadataView {
    pub legal_entity: Option<Seq<u8>>,
    pub governing_law: Option<Seq<u8>>,
    pub isin: Option<Seq<u8>>,
    pub prospectus_hash: Option<Seq<u8>>,
}

/// The bytes an optional string holds.
pub open spec fn opt_bytes(o: Option<Vec<u8>>) -> Option<Seq<u8>> {
    match o {
        Some(v) => Some(v@),
        None => None,
    }
}

impl View for ComplianceMetadata {
    type V = ComplianceMetadataView;

    open spec fn view(&self) -> ComplianceMetadataView {
        ComplianceMetadataView {
            legal_entity: opt_bytes(self.legal_entity),
            governing_law: opt_bytes(self.governing_law),
            isin: opt_bytes(self.isin),
            prospectus_hash: opt_bytes(self.prospectus_hash),
        }
    }
}

/// The metadata key of the legal entity.
pub open spec fn legal_entity_key() -> Seq<u8> {
    "legal_entity".spec_bytes()
}

/// The metadata key of the governing law.
pub open spec fn governing_law_key() -> Seq<u8> {
    "governing_law".spec_bytes()
}

/// The metadata key of the ISIN.
pub open spec fn isin_key() -> Seq<u8> {
    "isin".spec_bytes()
}

/// The metadata key of the prospectus hash.
pub open spec fn prospectus_hash_key() -> Seq<u8> {
    "prospectus_hash".spec_bytes()
}

/// The asset types a token may stand for.
pub open spec fn valid_asset_type(t: Seq<u8>) -> bool {
    t == "invoice".spec_bytes() || t == "property".spec_bytes() || t == "carbon_credit".spec_bytes()
}

/// Tests an asset type.
pub fn is_valid_asset_type(t: &Vec<u8>) -> (r: bool)
    ensures
        r == valid_asset_type(t@),
{
    bytes_eq(t, &"invoice".as_bytes_vec()) || bytes_eq(t, &"property".as_bytes_vec()) || bytes_eq(
        t,
        &"carbon_credit".as_bytes_vec(),
    )
}

/// `s` with `key` set to the value in `o`, when there is one.
pub open spec fn meta_set_opt(s: Seq<(Seq<u8>, Seq<u8>)>, key: Seq<u8>, o: Option<Seq<u8>>) -> Seq<
    (Seq<u8>, Seq<u8>),
> {
    match o {
        Some(v) => meta_set(s, key, v),
        None => s,
    }
}

/// The compliance metadata a token starts with.
pub open spec fn initial_meta(m: Option<ComplianceMetadataView>) -> Seq<(Seq<u8>, Seq<u8>)> {
    match m {
        None => Seq::empty(),
        Some(m) => meta_set_opt(
            meta_set_opt(
                meta_set_opt(
                    meta_set_opt(Seq::empty(), legal_entity_key(), m.legal_entity),
                    governing_law_key(),
                    m.governing_law,
                ),
                isin_key(),
                m.isin,
            ),
            prospectus_hash_key(),
            m.prospectus_hash,
        ),
    }
}

/// A stored metadata value as an optional one: empty counts as absent.
pub open spec fn present(s: Seq<u8>) -> Option<Seq<u8>> {
    if s.len() > 0 {
        Some(s)
    } else {
        None
    }
}

/// The refusal, if any, of moving `amount` from `from` to `to` on
/// `authorizer`'s authority, before balances and allowances are looked at:
/// authorization, a positive amount, KYC of both parties, and the compliance
/// engine's verdict.
pub open spec fn move_gate(
    kyc: KycRegistryView,
    engine: ComplianceEngineView,
    engine_kyc: KycRegistryView,
    inv: Invocation,
    authorizer: Address,
    from: Address,
    to: Address,
    amount: i128,
) -> Option<RwaError> {
    if !inv.authorized(authorizer) {
        Some(RwaError::Unauthorized)
    } else if amount <= 0 {
        Some(RwaError::NonPositiveAmount)
    } else if !approved_at(kyc, inv.timestamp, from) || !approved_at(kyc, inv.timestamp, to) {
        Some(RwaError::KycNotApproved)
    } else {
        engine_gate(transfer_verdict(engine, engine_kyc, inv.timestamp, from, to, amount))
    }
}

/// The balances after `amount` (positive) moves from `from` to `to`: the
/// sender must hold it, and the receiver's new balance must fit.
pub open spec fn moved_balances(v: StorageView, from: Address, to: Address, amount: i128) -> Result<
    Map<Address, i128>,
    RwaError,
> {
    let bf = balance_of(v, from);
    if bf < amount {
        Err(RwaError::InsufficientBalance)
    } else {
        let spent = StorageView { balances: v.balances.insert(from, (bf - amount) as i128), ..v };
        let bt = balance_of(spent, to);
        if !fits(bt + amount) {
            Err(RwaError::Overflow)
        } else {
            Ok(spent.balances.insert(to, (bt + amount) as i128))
        }
    }
}

/// The engine's holder registry after `amount` (positive) moved from `from`
/// to `to` at time `now`: a receiver that held nothing becomes a holder, a
/// sender that gave away everything stops being one; a transfer to oneself
/// changes nothing.
pub open spec fn moved_holders(
    e: ComplianceEngineView,
    now: u64,
    v: StorageView,
    from: Address,
    to: Address,
    amount: i128,
) -> ComplianceEngineView {
    if from == to {
        e
    } else {
        let e1 = if balance_of(v, to) == 0 {
            with_holder(e, now, to)
        } else {
            e
        };
        if balance_of(v, from) == amount {
            without_holder(e1, from)
        } else {
            e1
        }
    }
}

/// The refusal, if any, of burning `amount` of `from`'s tokens on
/// `authorizer`'s authority, before balances and allowances are looked at.
pub open spec fn burn_gate(kyc: KycRegistryView, inv: Invocation, authorizer: Address, from: Address, amount: i128) -> Option<
    RwaError,
> {
    if !inv.authorized(authorizer) {
        Some(RwaError::Unauthorized)
    } else if amount <= 0 {
        Some(RwaError::NonPositiveAmount)
    } else if !approved_at(kyc, inv.timestamp, from) {
        Some(RwaError::KycNotApproved)
    } else {
        None
    }
}

/// The state after `amount` (positive) of `from`'s tokens is burned: the
/// holder must hold it and the supply must stay in range.
pub open spec fn burned(v: StorageView, from: Address, amount: i128) -> Result<StorageView, RwaError> {
    let bf = balance_of(v, from);
    if bf < amount {
        Err(RwaError::InsufficientBalance)
    } else if !fits(v.total_supply - amount) {
        Err(RwaError::Overflow)
    } else {
        Ok(
            StorageView {
                balances: v.balances.insert(from, (bf - amount) as i128),
                total_supply: (v.total_supply - amount) as i128,
                ..v
            },
        )
    }
}

/// The engine's holder registry after a burn of `amount` from `from`.
pub open spec fn burned_holders(e: ComplianceEngineView, v: StorageView, from: Address, amount: i128) -> ComplianceEngineView {
    if balance_of(v, from) == amount {
        without_holder(e, from)
    } else {
        e
    }
}

/// The refusal, if any, of minting `amount` to `to`: the admin must
/// authorize, the amount be positive, `to` be approved, and a mint that
/// creates a new holder must pass the compliance engine.
pub open spec fn mint_gate(
    v: StorageView,
    kyc: KycRegistryView,
    engine: ComplianceEngineView,
    engine_kyc: KycRegistryView,
    inv: Invocation,
    to: Address,
    amount: i128,
) -> Option<RwaError> {
    if !inv.authorized(v.admin) {
        Some(RwaError::Unauthorized)
    } else if amount <= 0 {
        Some(RwaError::NonPositiveAmount)
    } else if !approved_at(kyc, inv.timestamp, to) {
        Some(RwaError::KycNotApproved)
    } else if balance_of(v, to) == 0 {
        engine_gate(transfer_verdict(engine, engine_kyc, inv.timestamp, to, to, amount))
    } else {
        None
    }
}

/// The state after `amount` (positive) is minted to `to`: the new balance
/// and the new supply must stay in range.
pub open spec fn minted(v: StorageView, to: Address, amount: i128) -> Result<StorageView, RwaError> {
    let bt = balance_of(v, to);
    if !fits(bt + amount) || !fits(v.total_supply + amount) {
        Err(RwaError::Overflow)
    } else {
        Ok(
            StorageView {
                balances: v.balances.insert(to, (bt + amount) as i128),
                total_supply: (v.total_supply + amount) as i128,
                ..v
            },
        )
    }
}

/// The engine's holder registry after a mint of `amount` to `to` at time
/// `now`.
pub open spec fn minted_holders(e: ComplianceEngineView, now: u64, v: StorageView, to: Address) -> ComplianceEngineView {
    if balance_of(v, to) == 0 {
        with_holder(e, now, to)
    } else {
        e
    }
}

/// No balance is negative.
pub open spec fn nonnegative_balances(v: StorageView) -> bool {
    forall|a: Address| #[trigger] v.balances.contains_key(a) ==> v.balances[a] >= 0
}

/// An RWA token.
pub struct RwaToken {
    store: Storage,
}

impl View for RwaToken {
    type V = StorageView;

    closed spec fn view(&self) -> StorageView {
        self.store@
    }
}

impl RwaToken {
    /// The token's own address.
    pub closed spec fn id(&self) -> Address {
        self.store.contract_id
    }

    /// The invariant every operation keeps: no two metadata entries share a
    /// key, and no balance is negative.
    pub open spec fn wf(&self) -> bool {
        &&& unique_meta_keys(self@.compliance_meta)
        &&& nonnegative_balances(self@)
        &&& self@.total_supply == total_of(self@.balances)
    }

    fn set_meta_opt(&mut self, key: Vec<u8>, o: Option<Vec<u8>>)
        requires
            old(self).wf(),
        ensures
            final(self).wf(),
            final(self).id() == old(self).id(),
            final(self)@ == (StorageView {
                compliance_meta: meta_set_opt(old(self)@.compliance_meta, key@, opt_bytes(o)),
                ..old(self)@
            }),
    {
        match o {
            Some(v) => compliance::write_metadata(&mut self.store, &key, &v),
            None => {},
        }
    }

    /// Deploys the token at `id`; an asset type other than invoice, property
    /// or carbon_credit is refused.
    pub fn new(
        id: Address,
        admin: Address,
        decimal: u32,
        name: Vec<u8>,
        symbol: Vec<u8>,
        asset_type: Vec<u8>,
        kyc_registry: Address,
        compliance_engine: Address,
        compliance_metadata: Option<ComplianceMetadata>,
    ) -> (r: Result<RwaToken, RwaError>)
        ensures
            !valid_asset_type(asset_type@) ==> r == Err::<RwaToken, RwaError>(RwaError::InvalidAssetType),
            valid_asset_type(asset_type@) ==> r is Ok && r->Ok_0.wf() && r->Ok_0.id() == id
                && r->Ok_0@ == (StorageView {
                contract_id: id,
                admin,
                kyc_registry,
                compliance_engine,
                metadata: TokenMetadataView { decimal, name: name@, symbol: symbol@ },
                asset_type: asset_type@,
                total_supply: 0,
                balances: Map::empty(),
                allowances: Map::empty(),
                compliance_meta: initial_meta(
                    match compliance_metadata {
                        Some(m) => Some(m@),
                        None => None,
                    },
                ),
                frozen: Map::empty(),
            }),
    {
        if !is_valid_asset_type(&asset_type) {
            return Err(RwaError::InvalidAssetType);
        }
        let store = Storage {
            contract_id: id,
            admin,
            kyc_registry,
            compliance_engine,
            metadata: TokenMetadata { decimal, name, symbol },
            asset_type,
            total_supply: 0,
            balances: HashMap::new(),
            allowances: PairMap::new(),
            compliance_meta: Vec::new(),
            frozen: HashMap::new(),
        };
        let mut t = RwaToken { store };
        proof {
            assert(t@.balances =~= Map::empty());
            lemma_total_of_empty();
            assert(t@.frozen =~= Map::empty());
            assert(t@.compliance_meta =~= Seq::empty());
        }
        match compliance_metadata {
            None => {},
            Some(m) => {
                t.set_meta_opt("legal_entity".as_bytes_vec(), m.legal_entity);
                t.set_meta_opt("governing_law".as_bytes_vec(), m.governing_law);
                t.set_meta_opt("isin".as_bytes_vec(), m.isin);
                t.set_meta_opt("prospectus_hash".as_bytes_vec(), m.prospectus_hash);
            },
        }
        Ok(t)
    }

    /// Initialization after deployment: always refused, since the token is
    /// set up when it is deployed and nobody may set it up again.
    pub fn initialize(
        &self,
        admin: Address,
        decimal: u32,
        name: Vec<u8>,
        symbol: Vec<u8>,
        asset_type: Vec<u8>,
        kyc_registry: Address,
        compliance_engine: Address,
    ) -> (r: Result<(), RwaError>)
        ensures
            r == Err::<(), RwaError>(RwaError::AlreadyInitialized),
    {
        Err(RwaError::AlreadyInitialized)
    }

    /// The token's own address.
    pub fn address(&self) -> (r: Address)
        ensures
            r == self.id(),
            r == self@.contract_id,
    {
        self.store.contract_id
    }

    fn require_admin(&self, inv: &Invocation) -> (r: Result<(), RwaError>)
        ensures
            r is Ok <==> inv.authorized(self@.admin),
            r is Err ==> r == Err::<(), RwaError>(RwaError::Unauthorized),
    {
        if inv.is_authorized(admin::read_admin(&self.store)) {
            Ok(())
        } else {
            Err(RwaError::Unauthorized)
        }
    }

    /// Replaces the admin in one step; the current admin must authorize.
    pub fn set_admin(&mut self, inv: &Invocation, new_admin: Address) -> (r: Result<(), RwaError>)
        requires
            old(self).wf(),
        ensures
            final(self).wf(),
            final(self).id() == old(self).id(),
            inv.authorized(old(self)@.admin) ==> r is Ok && final(self)@ == (StorageView {
                admin: new_admin,
                ..old(self)@
            }),
            !inv.authorized(old(self)@.admin) ==> r == Err::<(), RwaError>(RwaError::Unauthorized)
                && final(self)@ == old(self)@,
    {
        self.require_admin(inv)?;
        admin::write_admin(&mut self.store, new_admin);
        Ok(())
    }

    /// Points the token at another KYC registry; the admin must authorize.
    pub fn update_kyc_registry(&mut self, inv: &Invocation, new_registry: Address) -> (r: Result<(), RwaError>)
        requires
            old(self).wf(),
        ensures
            final(self).wf(),
            final(self).id() == old(self).id(),
            inv.authorized(old(self)@.admin) ==> r is Ok && final(self)@ == (StorageView {
                kyc_registry: new_registry,
                ..old(self)@
            }),
            !inv.authorized(old(self)@.admin) ==> r == Err::<(), RwaError>(RwaError::Unauthorized)
                && final(self)@ == old(self)@,
    {
        self.require_admin(inv)?;
        kyc::write_kyc_registry(&mut self.store, new_registry);
        Ok(())
    }

    /// Points the token at another compliance engine; the admin must authorize.
    pub fn update_compliance_engine(&mut self, inv: &Invocation, new_engine: Address) -> (r: Result<(), RwaError>)
        requires
            old(self).wf(),
        ensures
            final(self).wf(),
            final(self).id() == old(self).id(),
            inv.authorized(old(self)@.admin) ==> r is Ok && final(self)@ == (StorageView {
                compliance_engine: new_engine,
                ..old(self)@
            }),
            !inv.authorized(old(self)@.admin) ==> r == Err::<(), RwaError>(RwaError::Unauthorized)
                && final(self)@ == old(self)@,
    {
        self.require_admin(inv)?;
        compliance::write_compliance_engine(&mut self.store, new_engine);
        Ok(())
    }

    /// How much `spender` may still move of `from`'s tokens at ledger
    /// `sequence` (0 once lapsed).
    pub fn allowance(&self, sequence: u32, from: Address, spender: Address) -> (r: i128)
        ensures
            r == allowance_at(self@, sequence, from, spender).amount,
    {
        allowance::read_allowance(&self.store, sequence, from, spender).amount
    }

    /// Lets `spender` move up to `amount` of `from`'s tokens until ledger
    /// `expiration_ledger`; `from` must authorize.
    pub fn approve(
        &mut self,
        inv: &Invocation,
        from: Address,
        spender: Address,
        amount: i128,
        expiration_ledger: u32,
    ) -> (r: Result<(), RwaError>)
        requires
            old(self).wf(),
        ensures
            final(self).wf(),
            final(self).id() == old(self).id(),
            !inv.authorized(from) ==> r == Err::<(), RwaError>(RwaError::Unauthorized) && final(self)@
                == old(self)@,
            inv.authorized(from) && amount > 0 && expiration_ledger < inv.sequence ==> r == Err::<
                (),
                RwaError,
            >(RwaError::ExpirationInPast) && final(self)@ == old(self)@,
            inv.authorized(from) && !(amount > 0 && expiration_ledger < inv.sequence) ==> r is Ok
                && final(self)@ == (StorageView {
                allowances: old(self)@.allowances.insert(
                    (from, spender),
                    AllowanceValue { amount, expiration_ledger },
                ),
                ..old(self)@
            }),
            r is Ok ==> forall|s: u32|
                s <= expiration_ledger ==> #[trigger] allowance_at(final(self)@, s, from, spender).amount
                    == amount,
            r is Ok ==> forall|s: u32|
                s > expiration_ledger ==> #[trigger] allowance_at(final(self)@, s, from, spender).amount
                    == 0,
    {
        if !inv.is_authorized(from) {
            return Err(RwaError::Unauthorized);
        }
        allowance::write_allowance(&mut self.store, inv.sequence, from, spender, amount, expiration_ledger)
    }

    /// The balance of `id` (0 when it never held any).
    pub fn balance(&self, id: Address) -> (r: i128)
        ensures
            r == balance_of(self@, id),
    {
        balance::read_balance(&self.store, id)
    }

    /// The token's precision.
    pub fn decimals(&self) -> (r: u32)
        ensures
            r == self@.metadata.decimal,
    {
        metadata::read_decimal(&self.store)
    }

    /// The token's name.
    pub fn name(&self) -> (r: Vec<u8>)
        ensures
            r@ == self@.metadata.name,
    {
        metadata::read_name(&self.store)
    }

    /// The token's symbol.
    pub fn symbol(&self) -> (r: Vec<u8>)
        ensures
            r@ == self@.metadata.symbol,
    {
        metadata::read_symbol(&self.store)
    }

    /// The number of tokens in existence.
    pub fn total_supply(&self) -> (r: i128)
        ensures
            r == self@.total_supply,
    {
        balance::read_total_supply(&self.store)
    }

    /// The kind of asset the token stands for.
    pub fn asset_type(&self) -> (r: Vec<u8>)
        ensures
            r@ == self@.asset_type,
    {
        metadata::read_asset_type(&self.store)
    }

    /// The KYC registry the token consults.
    pub fn kyc_registry(&self) -> (r: Address)
        ensures
            r == self@.kyc_registry,
    {
        kyc::read_kyc_registry(&self.store)
    }

    /// The compliance engine the token consults.
    pub fn compliance_engine(&self) -> (r: Address)
        ensures
            r == self@.compliance_engine,
    {
        compliance::read_compliance_engine(&self.store)
    }

    /// Sets compliance-metadata entry `key` to `value`; the admin must
    /// authorize.
    pub fn set_compliance_metadata(&mut self, inv: &Invocation, key: Vec<u8>, value: Vec<u8>) -> (r: Result<(), RwaError>)
        requires
            old(self).wf(),
        ensures
            final(self).wf(),
            final(self).id() == old(self).id(),
            inv.authorized(old(self)@.admin) ==> r is Ok && final(self)@ == (StorageView {
                compliance_meta: meta_set(old(self)@.compliance_meta, key@, value@),
                ..old(self)@
            }),
            !inv.authorized(old(self)@.admin) ==> r == Err::<(), RwaError>(RwaError::Unauthorized)
                && final(self)@ == old(self)@,
    {
        self.require_admin(inv)?;
        compliance::write_metadata(&mut self.store, &key, &value);
        Ok(())
    }

    /// The compliance-metadata value under `key`; empty when never set.
    pub fn get_compliance_metadata(&self, key: Vec<u8>) -> (r: Vec<u8>)
        requires
            self.wf(),
        ensures
            r@ == meta_value(self@.compliance_meta, key@),
    {
        compliance::read_metadata(&self.store, &key)
    }

    /// The four standard metadata entries; an empty or missing one is absent.
    pub fn get_all_compliance_metadata(&self) -> (r: ComplianceMetadata)
        requires
            self.wf(),
        ensures
            r@ == (ComplianceMetadataView {
                legal_entity: present(meta_value(self@.compliance_meta, legal_entity_key())),
                governing_law: present(meta_value(self@.compliance_meta, governing_law_key())),
                isin: present(meta_value(self@.compliance_meta, isin_key())),
                prospectus_hash: present(meta_value(self@.compliance_meta, prospectus_hash_key())),
            }),
    {
        ComplianceMetadata {
            legal_entity: self.read_present("legal_entity".as_bytes_vec()),
            governing_law: self.read_present("governing_law".as_bytes_vec()),
            isin: self.read_present("isin".as_bytes_vec()),
            prospectus_hash: self.read_present("prospectus_hash".as_bytes_vec()),
        }
    }

    fn check_move(
        &self,
        inv: &Invocation,
        kyc: &KycRegistry,
        engine: &ComplianceEngine,
        engine_kyc: &KycRegistry,
        authorizer: Address,
        from: Address,
        to: Address,
        amount: i128,
    ) -> (r: Result<(), RwaError>)
        requires
            kyc.id() == self@.kyc_registry,
            engine.id() == self@.compliance_engine,
            engine@.kyc_registry matches Some(k) ==> k == engine_kyc.id(),
        ensures
            match move_gate(kyc@, engine@, engine_kyc@, *inv, authorizer, from, to, amount) {
                Some(e) => r == Err::<(), RwaError>(e),
                None => r is Ok,
            },
    {
        if !inv.is_authorized(authorizer) {
            return Err(RwaError::Unauthorized);
        }
        if amount <= 0 {
            return Err(RwaError::NonPositiveAmount);
        }
        kyc::require_kyc(&self.store, kyc, inv.timestamp, from)?;
        kyc::require_kyc(&self.store, kyc, inv.timestamp, to)?;
        compliance::check_transfer(&self.store, engine, engine_kyc, inv.timestamp, from, to, amount)
    }

    fn compute_move(&self, from: Address, to: Address, amount: i128) -> (r: Result<(i128, i128), RwaError>)
        requires
            amount > 0,
        ensures
            match moved_balances(self@, from, to, amount) {
                Err(e) => r == Err::<(i128, i128), RwaError>(e),
                Ok(m) => r is Ok && m == self@.balances.insert(from, r->Ok_0.0).insert(to, r->Ok_0.1)
                    && r->Ok_0.0 == balance_of(self@, from) - amount && r->Ok_0.1 == (if from == to {
                    balance_of(self@, from) - amount
                } else {
                    balance_of(self@, to) as int
                }) + amount,
            },
    {
        let bf = balance::read_balance(&self.store, from);
        if bf < amount {
            return Err(RwaError::InsufficientBalance);
        }
        let nf = bf - amount;
        let bt = if from == to {
            nf
        } else {
            balance::read_balance(&self.store, to)
        };
        match bt.checked_add(amount) {
            None => Err(RwaError::Overflow),
            Some(nt) => Ok((nf, nt)),
        }
    }

    /// Moves `amount` of `from`'s tokens to `to`; `from` must authorize, both
    /// must be KYC-approved, and the compliance engine must allow it. A
    /// receiver that held nothing is registered as a holder, a sender left
    /// with nothing is unregistered.
    pub fn transfer(
        &mut self,
        inv: &Invocation,
        kyc: &KycRegistry,
        engine: &mut ComplianceEngine,
        engine_kyc: &KycRegistry,
        from: Address,
        to: Address,
        amount: i128,
    ) -> (r: Result<(), RwaError>)
        requires
            old(self).wf(),
            kyc.id() == old(self)@.kyc_registry,
            old(engine).id() == old(self)@.compliance_engine,
            old(engine)@.kyc_registry matches Some(k) ==> k == engine_kyc.id(),
            !old(engine)@.holder_since.contains_key(to) ==> old(engine)@.holder_count < u32::MAX,
        ensures
            final(self).wf(),
            final(self).id() == old(self).id(),
            final(engine).id() == old(engine).id(),
            old(engine).wf() ==> final(engine).wf(),
            r is Ok ==> approved_at(kyc@, inv.timestamp, from) && approved_at(kyc@, inv.timestamp, to)
                && transfer_verdict(old(engine)@, engine_kyc@, inv.timestamp, from, to, amount) == Ok::<
                bool,
                ComplianceError,
            >(true),
            r is Ok ==> final(self)@.total_supply == old(self)@.total_supply,
            r is Ok && from != to ==> balance_of(final(self)@, from) == balance_of(old(self)@, from) - amount
                && balance_of(final(self)@, to) == balance_of(old(self)@, to) + amount,
            r is Ok && from == to ==> balance_of(final(self)@, from) == balance_of(old(self)@, from),
            r is Ok ==> forall|a: Address|
                a != from && a != to ==> #[trigger] balance_of(final(self)@, a) == balance_of(old(self)@, a),
            match move_gate(kyc@, old(engine)@, engine_kyc@, *inv, from, from, to, amount) {
                Some(e) => r == Err::<(), RwaError>(e) && final(self)@ == old(self)@ && final(engine)@
                    == old(engine)@,
                None => match moved_balances(old(self)@, from, to, amount) {
                    Err(e) => r == Err::<(), RwaError>(e) && final(self)@ == old(self)@ && final(engine)@
                        == old(engine)@,
                    Ok(m) => r is Ok && final(self)@ == (StorageView { balances: m, ..old(self)@ })
                        && final(engine)@ == moved_holders(old(engine)@, inv.timestamp, old(self)@, from, to, amount),
                },
            },
    {
        self.check_move(inv, kyc, engine, engine_kyc, from, from, to, amount)?;
        let fb = balance::read_balance(&self.store, from);
        let tb = balance::read_balance(&self.store, to);
        let (nf, nt) = self.compute_move(from, to, amount)?;
        proof {
            lemma_total_of_insert(self@.balances, from, nf);
            lemma_total_of_insert(self@.balances.insert(from, nf), to, nt);
        }
        balance::write_balance(&mut self.store, from, nf);
        balance::write_balance(&mut self.store, to, nt);
        if from != to {
            if tb == 0 {
                compliance::register_holder(&self.store, engine, inv.timestamp, to);
            }
            if fb == amount {
                compliance::unregister_holder(&self.store, engine, from);
            }
        }
        Ok(())
    }

    /// Moves `amount` of `from`'s tokens to `to` on `spender`'s allowance;
    /// `spender` must authorize. Runs the checks of `transfer` and spends the
    /// allowance.
    pub fn transfer_from(
        &mut self,
        inv: &Invocation,
        kyc: &KycRegistry,
        engine: &mut ComplianceEngine,
        engine_kyc: &KycRegistry,
        spender: Address,
        from: Address,
        to: Address,
        amount: i128,
    ) -> (r: Result<(), RwaError>)
        requires
            old(self).wf(),
            kyc.id() == old(self)@.kyc_registry,
            old(engine).id() == old(self)@.compliance_engine,
            old(engine)@.kyc_registry matches Some(k) ==> k == engine_kyc.id(),
            !old(engine)@.holder_since.contains_key(to) ==> old(engine)@.holder_count < u32::MAX,
        ensures
            final(self).wf(),
            final(self).id() == old(self).id(),
            final(engine).id() == old(engine).id(),
            old(engine).wf() ==> final(engine).wf(),
            r is Ok ==> approved_at(kyc@, inv.timestamp, from) && approved_at(kyc@, inv.timestamp, to)
                && transfer_verdict(old(engine)@, engine_kyc@, inv.timestamp, from, to, amount) == Ok::<
                bool,
                ComplianceError,
            >(true),
            r is Ok ==> allowance_at(final(self)@, inv.sequence, from, spender).amount == allowance_at(
                old(self)@,
                inv.sequence,
                from,
                spender,
            ).amount - amount,
            r is Ok ==> final(self)@.total_supply == old(self)@.total_supply,
            r is Ok && from != to ==> balance_of(final(self)@, from) == balance_of(old(self)@, from) - amount
                && balance_of(final(self)@, to) == balance_of(old(self)@, to) + amount,
            r is Ok && from == to ==> balance_of(final(self)@, from) == balance_of(old(self)@, from),
            r is Ok ==> forall|a: Address|
                a != from && a != to ==> #[trigger] balance_of(final(self)@, a) == balance_of(old(self)@, a),
            match move_gate(kyc@, old(engine)@, engine_kyc@, *inv, spender, from, to, amount) {
                Some(e) => r == Err::<(), RwaError>(e) && final(self)@ == old(self)@ && final(engine)@
                    == old(engine)@,
                None => {
                    let al = allowance_at(old(self)@, inv.sequence, from, spender);
                    if al.amount < amount {
                        r == Err::<(), RwaError>(RwaError::InsufficientAllowance) && final(self)@
                            == old(self)@ && final(engine)@ == old(engine)@
                    } else {
                        match moved_balances(old(self)@, from, to, amount) {
                            Err(e) => r == Err::<(), RwaError>(e) && final(self)@ == old(self)@
                                && final(engine)@ == old(engine)@,
                            Ok(m) => r is Ok && final(self)@ == (StorageView {
                                balances: m,
                                allowances: old(self)@.allowances.insert(
                                    (from, spender),
                                    AllowanceValue {
                                        amount: (al.amount - amount) as i128,
                                        expiration_ledger: al.expiration_ledger,
                                    },
                                ),
                                ..old(self)@
                            }) && final(engine)@ == moved_holders(
                                old(engine)@,
                                inv.timestamp,
                                old(self)@,
                                from,
                                to,
                                amount,
                            ),
                        }
                    }
                },
            },
    {
        self.check_move(inv, kyc, engine, engine_kyc, spender, from, to, amount)?;
        let fb = balance::read_balance(&self.store, from);
        let tb = balance::read_balance(&self.store, to);
        let al = allowance::read_allowance(&self.store, inv.sequence, from, spender);
        if al.amount < amount {
            return Err(RwaError::InsufficientAllowance);
        }
        let (nf, nt) = self.compute_move(from, to, amount)?;
        allowance::spend_allowance(&mut self.store, inv.sequence, from, spender, amount)?;
        proof {
            lemma_total_of_insert(self@.balances, from, nf);
            lemma_total_of_insert(self@.balances.insert(from, nf), to, nt);
        }
        balance::write_balance(&mut self.store, from, nf);
        balance::write_balance(&mut self.store, to, nt);
        if from != to {
            if tb == 0 {
                compliance::register_holder(&self.store, engine, inv.timestamp, to);
            }
            if fb == amount {
                compliance::unregister_holder(&self.store, engine, from);
            }
        }
        Ok(())
    }

    fn check_burn(&self, inv: &Invocation, kyc: &KycRegistry, authorizer: Address, from: Address, amount: i128) -> (r: Result<(), RwaError>)
        requires
            kyc.id() == self@.kyc_registry,
        ensures
            match burn_gate(kyc@, *inv, authorizer, from, amount) {
                Some(e) => r == Err::<(), RwaError>(e),
                None => r is Ok,
            },
    {
        if !inv.is_authorized(authorizer) {
            return Err(RwaError::Unauthorized);
        }
        if amount <= 0 {
            return Err(RwaError::NonPositiveAmount);
        }
        kyc::require_kyc(&self.store, kyc, inv.timestamp, from)
    }

    fn compute_burn(&self, from: Address, amount: i128) -> (r: Result<(i128, i128), RwaError>)
        requires
            amount > 0,
        ensures
            match burned(self@, from, amount) {
                Err(e) => r == Err::<(i128, i128), RwaError>(e),
                Ok(s) => r is Ok && s == (StorageView {
                    balances: self@.balances.insert(from, r->Ok_0.0),
                    total_supply: r->Ok_0.1,
                    ..self@
                }) && r->Ok_0.0 == balance_of(self@, from) - amount && r->Ok_0.1 == self@.total_supply - amount,
            },
    {
        let bf = balance::read_balance(&self.store, from);
        if bf < amount {
            return Err(RwaError::InsufficientBalance);
        }
        match balance::read_total_supply(&self.store).checked_sub(amount) {
            None => Err(RwaError::Overflow),
            Some(ns) => Ok((bf - amount, ns)),
        }
    }

    /// Burns `amount` of `from`'s tokens; `from` must authorize and be
    /// KYC-approved. A holder left with nothing is unregistered.
    pub fn burn(
        &mut self,
        inv: &Invocation,
        kyc: &KycRegistry,
        engine: &mut ComplianceEngine,
        from: Address,
        amount: i128,
    ) -> (r: Result<(), RwaError>)
        requires
            old(self).wf(),
            kyc.id() == old(self)@.kyc_registry,
            old(engine).id() == old(self)@.compliance_engine,
        ensures
            final(self).wf(),
            final(self).id() == old(self).id(),
            final(engine).id() == old(engine).id(),
            old(engine).wf() ==> final(engine).wf(),
            r is Ok ==> approved_at(kyc@, inv.timestamp, from),
            r is Ok ==> final(self)@.total_supply == old(self)@.total_supply - amount
                && balance_of(final(self)@, from) == balance_of(old(self)@, from) - amount,
            r is Ok ==> forall|a: Address|
                a != from ==> #[trigger] balance_of(final(self)@, a) == balance_of(old(self)@, a),
            match burn_gate(kyc@, *inv, from, from, amount) {
                Some(e) => r == Err::<(), RwaError>(e) && final(self)@ == old(self)@ && final(engine)@
                    == old(engine)@,
                None => match burned(old(self)@, from, amount) {
                    Err(e) => r == Err::<(), RwaError>(e) && final(self)@ == old(self)@ && final(engine)@
                        == old(engine)@,
                    Ok(s) => r is Ok && final(self)@ == s && final(engine)@ == burned_holders(
                        old(engine)@,
                        old(self)@,
                        from,
                        amount,
                    ),
                },
            },
    {
        self.check_burn(inv, kyc, from, from, amount)?;
        let fb = balance::read_balance(&self.store, from);
        let (nf, ns) = self.compute_burn(from, amount)?;
        proof {
            lemma_total_of_insert(self@.balances, from, nf);
        }
        balance::write_balance(&mut self.store, from, nf);
        balance::write_total_supply(&mut self.store, ns);
        if fb == amount {
            compliance::unregister_holder(&self.store, engine, from);
        }
        Ok(())
    }

    /// Burns `amount` of `from`'s tokens on `spender`'s allowance; `spender`
    /// must authorize and `from` be KYC-approved.
    pub fn burn_from(
        &mut self,
        inv: &Invocation,
        kyc: &KycRegistry,
        engine: &mut ComplianceEngine,
        spender: Address,
        from: Address,
        amount: i128,
    ) -> (r: Result<(), RwaError>)
        requires
            old(self).wf(),
            kyc.id() == old(self)@.kyc_registry,
            old(engine).id() == old(self)@.compliance_engine,
        ensures
            final(self).wf(),
            final(self).id() == old(self).id(),
            final(engine).id() == old(engine).id(),
            old(engine).wf() ==> final(engine).wf(),
            r is Ok ==> allowance_at(final(self)@, inv.sequence, from, spender).amount == allowance_at(
                old(self)@,
                inv.sequence,
                from,
                spender,
            ).amount - amount,
            r is Ok ==> approved_at(kyc@, inv.timestamp, from),
            r is Ok ==> final(self)@.total_supply == old(self)@.total_supply - amount
                && balance_of(final(self)@, from) == balance_of(old(self)@, from) - amount,
            r is Ok ==> forall|a: Address|
                a != from ==> #[trigger] balance_of(final(self)@, a) == balance_of(old(self)@, a),
            match burn_gate(kyc@, *inv, spender, from, amount) {
                Some(e) => r == Err::<(), RwaError>(e) && final(self)@ == old(self)@ && final(engine)@
                    == old(engine)@,
                None => {
                    let al = allowance_at(old(self)@, inv.sequence, from, spender);
                    if al.amount < amount {
                        r == Err::<(), RwaError>(RwaError::InsufficientAllowance) && final(self)@
                            == old(self)@ && final(engine)@ == old(engine)@
                    } else {
                        match burned(old(self)@, from, amount) {
                            Err(e) => r == Err::<(), RwaError>(e) && final(self)@ == old(self)@
                                && final(engine)@ == old(engine)@,
                            Ok(s) => r is Ok && final(self)@ == (StorageView {
                                allowances: old(self)@.allowances.insert(
                                    (from, spender),
                                    AllowanceValue {
                                        amount: (al.amount - amount) as i128,
                                        expiration_ledger: al.expiration_ledger,
                                    },
                                ),
                                ..s
                            }) && final(engine)@ == burned_holders(old(engine)@, old(self)@, from, amount),
                        }
                    }
                },
            },
    {
        self.check_burn(inv, kyc, spender, from, amount)?;
        let fb = balance::read_balance(&self.store, from);
        let al = allowance::read_allowance(&self.store, inv.sequence, from, spender);
        if al.amount < amount {
            return Err(RwaError::InsufficientAllowance);
        }
        let (nf, ns) = self.compute_burn(from, amount)?;
        allowance::spend_allowance(&mut self.store, inv.sequence, from, spender, amount)?;
        proof {
            lemma_total_of_insert(self@.balances, from, nf);
        }
        balance::write_balance(&mut self.store, from, nf);
        balance::write_total_supply(&mut self.store, ns);
        if fb == amount {
            compliance::unregister_holder(&self.store, engine, from);
        }
        Ok(())
    }

    /// Mints `amount` new tokens to `to`; the admin must authorize, `to` must
    /// be KYC-approved, and a mint that creates a new holder must pass the
    /// compliance engine (pause, blocklist, holder cap). The new holder is
    /// registered.
    pub fn mint(
        &mut self,
        inv: &Invocation,
        kyc: &KycRegistry,
        engine: &mut ComplianceEngine,
        engine_kyc: &KycRegistry,
        to: Address,
        amount: i128,
    ) -> (r: Result<(), RwaError>)
        requires
            old(self).wf(),
            kyc.id() == old(self)@.kyc_registry,
            old(engine).id() == old(self)@.compliance_engine,
            old(engine)@.kyc_registry matches Some(k) ==> k == engine_kyc.id(),
            !old(engine)@.holder_since.contains_key(to) ==> old(engine)@.holder_count < u32::MAX,
        ensures
            final(self).wf(),
            final(self).id() == old(self).id(),
            final(engine).id() == old(engine).id(),
            old(engine).wf() ==> final(engine).wf(),
            r is Ok ==> approved_at(kyc@, inv.timestamp, to),
            r is Ok && balance_of(old(self)@, to) == 0 ==> transfer_verdict(
                old(engine)@,
                engine_kyc@,
                inv.timestamp,
                to,
                to,
                amount,
            ) == Ok::<bool, ComplianceError>(true),
            r is Ok ==> final(self)@.total_supply == old(self)@.total_supply + amount
                && balance_of(final(self)@, to) == balance_of(old(self)@, to) + amount,
            r is Ok ==> forall|a: Address|
                a != to ==> #[trigger] balance_of(final(self)@, a) == balance_of(old(self)@, a),
            match mint_gate(old(self)@, kyc@, old(engine)@, engine_kyc@, *inv, to, amount) {
                Some(e) => r == Err::<(), RwaError>(e) && final(self)@ == old(self)@ && final(engine)@
                    == old(engine)@,
                None => match minted(old(self)@, to, amount) {
                    Err(e) => r == Err::<(), RwaError>(e) && final(self)@ == old(self)@ && final(engine)@
                        == old(engine)@,
                    Ok(s) => r is Ok && final(self)@ == s && final(engine)@ == minted_holders(
                        old(engine)@,
                        inv.timestamp,
                        old(self)@,
                        to,
                    ),
                },
            },
    {
        self.require_admin(inv)?;
        if amount <= 0 {
            return Err(RwaError::NonPositiveAmount);
        }
        kyc::require_kyc(&self.store, kyc, inv.timestamp, to)?;
        let prev = balance::read_balance(&self.store, to);
        if prev == 0 {
            compliance::check_transfer(&self.store, engine, engine_kyc, inv.timestamp, to, to, amount)?;
        }
        let nb = match prev.checked_add(amount) {
            None => {
                return Err(RwaError::Overflow);
            },
            Some(nb) => nb,
        };
        let ns = match balance::read_total_supply(&self.store).checked_add(amount) {
            None => {
                return Err(RwaError::Overflow);
            },
            Some(ns) => ns,
        };
        proof {
            lemma_total_of_insert(self@.balances, to, nb);
        }
        balance::write_balance(&mut self.store, to, nb);
        balance::write_total_supply(&mut self.store, ns);
        if prev == 0 {
            compliance::register_holder(&self.store, engine, inv.timestamp, to);
        }
        Ok(())
    }

    fn read_present(&self, key: Vec<u8>) -> (r: Option<Vec<u8>>)
        requires
            self.wf(),
        ensures
            opt_bytes(r) == present(meta_value(self@.compliance_meta, key@)),
    {
        let v = compliance::read_metadata(&self.store, &key);
        if v.len() > 0 {
            Some(v)
        } else {
            None
        }
    }
}

} // verus!
