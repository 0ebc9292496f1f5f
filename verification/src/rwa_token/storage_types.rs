//! The state of an RWA token, field by field, as its helper modules read and
//! write it.

use std::collections::HashMap;
use vstd::prelude::*;

use crate::pair_map::PairMap;
use crate::types::Address;

verus! {

/// An allowance: how much a spender may still move, and until which ledger.
#[derive(Clone, Copy, Debug, PartialEq, Eq, Structural)]
pub struct AllowanceValue {
    pub amount: i128,
    pub expiration_ledger: u32,
}

/// Name, symbol and precision of the token.
pub struct TokenMetadata {
    pub decimal: u32,
    pub name: Vec<u8>,
    pub symbol: Vec<u8>,
}

pub struct TokenMetadataView {
    pub decimal: u32,
    pub name: Seq<u8>,
    pub symbol: Seq<u8>,
}

impl View for TokenMetadata {
    type V = TokenMetadataView;

    open spec fn view(&self) -> TokenMetadataView {
        TokenMetadataView { decimal: self.decimal, name: self.name@, symbol: self.symbol@ }
    }
}

/// One compliance-metadata entry, keyed by a symbol.
pub struct MetaEntry {
    pub key: Vec<u8>,
    pub value: Vec<u8>,
}

/// Everything an RWA token stores.
pub struct Storage {
    pub contract_id: Address,
    pub admin: Address,
    pub kyc_registry: Address,
    pub compliance_engine: Address,
    pub metadata: TokenMetadata,
    pub asset_type: Vec<u8>,
    pub total_supply: i128,
    pub balances: HashMap<Address, i128>,
    pub allowances: PairMap<AllowanceValue>,
    pub compliance_meta: Vec<MetaEntry>,
    pub frozen: HashMap<Address, bool>,
}

/// The stored state as a mathematical value.
pub struct StorageView {
    pub contract_id: Address,
    pub admin: Address,
    pub kyc_registry: Address,
    pub compliance_engine: Address,
    pub metadata: TokenMetadataView,
    pub asset_type: Seq<u8>,
    pub total_supply: i128,
    pub balances: Map<Address, i128>,
    pub allowances: Map<(Address, Address), AllowanceValue>,
    /// Compliance metadata entries in order of first write; keys are unique.
    pub compliance_meta: Seq<(Seq<u8>, Seq<u8>)>,
    pub frozen: Map<Address, bool>,
}

impl View for Storage {
    type V = StorageView;

    open spec fn view(&self) -> StorageView {
        StorageView {
            contract_id: self.contract_id,
            admin: self.admin,
            kyc_registry: self.kyc_registry,
            compliance_engine: self.compliance_engine,
            metadata: self.metadata@,
            asset_type: self.asset_type@,
            total_supply: self.total_supply,
            balances: self.balances@,
            allowances: self.allowances@,
            compliance_meta: self.compliance_meta@.map_values(|e: MetaEntry| (e.key@, e.value@)),
            frozen: self.frozen@,
        }
    }
}

/// No two compliance-metadata entries share a key.
pub open spec fn unique_meta_keys(s: Seq<(Seq<u8>, Seq<u8>)>) -> bool {
    forall|i: int, j: int| 0 <= i < s.len() && 0 <= j < s.len() && i != j ==> s[i].0 != s[j].0
}

} // verus!
