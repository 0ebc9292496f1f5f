//! The compliance engine the token consults, compliance metadata, and the
//! freeze flags.

use vstd::prelude::*;

use super::storage_types::{MetaEntry, Storage, StorageView, unique_meta_keys};
use super::RwaError;
use crate::compliance_engine::{
    ComplianceEngine, ComplianceError, transfer_verdict, with_holder, without_holder,
};
use crate::kyc_registry::KycRegistry;
use crate::types::{Address, bytes_eq, copy_bytes};

verus! {

/// The configured compliance engine.
pub fn read_compliance_engine(store: &Storage) -> (r: Address)
    ensures
        r == store@.compliance_engine,
{
    store.compliance_engine
}

/// Configures another compliance engine.
pub fn write_compliance_engine(store: &mut Storage, engine: Address)
    ensures
        final(store)@ == (StorageView { compliance_engine: engine, ..old(store)@ }),
{
    store.compliance_engine = engine;
}

/// The position of the entry keyed `key`, if any.
pub open spec fn meta_index(s: Seq<(Seq<u8>, Seq<u8>)>, key: Seq<u8>) -> Option<int> {
    if exists|i: int| 0 <= i < s.len() && s[i].0 == key {
        Some(choose|i: int| 0 <= i < s.len() && s[i].0 == key)
    } else {
        None
    }
}

/// The metadata value stored under `key`, or the empty string.
pub open spec fn meta_value(s: Seq<(Seq<u8>, Seq<u8>)>, key: Seq<u8>) -> Seq<u8> {
    match meta_index(s, key) {
        Some(i) => s[i].1,
        None => Seq::empty(),
    }
}

/// The metadata after `key` is set to `value`: an existing entry is replaced
/// in place, a new one is appended.
pub open spec fn meta_set(s: Seq<(Seq<u8>, Seq<u8>)>, key: Seq<u8>, value: Seq<u8>) -> Seq<
    (Seq<u8>, Seq<u8>),
> {
    match meta_index(s, key) {
        Some(i) => s.update(i, (key, value)),
        None => s.push((key, value)),
    }
}

/// Finds the entry keyed `key`.
fn find_meta(store: &Storage, key: &Vec<u8>) -> (r: Option<usize>)
    requires
        unique_meta_keys(store@.compliance_meta),
    ensures
        match r {
            Some(i) => meta_index(store@.compliance_meta, key@) == Some(i as int),
            None => meta_index(store@.compliance_meta, key@) is None,
        },
{
    let ghost s = store@.compliance_meta;
    let mut i: usize = 0;
    while i < store.compliance_meta.len()
        invariant
            s == store@.compliance_meta,
            s.len() == store.compliance_meta.len(),
            unique_meta_keys(s),
            0 <= i <= s.len(),
            forall|j: int| 0 <= j < i ==> s[j].0 != key@,
        decreases store.compliance_meta.len() - i,
    {
        if bytes_eq(&store.compliance_meta[i].key, key) {
            proof {
                assert(s[i as int].0 == key@);
                let c = choose|j: int| 0 <= j < s.len() && s[j].0 == key@;
                assert(c == i as int);
            }
            return Some(i);
        }
        i = i + 1;
    }
    None
}

/// Sets the compliance-metadata entry `key` to `value`.
pub fn write_metadata(store: &mut Storage, key: &Vec<u8>, value: &Vec<u8>)
    requires
        unique_meta_keys(old(store)@.compliance_meta),
    ensures
        unique_meta_keys(final(store)@.compliance_meta),
        final(store)@ == (StorageView {
            compliance_meta: meta_set(old(store)@.compliance_meta, key@, value@),
            ..old(store)@
        }),
{
    let ghost s = old(store)@.compliance_meta;
    let entry = MetaEntry { key: copy_bytes(key), value: copy_bytes(value) };
    match find_meta(store, key) {
        Some(i) => {
            store.compliance_meta.set(i, entry);
            proof {
                assert(store@.compliance_meta =~= meta_set(s, key@, value@));
            }
        },
        None => {
            store.compliance_meta.push(entry);
            proof {
                assert(store@.compliance_meta =~= meta_set(s, key@, value@));
                assert forall|a: int, b: int|
                    0 <= a < store@.compliance_meta.len() && 0 <= b < store@.compliance_meta.len()
                        && a != b implies store@.compliance_meta[a].0
                    != store@.compliance_meta[b].0 by {
                    if a == s.len() as int {
                        assert(s[b].0 != key@);
                    } else if b == s.len() as int {
                        assert(s[a].0 != key@);
                    }
                }
            }
        },
    }
}

/// The compliance-metadata value under `key`; empty when never set.
pub fn read_metadata(store: &Storage, key: &Vec<u8>) -> (r: Vec<u8>)
    requires
        unique_meta_keys(store@.compliance_meta),
    ensures
        r@ == meta_value(store@.compliance_meta, key@),
{
    match find_meta(store, key) {
        Some(i) => copy_bytes(&store.compliance_meta[i].value),
        None => Vec::new(),
    }
}

/// The refusal, if any, that the engine's verdict on a transfer leads to: an
/// engine that cannot answer fails the check, a negative answer blocks it.
pub open spec fn engine_gate(verdict: Result<bool, ComplianceError>) -> Option<RwaError> {
    match verdict {
        Err(_) => Some(RwaError::ComplianceCheckFailed),
        Ok(false) => Some(RwaError::TransferBlocked),
        Ok(true) => None,
    }
}

/// Asks the configured engine whether `amount` may move from `from` to `to`
/// at time `now`; `engine_kyc` is the registry the engine consults.
pub fn check_transfer(
    store: &Storage,
    engine: &ComplianceEngine,
    engine_kyc: &KycRegistry,
    now: u64,
    from: Address,
    to: Address,
    amount: i128,
) -> (r: Result<(), RwaError>)
    requires
        engine.id() == store@.compliance_engine,
        engine@.kyc_registry matches Some(k) ==> k == engine_kyc.id(),
    ensures
        match engine_gate(transfer_verdict(engine@, engine_kyc@, now, from, to, amount)) {
            Some(e) => r == Err::<(), RwaError>(e),
            None => r is Ok,
        },
{
    match engine.can_transfer(engine_kyc, now, from, to, amount) {
        Err(_) => Err(RwaError::ComplianceCheckFailed),
        Ok(false) => Err(RwaError::TransferBlocked),
        Ok(true) => Ok(()),
    }
}

/// Registers `addr` as a holder with the configured engine at time `now`.
pub fn register_holder(store: &Storage, engine: &mut ComplianceEngine, now: u64, addr: Address)
    requires
        old(engine).id() == store@.compliance_engine,
        !old(engine)@.holder_since.contains_key(addr) ==> old(engine)@.holder_count < u32::MAX,
    ensures
        final(engine).id() == old(engine).id(),
        old(engine).wf() ==> final(engine).wf(),
        final(engine)@ == with_holder(old(engine)@, now, addr),
{
    engine.register_holder(now, addr);
}

/// Unregisters `addr` as a holder with the configured engine.
pub fn unregister_holder(store: &Storage, engine: &mut ComplianceEngine, addr: Address)
    requires
        old(engine).id() == store@.compliance_engine,
    ensures
        final(engine).id() == old(engine).id(),
        old(engine).wf() ==> final(engine).wf(),
        final(engine)@ == without_holder(old(engine)@, addr),
{
    engine.unregister_holder(addr);
}

/// Whether `addr` is frozen (never set means not frozen).
pub fn is_frozen(store: &Storage, addr: Address) -> (r: bool)
    ensures
        r == (store@.frozen.contains_key(addr) && store@.frozen[addr]),
{
    match store.frozen.get(&addr) {
        Some(f) => *f,
        None => false,
    }
}

/// Sets whether `addr` is frozen.
pub fn set_frozen(store: &mut Storage, addr: Address, frozen: bool)
    ensures
        final(store)@ == (StorageView { frozen: old(store)@.frozen.insert(addr, frozen), ..old(store)@ }),
{
    store.frozen.insert(addr, frozen);
}

} // verus!
