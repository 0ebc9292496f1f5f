//! The KYC registry the token consults.

use vstd::prelude::*;

use super::storage_types::{Storage, StorageView};
use super::RwaError;
use crate::kyc_registry::{KycRegistry, approved_at};
use crate::types::Address;

verus! {

/// The configured KYC registry.
pub fn read_kyc_registry(store: &Storage) -> (r: Address)
    ensures
        r == store@.kyc_registry,
{
    store.kyc_registry
}

/// Configures another KYC registry.
pub fn write_kyc_registry(store: &mut Storage, registry: Address)
    ensures
        final(store)@ == (StorageView { kyc_registry: registry, ..old(store)@ }),
{
    store.kyc_registry = registry;
}

/// Refuses unless `addr` is approved, at time `now`, in the configured registry `kyc`.
pub fn require_kyc(store: &Storage, kyc: &KycRegistry, now: u64, addr: Address) -> (r: Result<(), RwaError>)
    requires
        kyc.id() == store@.kyc_registry,
    ensures
        approved_at(kyc@, now, addr) ==> r is Ok,
        !approved_at(kyc@, now, addr) ==> r == Err::<(), RwaError>(RwaError::KycNotApproved),
{
    if kyc.is_approved(now, addr) {
        Ok(())
    } else {
        Err(RwaError::KycNotApproved)
    }
}

} // verus!
