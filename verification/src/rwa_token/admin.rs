//! The token's admin.

use vstd::prelude::*;

use super::storage_types::{Storage, StorageView};
use crate::types::Address;

verus! {

/// The admin.
pub fn read_admin(store: &Storage) -> (r: Address)
    ensures
        r == store@.admin,
{
    store.admin
}

/// Replaces the admin.
pub fn write_admin(store: &mut Storage, admin: Address)
    ensures
        final(store)@ == (StorageView { admin, ..old(store)@ }),
{
    store.admin = admin;
}

} // verus!
