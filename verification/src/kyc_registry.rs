//! On-chain KYC registry: an admin manages a set of verifiers, and verifiers
//! approve, reject or revoke holders with a tier, an expiry and a two-letter
//! jurisdiction. Asset tokens ask it whether a holder is currently approved.

use std::collections::HashMap;
use vstd::prelude::*;

use crate::types::{Address, Invocation, contains_address, remove_address, without, differs_from, no_duplicates, copy_bytes, copy_addresses, page, page_of};

verus! {

broadcast use vstd::std_specs::hash::group_hash_axioms;

/// Why a registry call was refused.
#[derive(Clone, Copy, Debug, PartialEq, Eq, Structural)]
pub enum KycError {
    AlreadyInitialized,
    NotVerifier,
    NotApproved,
    NoRecord,
    InvalidJurisdiction,
    /// The registry has no admin yet.
    NotInitialized,
    /// The party whose authorization the call needs did not give it.
    Unauthorized,
    /// `accept_admin` was called with no admin proposed.
    NoPendingAdmin,
}

#[derive(Clone, Copy, Debug, PartialEq, Eq, Structural)]
pub enum KycStatus {
    Pending,
    Approved,
    Rejected,
    Revoked,
}

/// The KYC state of one subject.
pub struct KycRecord {
    pub status: KycStatus,
    pub verifier: Address,
    /// 0 = basic, 1 = accredited, 2 = institutional.
    pub tier: u32,
    /// Ledger timestamp after which the approval lapses; 0 = no expiry.
    pub expiry: u64,
    pub jurisdiction: Vec<u8>,
}

pub struct KycRecordView {
    pub status: KycStatus,
    pub verifier: Address,
    pub tier: u32,
    pub expiry: u64,
    pub jurisdiction: Seq<u8>,
}

impl View for KycRecord {
    type V = KycRecordView;

    open spec fn view(&self) -> KycRecordView {
        KycRecordView {
            status: self.status,
            verifier: self.verifier,
            tier: self.tier,
            expiry: self.expiry,
            jurisdiction: self.jurisdiction@,
        }
    }
}

impl KycRecord {
    /// A copy of the record.
    pub fn duplicate(&self) -> (r: KycRecord)
        ensures
            r@ == self@,
    {
        KycRecord {
            status: self.status,
            verifier: self.verifier,
            tier: self.tier,
            expiry: self.expiry,
            jurisdiction: copy_bytes(&self.jurisdiction),
        }
    }
}

/// One entry of the append-only index of approvals that carry an expiry.
#[derive(Clone, Copy, Debug, PartialEq, Eq, Structural)]
pub struct ExpiryEntry {
    pub expiry: u64,
    pub addr: Address,
}

/// An approved subject whose approval expires soon, with its current record.
pub struct ExpiringRecord {
    pub addr: Address,
    pub record: KycRecord,
}

pub struct ExpiringRecordView {
    pub addr: Address,
    pub record: KycRecordView,
}

impl View for ExpiringRecord {
    type V = ExpiringRecordView;

    open spec fn view(&self) -> ExpiringRecordView {
        ExpiringRecordView { addr: self.addr, record: self.record@ }
    }
}

/// The registry's state.
pub struct KycRegistry {
    id: Address,
    admin: Option<Address>,
    pending_admin: Option<Address>,
    verifiers: Vec<Address>,
    verifier_count: u32,
    records: HashMap<Address, KycRecord>,
    expiry_index: Vec<ExpiryEntry>,
}

/// The registry as a mathematical value.
pub struct KycRegistryView {
    pub id: Address,
    pub admin: Option<Address>,
    pub pending_admin: Option<Address>,
    pub verifiers: Seq<Address>,
    pub verifier_count: u32,
    pub records: Map<Address, KycRecordView>,
    pub expiry_index: Seq<ExpiryEntry>,
}

impl View for KycRegistry {
    type V = KycRegistryView;

    closed spec fn view(&self) -> KycRegistryView {
        KycRegistryView {
            id: self.id,
            admin: self.admin,
            pending_admin: self.pending_admin,
            verifiers: self.verifiers@,
            verifier_count: self.verifier_count,
            records: self.records@.map_values(|r: KycRecord| r@),
            expiry_index: self.expiry_index@,
        }
    }
}

/// Whether a registry in state `v` regards `addr` as approved at time `now`:
/// it holds an Approved record for it that has no expiry or has not expired.
pub open spec fn approved_at(v: KycRegistryView, now: u64, addr: Address) -> bool {
    &&& v.records.contains_key(addr)
    &&& v.records[addr].status == KycStatus::Approved
    &&& (v.records[addr].expiry == 0 || v.records[addr].expiry >= now)
}

/// The refusal, if any, of a call that only the admin may make.
pub open spec fn admin_gate(v: KycRegistryView, inv: Invocation) -> Option<KycError> {
    match v.admin {
        None => Some(KycError::NotInitialized),
        Some(a) => if inv.authorized(a) {
            None
        } else {
            Some(KycError::Unauthorized)
        },
    }
}

/// The refusal, if any, of a call that a registered verifier makes.
pub open spec fn verifier_gate(v: KycRegistryView, inv: Invocation, verifier: Address) -> Option<
    KycError,
> {
    if !inv.authorized(verifier) {
        Some(KycError::Unauthorized)
    } else if !v.verifiers.contains(verifier) {
        Some(KycError::NotVerifier)
    } else {
        None
    }
}

/// A jurisdiction is two upper-case ASCII letters.
pub open spec fn valid_jurisdiction(j: Seq<u8>) -> bool {
    j.len() == 2 && 65 <= j[0] <= 90 && 65 <= j[1] <= 90
}

/// The state after storing `rec` for `addr`; an Approved record with an
/// expiry is also appended to the expiry index.
pub open spec fn with_record(v: KycRegistryView, addr: Address, rec: KycRecordView) -> KycRegistryView {
    KycRegistryView {
        records: v.records.insert(addr, rec),
        expiry_index: if rec.status == KycStatus::Approved && rec.expiry != 0 {
            v.expiry_index.push(ExpiryEntry { expiry: rec.expiry, addr })
        } else {
            v.expiry_index
        },
        ..v
    }
}

/// The record a reject or revoke starts from: the stored one, or a fresh
/// Pending record naming the verifier.
pub open spec fn record_or_default(v: KycRegistryView, addr: Address, verifier: Address) -> KycRecordView {
    if v.records.contains_key(addr) {
        v.records[addr]
    } else {
        KycRecordView {
            status: KycStatus::Pending,
            verifier,
            tier: 0,
            expiry: 0,
            jurisdiction: Seq::empty(),
        }
    }
}

/// The approved subjects whose indexed expiry lies in `(now, now + within]`,
/// scanning the expiry index from position `i` and collecting at most
/// `budget` of them.
pub open spec fn expiring_from(
    v: KycRegistryView,
    now: u64,
    within: u64,
    i: int,
    budget: int,
) -> Seq<ExpiringRecordView>
    decreases v.expiry_index.len() - i,
{
    if i < 0 || i >= v.expiry_index.len() || budget <= 0 {
        Seq::empty()
    } else {
        let e = v.expiry_index[i];
        if e.expiry > now && e.expiry <= now + within && v.records.contains_key(e.addr)
            && v.records[e.addr].status == KycStatus::Approved {
            seq![ExpiringRecordView { addr: e.addr, record: v.records[e.addr] }] + expiring_from(
                v,
                now,
                within,
                i + 1,
                budget - 1,
            )
        } else {
            expiring_from(v, now, within, i + 1, budget)
        }
    }
}

impl KycRegistry {
    /// The registry's own address.
    pub closed spec fn id(&self) -> Address {
        self.id
    }

    /// The invariant every registry keeps: the stored verifier count is the
    /// length of the verifier list, and no verifier is listed twice.
    pub open spec fn wf(&self) -> bool {
        &&& self@.verifier_count == self@.verifiers.len()
        &&& no_duplicates(self@.verifiers)
    }

    /// A freshly deployed, uninitialized registry at address `id`.
    pub fn new(id: Address) -> (r: KycRegistry)
        ensures
            r.wf(),
            r.id() == id,
            r@ == (KycRegistryView {
                id,
                admin: None,
                pending_admin: None,
                verifiers: Seq::empty(),
                verifier_count: 0,
                records: Map::empty(),
                expiry_index: Seq::empty(),
            }),
    {
        let r = KycRegistry {
            id,
            admin: None,
            pending_admin: None,
            verifiers: Vec::new(),
            verifier_count: 0,
            records: HashMap::new(),
            expiry_index: Vec::new(),
        };
        proof {
            assert(r@.records =~= Map::empty());
        }
        r
    }

    /// The registry's own address.
    pub fn address(&self) -> (r: Address)
        ensures
            r == self.id(),
            r == self@.id,
    {
        self.id
    }

    /// Sets the admin once; any later call is refused.
    pub fn initialize(&mut self, admin: Address) -> (r: Result<(), KycError>)
        ensures
            final(self).id() == old(self).id(),
            old(self)@.admin is Some ==> r == Err::<(), KycError>(KycError::AlreadyInitialized)
                && final(self)@ == old(self)@,
            old(self)@.admin is None ==> r is Ok && final(self)@ == (KycRegistryView {
                admin: Some(admin),
                ..old(self)@
            }),
    {
        if self.admin.is_some() {
            return Err(KycError::AlreadyInitialized);
        }
        self.admin = Some(admin);
        Ok(())
    }

    fn require_admin(&self, inv: &Invocation) -> (r: Option<KycError>)
        ensures
            r == admin_gate(self@, *inv),
    {
        match self.admin {
            None => Some(KycError::NotInitialized),
            Some(a) => if inv.is_authorized(a) {
                None
            } else {
                Some(KycError::Unauthorized)
            },
        }
    }

    fn require_verifier(&self, inv: &Invocation, verifier: Address) -> (r: Option<KycError>)
        ensures
            r == verifier_gate(self@, *inv, verifier),
    {
        if !inv.is_authorized(verifier) {
            Some(KycError::Unauthorized)
        } else if !contains_address(&self.verifiers, verifier) {
            Some(KycError::NotVerifier)
        } else {
            None
        }
    }

    /// Proposes a new admin; the admin must authorize.
    pub fn propose_admin(&mut self, inv: &Invocation, new_admin: Address) -> (r: Result<(), KycError>)
        ensures
            final(self).id() == old(self).id(),
            match admin_gate(old(self)@, *inv) {
                Some(e) => r == Err::<(), KycError>(e) && final(self)@ == old(self)@,
                None => r is Ok && final(self)@ == (KycRegistryView {
                    pending_admin: Some(new_admin),
                    ..old(self)@
                }),
            },
    {
        if let Some(e) = self.require_admin(inv) {
            return Err(e);
        }
        self.pending_admin = Some(new_admin);
        Ok(())
    }

    /// The proposed admin takes over; it must authorize.
    pub fn accept_admin(&mut self, inv: &Invocation) -> (r: Result<(), KycError>)
        ensures
            final(self).id() == old(self).id(),
            match old(self)@.pending_admin {
                None => r == Err::<(), KycError>(KycError::NoPendingAdmin) && final(self)@ == old(self)@,
                Some(p) => if !inv.authorized(p) {
                    r == Err::<(), KycError>(KycError::Unauthorized) && final(self)@ == old(self)@
                } else if old(self)@.admin is None {
                    r == Err::<(), KycError>(KycError::NotInitialized) && final(self)@ == old(self)@
                } else {
                    r is Ok && final(self)@ == (KycRegistryView {
                        admin: Some(p),
                        pending_admin: None,
                        ..old(self)@
                    })
                },
            },
    {
        let pending = match self.pending_admin {
            None => {
                return Err(KycError::NoPendingAdmin);
            },
            Some(p) => p,
        };
        if !inv.is_authorized(pending) {
            return Err(KycError::Unauthorized);
        }
        if self.admin.is_none() {
            return Err(KycError::NotInitialized);
        }
        self.admin = Some(pending);
        self.pending_admin = None;
        Ok(())
    }

    /// Registers a verifier (admin only); registering one twice changes nothing.
    pub fn add_verifier(&mut self, inv: &Invocation, verifier: Address) -> (r: Result<(), KycError>)
        requires
            old(self).wf(),
            admin_gate(old(self)@, *inv) is None && !old(self)@.verifiers.contains(verifier) ==> old(
                self,
            )@.verifiers.len() < u32::MAX,
        ensures
            final(self).wf(),
            final(self).id() == old(self).id(),
            match admin_gate(old(self)@, *inv) {
                Some(e) => r == Err::<(), KycError>(e) && final(self)@ == old(self)@,
                None => r is Ok && final(self)@ == (KycRegistryView {
                    verifiers: if old(self)@.verifiers.contains(verifier) {
                        old(self)@.verifiers
                    } else {
                        old(self)@.verifiers.push(verifier)
                    },
                    verifier_count: if old(self)@.verifiers.contains(verifier) {
                        old(self)@.verifier_count
                    } else {
                        (old(self)@.verifier_count + 1) as u32
                    },
                    ..old(self)@
                }),
            },
    {
        if let Some(e) = self.require_admin(inv) {
            return Err(e);
        }
        if !contains_address(&self.verifiers, verifier) {
            self.verifiers.push(verifier);
            self.verifier_count = self.verifier_count + 1;
            proof {
                let s = self.verifiers@;
                assert forall|i: int, j: int|
                    0 <= i < s.len() && 0 <= j < s.len() && i != j implies s[i] != s[j] by {
                    if i == s.len() - 1 {
                        assert(old(self)@.verifiers.contains(s[j]) ==> s[j] != verifier);
                        assert(old(self)@.verifiers[j] == s[j]);
                    } else if j == s.len() - 1 {
                        assert(old(self)@.verifiers[i] == s[i]);
                    }
                }
            }
        }
        Ok(())
    }

    /// Unregisters a verifier (admin only).
    pub fn remove_verifier(&mut self, inv: &Invocation, verifier: Address) -> (r: Result<(), KycError>)
        requires
            old(self).wf(),
        ensures
            final(self).wf(),
            final(self).id() == old(self).id(),
            match admin_gate(old(self)@, *inv) {
                Some(e) => r == Err::<(), KycError>(e) && final(self)@ == old(self)@,
                None => r is Ok && final(self)@ == (KycRegistryView {
                    verifiers: without(old(self)@.verifiers, verifier),
                    verifier_count: if old(self)@.verifiers.contains(verifier) {
                        (old(self)@.verifier_count - 1) as u32
                    } else {
                        old(self)@.verifier_count
                    },
                    ..old(self)@
                }),
            },
    {
        if let Some(e) = self.require_admin(inv) {
            return Err(e);
        }
        let removed = contains_address(&self.verifiers, verifier);
        let new_list = remove_address(&self.verifiers, verifier);
        proof {
            crate::types::lemma_without_unique(self.verifiers@, verifier);
        }
        self.verifiers = new_list;
        if removed {
            let count = self.verifier_count;
            self.verifier_count = if count > 0 {
                count - 1
            } else {
                0
            };
        }
        Ok(())
    }

    /// The number of registered verifiers.
    pub fn verifier_count(&self) -> (r: u32)
        ensures
            r == self@.verifier_count,
    {
        self.verifier_count
    }

    /// The full verifier list, in registration order.
    pub fn verifier_list_pub(&self) -> (r: Vec<Address>)
        ensures
            r@ == self@.verifiers,
    {
        copy_addresses(&self.verifiers)
    }

    /// At most `limit` verifiers (never more than 20) from offset `start`.
    pub fn get_verifiers(&self, start: u32, limit: u32) -> (r: Vec<Address>)
        requires
            start < self@.verifiers.len() ==> start + (if limit < 20 { limit as int } else { 20 }) <= u32::MAX,
        ensures
            r@ == page(self@.verifiers, start as int, limit as int, 20),
    {
        page_of(&self.verifiers, start, limit, 20)
    }

    /// Stores `record` for `addr`, indexing it when it is an approval with an expiry.
    fn write_record(&mut self, addr: Address, record: KycRecord)
        requires
            record.status == KycStatus::Approved && record.expiry != 0 ==> old(self)@.expiry_index.len()
                < u32::MAX,
        ensures
            final(self)@ == with_record(old(self)@, addr, record@),
            final(self).id() == old(self).id(),
    {
        if record.status == KycStatus::Approved && record.expiry != 0 {
            self.expiry_index.push(ExpiryEntry { expiry: record.expiry, addr });
        }
        let ghost rv = record@;
        self.records.insert(addr, record);
        proof {
            assert(self@.records =~= old(self)@.records.insert(addr, rv));
        }
    }

    /// A verifier approves `subject` with a tier, an expiry (0 = none) and a
    /// jurisdiction of two upper-case letters.
    pub fn approve(
        &mut self,
        inv: &Invocation,
        verifier: Address,
        subject: Address,
        tier: u32,
        expiry: u64,
        jurisdiction: Vec<u8>,
    ) -> (r: Result<(), KycError>)
        requires
            old(self).wf(),
            verifier_gate(old(self)@, *inv, verifier) is None && valid_jurisdiction(jurisdiction@) && expiry
                != 0 ==> old(self)@.expiry_index.len() < u32::MAX,
        ensures
            final(self).wf(),
            final(self).id() == old(self).id(),
            match verifier_gate(old(self)@, *inv, verifier) {
                Some(e) => r == Err::<(), KycError>(e) && final(self)@ == old(self)@,
                None => if !valid_jurisdiction(jurisdiction@) {
                    r == Err::<(), KycError>(KycError::InvalidJurisdiction) && final(self)@ == old(self)@
                } else {
                    r is Ok && final(self)@ == with_record(
                        old(self)@,
                        subject,
                        KycRecordView {
                            status: KycStatus::Approved,
                            verifier,
                            tier,
                            expiry,
                            jurisdiction: jurisdiction@,
                        },
                    )
                },
            },
    {
        if let Some(e) = self.require_verifier(inv, verifier) {
            return Err(e);
        }
        if !is_valid_jurisdiction(&jurisdiction) {
            return Err(KycError::InvalidJurisdiction);
        }
        let record = KycRecord { status: KycStatus::Approved, verifier, tier, expiry, jurisdiction };
        self.write_record(subject, record);
        Ok(())
    }

    fn record_or_default(&self, addr: Address, verifier: Address) -> (r: KycRecord)
        ensures
            r@ == record_or_default(self@, addr, verifier),
    {
        match self.records.get(&addr) {
            Some(rec) => rec.duplicate(),
            None => {
                let r = KycRecord {
                    status: KycStatus::Pending,
                    verifier,
                    tier: 0,
                    expiry: 0,
                    jurisdiction: Vec::new(),
                };
                proof {
                    assert(r@.jurisdiction =~= Seq::<u8>::empty());
                }
                r
            },
        }
    }

    fn set_status(&mut self, inv: &Invocation, verifier: Address, subject: Address, status: KycStatus) -> (r: Result<(), KycError>)
        requires
            old(self).wf(),
            status != KycStatus::Approved,
        ensures
            final(self).wf(),
            final(self).id() == old(self).id(),
            match verifier_gate(old(self)@, *inv, verifier) {
                Some(e) => r == Err::<(), KycError>(e) && final(self)@ == old(self)@,
                None => r is Ok && final(self)@ == with_record(
                    old(self)@,
                    subject,
                    KycRecordView { status, ..record_or_default(old(self)@, subject, verifier) },
                ),
            },
    {
        if let Some(e) = self.require_verifier(inv, verifier) {
            return Err(e);
        }
        let mut record = self.record_or_default(subject, verifier);
        record.status = status;
        self.write_record(subject, record);
        Ok(())
    }

    /// A verifier marks `subject` Rejected, keeping the rest of its record.
    pub fn reject(&mut self, inv: &Invocation, verifier: Address, subject: Address) -> (r: Result<(), KycError>)
        requires
            old(self).wf(),
        ensures
            final(self).wf(),
            final(self).id() == old(self).id(),
            match verifier_gate(old(self)@, *inv, verifier) {
                Some(e) => r == Err::<(), KycError>(e) && final(self)@ == old(self)@,
                None => r is Ok && final(self)@ == with_record(
                    old(self)@,
                    subject,
                    KycRecordView {
                        status: KycStatus::Rejected,
                        ..record_or_default(old(self)@, subject, verifier)
                    },
                ),
            },
    {
        self.set_status(inv, verifier, subject, KycStatus::Rejected)
    }

    /// A verifier marks `subject` Revoked, keeping the rest of its record.
    pub fn revoke(&mut self, inv: &Invocation, verifier: Address, subject: Address) -> (r: Result<(), KycError>)
        requires
            old(self).wf(),
        ensures
            final(self).wf(),
            final(self).id() == old(self).id(),
            match verifier_gate(old(self)@, *inv, verifier) {
                Some(e) => r == Err::<(), KycError>(e) && final(self)@ == old(self)@,
                None => r is Ok && final(self)@ == with_record(
                    old(self)@,
                    subject,
                    KycRecordView {
                        status: KycStatus::Revoked,
                        ..record_or_default(old(self)@, subject, verifier)
                    },
                ),
            },
    {
        self.set_status(inv, verifier, subject, KycStatus::Revoked)
    }

    /// A verifier changes the tier of a currently Approved subject.
    pub fn update_tier(&mut self, inv: &Invocation, verifier: Address, subject: Address, new_tier: u32) -> (r: Result<(), KycError>)
        requires
            old(self).wf(),
            verifier_gate(old(self)@, *inv, verifier) is None && old(self)@.records.contains_key(subject)
                && old(self)@.records[subject].status == KycStatus::Approved && old(self)@.records[subject].expiry
                != 0 ==> old(self)@.expiry_index.len() < u32::MAX,
        ensures
            final(self).wf(),
            final(self).id() == old(self).id(),
            match verifier_gate(old(self)@, *inv, verifier) {
                Some(e) => r == Err::<(), KycError>(e) && final(self)@ == old(self)@,
                None => if !old(self)@.records.contains_key(subject) {
                    r == Err::<(), KycError>(KycError::NoRecord) && final(self)@ == old(self)@
                } else if old(self)@.records[subject].status != KycStatus::Approved {
                    r == Err::<(), KycError>(KycError::NotApproved) && final(self)@ == old(self)@
                } else {
                    r is Ok && final(self)@ == with_record(
                        old(self)@,
                        subject,
                        KycRecordView { tier: new_tier, ..old(self)@.records[subject] },
                    )
                },
            },
    {
        if let Some(e) = self.require_verifier(inv, verifier) {
            return Err(e);
        }
        let mut record = match self.records.get(&subject) {
            None => {
                return Err(KycError::NoRecord);
            },
            Some(rec) => rec.duplicate(),
        };
        if record.status != KycStatus::Approved {
            return Err(KycError::NotApproved);
        }
        record.tier = new_tier;
        self.write_record(subject, record);
        Ok(())
    }

    /// Whether `addr` holds an active, non-expired approval at time `now`.
    pub fn is_approved(&self, now: u64, addr: Address) -> (r: bool)
        ensures
            r == approved_at(self@, now, addr),
    {
        match self.records.get(&addr) {
            None => false,
            Some(record) => {
                if record.status != KycStatus::Approved {
                    return false;
                }
                if record.expiry != 0 && record.expiry < now {
                    return false;
                }
                true
            },
        }
    }

    /// The stored record of `addr`.
    pub fn get_record(&self, addr: Address) -> (r: Result<KycRecord, KycError>)
        ensures
            self@.records.contains_key(addr) ==> r is Ok && r->Ok_0@ == self@.records[addr],
            !self@.records.contains_key(addr) ==> r == Err::<KycRecord, KycError>(
                KycError::NoRecord,
            ),
    {
        match self.records.get(&addr) {
            None => Err(KycError::NoRecord),
            Some(rec) => Ok(rec.duplicate()),
        }
    }

    /// The tier of `addr`'s stored record.
    pub fn get_tier(&self, addr: Address) -> (r: Result<u32, KycError>)
        ensures
            self@.records.contains_key(addr) ==> r == Ok::<u32, KycError>(
                self@.records[addr].tier,
            ),
            !self@.records.contains_key(addr) ==> r == Err::<u32, KycError>(KycError::NoRecord),
    {
        match self.records.get(&addr) {
            None => Err(KycError::NoRecord),
            Some(rec) => Ok(rec.tier),
        }
    }

    /// At most `limit` (never more than 50) approved subjects whose indexed
    /// expiry lies in `(now, now + within_seconds]`, scanning the expiry index
    /// from position `start`.
    pub fn get_expiring_soon(&self, now: u64, within_seconds: u64, start: u32, limit: u32) -> (r: Vec<ExpiringRecord>)
        requires
            now + within_seconds > u64::MAX && limit > 0 ==> forall|i: int|
                start <= i < self@.expiry_index.len() ==> #[trigger] self@.expiry_index[i].expiry <= now,
        ensures
            r@.map_values(|e: ExpiringRecord| e@) == expiring_from(
                self@,
                now,
                within_seconds,
                start as int,
                if limit < 50 { limit as int } else { 50 },
            ),
    {
        let capped: usize = if limit < 50 { limit as usize } else { 50 };
        let mut out: Vec<ExpiringRecord> = Vec::new();
        let mut i: usize = start as usize;
        let ghost total = expiring_from(self@, now, within_seconds, start as int, capped as int);
        while i < self.expiry_index.len() && out.len() < capped
            invariant
                start <= i,
                out.len() <= capped,
                out@.map_values(|e: ExpiringRecord| e@) + expiring_from(
                    self@,
                    now,
                    within_seconds,
                    i as int,
                    capped - out.len(),
                ) == total,
            decreases self.expiry_index.len() - i,
        {
            let entry = self.expiry_index[i];
            let ghost before = out@.map_values(|e: ExpiringRecord| e@);
            if entry.expiry > now && entry.expiry - now <= within_seconds {
                match self.records.get(&entry.addr) {
                    Some(record) => {
                        if record.status == KycStatus::Approved {
                            out.push(ExpiringRecord { addr: entry.addr, record: record.duplicate() });
                            proof {
                                assert(out@.map_values(|e: ExpiringRecord| e@) =~= before.push(
                                    ExpiringRecordView {
                                        addr: entry.addr,
                                        record: self@.records[entry.addr],
                                    },
                                ));
                            }
                        }
                    },
                    None => {},
                }
            }
            i = i + 1;
        }
        proof {
            assert(out@.map_values(|e: ExpiringRecord| e@) + expiring_from(
                self@,
                now,
                within_seconds,
                i as int,
                capped - out.len(),
            ) =~= out@.map_values(|e: ExpiringRecord| e@));
        }
        out
    }
}

/// Tests whether `j` is two upper-case ASCII letters.
pub fn is_valid_jurisdiction(j: &Vec<u8>) -> (r: bool)
    ensures
        r == valid_jurisdiction(j@),
{
    if j.len() != 2 {
        return false;
    }
    let a = j[0];
    let b = j[1];
    !(a < 65 || a > 90 || b < 65 || b > 90)
}

} // verus!
