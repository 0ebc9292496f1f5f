//! Configurable transfer rules: maximum transfer size, minimum holding period,
//! holder cap, same-jurisdiction requirement, blocklist and emergency pause.
//! Asset tokens ask it before every movement of value and report to it who
//! holds their tokens.

use std::collections::HashMap;
use vstd::prelude::*;

use crate::kyc_registry::{KycRegistry, KycRegistryView};
use crate::types::{Address, Invocation, contains_address, remove_address, without};

verus! {

broadcast use vstd::std_specs::hash::group_hash_axioms;

/// Why an engine call was refused.
#[derive(Clone, Copy, Debug, PartialEq, Eq, Structural)]
pub enum ComplianceError {
    AlreadyInitialized,
    MinHoldingPeriodExceeds365Days,
    NegativeMaxTransferAmount,
    MaxHoldersBelowCurrentCount,
    /// The engine has not been initialized.
    NotInitialized,
    /// The party whose authorization the call needs did not give it.
    Unauthorized,
    /// `accept_admin` was called with no admin proposed.
    NoPendingAdmin,
    /// A same-jurisdiction check found no KYC record for a party.
    NoKycRecord,
}

/// The rule set. Zero disables a numeric rule.
#[derive(Clone, Copy, Debug, PartialEq, Eq, Structural)]
pub struct ComplianceRules {
    /// 0 = unlimited.
    pub max_transfer_amount: i128,
    /// Seconds; 0 = none.
    pub min_holding_period: u64,
    /// 0 = unlimited.
    pub max_holders: u32,
    pub require_same_jurisdiction: bool,
    pub paused: bool,
}

/// The longest minimum holding period the engine accepts: 365 days.
pub const MAX_HOLDING_PERIOD: u64 = 31_536_000;

/// The engine's state.
pub struct ComplianceEngine {
    id: Address,
    admin: Option<Address>,
    pending_admin: Option<Address>,
    kyc_registry: Option<Address>,
    rules: Option<ComplianceRules>,
    blocklist: Vec<Address>,
    holder_count: u32,
    holder_since: HashMap<Address, u64>,
}

/// The engine as a mathematical value.
pub struct ComplianceEngineView {
    pub id: Address,
    pub admin: Option<Address>,
    pub pending_admin: Option<Address>,
    pub kyc_registry: Option<Address>,
    pub rules: Option<ComplianceRules>,
    pub blocklist: Seq<Address>,
    pub holder_count: u32,
    /// When each registered holder was (last) registered.
    pub holder_since: Map<Address, u64>,
}

impl View for ComplianceEngine {
    type V = ComplianceEngineView;

    closed spec fn view(&self) -> ComplianceEngineView {
        ComplianceEngineView {
            id: self.id,
            admin: self.admin,
            pending_admin: self.pending_admin,
            kyc_registry: self.kyc_registry,
            rules: self.rules,
            blocklist: self.blocklist@,
            holder_count: self.holder_count,
            holder_since: self.holder_since@,
        }
    }
}

/// The refusal, if any, of a call that only the admin may make.
pub open spec fn engine_admin_gate(v: ComplianceEngineView, inv: Invocation) -> Option<ComplianceError> {
    match v.admin {
        None => Some(ComplianceError::NotInitialized),
        Some(a) => if inv.authorized(a) {
            None
        } else {
            Some(ComplianceError::Unauthorized)
        },
    }
}

/// The rules a freshly initialized engine starts with: everything allowed.
pub open spec fn default_rules() -> ComplianceRules {
    ComplianceRules {
        max_transfer_amount: 0,
        min_holding_period: 0,
        max_holders: 0,
        require_same_jurisdiction: false,
        paused: false,
    }
}

/// `a - b`, or 0 when `b > a`.
pub open spec fn saturating_sub(a: u64, b: u64) -> u64 {
    if a >= b {
        (a - b) as u64
    } else {
        0
    }
}

/// What `can_transfer` answers for a transfer of `amount` from `from` to `to`
/// at time `now`, where `kyc` is the registry the engine is configured with.
/// The rules are applied in order: pause, blocklist (either party), same
/// jurisdiction, maximum amount, the sender's minimum holding period, and the
/// holder cap for a receiver that is not yet a holder.
pub open spec fn transfer_verdict(
    v: ComplianceEngineView,
    kyc: KycRegistryView,
    now: u64,
    from: Address,
    to: Address,
    amount: i128,
) -> Result<bool, ComplianceError> {
    match v.rules {
        None => Err(ComplianceError::NotInitialized),
        Some(rules) => if rules.paused {
            Ok(false)
        } else if v.blocklist.contains(from) || v.blocklist.contains(to) {
            Ok(false)
        } else if rules.require_same_jurisdiction && v.kyc_registry is None {
            Err(ComplianceError::NotInitialized)
        } else if rules.require_same_jurisdiction && (!kyc.records.contains_key(from)
            || !kyc.records.contains_key(to)) {
            Err(ComplianceError::NoKycRecord)
        } else if rules.require_same_jurisdiction && kyc.records[from].jurisdiction
            != kyc.records[to].jurisdiction {
            Ok(false)
        } else if rules.max_transfer_amount > 0 && amount > rules.max_transfer_amount {
            Ok(false)
        } else if rules.min_holding_period > 0 && v.holder_since.contains_key(from)
            && saturating_sub(now, v.holder_since[from]) < rules.min_holding_period {
            Ok(false)
        } else if rules.max_holders > 0 && !v.holder_since.contains_key(to) && v.holder_count
            >= rules.max_holders {
            Ok(false)
        } else {
            Ok(true)
        },
    }
}

/// The engine after `addr` is registered as a holder at time `now`.
pub open spec fn with_holder(v: ComplianceEngineView, now: u64, addr: Address) -> ComplianceEngineView {
    ComplianceEngineView {
        holder_since: v.holder_since.insert(addr, now),
        holder_count: if v.holder_since.contains_key(addr) {
            v.holder_count
        } else {
            (v.holder_count + 1) as u32
        },
        ..v
    }
}

/// The engine after `addr` is unregistered as a holder.
pub open spec fn without_holder(v: ComplianceEngineView, addr: Address) -> ComplianceEngineView {
    ComplianceEngineView {
        holder_since: v.holder_since.remove(addr),
        holder_count: if v.holder_since.contains_key(addr) {
            saturating_sub(v.holder_count as u64, 1) as u32
        } else {
            v.holder_count
        },
        ..v
    }
}

impl ComplianceEngine {
    /// The engine's own address.
    pub closed spec fn id(&self) -> Address {
        self.id
    }

    /// The invariant the engine keeps once it holds no stale holder entries:
    /// the holder count is the number of registered holders.
    pub open spec fn wf(&self) -> bool {
        self@.holder_count == self@.holder_since.dom().len()
    }

    /// A freshly deployed, uninitialized engine at address `id`.
    pub fn new(id: Address) -> (r: ComplianceEngine)
        ensures
            r.wf(),
            r.id() == id,
            r@ == (ComplianceEngineView {
                id,
                admin: None,
                pending_admin: None,
                kyc_registry: None,
                rules: None,
                blocklist: Seq::empty(),
                holder_count: 0,
                holder_since: Map::empty(),
            }),
    {
        let r = ComplianceEngine {
            id,
            admin: None,
            pending_admin: None,
            kyc_registry: None,
            rules: None,
            blocklist: Vec::new(),
            holder_count: 0,
            holder_since: HashMap::new(),
        };
        proof {
            assert(r@.holder_since =~= Map::empty());
        }
        r
    }

    /// The engine's own address.
    pub fn address(&self) -> (r: Address)
        ensures
            r == self.id(),
            r == self@.id,
    {
        self.id
    }

    /// Sets the admin and the KYC registry once, with the default rules and a
    /// holder count of 0; any later call is refused.
    pub fn initialize(&mut self, admin: Address, kyc_registry: Address) -> (r: Result<(), ComplianceError>)
        ensures
            final(self).id() == old(self).id(),
            old(self)@.admin is Some ==> r == Err::<(), ComplianceError>(
                ComplianceError::AlreadyInitialized,
            ) && final(self)@ == old(self)@,
            old(self)@.admin is None ==> r is Ok && final(self)@ == (ComplianceEngineView {
                admin: Some(admin),
                kyc_registry: Some(kyc_registry),
                rules: Some(default_rules()),
                holder_count: 0,
                ..old(self)@
            }),
            old(self).wf() && old(self)@.holder_since.dom().len() == 0 ==> final(self).wf(),
    {
        if self.admin.is_some() {
            return Err(ComplianceError::AlreadyInitialized);
        }
        self.admin = Some(admin);
        self.kyc_registry = Some(kyc_registry);
        self.rules = Some(
            ComplianceRules {
                max_transfer_amount: 0,
                min_holding_period: 0,
                max_holders: 0,
                require_same_jurisdiction: false,
                paused: false,
            },
        );
        self.holder_count = 0;
        Ok(())
    }

    fn require_admin(&self, inv: &Invocation) -> (r: Option<ComplianceError>)
        ensures
            r == engine_admin_gate(self@, *inv),
    {
        match self.admin {
            None => Some(ComplianceError::NotInitialized),
            Some(a) => if inv.is_authorized(a) {
                None
            } else {
                Some(ComplianceError::Unauthorized)
            },
        }
    }

    /// Proposes a new admin; the admin must authorize.
    pub fn propose_admin(&mut self, inv: &Invocation, new_admin: Address) -> (r: Result<(), ComplianceError>)
        ensures
            final(self).id() == old(self).id(),
            old(self).wf() ==> final(self).wf(),
            match engine_admin_gate(old(self)@, *inv) {
                Some(e) => r == Err::<(), ComplianceError>(e) && final(self)@ == old(self)@,
                None => r is Ok && final(self)@ == (ComplianceEngineView {
                    pending_admin: Some(new_admin),
                    ..old(self)@
                }),
            },
    {
        if let Some(e) = self.require_admin(inv) {
            return Err(e);
        }
        self.pending_admin = Some(new_admin);
        Ok(())
    }

    /// The proposed admin takes over; it must authorize.
    pub fn accept_admin(&mut self, inv: &Invocation) -> (r: Result<(), ComplianceError>)
        ensures
            final(self).id() == old(self).id(),
            old(self).wf() ==> final(self).wf(),
            match old(self)@.pending_admin {
                None => r == Err::<(), ComplianceError>(ComplianceError::NoPendingAdmin)
                    && final(self)@ == old(self)@,
                Some(p) => if !inv.authorized(p) {
                    r == Err::<(), ComplianceError>(ComplianceError::Unauthorized) && final(self)@ == old(self)@
                } else if old(self)@.admin is None {
                    r == Err::<(), ComplianceError>(ComplianceError::NotInitialized) && final(self)@ == old(self)@
                } else {
                    r is Ok && final(self)@ == (ComplianceEngineView {
                        admin: Some(p),
                        pending_admin: None,
                        ..old(self)@
                    })
                },
            },
    {
        let pending = match self.pending_admin {
            None => {
                return Err(ComplianceError::NoPendingAdmin);
            },
            Some(p) => p,
        };
        if !inv.is_authorized(pending) {
            return Err(ComplianceError::Unauthorized);
        }
        if self.admin.is_none() {
            return Err(ComplianceError::NotInitialized);
        }
        self.admin = Some(pending);
        self.pending_admin = None;
        Ok(())
    }

    /// Replaces the rule set (admin only). A holding period over 365 days, a
    /// negative maximum amount, or a holder cap below the current holder count
    /// is refused.
    pub fn set_rules(&mut self, inv: &Invocation, rules: ComplianceRules) -> (r: Result<(), ComplianceError>)
        ensures
            final(self).id() == old(self).id(),
            old(self).wf() ==> final(self).wf(),
            match engine_admin_gate(old(self)@, *inv) {
                Some(e) => r == Err::<(), ComplianceError>(e) && final(self)@ == old(self)@,
                None => if rules.min_holding_period > MAX_HOLDING_PERIOD {
                    r == Err::<(), ComplianceError>(ComplianceError::MinHoldingPeriodExceeds365Days)
                        && final(self)@ == old(self)@
                } else if rules.max_transfer_amount < 0 {
                    r == Err::<(), ComplianceError>(ComplianceError::NegativeMaxTransferAmount)
                        && final(self)@ == old(self)@
                } else if rules.max_holders > 0 && rules.max_holders < old(self)@.holder_count {
                    r == Err::<(), ComplianceError>(ComplianceError::MaxHoldersBelowCurrentCount)
                        && final(self)@ == old(self)@
                } else {
                    r is Ok && final(self)@ == (ComplianceEngineView {
                        rules: Some(rules),
                        ..old(self)@
                    })
                },
            },
    {
        if let Some(e) = self.require_admin(inv) {
            return Err(e);
        }
        if rules.min_holding_period > MAX_HOLDING_PERIOD {
            return Err(ComplianceError::MinHoldingPeriodExceeds365Days);
        }
        if rules.max_transfer_amount < 0 {
            return Err(ComplianceError::NegativeMaxTransferAmount);
        }
        if rules.max_holders > 0 && rules.max_holders < self.holder_count {
            return Err(ComplianceError::MaxHoldersBelowCurrentCount);
        }
        self.rules = Some(rules);
        Ok(())
    }

    /// The current rule set.
    pub fn get_rules(&self) -> (r: Result<ComplianceRules, ComplianceError>)
        ensures
            match self@.rules {
                None => r == Err::<ComplianceRules, ComplianceError>(
                    ComplianceError::NotInitialized,
                ),
                Some(rules) => r == Ok::<ComplianceRules, ComplianceError>(rules),
            },
    {
        match self.rules {
            None => Err(ComplianceError::NotInitialized),
            Some(rules) => Ok(rules),
        }
    }

    /// Blocks `addr` (admin only); blocking it twice changes nothing.
    pub fn add_to_blocklist(&mut self, inv: &Invocation, addr: Address) -> (r: Result<(), ComplianceError>)
        ensures
            final(self).id() == old(self).id(),
            old(self).wf() ==> final(self).wf(),
            match engine_admin_gate(old(self)@, *inv) {
                Some(e) => r == Err::<(), ComplianceError>(e) && final(self)@ == old(self)@,
                None => r is Ok && final(self)@ == (ComplianceEngineView {
                    blocklist: if old(self)@.blocklist.contains(addr) {
                        old(self)@.blocklist
                    } else {
                        old(self)@.blocklist.push(addr)
                    },
                    ..old(self)@
                }),
            },
    {
        if let Some(e) = self.require_admin(inv) {
            return Err(e);
        }
        if !contains_address(&self.blocklist, addr) {
            self.blocklist.push(addr);
        }
        Ok(())
    }

    /// Unblocks `addr` (admin only).
    pub fn remove_from_blocklist(&mut self, inv: &Invocation, addr: Address) -> (r: Result<(), ComplianceError>)
        ensures
            final(self).id() == old(self).id(),
            old(self).wf() ==> final(self).wf(),
            match engine_admin_gate(old(self)@, *inv) {
                Some(e) => r == Err::<(), ComplianceError>(e) && final(self)@ == old(self)@,
                None => r is Ok && final(self)@ == (ComplianceEngineView {
                    blocklist: without(old(self)@.blocklist, addr),
                    ..old(self)@
                }),
            },
    {
        if let Some(e) = self.require_admin(inv) {
            return Err(e);
        }
        self.blocklist = remove_address(&self.blocklist, addr);
        Ok(())
    }

    /// Whether `addr` is blocked.
    pub fn is_blocklisted(&self, addr: Address) -> (r: bool)
        ensures
            r == self@.blocklist.contains(addr),
    {
        contains_address(&self.blocklist, addr)
    }

    fn set_paused(&mut self, inv: &Invocation, paused: bool) -> (r: Result<(), ComplianceError>)
        ensures
            final(self).id() == old(self).id(),
            old(self).wf() ==> final(self).wf(),
            match engine_admin_gate(old(self)@, *inv) {
                Some(e) => r == Err::<(), ComplianceError>(e) && final(self)@ == old(self)@,
                None => match old(self)@.rules {
                    None => r == Err::<(), ComplianceError>(ComplianceError::NotInitialized)
                        && final(self)@ == old(self)@,
                    Some(rules) => r is Ok && final(self)@ == (ComplianceEngineView {
                        rules: Some(ComplianceRules { paused, ..rules }),
                        ..old(self)@
                    }),
                },
            },
    {
        if let Some(e) = self.require_admin(inv) {
            return Err(e);
        }
        match self.rules {
            None => Err(ComplianceError::NotInitialized),
            Some(rules) => {
                let mut rules = rules;
                rules.paused = paused;
                self.rules = Some(rules);
                Ok(())
            },
        }
    }

    /// Halts every transfer (admin only).
    pub fn pause(&mut self, inv: &Invocation) -> (r: Result<(), ComplianceError>)
        ensures
            final(self).id() == old(self).id(),
            old(self).wf() ==> final(self).wf(),
            match engine_admin_gate(old(self)@, *inv) {
                Some(e) => r == Err::<(), ComplianceError>(e) && final(self)@ == old(self)@,
                None => match old(self)@.rules {
                    None => r == Err::<(), ComplianceError>(ComplianceError::NotInitialized)
                        && final(self)@ == old(self)@,
                    Some(rules) => r is Ok && final(self)@ == (ComplianceEngineView {
                        rules: Some(ComplianceRules { paused: true, ..rules }),
                        ..old(self)@
                    }),
                },
            },
    {
        self.set_paused(inv, true)
    }

    /// Lifts a pause (admin only).
    pub fn unpause(&mut self, inv: &Invocation) -> (r: Result<(), ComplianceError>)
        ensures
            final(self).id() == old(self).id(),
            old(self).wf() ==> final(self).wf(),
            match engine_admin_gate(old(self)@, *inv) {
                Some(e) => r == Err::<(), ComplianceError>(e) && final(self)@ == old(self)@,
                None => match old(self)@.rules {
                    None => r == Err::<(), ComplianceError>(ComplianceError::NotInitialized)
                        && final(self)@ == old(self)@,
                    Some(rules) => r is Ok && final(self)@ == (ComplianceEngineView {
                        rules: Some(ComplianceRules { paused: false, ..rules }),
                        ..old(self)@
                    }),
                },
            },
    {
        self.set_paused(inv, false)
    }

    /// Whether a transfer of `amount` from `from` to `to` complies with every
    /// configured rule at time `now`; `kyc` is the registry the engine was
    /// configured with, consulted only for the same-jurisdiction rule.
    pub fn can_transfer(&self, kyc: &KycRegistry, now: u64, from: Address, to: Address, amount: i128) -> (r: Result<bool, ComplianceError>)
        requires
            self@.kyc_registry matches Some(k) ==> k == kyc.id(),
        ensures
            r == transfer_verdict(self@, kyc@, now, from, to, amount),
    {
        let rules = match self.rules {
            None => {
                return Err(ComplianceError::NotInitialized);
            },
            Some(r) => r,
        };
        if rules.paused {
            return Ok(false);
        }
        if contains_address(&self.blocklist, from) || contains_address(&self.blocklist, to) {
            return Ok(false);
        }
        if rules.require_same_jurisdiction {
            if self.kyc_registry.is_none() {
                return Err(ComplianceError::NotInitialized);
            }
            let from_record = match kyc.get_record(from) {
                Ok(rec) => rec,
                Err(_) => {
                    return Err(ComplianceError::NoKycRecord);
                },
            };
            let to_record = match kyc.get_record(to) {
                Ok(rec) => rec,
                Err(_) => {
                    return Err(ComplianceError::NoKycRecord);
                },
            };
            if !crate::types::bytes_eq(&from_record.jurisdiction, &to_record.jurisdiction) {
                return Ok(false);
            }
        }
        if rules.max_transfer_amount > 0 && amount > rules.max_transfer_amount {
            return Ok(false);
        }
        if rules.min_holding_period > 0 {
            match self.holder_since.get(&from) {
                Some(since) => {
                    let since = *since;
                    let elapsed: u64 = if now >= since {
                        now - since
                    } else {
                        0
                    };
                    if elapsed < rules.min_holding_period {
                        return Ok(false);
                    }
                },
                None => {},
            }
        }
        if rules.max_holders > 0 {
            if !self.holder_since.contains_key(&to) {
                if self.holder_count >= rules.max_holders {
                    return Ok(false);
                }
            }
        }
        Ok(true)
    }

    /// Records `addr` as a holder since `now`; the holder count grows only for
    /// an address not registered before.
    pub fn register_holder(&mut self, now: u64, addr: Address)
        requires
            !old(self)@.holder_since.contains_key(addr) ==> old(self)@.holder_count < u32::MAX,
        ensures
            final(self).id() == old(self).id(),
            old(self).wf() ==> final(self).wf(),
            final(self)@ == with_holder(old(self)@, now, addr),
    {
        let is_new = !self.holder_since.contains_key(&addr);
        self.holder_since.insert(addr, now);
        if is_new {
            self.holder_count = self.holder_count + 1;
        }
        proof {
            if is_new {
                assert(self@.holder_since.dom() =~= old(self)@.holder_since.dom().insert(addr));
            } else {
                assert(self@.holder_since.dom() =~= old(self)@.holder_since.dom());
            }
        }
    }

    /// Forgets `addr` as a holder; the count shrinks (never below 0) only
    /// when it was registered.
    pub fn unregister_holder(&mut self, addr: Address)
        ensures
            final(self).id() == old(self).id(),
            old(self).wf() ==> final(self).wf(),
            final(self)@ == without_holder(old(self)@, addr),
    {
        if self.holder_since.contains_key(&addr) {
            self.holder_since.remove(&addr);
            let count = self.holder_count;
            self.holder_count = if count > 0 {
                count - 1
            } else {
                0
            };
            proof {
                assert(self@.holder_since.dom() =~= old(self)@.holder_since.dom().remove(addr));
            }
        } else {
            proof {
                assert(self@.holder_since =~= old(self)@.holder_since.remove(addr));
            }
        }
    }

    /// The number of registered holders.
    pub fn holder_count(&self) -> (r: u32)
        ensures
            r == self@.holder_count,
    {
        self.holder_count
    }

    /// The release of the contract kit.
    pub fn version(&self) -> (r: Vec<u8>)
        ensures
            r@ == kit_version(),
    {
        version_string()
    }
}

/// The release of the contract kit, "0.1.0".
pub open spec fn kit_version() -> Seq<u8> {
    seq![48u8, 46u8, 49u8, 46u8, 48u8]
}

/// The release of the contract kit as bytes.
pub fn version_string() -> (r: Vec<u8>)
    ensures
        r@ == kit_version(),
{
    let mut v: Vec<u8> = Vec::new();
    v.push(48);
    v.push(46);
    v.push(49);
    v.push(46);
    v.push(48);
    assert(v@ =~= kit_version());
    v
}

} // verus!
