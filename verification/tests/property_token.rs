use veritoken::compliance_engine::{ComplianceEngine, ComplianceRules};
use veritoken::kyc_registry::KycRegistry;
use veritoken::property_token::{DistributionType, PropertyError, PropertyMeta, PropertyToken};
use veritoken::types::Invocation;

const ADMIN: u64 = 1;
const VERIFIER: u64 = 2;
const ALICE: u64 = 10;
const BOB: u64 = 11;
const CAROL: u64 = 12;
const SPENDER: u64 = 13;
const KYC_ID: u64 = 100;
const CE_ID: u64 = 101;
const TOKEN_ID: u64 = 102;

fn b(s: &str) -> Vec<u8> {
    s.as_bytes().to_vec()
}

fn at(timestamp: u64) -> Invocation {
    Invocation { timestamp, sequence: 0, signers: vec![ADMIN, VERIFIER, ALICE, BOB, CAROL, SPENDER] }
}

fn all() -> Invocation {
    at(0)
}

fn none() -> Invocation {
    Invocation { timestamp: 0, sequence: 0, signers: vec![] }
}

fn meta() -> PropertyMeta {
    PropertyMeta {
        property_id: b("PROP-1"),
        legal_name: b("123 Main St LLC"),
        jurisdiction: b("US-NY"),
        address: b("123 Main St"),
        total_valuation_usd: 10_000_000_000_000,
        total_shares: 1_000,
        property_type: b("residential"),
        ipfs_title_hash: b("Qm..."),
        kyc_tier_required: 1,
    }
}

struct Harness {
    kyc: KycRegistry,
    ce: ComplianceEngine,
    token: PropertyToken,
}

fn deploy(id: u64, admin: u64, m: PropertyMeta) -> PropertyToken {
    match PropertyToken::new(id, admin, KYC_ID, CE_ID, m) {
        Ok(t) => t,
        Err(e) => panic!("deployment refused: {:?}", e),
    }
}

fn engine(id: u64, kyc_id: u64) -> ComplianceEngine {
    let mut ce = ComplianceEngine::new(id);
    ce.initialize(ADMIN, kyc_id).unwrap();
    ce
}

fn setup() -> Harness {
    let mut kyc = KycRegistry::new(KYC_ID);
    kyc.initialize(ADMIN).unwrap();
    kyc.add_verifier(&all(), VERIFIER).unwrap();
    let ce = engine(CE_ID, KYC_ID);
    let token = deploy(TOKEN_ID, ADMIN, meta());
    Harness { kyc, ce, token }
}

impl Harness {
    fn approve_kyc(&mut self, addr: u64) {
        self.approve_kyc_with_tier(addr, 1);
    }

    fn approve_kyc_with_tier(&mut self, addr: u64, tier: u32) {
        self.kyc.approve(&all(), VERIFIER, addr, tier, 0, b("US")).unwrap();
    }

    fn mint(&mut self, to: u64, shares: i128) -> Result<(), PropertyError> {
        self.token.mint(&all(), &self.kyc, &mut self.ce, &self.kyc, to, shares)
    }

    fn transfer_at(&mut self, t: u64, from: u64, to: u64, shares: i128) -> Result<(), PropertyError> {
        self.token.transfer(&at(t), &self.kyc, &mut self.ce, &self.kyc, from, to, shares)
    }

    fn transfer(&mut self, from: u64, to: u64, shares: i128) -> Result<(), PropertyError> {
        self.transfer_at(0, from, to, shares)
    }

    fn transfer_from(&mut self, spender: u64, from: u64, to: u64, shares: i128) -> Result<(), PropertyError> {
        self.token.transfer_from(&all(), &self.kyc, &mut self.ce, &self.kyc, spender, from, to, shares)
    }

    fn deposit(&mut self, amount: i128, kind: u32) {
        self.token.deposit_dividend(&all(), amount, kind).unwrap();
    }

    fn pending(&self, who: u64) -> i128 {
        self.token.pending_dividend(who).unwrap()
    }

    fn claim(&mut self, who: u64) -> i128 {
        self.token.claim_dividend(&all(), who).unwrap()
    }

    fn claim_rent(&mut self, who: u64) -> i128 {
        self.token.claim_rent_yield(&all(), who).unwrap()
    }

    fn claim_capital(&mut self, who: u64) -> i128 {
        self.token.claim_capital_return(&all(), who).unwrap()
    }

    fn buyback(&mut self, from: u64, shares: i128) -> Result<(), PropertyError> {
        self.token.buyback(&all(), &self.kyc, from, shares)
    }
}

#[test]
fn property_test_metadata() {
    let h = setup();
    assert_eq!(h.token.decimals(), 0);
    assert_eq!(h.token.total_shares(), 1_000);
    assert_eq!(h.token.get_meta().property_id, b("PROP-1"));
}

#[test]
fn test_test_mint_and_transfer() {
    let mut h = setup();
    h.approve_kyc(ALICE);
    h.approve_kyc(BOB);
    assert!(h.mint(99, 10).is_err());
    h.mint(ALICE, 100).unwrap();
    assert_eq!(h.token.balance(ALICE), 100);
    h.transfer(ALICE, BOB, 40).unwrap();
    assert_eq!(h.token.balance(ALICE), 60);
    assert_eq!(h.token.balance(BOB), 40);
}

#[test]
fn test_mint_rejects_recipient_below_required_tier() {
    let mut h = setup();
    h.approve_kyc_with_tier(ALICE, 0);
    assert!(h.mint(ALICE, 100).is_err());
}

#[test]
fn test_test_mint_rejects_blocklisted_recipient() {
    let mut h = setup();
    h.approve_kyc(ALICE);
    h.ce.add_to_blocklist(&all(), ALICE).unwrap();
    assert!(h.mint(ALICE, 100).is_err());
}

#[test]
fn test_test_mint_rejects_when_compliance_paused() {
    let mut h = setup();
    h.approve_kyc(ALICE);
    h.ce.pause(&all()).unwrap();
    assert!(h.mint(ALICE, 100).is_err());
}

#[test]
fn test_transfer_insufficient_shares() {
    let mut h = setup();
    h.approve_kyc(ALICE);
    h.approve_kyc(BOB);
    h.mint(ALICE, 10).unwrap();
    assert!(h.transfer(ALICE, BOB, 11).is_err());
}

#[test]
fn test_dividend_distribution() {
    let mut h = setup();
    h.approve_kyc(ALICE);
    h.mint(ALICE, 100).unwrap();
    h.deposit(1_000, 2);
    assert_eq!(h.pending(ALICE), 100);
    assert_eq!(h.claim(ALICE), 100);
    assert_eq!(h.pending(ALICE), 0);
    assert_eq!(h.claim(ALICE), 0);
}

#[test]
fn test_multi_round_dividend_with_partial_transfer() {
    let mut h = setup();
    h.approve_kyc(ALICE);
    h.approve_kyc(BOB);
    h.mint(ALICE, 1_000).unwrap();
    h.deposit(1_000, 2);
    h.transfer(ALICE, BOB, 400).unwrap();
    h.deposit(1_000, 2);
    assert_eq!(h.claim(ALICE), 1_600);
    assert_eq!(h.claim(BOB), 400);
}

#[test]
fn test_deposit_dividend_requires_shares() {
    let mut h = setup();
    h.deposit(1_000, 2);
    assert_eq!(h.pending(ALICE), 0);
}

#[test]
fn property_non_deployer_cannot_reinitialize() {
    let h = setup();
    assert!(h.token.initialize(66, 300, 301, meta()).is_err());
}

#[test]
fn property_transfer_blocked_by_holding_period() {
    let mut h = setup();
    h.approve_kyc(ALICE);
    h.approve_kyc(BOB);
    h.ce.set_rules(
        &all(),
        ComplianceRules {
            max_transfer_amount: 0,
            min_holding_period: 3600,
            max_holders: 0,
            require_same_jurisdiction: false,
            paused: false,
        },
    )
    .unwrap();
    h.mint(ALICE, 100).unwrap();
    assert!(h.transfer(ALICE, BOB, 10).is_err());
    h.transfer_at(3601, ALICE, BOB, 10).unwrap();
    assert_eq!(h.token.balance(BOB), 10);
    assert_eq!(h.token.balance(ALICE), 90);
}

#[test]
fn test_transfer_snapshots_dividends() {
    let mut h = setup();
    h.approve_kyc(ALICE);
    h.approve_kyc(BOB);
    h.mint(ALICE, 100).unwrap();
    h.deposit(1_000, 2);
    h.transfer(ALICE, BOB, 100).unwrap();
    assert_eq!(h.pending(BOB), 0);
    assert_eq!(h.pending(ALICE), 100);
    assert_eq!(h.claim(ALICE), 100);
    h.deposit(1_000, 2);
    assert_eq!(h.pending(BOB), 100);
    assert_eq!(h.pending(ALICE), 0);
}

#[test]
fn test_holder_list_updated_on_mint() {
    let mut h = setup();
    h.approve_kyc(ALICE);
    h.approve_kyc(BOB);
    assert_eq!(h.token.holder_count(), 0);
    h.mint(ALICE, 100).unwrap();
    assert_eq!(h.token.holder_count(), 1);
    assert_eq!(h.token.get_holders(0, 50).len(), 1);
    h.mint(BOB, 50).unwrap();
    assert_eq!(h.token.holder_count(), 2);
    h.mint(ALICE, 10).unwrap();
    assert_eq!(h.token.holder_count(), 2);
}

#[test]
fn test_holder_removed_when_balance_hits_zero() {
    let mut h = setup();
    h.approve_kyc(ALICE);
    h.approve_kyc(BOB);
    h.mint(ALICE, 100).unwrap();
    assert_eq!(h.token.holder_count(), 1);
    h.transfer(ALICE, BOB, 100).unwrap();
    assert_eq!(h.token.holder_count(), 1);
    let holders = h.token.get_holders(0, 50);
    assert_eq!(holders, vec![BOB]);
}

#[test]
fn test_get_holders_pagination() {
    let mut h = setup();
    h.approve_kyc(ALICE);
    h.approve_kyc(BOB);
    h.approve_kyc(CAROL);
    h.mint(ALICE, 10).unwrap();
    h.mint(BOB, 10).unwrap();
    h.mint(CAROL, 10).unwrap();
    assert_eq!(h.token.holder_count(), 3);
    assert_eq!(h.token.get_holders(0, 2).len(), 2);
    assert_eq!(h.token.get_holders(2, 2).len(), 1);
    assert_eq!(h.token.get_holders(10, 2).len(), 0);
}

#[test]
fn test_transfer_rejects_recipient_below_required_tier() {
    let mut h = setup();
    h.approve_kyc_with_tier(ALICE, 1);
    h.approve_kyc_with_tier(BOB, 0);
    h.mint(ALICE, 100).unwrap();
    assert!(h.transfer(ALICE, BOB, 50).is_err());
}

#[test]
fn test_transfer_from_rejects_recipient_below_required_tier() {
    let mut h = setup();
    h.approve_kyc_with_tier(ALICE, 1);
    h.approve_kyc_with_tier(BOB, 0);
    h.approve_kyc_with_tier(SPENDER, 1);
    h.mint(ALICE, 100).unwrap();
    h.token.approve(&all(), ALICE, SPENDER, 50, 100).unwrap();
    assert!(h.transfer_from(SPENDER, ALICE, BOB, 50).is_err());
}

#[test]
fn test_transfer_from_accepts_recipient_with_sufficient_tier() {
    let mut h = setup();
    h.approve_kyc_with_tier(ALICE, 1);
    h.approve_kyc_with_tier(BOB, 1);
    h.approve_kyc_with_tier(SPENDER, 1);
    h.mint(ALICE, 100).unwrap();
    h.token.approve(&all(), ALICE, SPENDER, 50, 100).unwrap();
    h.transfer_from(SPENDER, ALICE, BOB, 50).unwrap();
    assert_eq!(h.token.balance(BOB), 50);
}

#[test]
#[should_panic]
fn test_invalid_property_type_panics_in_constructor() {
    let mut bad = meta();
    bad.property_type = b("warehouse");
    deploy(TOKEN_ID, ADMIN, bad);
}

#[test]
fn test_valid_property_types_accepted_in_constructor() {
    for pt in ["residential", "commercial", "land"] {
        let mut m = meta();
        m.property_type = b(pt);
        let token = deploy(TOKEN_ID, ADMIN, m);
        assert_eq!(token.get_meta().property_type, b(pt));
    }
}

#[test]
fn test_invalid_property_type_panics_in_update_meta() {
    let mut h = setup();
    let mut bad = h.token.get_meta();
    bad.property_type = b("warehouse");
    assert!(h.token.update_meta(&all(), bad).is_err());
}

#[test]
fn test_valid_property_type_accepted_in_update_meta() {
    let mut h = setup();
    let mut m = h.token.get_meta();
    m.property_type = b("commercial");
    h.token.update_meta(&all(), m).unwrap();
    assert_eq!(h.token.get_meta().property_type, b("commercial"));
}

#[test]
fn property_update_kyc_registry_admin_only() {
    let mut h = setup();
    let mut other = deploy(400, 77, meta());
    assert!(other.update_kyc_registry(&none(), 403).is_err());
    h.token.update_kyc_registry(&all(), 200).unwrap();
    let new_kyc = KycRegistry::new(200);
    h.approve_kyc(ALICE);
    assert!(h.token.mint(&all(), &new_kyc, &mut h.ce, &h.kyc, ALICE, 10).is_err());
}

#[test]
fn property_update_compliance_engine_admin_only() {
    let mut h = setup();
    let mut other = deploy(400, 77, meta());
    assert!(other.update_compliance_engine(&none(), 403).is_err());
    let dummy_kyc = KycRegistry::new(202);
    let mut ce2 = engine(201, 202);
    ce2.pause(&all()).unwrap();
    h.token.update_compliance_engine(&all(), 201).unwrap();
    h.approve_kyc(ALICE);
    assert!(h.token.mint(&all(), &h.kyc, &mut ce2, &dummy_kyc, ALICE, 10).is_err());
}

#[test]
fn test_buyback_successful() {
    let mut h = setup();
    h.approve_kyc(ALICE);
    h.mint(ALICE, 100).unwrap();
    assert_eq!(h.token.balance(ALICE), 100);
    assert_eq!(h.token.total_shares(), 1_000);
    h.deposit(1_000, 2);
    assert_eq!(h.pending(ALICE), 100);
    h.buyback(ALICE, 50).unwrap();
    assert_eq!(h.token.balance(ALICE), 50);
    assert_eq!(h.token.total_shares(), 950);
    assert_eq!(h.pending(ALICE), 100);
    assert_eq!(h.claim(ALICE), 100);
}

#[test]
fn test_buyback_insufficient_shares() {
    let mut h = setup();
    h.approve_kyc(ALICE);
    h.mint(ALICE, 50).unwrap();
    assert!(h.buyback(ALICE, 51).is_err());
}

#[test]
fn test_buyback_removes_holder_on_zero_balance() {
    let mut h = setup();
    h.approve_kyc(ALICE);
    h.approve_kyc(BOB);
    h.mint(ALICE, 50).unwrap();
    h.mint(BOB, 30).unwrap();
    assert_eq!(h.token.holder_count(), 2);
    h.buyback(ALICE, 50).unwrap();
    assert_eq!(h.token.holder_count(), 1);
    assert_eq!(h.token.get_holders(0, 50), vec![BOB]);
}

#[test]
fn test_buyback_non_admin_rejected() {
    let mut h = setup();
    h.approve_kyc(ALICE);
    h.mint(ALICE, 100).unwrap();
    let attacker_only = Invocation { timestamp: 0, sequence: 0, signers: vec![66] };
    assert!(h.token.buyback(&attacker_only, &h.kyc, ALICE, 50).is_err());
}

#[test]
fn test_buyback_rejects_kyc_unapproved_holder() {
    let mut h = setup();
    h.approve_kyc(ALICE);
    h.mint(ALICE, 100).unwrap();
    let mut new_kyc = KycRegistry::new(200);
    new_kyc.initialize(ADMIN).unwrap();
    h.token.update_kyc_registry(&all(), 200).unwrap();
    assert!(h.token.buyback(&all(), &new_kyc, ALICE, 50).is_err());
}

#[test]
fn property_version_returns_nonempty() {
    let h = setup();
    assert!(h.token.version().len() > 0);
}

#[test]
fn test_dividend_history_records_deposits() {
    let mut h = setup();
    h.approve_kyc(ALICE);
    h.mint(ALICE, 500).unwrap();
    assert_eq!(h.token.dividend_deposit_count(), 0);
    h.deposit(1_000, 2);
    h.deposit(2_000, 2);
    assert_eq!(h.token.dividend_deposit_count(), 2);
    let history = h.token.get_dividend_history(0, 10);
    assert_eq!(history.len(), 2);
    assert_eq!(history[0].amount, 1_000);
    assert_eq!(history[1].amount, 2_000);
}

#[test]
fn test_dividend_history_running_total_dps() {
    let mut h = setup();
    h.approve_kyc(ALICE);
    h.mint(ALICE, 1_000).unwrap();
    h.deposit(1_000, 2);
    h.deposit(2_000, 2);
    let history = h.token.get_dividend_history(0, 10);
    assert_eq!(history[0].running_total_dps, 1);
    assert_eq!(history[1].running_total_dps, 3);
}

#[test]
fn test_dividend_history_pagination() {
    let mut h = setup();
    h.approve_kyc(ALICE);
    h.mint(ALICE, 1_000).unwrap();
    for _ in 0..5 {
        h.deposit(100, 2);
    }
    let page = h.token.get_dividend_history(2, 2);
    assert_eq!(page.len(), 2);
    assert_eq!(page[0].amount, 100);
}

#[test]
fn test_dividend_history_empty_before_deposit() {
    let h = setup();
    assert_eq!(h.token.get_dividend_history(0, 10).len(), 0);
    assert_eq!(h.token.dividend_deposit_count(), 0);
}

#[test]
fn test_claim_rent_yield_only_claims_rent() {
    let mut h = setup();
    h.approve_kyc(ALICE);
    h.mint(ALICE, 1_000).unwrap();
    h.deposit(1_000, 0);
    h.deposit(2_000, 1);
    assert_eq!(h.claim_rent(ALICE), 1_000);
    assert_eq!(h.claim_capital(ALICE), 2_000);
}

#[test]
fn test_claim_capital_return_only_claims_capital() {
    let mut h = setup();
    h.approve_kyc(ALICE);
    h.mint(ALICE, 500).unwrap();
    h.deposit(1_000, 0);
    h.deposit(2_000, 1);
    assert_eq!(h.claim_capital(ALICE), 1_000);
    assert_eq!(h.claim_rent(ALICE), 500);
}

#[test]
fn test_claim_dividend_claims_all_types() {
    let mut h = setup();
    h.approve_kyc(ALICE);
    h.mint(ALICE, 100).unwrap();
    h.deposit(1_000, 0);
    h.deposit(2_000, 1);
    h.deposit(3_000, 2);
    assert_eq!(h.claim(ALICE), 600);
}

#[test]
fn test_mixed_deposits_independent_claiming() {
    let mut h = setup();
    h.approve_kyc(ALICE);
    h.approve_kyc(BOB);
    h.mint(ALICE, 600).unwrap();
    h.mint(BOB, 400).unwrap();
    h.deposit(1_000, 0);
    h.deposit(1_000, 1);
    assert_eq!(h.claim_rent(ALICE), 600);
    assert_eq!(h.claim_capital(ALICE), 600);
    assert_eq!(h.claim_rent(BOB), 400);
    assert_eq!(h.claim_capital(BOB), 400);
}

#[test]
fn test_second_claim_yields_nothing() {
    let mut h = setup();
    h.approve_kyc(ALICE);
    h.mint(ALICE, 100).unwrap();
    h.deposit(1_000, 0);
    h.claim_rent(ALICE);
    assert_eq!(h.claim_rent(ALICE), 0);
    h.deposit(1_000, 1);
    h.claim_capital(ALICE);
    assert_eq!(h.claim_capital(ALICE), 0);
}

// ── Further cases ──────────────────────────────────────────────────────────

#[test]
fn property_errors_name_their_cause() {
    let mut h = setup();
    h.approve_kyc(ALICE);
    h.approve_kyc_with_tier(BOB, 0);
    assert_eq!(h.token.mint(&none(), &h.kyc, &mut h.ce, &h.kyc, ALICE, 1), Err(PropertyError::Unauthorized));
    assert_eq!(h.mint(CAROL, 1), Err(PropertyError::KycNotApproved));
    assert_eq!(h.mint(BOB, 1), Err(PropertyError::KycTierTooLow));
    assert_eq!(h.mint(ALICE, 0), Err(PropertyError::NegativeShares));
    assert_eq!(h.mint(ALICE, 1_001), Err(PropertyError::ExceedsAuthorizedShares));
    h.ce.pause(&all()).unwrap();
    assert_eq!(h.mint(ALICE, 1), Err(PropertyError::MintBlocked));
    h.ce.unpause(&all()).unwrap();
    h.mint(ALICE, 10).unwrap();
    h.approve_kyc(CAROL);
    assert_eq!(h.transfer(ALICE, CAROL, 11), Err(PropertyError::InsufficientShares));
    assert_eq!(h.transfer_from(SPENDER, ALICE, CAROL, 1), Err(PropertyError::InsufficientAllowance));
    let late = Invocation { timestamp: 0, sequence: 50, signers: vec![ALICE] };
    assert_eq!(h.token.approve(&late, ALICE, SPENDER, 5, 10), Err(PropertyError::ExpirationInPast));
    let mut m = meta();
    m.total_shares = 5;
    assert_eq!(h.token.update_meta(&all(), m), Err(PropertyError::ImmutableField));
    assert_eq!(h.token.accept_admin(&all()), Err(PropertyError::NoPendingAdmin));
}

#[test]
fn property_mint_cap_counts_outstanding_shares() {
    let mut h = setup();
    h.approve_kyc(ALICE);
    h.approve_kyc(BOB);
    h.mint(ALICE, 600).unwrap();
    h.mint(BOB, 400).unwrap();
    assert_eq!(h.mint(ALICE, 1), Err(PropertyError::ExceedsAuthorizedShares));
}

#[test]
fn property_deposit_rounds_toward_zero() {
    let mut h = setup();
    h.approve_kyc(ALICE);
    h.mint(ALICE, 100).unwrap();
    // 1999 / 1000 rounds to 1 per share.
    h.deposit(1_999, 2);
    assert_eq!(h.pending(ALICE), 100);
    assert_eq!(h.token.get_dividend_history(0, 10)[0].running_total_dps, 1);
}

#[test]
fn property_allowance_reads_back_and_lapses() {
    let mut h = setup();
    h.token.approve(&all(), ALICE, SPENDER, 70, 5).unwrap();
    assert_eq!(h.token.allowance(5, ALICE, SPENDER), 70);
    assert_eq!(h.token.allowance(6, ALICE, SPENDER), 0);
}

#[test]
fn property_distribution_codes() {
    assert_eq!(DistributionType::Rent.code(), 0);
    assert_eq!(DistributionType::Capital.code(), 1);
    assert_eq!(DistributionType::Other.code(), 2);
}

#[test]
fn property_more_errors() {
    let mut bad = meta();
    bad.property_type = b("warehouse");
    assert!(matches!(PropertyToken::new(1, ADMIN, KYC_ID, CE_ID, bad), Err(PropertyError::InvalidPropertyType)));
    let mut none_authorized = meta();
    none_authorized.total_shares = 0;
    let mut empty = deploy(400, ADMIN, none_authorized);
    assert_eq!(empty.deposit_dividend(&all(), 10, 2), Err(PropertyError::NoShares));

    let mut h = setup();
    assert_eq!(h.token.initialize(ADMIN, KYC_ID, CE_ID, meta()), Err(PropertyError::AlreadyInitialized));
    h.approve_kyc(ALICE);
    h.approve_kyc(BOB);
    let mut blank = ComplianceEngine::new(CE_ID);
    assert_eq!(
        h.token.mint(&all(), &h.kyc, &mut blank, &h.kyc, ALICE, 1),
        Err(PropertyError::ComplianceCheckFailed)
    );
    h.mint(ALICE, 10).unwrap();
    h.ce.pause(&all()).unwrap();
    assert_eq!(h.transfer(ALICE, BOB, 1), Err(PropertyError::TransferBlocked));
    h.token.deposit_dividend(&all(), i128::MAX, 2).unwrap();
    assert_eq!(h.token.deposit_dividend(&all(), 1, 2), Err(PropertyError::Overflow));
}

#[test]
fn property_cap_holds_across_transfer_and_buyback() {
    let mut h = setup();
    h.approve_kyc(ALICE);
    h.approve_kyc(BOB);
    h.mint(ALICE, 1_000).unwrap();
    h.transfer(ALICE, BOB, 300).unwrap();
    assert_eq!(h.mint(BOB, 1), Err(PropertyError::ExceedsAuthorizedShares));
    h.buyback(BOB, 100).unwrap();
    assert_eq!(h.token.total_shares(), 900);
    assert_eq!(h.mint(BOB, 1), Err(PropertyError::ExceedsAuthorizedShares));
    assert_eq!(h.token.balance(BOB), 200);
}

#[test]
fn property_self_transfer_of_whole_balance_keeps_holder_listed() {
    let mut h = setup();
    h.approve_kyc(ALICE);
    h.mint(ALICE, 50).unwrap();
    h.transfer(ALICE, ALICE, 50).unwrap();
    assert_eq!(h.token.balance(ALICE), 50);
    assert_eq!(h.token.holder_count(), 1);
    assert_eq!(h.token.get_holders(0, 50), vec![ALICE]);
}

#[test]
fn property_mint_after_self_transfer_stays_within_authorized_shares() {
    let mut h = setup();
    h.approve_kyc(ALICE);
    h.approve_kyc(BOB);
    h.mint(ALICE, 1_000).unwrap();
    h.transfer(ALICE, ALICE, 1_000).unwrap();
    assert_eq!(h.mint(BOB, 1), Err(PropertyError::ExceedsAuthorizedShares));
    assert_eq!(h.token.balance(BOB), 0);
    assert_eq!(h.token.holder_count(), 1);
}

#[test]
fn property_partial_self_transfer_changes_nothing_held() {
    let mut h = setup();
    h.approve_kyc(ALICE);
    h.mint(ALICE, 60).unwrap();
    h.transfer(ALICE, ALICE, 20).unwrap();
    assert_eq!(h.token.balance(ALICE), 60);
    assert_eq!(h.token.get_holders(0, 50), vec![ALICE]);
    assert_eq!(h.mint(ALICE, 941), Err(PropertyError::ExceedsAuthorizedShares));
    h.mint(ALICE, 940).unwrap();
    assert_eq!(h.token.balance(ALICE), 1_000);
}

#[test]
fn property_transfer_receiver_inherits_no_rent() {
    let mut h = setup();
    h.approve_kyc(ALICE);
    h.approve_kyc(BOB);
    h.mint(ALICE, 100).unwrap();
    h.deposit(1_000, 0);
    h.transfer(ALICE, BOB, 100).unwrap();
    assert_eq!(h.claim_rent(BOB), 0);
    assert_eq!(h.claim_rent(ALICE), 100);
    h.deposit(2_000, 1);
    h.transfer(BOB, ALICE, 40).unwrap();
    assert_eq!(h.claim_capital(ALICE), 0);
    assert_eq!(h.claim_capital(BOB), 200);
}

#[test]
fn property_mint_receiver_inherits_no_rent_or_capital() {
    let mut h = setup();
    h.approve_kyc(ALICE);
    h.approve_kyc(BOB);
    h.mint(ALICE, 100).unwrap();
    h.deposit(1_000, 0);
    h.deposit(1_000, 1);
    h.mint(BOB, 100).unwrap();
    assert_eq!(h.claim_rent(BOB), 0);
    assert_eq!(h.claim_capital(BOB), 0);
    assert_eq!(h.claim(BOB), 0);
    assert_eq!(h.claim_rent(ALICE), 100);
}

#[test]
fn property_buyback_keeps_rent_accrued() {
    let mut h = setup();
    h.approve_kyc(ALICE);
    h.mint(ALICE, 100).unwrap();
    h.deposit(1_000, 0);
    h.buyback(ALICE, 60).unwrap();
    assert_eq!(h.claim_rent(ALICE), 100);
    // total shares are now 940: 940 per share rounds to 1.
    h.deposit(940, 0);
    assert_eq!(h.claim_rent(ALICE), 40);
}
