use veritoken::carbon_credit_token::{CarbonCreditToken, CarbonError, ProjectMeta};
use veritoken::compliance_engine::ComplianceEngine;
use veritoken::kyc_registry::KycRegistry;
use veritoken::types::Invocation;

const ADMIN: u64 = 1;
const VERIFIER: u64 = 2;
const ALICE: u64 = 10;
const BOB: u64 = 11;
const KYC_ID: u64 = 100;
const CE_ID: u64 = 101;
const TOKEN_ID: u64 = 102;

fn b(s: &str) -> Vec<u8> {
    s.as_bytes().to_vec()
}

/// Every party signs, at ledger time 0.
fn all() -> Invocation {
    Invocation { timestamp: 0, sequence: 0, signers: vec![ADMIN, VERIFIER, ALICE, BOB] }
}

/// Nobody signs.
fn none() -> Invocation {
    Invocation { timestamp: 0, sequence: 0, signers: vec![] }
}

fn meta() -> ProjectMeta {
    ProjectMeta {
        project_id: b("VCS-1234"),
        standard: b("VCS"),
        vintage_year: 2024,
        project_name: b("Amazon Reforestation"),
        project_type: b("forestry"),
        country: b("BR"),
        verifier: b("Verra"),
        ipfs_cert_hash: b("Qm..."),
    }
}

struct Harness {
    kyc: KycRegistry,
    ce: ComplianceEngine,
    token: CarbonCreditToken,
}

fn registry(id: u64) -> KycRegistry {
    let mut kyc = KycRegistry::new(id);
    kyc.initialize(ADMIN).unwrap();
    kyc.add_verifier(&all(), VERIFIER).unwrap();
    kyc
}

fn engine(id: u64, kyc_id: u64) -> ComplianceEngine {
    let mut ce = ComplianceEngine::new(id);
    ce.initialize(ADMIN, kyc_id).unwrap();
    ce
}

/// Deploys a token as the contract's constructor does: an invalid project
/// type aborts the deployment.
fn deploy(id: u64, admin: u64, kyc_id: u64, ce_id: u64, m: ProjectMeta) -> CarbonCreditToken {
    match CarbonCreditToken::new(id, admin, kyc_id, ce_id, m) {
        Ok(t) => t,
        Err(e) => panic!("deployment refused: {:?}", e),
    }
}

fn setup() -> Harness {
    let kyc = registry(KYC_ID);
    let ce = engine(CE_ID, KYC_ID);
    let token = deploy(TOKEN_ID, ADMIN, KYC_ID, CE_ID, meta());
    Harness { kyc, ce, token }
}

impl Harness {
    fn approve_kyc(&mut self, addr: u64) {
        self.kyc.approve(&all(), VERIFIER, addr, 1, 0, b("US")).unwrap();
    }

    fn mint(&mut self, to: u64, amount: i128) -> Result<(), CarbonError> {
        self.token.mint(&all(), &self.kyc, &mut self.ce, to, amount)
    }

    fn transfer(&mut self, from: u64, to: u64, amount: i128) -> Result<(), CarbonError> {
        self.token.transfer(&all(), &self.kyc, &mut self.ce, &self.kyc, from, to, amount)
    }

    fn retire(&mut self, who: u64, amount: i128, beneficiary: &str, reason: &str) -> Result<veritoken::carbon_credit_token::RetirementReceipt, CarbonError> {
        self.token.retire(&all(), &self.kyc, &self.ce, &self.kyc, who, amount, b(beneficiary), b(reason))
    }
}

#[test]
fn test_metadata() {
    let h = setup();
    assert_eq!(h.token.decimals(), 0);
    assert_eq!(h.token.symbol(), b("VTCC"));
    assert_eq!(h.token.get_meta().standard, b("VCS"));
    assert_eq!(h.token.total_supply(), 0);
    assert_eq!(h.token.total_retired(), 0);
}

#[test]
fn test_mint_and_transfer() {
    let mut h = setup();
    h.approve_kyc(ALICE);
    h.approve_kyc(BOB);

    h.mint(ALICE, 500).unwrap();
    assert_eq!(h.token.balance(ALICE), 500);
    assert_eq!(h.token.total_supply(), 500);

    h.transfer(ALICE, BOB, 200).unwrap();
    assert_eq!(h.token.balance(ALICE), 300);
    assert_eq!(h.token.balance(BOB), 200);
}

#[test]
fn test_mint_rejects_blocklisted_recipient() {
    let mut h = setup();
    h.approve_kyc(ALICE);
    h.ce.add_to_blocklist(&all(), ALICE).unwrap();
    assert!(h.mint(ALICE, 100).is_err());
}

#[test]
fn test_mint_rejects_when_compliance_paused() {
    let mut h = setup();
    h.approve_kyc(ALICE);
    h.ce.pause(&all()).unwrap();
    assert!(h.mint(ALICE, 100).is_err());
}

#[test]
fn test_transfer_requires_kyc() {
    let mut h = setup();
    h.approve_kyc(ALICE);
    h.mint(ALICE, 100).unwrap();
    assert!(h.transfer(ALICE, BOB, 10).is_err());
}

#[test]
fn test_transfer_blocked_when_paused() {
    let mut h = setup();
    h.approve_kyc(ALICE);
    h.approve_kyc(BOB);
    h.mint(ALICE, 100).unwrap();
    h.ce.pause(&all()).unwrap();
    assert!(h.transfer(ALICE, BOB, 10).is_err());
}

#[test]
fn test_retire_records_receipt() {
    let mut h = setup();
    h.approve_kyc(ALICE);
    h.mint(ALICE, 100).unwrap();

    let receipt = h.retire(ALICE, 40, "Acme Corp 2024 offset", "annual net-zero pledge").unwrap();
    assert_eq!(receipt.amount, 40);
    assert_eq!(receipt.retiree, ALICE);
    assert_eq!(h.token.balance(ALICE), 60);
    assert_eq!(h.token.total_supply(), 60);
    assert_eq!(h.token.total_retired(), 40);

    assert_eq!(h.token.retirement_count(), 1);
    let r = h.token.get_receipt(0).unwrap();
    assert_eq!(r.amount, 40);
    assert_eq!(r.retiree, ALICE);
}

#[test]
fn test_retire_blocked_when_paused() {
    let mut h = setup();
    h.approve_kyc(ALICE);
    h.mint(ALICE, 100).unwrap();

    h.ce.pause(&all()).unwrap();
    assert!(h.retire(ALICE, 10, "Acme Corp 2024 offset", "annual net-zero pledge").is_err());

    h.ce.unpause(&all()).unwrap();
    let receipt = h.retire(ALICE, 10, "Acme Corp 2024 offset", "annual net-zero pledge").unwrap();
    assert_eq!(receipt.amount, 10);
    assert_eq!(h.token.balance(ALICE), 90);
}

#[test]
fn test_retire_insufficient_balance() {
    let mut h = setup();
    h.approve_kyc(ALICE);
    h.mint(ALICE, 10).unwrap();
    assert!(h.retire(ALICE, 11, "x", "y").is_err());
}

#[test]
fn test_mint_twice_same_address_holder_count_is_one() {
    let mut h = setup();
    h.approve_kyc(ALICE);
    h.mint(ALICE, 100).unwrap();
    h.mint(ALICE, 50).unwrap();
    assert_eq!(h.ce.holder_count(), 1);
    assert_eq!(h.token.balance(ALICE), 150);
}

#[test]
fn test_non_deployer_cannot_reinitialize() {
    let h = setup();
    let attacker = 66;
    let result = h.token.initialize(attacker, 300, 301, meta());
    assert!(result.is_err());
}

#[test]
fn test_update_kyc_registry_admin_only() {
    let mut h = setup();
    let new_kyc = KycRegistry::new(200);

    // Without the admin's authorization the update is refused.
    let mut other = deploy(400, 77, 401, 402, meta());
    assert!(other.update_kyc_registry(&none(), 403).is_err());

    h.token.update_kyc_registry(&all(), 200).unwrap();

    // Approved only in the old registry: minting now fails.
    h.approve_kyc(ALICE);
    assert!(h.token.mint(&all(), &new_kyc, &mut h.ce, ALICE, 10).is_err());
}

#[test]
fn test_update_compliance_engine_admin_only() {
    let mut h = setup();

    let mut other = deploy(400, 77, 401, 402, meta());
    assert!(other.update_compliance_engine(&none(), 403).is_err());

    let mut ce2 = engine(201, 202);
    ce2.pause(&all()).unwrap();
    h.token.update_compliance_engine(&all(), 201).unwrap();

    h.approve_kyc(ALICE);
    assert!(h.token.mint(&all(), &h.kyc, &mut ce2, ALICE, 10).is_err());
}

#[test]
fn test_to_certificate_json() {
    let mut h = setup();
    h.approve_kyc(ALICE);
    h.mint(ALICE, 50).unwrap();
    h.retire(ALICE, 30, "Acme Corp 2024", "net-zero pledge").unwrap();

    let json = h.token.to_certificate_json(0, &b("GALICE")).unwrap();
    let s = String::from_utf8(json).expect("valid utf8");

    assert!(s.contains("\"project_id\":\"VCS-1234\""));
    assert!(s.contains("\"standard\":\"VCS\""));
    assert!(s.contains("\"vintage_year\":2024"));
    assert!(s.contains("\"amount\":30"));
    assert!(s.contains("\"beneficiary\":\"Acme Corp 2024\""));
    assert!(s.contains("\"retirement_reason\":\"net-zero pledge\""));
    assert!(s.contains("\"retiree\":"));
    assert!(s.contains("\"timestamp\":"));
}

#[test]
#[should_panic]
fn test_invalid_project_type_panics_in_constructor() {
    let mut bad = meta();
    bad.project_type = b("nuclear");
    deploy(TOKEN_ID, ADMIN, KYC_ID, CE_ID, bad);
}

#[test]
fn test_valid_project_types_accepted_in_constructor() {
    for pt in ["forestry", "renewable", "methane_capture"] {
        let mut m = meta();
        m.project_type = b(pt);
        let token = deploy(TOKEN_ID, ADMIN, KYC_ID, CE_ID, m);
        assert_eq!(token.get_meta().project_type, b(pt));
    }
}

#[test]
fn test_invalid_project_type_panics_in_update_meta() {
    let mut h = setup();
    let mut bad = h.token.get_meta();
    bad.project_type = b("coal");
    assert!(h.token.update_meta(&all(), bad).is_err());
}

#[test]
fn test_valid_project_type_accepted_in_update_meta() {
    let mut h = setup();
    let mut m = h.token.get_meta();
    m.project_type = b("renewable");
    h.token.update_meta(&all(), m).unwrap();
    assert_eq!(h.token.get_meta().project_type, b("renewable"));
}

#[test]
fn test_update_compliance_engine_affects_transfers() {
    let mut h = setup();
    h.approve_kyc(ALICE);
    h.approve_kyc(BOB);
    h.mint(ALICE, 100).unwrap();

    let dummy_kyc = KycRegistry::new(202);
    let mut ce2 = engine(201, 202);
    ce2.pause(&all()).unwrap();
    h.token.update_compliance_engine(&all(), 201).unwrap();
    assert!(h.token.transfer(&all(), &h.kyc, &mut ce2, &dummy_kyc, ALICE, BOB, 10).is_err());
}

#[test]
fn test_version_returns_nonempty() {
    let h = setup();
    assert!(h.token.version().len() > 0);
}

#[test]
fn test_vintage_year_boundaries_accepted() {
    let mut h = setup();
    let mut m = meta();
    m.vintage_year = 1990;
    h.token.update_meta(&all(), m).unwrap();
    let mut m = meta();
    m.vintage_year = 2050;
    h.token.update_meta(&all(), m).unwrap();
}

#[test]
fn test_vintage_year_below_min_rejected() {
    let mut h = setup();
    let mut m = meta();
    m.vintage_year = 1989;
    assert!(h.token.update_meta(&all(), m).is_err());
}

#[test]
fn test_vintage_year_above_max_rejected() {
    let mut h = setup();
    let mut m = meta();
    m.vintage_year = 2051;
    assert!(h.token.update_meta(&all(), m).is_err());
}

#[test]
fn test_vintage_year_zero_rejected() {
    let mut h = setup();
    let mut m = meta();
    m.vintage_year = 0;
    assert!(h.token.update_meta(&all(), m).is_err());
}

// ── Further cases ──────────────────────────────────────────────────────────

#[test]
fn carbon_retire_keeps_supply_plus_retired() {
    let mut h = setup();
    h.approve_kyc(ALICE);
    h.mint(ALICE, 100).unwrap();
    h.retire(ALICE, 25, "a", "b").unwrap();
    h.retire(ALICE, 5, "a", "b").unwrap();
    assert_eq!(h.token.total_supply() + h.token.total_retired(), 100);
    assert_eq!(h.token.retirement_count(), 2);
}

#[test]
fn carbon_errors_name_their_cause() {
    let mut h = setup();
    h.approve_kyc(ALICE);
    assert_eq!(h.token.mint(&none(), &h.kyc, &mut h.ce, ALICE, 1), Err(CarbonError::Unauthorized));
    assert_eq!(h.mint(BOB, 1), Err(CarbonError::KycNotApproved));
    h.ce.pause(&all()).unwrap();
    assert_eq!(h.mint(ALICE, 1), Err(CarbonError::CompliancePaused));
    h.ce.unpause(&all()).unwrap();
    h.ce.add_to_blocklist(&all(), ALICE).unwrap();
    assert_eq!(h.mint(ALICE, 1), Err(CarbonError::Blocklisted));
    assert!(matches!(h.token.get_receipt(0), Err(CarbonError::ReceiptNotFound)));
    let mut m = meta();
    m.project_id = b("OTHER");
    assert_eq!(h.token.update_meta(&all(), m), Err(CarbonError::ProjectIdImmutable));
    assert_eq!(h.token.accept_admin(&all()), Err(CarbonError::NoPendingAdmin));
    assert_eq!(h.token.initialize(ADMIN, KYC_ID, CE_ID, meta()), Err(CarbonError::AlreadyInitialized));
}

#[test]
fn carbon_transfer_errors() {
    let mut h = setup();
    h.approve_kyc(ALICE);
    h.approve_kyc(BOB);
    h.mint(ALICE, 10).unwrap();
    assert_eq!(h.transfer(ALICE, BOB, 11), Err(CarbonError::InsufficientBalance));
    h.ce.pause(&all()).unwrap();
    assert_eq!(h.transfer(ALICE, BOB, 1), Err(CarbonError::TransferBlocked));
    assert_eq!(h.token.balance(ALICE), 10);
}

#[test]
fn carbon_two_step_admin_handover() {
    let mut h = setup();
    h.token.propose_admin(&all(), 55).unwrap();
    let new_only = Invocation { timestamp: 0, sequence: 0, signers: vec![55] };
    h.token.accept_admin(&new_only).unwrap();
    // The old admin no longer may update metadata; the new one may.
    let old_only = Invocation { timestamp: 0, sequence: 0, signers: vec![ADMIN] };
    assert_eq!(h.token.update_meta(&old_only, meta()), Err(CarbonError::Unauthorized));
    assert!(h.token.update_meta(&new_only, meta()).is_ok());
}

#[test]
fn carbon_receipts_pagination() {
    let mut h = setup();
    h.approve_kyc(ALICE);
    h.mint(ALICE, 100).unwrap();
    for i in 1..=3 {
        h.retire(ALICE, i, "x", "y").unwrap();
    }
    let page = h.token.get_receipts(1, 5);
    assert_eq!(page.len(), 2);
    assert_eq!(page[0].amount, 2);
    assert_eq!(page[1].amount, 3);
    assert_eq!(h.token.get_receipts(3, 5).len(), 0);
}

#[test]
fn carbon_certificate_exact_text() {
    let mut h = setup();
    h.approve_kyc(ALICE);
    h.mint(ALICE, 50).unwrap();
    h.retire(ALICE, 30, "B", "R").unwrap();
    let json = h.token.to_certificate_json(0, &b("GA")).unwrap();
    assert_eq!(
        String::from_utf8(json).unwrap(),
        "{\"project_id\":\"VCS-1234\",\"standard\":\"VCS\",\"vintage_year\":2024,\"retiree\":\"GA\",\"amount\":30,\"timestamp\":0,\"beneficiary\":\"B\",\"retirement_reason\":\"R\"}"
    );
    assert!(matches!(h.token.to_certificate_json(1, &b("GA")), Err(CarbonError::ReceiptNotFound)));
}

#[test]
fn carbon_more_errors() {
    let mut bad = meta();
    bad.project_type = b("nuclear");
    assert!(matches!(CarbonCreditToken::new(1, ADMIN, KYC_ID, CE_ID, bad), Err(CarbonError::InvalidProjectType)));
    let mut h = setup();
    let mut m = meta();
    m.vintage_year = 1989;
    assert_eq!(h.token.update_meta(&all(), m), Err(CarbonError::InvalidVintageYear));
    h.approve_kyc(ALICE);
    let mut blank = ComplianceEngine::new(CE_ID);
    assert_eq!(h.token.mint(&all(), &h.kyc, &mut blank, ALICE, 1), Err(CarbonError::ComplianceCheckFailed));
    h.mint(ALICE, i128::MAX).unwrap();
    assert_eq!(h.mint(ALICE, 1), Err(CarbonError::Overflow));
    assert_eq!(h.token.total_supply(), i128::MAX);
}

#[test]
fn carbon_supply_is_sum_of_balances() {
    let mut h = setup();
    h.approve_kyc(ALICE);
    h.approve_kyc(BOB);
    h.mint(ALICE, 70).unwrap();
    h.mint(BOB, 30).unwrap();
    h.transfer(ALICE, BOB, 20).unwrap();
    h.retire(BOB, 15, "b", "r").unwrap();
    assert_eq!(h.token.total_supply(), h.token.balance(ALICE) + h.token.balance(BOB));
    assert_eq!(h.token.total_supply(), 85);
}
