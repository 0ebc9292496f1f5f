use veritoken::compliance_engine::{ComplianceEngine, ComplianceRules};
use veritoken::kyc_registry::KycRegistry;
use veritoken::rwa_token::{ComplianceMetadata, RwaError, RwaToken};
use std::collections::HashMap;
use veritoken::pair_map::PairMap;
use veritoken::rwa_token::storage_types::{Storage, TokenMetadata};
use veritoken::rwa_token::{admin, allowance, balance, compliance, kyc, metadata};
use veritoken::types::Invocation;

const ADMIN: u64 = 1;
const VERIFIER: u64 = 2;
const ALICE: u64 = 10;
const BOB: u64 = 11;
const SPENDER: u64 = 12;
const KYC_ID: u64 = 100;
const CE_ID: u64 = 101;
const TOKEN_ID: u64 = 102;

fn b(s: &str) -> Vec<u8> {
    s.as_bytes().to_vec()
}

fn ledger(sequence: u32) -> Invocation {
    Invocation { timestamp: 0, sequence, signers: vec![ADMIN, VERIFIER, ALICE, BOB, SPENDER] }
}

fn all() -> Invocation {
    ledger(0)
}

fn none() -> Invocation {
    Invocation { timestamp: 0, sequence: 0, signers: vec![] }
}

struct Harness {
    kyc: KycRegistry,
    ce: ComplianceEngine,
    token: RwaToken,
}

fn deploy(metadata: Option<ComplianceMetadata>) -> RwaToken {
    match RwaToken::new(TOKEN_ID, ADMIN, 7, b("Veritoken RWA"), b("VTRWA"), b("property"), KYC_ID, CE_ID, metadata) {
        Ok(t) => t,
        Err(e) => panic!("deployment refused: {:?}", e),
    }
}

fn setup() -> Harness {
    let mut kyc = KycRegistry::new(KYC_ID);
    kyc.initialize(ADMIN).unwrap();
    kyc.add_verifier(&all(), VERIFIER).unwrap();
    let mut ce = ComplianceEngine::new(CE_ID);
    ce.initialize(ADMIN, KYC_ID).unwrap();
    Harness { kyc, ce, token: deploy(None) }
}

impl Harness {
    fn approve_kyc(&mut self, addr: u64) {
        self.kyc.approve(&all(), VERIFIER, addr, 1, 0, b("US")).unwrap();
    }

    fn mint(&mut self, to: u64, amount: i128) -> Result<(), RwaError> {
        self.token.mint(&all(), &self.kyc, &mut self.ce, &self.kyc, to, amount)
    }

    fn transfer(&mut self, from: u64, to: u64, amount: i128) -> Result<(), RwaError> {
        self.token.transfer(&all(), &self.kyc, &mut self.ce, &self.kyc, from, to, amount)
    }

    fn transfer_from_at(&mut self, seq: u32, spender: u64, from: u64, to: u64, amount: i128) -> Result<(), RwaError> {
        self.token.transfer_from(&ledger(seq), &self.kyc, &mut self.ce, &self.kyc, spender, from, to, amount)
    }

    fn burn(&mut self, from: u64, amount: i128) -> Result<(), RwaError> {
        self.token.burn(&all(), &self.kyc, &mut self.ce, from, amount)
    }

    fn burn_from(&mut self, spender: u64, from: u64, amount: i128) -> Result<(), RwaError> {
        self.token.burn_from(&all(), &self.kyc, &mut self.ce, spender, from, amount)
    }

    fn approve(&mut self, from: u64, spender: u64, amount: i128, expiration: u32) {
        self.token.approve(&all(), from, spender, amount, expiration).unwrap();
    }
}

// ── Token behaviour ─────────────────────────────────────────────────────────

#[test]
fn rwa_test_metadata() {
    let h = setup();
    assert_eq!(h.token.decimals(), 7);
    assert_eq!(h.token.name(), b("Veritoken RWA"));
    assert_eq!(h.token.symbol(), b("VTRWA"));
    assert_eq!(h.token.asset_type(), b("property"));
    assert_eq!(h.token.total_supply(), 0);
}

#[test]
fn test_mint_requires_kyc() {
    let mut h = setup();
    assert!(h.mint(ALICE, 1_000).is_err());
    h.approve_kyc(ALICE);
    h.mint(ALICE, 1_000).unwrap();
    assert_eq!(h.token.balance(ALICE), 1_000);
    assert_eq!(h.token.total_supply(), 1_000);
}

#[test]
fn test_transfer_happy_path() {
    let mut h = setup();
    h.approve_kyc(ALICE);
    h.approve_kyc(BOB);
    h.mint(ALICE, 1_000).unwrap();
    h.transfer(ALICE, BOB, 400).unwrap();
    assert_eq!(h.token.balance(ALICE), 600);
    assert_eq!(h.token.balance(BOB), 400);
}

#[test]
fn test_transfer_blocked_without_kyc_on_receiver() {
    let mut h = setup();
    h.approve_kyc(ALICE);
    h.mint(ALICE, 1_000).unwrap();
    assert!(h.transfer(ALICE, BOB, 100).is_err());
}

#[test]
fn test_transfer_blocked_when_compliance_paused() {
    let mut h = setup();
    h.approve_kyc(ALICE);
    h.approve_kyc(BOB);
    h.mint(ALICE, 1_000).unwrap();
    h.ce.pause(&all()).unwrap();
    assert!(h.transfer(ALICE, BOB, 100).is_err());
    h.ce.unpause(&all()).unwrap();
    h.transfer(ALICE, BOB, 100).unwrap();
    assert_eq!(h.token.balance(BOB), 100);
}

#[test]
fn test_transfer_blocked_by_max_amount() {
    let mut h = setup();
    h.approve_kyc(ALICE);
    h.approve_kyc(BOB);
    h.mint(ALICE, 1_000).unwrap();
    h.ce.set_rules(
        &all(),
        ComplianceRules {
            max_transfer_amount: 50,
            min_holding_period: 0,
            max_holders: 0,
            require_same_jurisdiction: false,
            paused: false,
        },
    )
    .unwrap();
    assert!(h.transfer(ALICE, BOB, 51).is_err());
    h.transfer(ALICE, BOB, 50).unwrap();
    assert_eq!(h.token.balance(BOB), 50);
}

#[test]
fn test_approve_and_transfer_from() {
    let mut h = setup();
    h.approve_kyc(ALICE);
    h.approve_kyc(BOB);
    h.mint(ALICE, 1_000).unwrap();
    h.approve(ALICE, SPENDER, 300, 1_000);
    assert_eq!(h.token.allowance(0, ALICE, SPENDER), 300);
    h.transfer_from_at(0, SPENDER, ALICE, BOB, 200).unwrap();
    assert_eq!(h.token.balance(BOB), 200);
    assert_eq!(h.token.balance(ALICE), 800);
    assert_eq!(h.token.allowance(0, ALICE, SPENDER), 100);
}

#[test]
fn test_burn_reduces_supply() {
    let mut h = setup();
    h.approve_kyc(ALICE);
    h.mint(ALICE, 1_000).unwrap();
    h.burn(ALICE, 400).unwrap();
    assert_eq!(h.token.balance(ALICE), 600);
    assert_eq!(h.token.total_supply(), 600);
}

#[test]
fn test_set_admin() {
    let mut h = setup();
    let new_admin = 50;
    h.token.set_admin(&all(), new_admin).unwrap();
    h.approve_kyc(ALICE);
    let by_new_admin = Invocation { timestamp: 0, sequence: 0, signers: vec![new_admin] };
    h.token.mint(&by_new_admin, &h.kyc, &mut h.ce, &h.kyc, ALICE, 1).unwrap();
    assert_eq!(h.token.balance(ALICE), 1);
}

#[test]
fn test_compliance_metadata() {
    let mut h = setup();
    h.token.set_compliance_metadata(&all(), b("legal"), b("prospectus-v1")).unwrap();
    assert_eq!(h.token.get_compliance_metadata(b("legal")), b("prospectus-v1"));
}

// ── The standard token interface ───────────────────────────────────────────

#[test]
fn sep41_name() {
    let h = setup();
    assert_eq!(h.token.name(), b("Veritoken RWA"));
}

#[test]
fn sep41_symbol() {
    let h = setup();
    assert_eq!(h.token.symbol(), b("VTRWA"));
}

#[test]
fn sep41_decimals() {
    let h = setup();
    assert_eq!(h.token.decimals(), 7);
}

#[test]
fn sep41_total_supply_initial() {
    let h = setup();
    assert_eq!(h.token.total_supply(), 0);
}

#[test]
fn sep41_total_supply_after_mint() {
    let mut h = setup();
    h.approve_kyc(ALICE);
    h.mint(ALICE, 1_000).unwrap();
    assert_eq!(h.token.total_supply(), 1_000);
    h.mint(ALICE, 500).unwrap();
    assert_eq!(h.token.total_supply(), 1_500);
}

#[test]
fn sep41_total_supply_after_transfer() {
    let mut h = setup();
    h.approve_kyc(ALICE);
    h.approve_kyc(BOB);
    h.mint(ALICE, 1_000).unwrap();
    assert_eq!(h.token.total_supply(), 1_000);
    h.transfer(ALICE, BOB, 600).unwrap();
    assert_eq!(h.token.total_supply(), 1_000);
}

#[test]
fn sep41_total_supply_after_burn() {
    let mut h = setup();
    h.approve_kyc(ALICE);
    h.mint(ALICE, 1_000).unwrap();
    assert_eq!(h.token.total_supply(), 1_000);
    h.burn(ALICE, 300).unwrap();
    assert_eq!(h.token.total_supply(), 700);
}

#[test]
fn sep41_balance_of_nonexistent_account() {
    let h = setup();
    assert_eq!(h.token.balance(77), 0);
}

#[test]
fn sep41_balance_after_mint() {
    let mut h = setup();
    h.approve_kyc(ALICE);
    h.mint(ALICE, 1_000).unwrap();
    assert_eq!(h.token.balance(ALICE), 1_000);
}

#[test]
fn sep41_balance_after_transfer() {
    let mut h = setup();
    h.approve_kyc(ALICE);
    h.approve_kyc(BOB);
    h.mint(ALICE, 1_000).unwrap();
    h.transfer(ALICE, BOB, 400).unwrap();
    assert_eq!(h.token.balance(ALICE), 600);
    assert_eq!(h.token.balance(BOB), 400);
}

#[test]
fn sep41_transfer_happy_path() {
    let mut h = setup();
    h.approve_kyc(ALICE);
    h.approve_kyc(BOB);
    h.mint(ALICE, 1_000).unwrap();
    h.transfer(ALICE, BOB, 350).unwrap();
    assert_eq!(h.token.balance(ALICE), 650);
    assert_eq!(h.token.balance(BOB), 350);
}

#[test]
fn sep41_transfer_insufficient_balance() {
    let mut h = setup();
    h.approve_kyc(ALICE);
    h.approve_kyc(BOB);
    h.mint(ALICE, 500).unwrap();
    assert!(h.transfer(ALICE, BOB, 600).is_err());
}

#[test]
fn sep41_transfer_zero_amount() {
    let mut h = setup();
    h.approve_kyc(ALICE);
    h.approve_kyc(BOB);
    h.mint(ALICE, 1_000).unwrap();
    assert!(h.transfer(ALICE, BOB, 0).is_err());
}

#[test]
fn sep41_transfer_requires_kyc_sender() {
    let mut h = setup();
    h.approve_kyc(ALICE);
    h.mint(ALICE, 1_000).unwrap();
    assert!(h.transfer(ALICE, BOB, 100).is_err());
}

#[test]
fn sep41_transfer_requires_kyc_receiver() {
    let mut h = setup();
    h.approve_kyc(ALICE);
    h.mint(ALICE, 1_000).unwrap();
    assert!(h.transfer(ALICE, BOB, 100).is_err());
}

#[test]
fn sep41_transfer_from_with_valid_allowance() {
    let mut h = setup();
    h.approve_kyc(ALICE);
    h.approve_kyc(BOB);
    h.mint(ALICE, 1_000).unwrap();
    h.approve(ALICE, SPENDER, 400, 1_000);
    h.transfer_from_at(0, SPENDER, ALICE, BOB, 250).unwrap();
    assert_eq!(h.token.balance(ALICE), 750);
    assert_eq!(h.token.balance(BOB), 250);
}

#[test]
fn sep41_transfer_from_with_expired_allowance() {
    let mut h = setup();
    h.approve_kyc(ALICE);
    h.approve_kyc(BOB);
    h.mint(ALICE, 1_000).unwrap();
    let expiration = 10;
    h.approve(ALICE, SPENDER, 400, expiration);
    assert!(h.transfer_from_at(expiration + 1, SPENDER, ALICE, BOB, 100).is_err());
}

#[test]
fn sep41_transfer_from_insufficient_allowance() {
    let mut h = setup();
    h.approve_kyc(ALICE);
    h.approve_kyc(BOB);
    h.mint(ALICE, 1_000).unwrap();
    h.approve(ALICE, SPENDER, 200, 1_000);
    assert!(h.transfer_from_at(0, SPENDER, ALICE, BOB, 300).is_err());
}

#[test]
fn sep41_approve_new() {
    let mut h = setup();
    h.approve(ALICE, SPENDER, 1_000, 500);
    assert_eq!(h.token.allowance(0, ALICE, SPENDER), 1_000);
}

#[test]
fn sep41_approve_update() {
    let mut h = setup();
    h.approve(ALICE, SPENDER, 1_000, 500);
    assert_eq!(h.token.allowance(0, ALICE, SPENDER), 1_000);
    h.approve(ALICE, SPENDER, 2_000, 500);
    assert_eq!(h.token.allowance(0, ALICE, SPENDER), 2_000);
}

#[test]
fn sep41_approve_revoke_with_zero() {
    let mut h = setup();
    h.approve(ALICE, SPENDER, 1_000, 500);
    assert_eq!(h.token.allowance(0, ALICE, SPENDER), 1_000);
    h.approve(ALICE, SPENDER, 0, 500);
    assert_eq!(h.token.allowance(0, ALICE, SPENDER), 0);
}

#[test]
fn sep41_allowance_active() {
    let mut h = setup();
    h.approve(ALICE, SPENDER, 500, 1_000);
    assert_eq!(h.token.allowance(0, ALICE, SPENDER), 500);
}

#[test]
fn sep41_allowance_expired() {
    let mut h = setup();
    let expiration = 50;
    h.approve(ALICE, SPENDER, 500, expiration);
    assert_eq!(h.token.allowance(0, ALICE, SPENDER), 500);
    assert_eq!(h.token.allowance(expiration + 1, ALICE, SPENDER), 0);
}

#[test]
fn sep41_allowance_nonexistent() {
    let h = setup();
    assert_eq!(h.token.allowance(0, ALICE, SPENDER), 0);
}

#[test]
fn sep41_burn() {
    let mut h = setup();
    h.approve_kyc(ALICE);
    h.mint(ALICE, 1_000).unwrap();
    assert_eq!(h.token.total_supply(), 1_000);
    h.burn(ALICE, 250).unwrap();
    assert_eq!(h.token.balance(ALICE), 750);
    assert_eq!(h.token.total_supply(), 750);
}

#[test]
fn sep41_burn_insufficient_balance() {
    let mut h = setup();
    h.approve_kyc(ALICE);
    h.mint(ALICE, 500).unwrap();
    assert!(h.burn(ALICE, 600).is_err());
}

#[test]
fn sep41_burn_from_with_allowance() {
    let mut h = setup();
    h.approve_kyc(ALICE);
    h.mint(ALICE, 1_000).unwrap();
    h.approve(ALICE, SPENDER, 400, 1_000);
    h.burn_from(SPENDER, ALICE, 150).unwrap();
    assert_eq!(h.token.balance(ALICE), 850);
    assert_eq!(h.token.total_supply(), 850);
    assert_eq!(h.token.allowance(0, ALICE, SPENDER), 250);
}

#[test]
fn sep41_burn_from_insufficient_allowance() {
    let mut h = setup();
    h.approve_kyc(ALICE);
    h.mint(ALICE, 1_000).unwrap();
    h.approve(ALICE, SPENDER, 100, 1_000);
    assert!(h.burn_from(SPENDER, ALICE, 150).is_err());
}

// ── Further cases ──────────────────────────────────────────────────────────

#[test]
fn rwa_errors_name_their_cause() {
    let mut h = setup();
    h.approve_kyc(ALICE);
    h.approve_kyc(BOB);
    assert_eq!(h.token.mint(&none(), &h.kyc, &mut h.ce, &h.kyc, ALICE, 1), Err(RwaError::Unauthorized));
    assert_eq!(h.mint(ALICE, 0), Err(RwaError::NonPositiveAmount));
    assert_eq!(h.mint(SPENDER, 1), Err(RwaError::KycNotApproved));
    h.mint(ALICE, 10).unwrap();
    assert_eq!(h.transfer(ALICE, BOB, 11), Err(RwaError::InsufficientBalance));
    assert_eq!(h.transfer(ALICE, BOB, -5), Err(RwaError::NonPositiveAmount));
    h.ce.pause(&all()).unwrap();
    assert_eq!(h.transfer(ALICE, BOB, 1), Err(RwaError::TransferBlocked));
    h.ce.unpause(&all()).unwrap();
    assert_eq!(h.transfer_from_at(0, SPENDER, ALICE, BOB, 1), Err(RwaError::InsufficientAllowance));
    assert_eq!(h.token.approve(&ledger(20), ALICE, SPENDER, 5, 10), Err(RwaError::ExpirationInPast));
    assert_eq!(h.token.set_admin(&none(), 5), Err(RwaError::Unauthorized));
    assert_eq!(
        h.token.initialize(ADMIN, 7, b("n"), b("s"), b("property"), KYC_ID, CE_ID),
        Err(RwaError::AlreadyInitialized)
    );
    assert_eq!(h.token.balance(ALICE), 10);
}

#[test]
fn rwa_invalid_asset_type_refused() {
    let r = RwaToken::new(1, ADMIN, 7, b("n"), b("s"), b("bond"), KYC_ID, CE_ID, None);
    assert!(matches!(r, Err(RwaError::InvalidAssetType)));
    for t in ["invoice", "property", "carbon_credit"] {
        let r = RwaToken::new(1, ADMIN, 7, b("n"), b("s"), b(t), KYC_ID, CE_ID, None);
        assert!(r.is_ok());
    }
}

#[test]
fn rwa_engine_failure_is_reported() {
    let mut h = setup();
    h.approve_kyc(ALICE);
    // An engine that was never initialized cannot answer.
    let mut blank = ComplianceEngine::new(CE_ID);
    assert_eq!(
        h.token.mint(&all(), &h.kyc, &mut blank, &h.kyc, ALICE, 1),
        Err(RwaError::ComplianceCheckFailed)
    );
}

#[test]
fn rwa_holders_follow_balances() {
    let mut h = setup();
    h.approve_kyc(ALICE);
    h.approve_kyc(BOB);
    h.mint(ALICE, 100).unwrap();
    assert_eq!(h.ce.holder_count(), 1);
    h.transfer(ALICE, BOB, 40).unwrap();
    assert_eq!(h.ce.holder_count(), 2);
    h.transfer(ALICE, BOB, 60).unwrap();
    assert_eq!(h.ce.holder_count(), 1);
    h.burn(BOB, 100).unwrap();
    assert_eq!(h.ce.holder_count(), 0);
    assert_eq!(h.token.total_supply(), 0);
}

#[test]
fn rwa_holder_cap_blocks_new_holder_mint() {
    let mut h = setup();
    h.approve_kyc(ALICE);
    h.approve_kyc(BOB);
    h.mint(ALICE, 100).unwrap();
    h.ce.set_rules(
        &all(),
        ComplianceRules { max_transfer_amount: 0, min_holding_period: 0, max_holders: 1, require_same_jurisdiction: false, paused: false },
    )
    .unwrap();
    assert_eq!(h.mint(BOB, 1), Err(RwaError::TransferBlocked));
    // Topping up an existing holder does not consult the engine.
    h.mint(ALICE, 1).unwrap();
    assert_eq!(h.token.balance(ALICE), 101);
}

#[test]
fn rwa_self_transfer_keeps_balance() {
    let mut h = setup();
    h.approve_kyc(ALICE);
    h.mint(ALICE, 100).unwrap();
    h.transfer(ALICE, ALICE, 100).unwrap();
    assert_eq!(h.token.balance(ALICE), 100);
    assert_eq!(h.ce.holder_count(), 1);
}

#[test]
fn rwa_compliance_metadata_from_deployment() {
    let m = ComplianceMetadata {
        legal_entity: Some(b("Acme SPV")),
        governing_law: None,
        isin: Some(b("")),
        prospectus_hash: Some(b("Qm1")),
    };
    let mut t = deploy(Some(m));
    assert_eq!(t.get_compliance_metadata(b("legal_entity")), b("Acme SPV"));
    assert_eq!(t.get_compliance_metadata(b("missing")), b(""));
    let all_meta = t.get_all_compliance_metadata();
    assert_eq!(all_meta.legal_entity, Some(b("Acme SPV")));
    assert_eq!(all_meta.governing_law, None);
    assert_eq!(all_meta.isin, None);
    assert_eq!(all_meta.prospectus_hash, Some(b("Qm1")));
    t.set_compliance_metadata(&all(), b("governing_law"), b("NY")).unwrap();
    t.set_compliance_metadata(&all(), b("legal_entity"), b("Acme 2")).unwrap();
    let all_meta = t.get_all_compliance_metadata();
    assert_eq!(all_meta.governing_law, Some(b("NY")));
    assert_eq!(all_meta.legal_entity, Some(b("Acme 2")));
}

#[test]
fn rwa_registry_and_engine_updates() {
    let mut h = setup();
    h.token.update_kyc_registry(&all(), 300).unwrap();
    h.token.update_compliance_engine(&all(), 301).unwrap();
    assert_eq!(h.token.kyc_registry(), 300);
    assert_eq!(h.token.compliance_engine(), 301);
    assert_eq!(h.token.update_kyc_registry(&none(), 5), Err(RwaError::Unauthorized));
    assert_eq!(h.token.address(), TOKEN_ID);
}

#[test]
fn rwa_burn_undoes_mint() {
    let mut h = setup();
    h.approve_kyc(ALICE);
    h.mint(ALICE, 70).unwrap();
    h.mint(ALICE, 30).unwrap();
    h.burn(ALICE, 30).unwrap();
    assert_eq!(h.token.balance(ALICE), 70);
    assert_eq!(h.token.total_supply(), 70);
}

#[test]
fn rwa_storage_helpers() {
    let mut s = Storage {
        contract_id: 9,
        admin: ADMIN,
        kyc_registry: KYC_ID,
        compliance_engine: CE_ID,
        metadata: TokenMetadata { decimal: 7, name: b("N"), symbol: b("S") },
        asset_type: b("property"),
        total_supply: 0,
        balances: HashMap::new(),
        allowances: PairMap::new(),
        compliance_meta: Vec::new(),
        frozen: HashMap::new(),
    };
    balance::receive_balance(&mut s, ALICE, 10).unwrap();
    assert_eq!(balance::read_balance(&s, ALICE), 10);
    assert_eq!(balance::spend_balance(&mut s, ALICE, 11), Err(RwaError::InsufficientBalance));
    balance::spend_balance(&mut s, ALICE, 4).unwrap();
    assert_eq!(balance::read_balance(&s, ALICE), 6);
    balance::write_total_supply(&mut s, 6);
    assert_eq!(balance::read_total_supply(&s), 6);

    compliance::set_frozen(&mut s, ALICE, true);
    assert!(compliance::is_frozen(&s, ALICE));
    assert!(!compliance::is_frozen(&s, BOB));
    compliance::write_metadata(&mut s, &b("isin"), &b("US0000000001"));
    assert_eq!(compliance::read_metadata(&s, &b("isin")), b("US0000000001"));
    assert_eq!(compliance::read_metadata(&s, &b("other")), b(""));

    metadata::write_asset_type(&mut s, b("invoice"));
    assert_eq!(metadata::read_asset_type(&s), b("invoice"));
    metadata::write_metadata(&mut s, 2, b("Name"), b("SYM"));
    assert_eq!(metadata::read_decimal(&s), 2);
    assert_eq!(metadata::read_name(&s), b("Name"));
    assert_eq!(metadata::read_symbol(&s), b("SYM"));
    assert_eq!(metadata::read_metadata(&s).symbol, b("SYM"));

    allowance::write_allowance(&mut s, 0, ALICE, SPENDER, 50, 10).unwrap();
    allowance::spend_allowance(&mut s, 0, ALICE, SPENDER, 20).unwrap();
    assert_eq!(allowance::read_allowance(&s, 0, ALICE, SPENDER).amount, 30);
    assert_eq!(allowance::read_allowance(&s, 11, ALICE, SPENDER).amount, 0);
    assert_eq!(allowance::write_allowance(&mut s, 20, ALICE, SPENDER, 5, 10), Err(RwaError::ExpirationInPast));

    admin::write_admin(&mut s, 77);
    assert_eq!(admin::read_admin(&s), 77);
    kyc::write_kyc_registry(&mut s, 300);
    assert_eq!(kyc::read_kyc_registry(&s), 300);
    compliance::write_compliance_engine(&mut s, 301);
    assert_eq!(compliance::read_compliance_engine(&s), 301);
}

#[test]
fn rwa_supply_overflow_refused() {
    let mut h = setup();
    h.approve_kyc(ALICE);
    h.approve_kyc(BOB);
    h.mint(ALICE, i128::MAX).unwrap();
    assert_eq!(h.mint(BOB, 1), Err(RwaError::Overflow));
    assert_eq!(h.token.balance(BOB), 0);
    assert_eq!(h.ce.holder_count(), 1);
}

#[test]
fn rwa_supply_is_sum_of_balances() {
    let mut h = setup();
    h.approve_kyc(ALICE);
    h.approve_kyc(BOB);
    h.mint(ALICE, 70).unwrap();
    h.mint(BOB, 30).unwrap();
    h.transfer(ALICE, BOB, 20).unwrap();
    h.burn(BOB, 15).unwrap();
    assert_eq!(h.token.total_supply(), h.token.balance(ALICE) + h.token.balance(BOB));
    assert_eq!(h.token.total_supply(), 85);
}
