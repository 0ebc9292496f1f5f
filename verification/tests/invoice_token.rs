use veritoken::compliance_engine::{ComplianceEngine, ComplianceRules};
use veritoken::invoice_token::{InvoiceError, InvoiceMeta, InvoiceToken};
use veritoken::kyc_registry::KycRegistry;
use veritoken::types::Invocation;

const ADMIN: u64 = 1;
const VERIFIER: u64 = 2;
const ALICE: u64 = 10;
const BOB: u64 = 11;
const KYC_ID: u64 = 100;
const CE_ID: u64 = 101;
const TOKEN_ID: u64 = 102;

fn b(s: &str) -> Vec<u8> {
    s.as_bytes().to_vec()
}

fn at(timestamp: u64) -> Invocation {
    Invocation { timestamp, sequence: 0, signers: vec![ADMIN, VERIFIER, ALICE, BOB] }
}

fn all() -> Invocation {
    at(0)
}

fn none() -> Invocation {
    Invocation { timestamp: 0, sequence: 0, signers: vec![] }
}

fn inv_id() -> Vec<u8> {
    b("INV-001")
}

fn meta() -> InvoiceMeta {
    InvoiceMeta {
        invoice_id: b("INV-001"),
        issuer: b("Acme Corp"),
        debtor: b("Globex"),
        face_value_usd: 1_000_000_000_000,
        discount_rate_bps: 250,
        due_date: 1_900_000_000,
        currency: b("USD"),
        ipfs_doc_hash: b("Qm..."),
        transfer_fee_bps: 0,
        fee_recipient: None,
        notification_webhook: b(""),
    }
}

fn make_invoice(id: &str) -> InvoiceMeta {
    InvoiceMeta {
        invoice_id: b(id),
        issuer: b("Issuer"),
        debtor: b("Debtor"),
        face_value_usd: 500_000_000_000,
        discount_rate_bps: 100,
        due_date: 1_900_000_000,
        currency: b("USD"),
        ipfs_doc_hash: b(""),
        transfer_fee_bps: 0,
        fee_recipient: None,
        notification_webhook: b(""),
    }
}

struct Harness {
    kyc: KycRegistry,
    ce: ComplianceEngine,
    token: InvoiceToken,
}

fn deploy(id: u64, admin: u64, m: InvoiceMeta) -> InvoiceToken {
    match InvoiceToken::new(id, admin, KYC_ID, CE_ID, m) {
        Ok(t) => t,
        Err(e) => panic!("deployment refused: {:?}", e),
    }
}

fn setup() -> Harness {
    let mut kyc = KycRegistry::new(KYC_ID);
    kyc.initialize(ADMIN).unwrap();
    kyc.add_verifier(&all(), VERIFIER).unwrap();
    let mut ce = ComplianceEngine::new(CE_ID);
    ce.initialize(ADMIN, KYC_ID).unwrap();
    let token = deploy(TOKEN_ID, ADMIN, meta());
    Harness { kyc, ce, token }
}

impl Harness {
    fn approve_kyc(&mut self, addr: u64) {
        self.kyc.approve(&all(), VERIFIER, addr, 1, 0, b("US")).unwrap();
    }

    fn issue(&mut self, id: &Vec<u8>, to: u64, amount: i128) -> Result<(), InvoiceError> {
        self.token.issue(&all(), &self.kyc, &mut self.ce, id, to, amount)
    }

    fn transfer_at(&mut self, t: u64, id: &Vec<u8>, from: u64, to: u64, amount: i128) -> Result<(), InvoiceError> {
        self.token.transfer(&at(t), &self.kyc, &mut self.ce, &self.kyc, id, from, to, amount)
    }

    fn redeem(&mut self, id: &Vec<u8>, from: u64, amount: i128) -> Result<(), InvoiceError> {
        self.token.redeem(&all(), &self.ce, &self.kyc, id, from, amount)
    }
}

#[test]
fn test_issue_idempotency_holder_count() {
    let mut h = setup();
    h.approve_kyc(ALICE);
    h.issue(&inv_id(), ALICE, 1_000).unwrap();
    assert_eq!(h.ce.holder_count(), 1);
    h.issue(&inv_id(), ALICE, 500).unwrap();
    assert_eq!(h.ce.holder_count(), 1);
    assert_eq!(h.token.balance(ALICE, &inv_id()), 1_500);
}

#[test]
fn test_transfer_before_due_date() {
    let mut h = setup();
    h.approve_kyc(ALICE);
    h.approve_kyc(BOB);
    h.issue(&inv_id(), ALICE, 1_000).unwrap();
    h.transfer_at(0, &inv_id(), ALICE, BOB, 400).unwrap();
    assert_eq!(h.token.balance(ALICE, &inv_id()), 600);
    assert_eq!(h.token.balance(BOB, &inv_id()), 400);
}

#[test]
fn test_transfer_blocked_after_due_date() {
    let mut h = setup();
    h.approve_kyc(ALICE);
    h.approve_kyc(BOB);
    h.issue(&inv_id(), ALICE, 1_000).unwrap();
    assert!(h.transfer_at(1_900_000_001, &inv_id(), ALICE, BOB, 500).is_err());
}

#[test]
fn test_transfer_from_blocked_after_due_date() {
    let mut h = setup();
    h.approve_kyc(ALICE);
    h.approve_kyc(BOB);
    h.issue(&inv_id(), ALICE, 1_000).unwrap();
    h.token.approve(&all(), ALICE, BOB, &inv_id(), 500, 999_999_999).unwrap();
    let late = at(1_900_000_001);
    assert!(h.token.transfer_from(&late, &h.kyc, &mut h.ce, &h.kyc, BOB, &inv_id(), ALICE, BOB, 500).is_err());
}

#[test]
fn test_test_metadata() {
    let h = setup();
    assert_eq!(h.token.decimals(), 7);
    assert_eq!(h.token.name(), b("Veritoken Invoice"));
    assert_eq!(h.token.get_meta(&inv_id()).unwrap().invoice_id, b("INV-001"));
    assert!(!h.token.is_settled(&inv_id()));
}

#[test]
fn test_issue_requires_kyc() {
    let mut h = setup();
    assert!(h.issue(&inv_id(), ALICE, 1_000).is_err());
    h.approve_kyc(ALICE);
    h.issue(&inv_id(), ALICE, 1_000).unwrap();
    assert_eq!(h.token.balance(ALICE, &inv_id()), 1_000);
    assert_eq!(h.token.total_supply(&inv_id()), 1_000);
}

#[test]
fn test_settle_then_redeem() {
    let mut h = setup();
    h.approve_kyc(ALICE);
    h.issue(&inv_id(), ALICE, 1_000).unwrap();
    assert!(h.redeem(&inv_id(), ALICE, 500).is_err());
    h.token.settle(&all(), &inv_id()).unwrap();
    assert!(h.token.is_settled(&inv_id()));
    h.redeem(&inv_id(), ALICE, 600).unwrap();
    assert_eq!(h.token.balance(ALICE, &inv_id()), 400);
    assert_eq!(h.token.total_supply(&inv_id()), 400);
}

#[test]
fn test_cannot_issue_after_settle() {
    let mut h = setup();
    h.approve_kyc(ALICE);
    h.token.settle(&all(), &inv_id()).unwrap();
    assert!(h.issue(&inv_id(), ALICE, 1).is_err());
}

#[test]
fn test_redeem_insufficient_balance() {
    let mut h = setup();
    h.approve_kyc(ALICE);
    h.issue(&inv_id(), ALICE, 100).unwrap();
    h.token.settle(&all(), &inv_id()).unwrap();
    assert!(h.redeem(&inv_id(), ALICE, 101).is_err());
}

#[test]
fn test_redeem_blocked_when_compliance_paused() {
    let mut h = setup();
    h.approve_kyc(ALICE);
    h.issue(&inv_id(), ALICE, 1_000).unwrap();
    h.token.settle(&all(), &inv_id()).unwrap();
    h.ce.pause(&all()).unwrap();
    assert!(h.redeem(&inv_id(), ALICE, 500).is_err());
}

#[test]
fn test_redeem_blocked_for_blocklisted_holder() {
    let mut h = setup();
    h.approve_kyc(ALICE);
    h.issue(&inv_id(), ALICE, 1_000).unwrap();
    h.token.settle(&all(), &inv_id()).unwrap();
    h.ce.add_to_blocklist(&all(), ALICE).unwrap();
    assert!(h.redeem(&inv_id(), ALICE, 500).is_err());
}

#[test]
fn test_test_non_deployer_cannot_reinitialize() {
    let h = setup();
    assert!(h.token.initialize(66, 300, 301, meta()).is_err());
}

#[test]
fn test_test_transfer_blocked_by_holding_period() {
    let mut h = setup();
    h.approve_kyc(ALICE);
    h.approve_kyc(BOB);
    h.ce.set_rules(
        &all(),
        ComplianceRules {
            max_transfer_amount: 0,
            min_holding_period: 3600,
            max_holders: 0,
            require_same_jurisdiction: false,
            paused: false,
        },
    )
    .unwrap();
    h.issue(&inv_id(), ALICE, 1_000).unwrap();
    assert!(h.transfer_at(0, &inv_id(), ALICE, BOB, 100).is_err());
    h.transfer_at(3601, &inv_id(), ALICE, BOB, 100).unwrap();
    assert_eq!(h.token.balance(BOB, &inv_id()), 100);
    assert_eq!(h.token.balance(ALICE, &inv_id()), 900);
}

#[test]
fn test_test_update_kyc_registry_admin_only() {
    let mut h = setup();
    let mut other = deploy(400, 77, meta());
    assert!(other.update_kyc_registry(&none(), 403).is_err());

    h.token.update_kyc_registry(&all(), 200).unwrap();
    let new_kyc = KycRegistry::new(200);
    h.approve_kyc(ALICE);
    assert!(h.token.issue(&all(), &new_kyc, &mut h.ce, &inv_id(), ALICE, 1).is_err());
}

#[test]
fn test_test_update_compliance_engine_admin_only() {
    let mut h = setup();
    let mut other = deploy(400, 77, meta());
    assert!(other.update_compliance_engine(&none(), 403).is_err());

    let mut ce2 = ComplianceEngine::new(201);
    let kyc2 = KycRegistry::new(202);
    ce2.initialize(ADMIN, 202).unwrap();
    ce2.pause(&all()).unwrap();
    h.token.update_compliance_engine(&all(), 201).unwrap();

    h.approve_kyc(ALICE);
    h.token.issue(&all(), &h.kyc, &mut ce2, &inv_id(), ALICE, 100).unwrap();
    h.token.settle(&all(), &inv_id()).unwrap();
    assert!(h.token.redeem(&all(), &ce2, &kyc2, &inv_id(), ALICE, 50).is_err());
}

#[test]
fn test_multi_invoice_independent_balances() {
    let mut h = setup();
    let id1 = inv_id();
    let id2 = b("INV-002");
    h.token.create_invoice(&all(), make_invoice("INV-002")).unwrap();
    h.approve_kyc(ALICE);
    h.approve_kyc(BOB);
    h.issue(&id1, ALICE, 1_000).unwrap();
    h.issue(&id2, BOB, 500).unwrap();
    assert_eq!(h.token.balance(ALICE, &id1), 1_000);
    assert_eq!(h.token.balance(ALICE, &id2), 0);
    assert_eq!(h.token.balance(BOB, &id1), 0);
    assert_eq!(h.token.balance(BOB, &id2), 500);
    assert_eq!(h.token.total_supply(&id1), 1_000);
    assert_eq!(h.token.total_supply(&id2), 500);
}

#[test]
fn test_multi_invoice_independent_settlement() {
    let mut h = setup();
    let id1 = inv_id();
    let id2 = b("INV-002");
    h.token.create_invoice(&all(), make_invoice("INV-002")).unwrap();
    h.approve_kyc(ALICE);
    h.approve_kyc(BOB);
    h.issue(&id1, ALICE, 1_000).unwrap();
    h.issue(&id2, BOB, 500).unwrap();
    h.token.settle(&all(), &id1).unwrap();
    assert!(h.token.is_settled(&id1));
    assert!(!h.token.is_settled(&id2));
    h.redeem(&id1, ALICE, 500).unwrap();
    assert_eq!(h.token.balance(ALICE, &id1), 500);
    assert!(h.redeem(&id2, BOB, 100).is_err());
}

#[test]
fn test_list_invoices_pagination() {
    let mut h = setup();
    assert_eq!(h.token.list_invoices(0, 10).len(), 1);
    h.token.create_invoice(&all(), make_invoice("INV-002")).unwrap();
    h.token.create_invoice(&all(), make_invoice("INV-003")).unwrap();
    h.token.create_invoice(&all(), make_invoice("INV-004")).unwrap();
    assert_eq!(h.token.list_invoices(0, 10).len(), 4);
    assert_eq!(h.token.list_invoices(0, 2).len(), 2);
    assert_eq!(h.token.list_invoices(2, 2).len(), 2);
    assert_eq!(h.token.list_invoices(10, 5).len(), 0);
}

#[test]
fn test_create_invoice_admin_only() {
    let mut other = deploy(400, 77, meta());
    assert!(other.create_invoice(&none(), meta()).is_err());
}

#[test]
fn test_duplicate_invoice_id_rejected() {
    let mut h = setup();
    assert!(h.token.create_invoice(&all(), meta()).is_err());
}

#[test]
fn test_multi_invoice_transfer_only_within_invoice() {
    let mut h = setup();
    let id1 = inv_id();
    let id2 = b("INV-002");
    h.token.create_invoice(&all(), make_invoice("INV-002")).unwrap();
    h.approve_kyc(ALICE);
    h.approve_kyc(BOB);
    h.issue(&id1, ALICE, 1_000).unwrap();
    h.issue(&id2, ALICE, 500).unwrap();
    h.transfer_at(0, &id1, ALICE, BOB, 300).unwrap();
    assert_eq!(h.token.balance(ALICE, &id1), 700);
    assert_eq!(h.token.balance(ALICE, &id2), 500);
    assert_eq!(h.token.balance(BOB, &id1), 300);
    assert_eq!(h.token.balance(BOB, &id2), 0);
}

#[test]
fn test_test_version_returns_nonempty() {
    let h = setup();
    assert!(h.token.version().len() > 0);
}

#[test]
fn test_partial_settle_proportional_redemption() {
    let mut h = setup();
    h.approve_kyc(ALICE);
    let face = 1_000_000_000_000i128;
    let issued = 100i128;
    h.issue(&inv_id(), ALICE, issued).unwrap();
    let settlement = face * 60 / 100;
    h.token.partial_settle(&all(), &inv_id(), settlement).unwrap();
    assert_eq!(h.token.settlement_amount(&inv_id()), settlement);
    assert!(h.token.is_settled(&inv_id()));
    let max_redeemable = issued * settlement / face;
    h.redeem(&inv_id(), ALICE, max_redeemable).unwrap();
}

#[test]
fn test_partial_settle_blocks_over_proportional_redeem() {
    let mut h = setup();
    h.approve_kyc(ALICE);
    let face = 1_000_000_000_000i128;
    h.issue(&inv_id(), ALICE, 100).unwrap();
    h.token.partial_settle(&all(), &inv_id(), face * 50 / 100).unwrap();
    h.redeem(&inv_id(), ALICE, 100).unwrap();
    assert_eq!(h.token.balance(ALICE, &inv_id()), 0);
}

#[test]
fn test_settle_sets_full_face_value() {
    let mut h = setup();
    h.approve_kyc(ALICE);
    h.issue(&inv_id(), ALICE, 100).unwrap();
    h.token.settle(&all(), &inv_id()).unwrap();
    assert_eq!(h.token.settlement_amount(&inv_id()), 1_000_000_000_000i128);
    h.redeem(&inv_id(), ALICE, 100).unwrap();
}

#[test]
fn test_partial_settle_rejects_zero() {
    let mut h = setup();
    assert!(h.token.partial_settle(&all(), &inv_id(), 0).is_err());
}

#[test]
fn test_partial_settle_rejects_excess() {
    let mut h = setup();
    let face = 1_000_000_000_000i128;
    assert!(h.token.partial_settle(&all(), &inv_id(), face + 1).is_err());
}

#[test]
fn test_webhook_empty_is_valid() {
    let mut h = setup();
    h.token.create_invoice(&all(), make_invoice("INV-WEBHOOK-1")).unwrap();
}

#[test]
fn test_webhook_https_is_valid() {
    let mut h = setup();
    let mut m = make_invoice("INV-WEBHOOK-2");
    m.notification_webhook = b("https://example.com/hook");
    h.token.create_invoice(&all(), m).unwrap();
}

#[test]
fn test_webhook_http_is_rejected() {
    let mut h = setup();
    let mut m = make_invoice("INV-WEBHOOK-3");
    m.notification_webhook = b("http://example.com/hook");
    assert!(h.token.create_invoice(&all(), m).is_err());
}

#[test]
fn test_webhook_non_url_is_rejected() {
    let mut h = setup();
    let mut m = make_invoice("INV-WEBHOOK-4");
    m.notification_webhook = b("not-a-url");
    assert!(h.token.create_invoice(&all(), m).is_err());
}

// ── Further cases ──────────────────────────────────────────────────────────

#[test]
fn invoice_errors_name_their_cause() {
    let mut h = setup();
    h.approve_kyc(ALICE);
    h.approve_kyc(BOB);
    assert_eq!(h.token.create_invoice(&all(), meta()), Err(InvoiceError::InvoiceAlreadyExists));
    let mut m = make_invoice("INV-9");
    m.notification_webhook = b("ftp://x");
    assert_eq!(h.token.create_invoice(&all(), m), Err(InvoiceError::InvalidWebhook));
    assert_eq!(h.token.partial_settle(&all(), &inv_id(), 0), Err(InvoiceError::SettlementNotPositive));
    assert_eq!(
        h.token.partial_settle(&all(), &inv_id(), 1_000_000_000_001),
        Err(InvoiceError::SettlementExceedsFaceValue)
    );
    assert_eq!(h.token.settle(&all(), &b("NOPE")), Err(InvoiceError::InvoiceNotFound));
    h.issue(&inv_id(), ALICE, 10).unwrap();
    assert_eq!(h.transfer_at(0, &inv_id(), ALICE, BOB, -1), Err(InvoiceError::NegativeAmount));
    assert_eq!(h.transfer_at(0, &inv_id(), ALICE, BOB, 11), Err(InvoiceError::InsufficientBalance));
    assert_eq!(h.transfer_at(1_900_000_001, &inv_id(), ALICE, BOB, 1), Err(InvoiceError::PastDueDate));
    assert_eq!(h.redeem(&inv_id(), ALICE, 1), Err(InvoiceError::NotSettled));
    assert_eq!(
        h.token.transfer(&none(), &h.kyc, &mut h.ce, &h.kyc, &inv_id(), ALICE, BOB, 1),
        Err(InvoiceError::Unauthorized)
    );
    assert_eq!(h.token.initialize(ADMIN, KYC_ID, CE_ID, meta()), Err(InvoiceError::AlreadyInitialized));
    assert_eq!(h.token.accept_admin(&all()), Err(InvoiceError::NoPendingAdmin));
}

#[test]
fn invoice_partial_settlement_caps_redemption() {
    let mut h = setup();
    h.approve_kyc(ALICE);
    h.approve_kyc(BOB);
    h.issue(&inv_id(), ALICE, 100).unwrap();
    h.issue(&inv_id(), BOB, 100).unwrap();
    // 100 * 50 / 200 = 25 is Alice's share.
    h.token.partial_settle(&all(), &inv_id(), 50).unwrap();
    assert_eq!(h.redeem(&inv_id(), ALICE, 26), Err(InvoiceError::ExceedsProportionalSettlement));
    h.redeem(&inv_id(), ALICE, 25).unwrap();
    assert_eq!(h.token.balance(ALICE, &inv_id()), 75);
    assert_eq!(h.token.total_supply(&inv_id()), 175);
}

#[test]
fn invoice_transfer_from_spends_allowance() {
    let mut h = setup();
    h.approve_kyc(ALICE);
    h.approve_kyc(BOB);
    h.issue(&inv_id(), ALICE, 100).unwrap();
    h.token.approve(&all(), ALICE, BOB, &inv_id(), 60, 10).unwrap();
    assert_eq!(h.token.allowance(0, ALICE, BOB, &inv_id()), 60);
    h.token.transfer_from(&all(), &h.kyc, &mut h.ce, &h.kyc, BOB, &inv_id(), ALICE, BOB, 40).unwrap();
    assert_eq!(h.token.allowance(0, ALICE, BOB, &inv_id()), 20);
    assert_eq!(
        h.token.transfer_from(&all(), &h.kyc, &mut h.ce, &h.kyc, BOB, &inv_id(), ALICE, BOB, 21),
        Err(InvoiceError::InsufficientAllowance)
    );
    assert_eq!(h.token.allowance(11, ALICE, BOB, &inv_id()), 0);
    assert_eq!(h.token.balance(BOB, &inv_id()), 40);
}

#[test]
fn invoice_more_errors() {
    let mut h = setup();
    h.approve_kyc(ALICE);
    h.approve_kyc(BOB);
    assert_eq!(h.issue(&inv_id(), 77, 1), Err(InvoiceError::KycNotApproved));
    h.issue(&inv_id(), ALICE, i128::MAX).unwrap();
    assert_eq!(h.issue(&inv_id(), ALICE, 1), Err(InvoiceError::Overflow));

    let mut h = setup();
    h.approve_kyc(ALICE);
    h.approve_kyc(BOB);
    h.issue(&inv_id(), ALICE, 100).unwrap();
    h.token.approve(&all(), ALICE, BOB, &inv_id(), 50, 5).unwrap();
    let later = Invocation { timestamp: 0, sequence: 6, signers: vec![BOB] };
    assert_eq!(
        h.token.transfer_from(&later, &h.kyc, &mut h.ce, &h.kyc, BOB, &inv_id(), ALICE, BOB, 10),
        Err(InvoiceError::AllowanceExpired)
    );
    let mut blank = ComplianceEngine::new(CE_ID);
    assert_eq!(
        h.token.transfer(&all(), &h.kyc, &mut blank, &h.kyc, &inv_id(), ALICE, BOB, 1),
        Err(InvoiceError::ComplianceCheckFailed)
    );
    h.ce.pause(&all()).unwrap();
    assert_eq!(h.transfer_at(0, &inv_id(), ALICE, BOB, 1), Err(InvoiceError::TransferBlocked));
    h.token.settle(&all(), &inv_id()).unwrap();
    assert_eq!(h.redeem(&inv_id(), ALICE, 1), Err(InvoiceError::RedemptionBlocked));
    assert_eq!(h.issue(&inv_id(), ALICE, 1), Err(InvoiceError::AlreadySettled));
}
