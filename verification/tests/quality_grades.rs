#![allow(dead_code)]
use chainsettle::create::create_shipment;
use chainsettle::queries::get_total_escrowed_value;
use chainsettle::types::{
    AccountId, AuditAction, ChainSettleError, Config, Milestone, MilestoneMode, MilestoneStatus,
    Shipment, ShipmentOptions, ShipmentStatus, Transfer,
};
use std::collections::HashMap;

const BUYER: AccountId = 1;
const BUYER2: AccountId = 2;
const SUPPLIER: AccountId = 3;
const LOGISTICS: AccountId = 4;
const ARBITER: AccountId = 5;
const TREASURY: AccountId = 6;
const TOKEN: AccountId = 100;
const CONTRACT: AccountId = 999;

/// A small host: the contract configuration, the stored shipments, token balances
/// and the current ledger.
struct World {
    cfg: Config,
    shipments: Vec<Shipment>,
    balances: HashMap<AccountId, i128>,
    now: u32,
}

impl World {
    fn new() -> World {
        let mut cfg = Config::new();
        cfg.init(BUYER);
        let mut balances = HashMap::new();
        balances.insert(BUYER, 10_000_000_000);
        balances.insert(BUYER2, 10_000_000_000);
        World { cfg, shipments: Vec::new(), balances, now: 0 }
    }

    fn balance(&self, a: AccountId) -> i128 {
        *self.balances.get(&a).unwrap_or(&0)
    }

    fn apply(&mut self, ts: &[Transfer]) {
        for t in ts {
            assert_eq!(t.token, TOKEN);
            assert!(t.amount > 0);
            let (from, to) = if t.into_escrow {
                (t.counterparty, CONTRACT)
            } else {
                (CONTRACT, t.counterparty)
            };
            let fb = self.balance(from) - t.amount;
            assert!(fb >= 0, "insufficient balance");
            self.balances.insert(from, fb);
            let tb = self.balance(to) + t.amount;
            self.balances.insert(to, tb);
        }
    }

    fn create(
        &mut self,
        id: &str,
        buyers: Vec<AccountId>,
        total: i128,
        milestones: Vec<Milestone>,
        options: ShipmentOptions,
    ) -> Result<usize, ChainSettleError> {
        let exists = self.shipments.iter().any(|s| s.id == id.as_bytes().to_vec());
        let (s, deposit) = create_shipment(
            id.as_bytes().to_vec(),
            buyers,
            SUPPLIER,
            LOGISTICS,
            ARBITER,
            TOKEN,
            total,
            milestones,
            options,
            &self.cfg,
            exists,
            self.now,
        )?;
        self.apply(&[deposit]);
        self.shipments.push(s);
        Ok(self.shipments.len() - 1)
    }

    fn submit(&mut self, idx: usize, caller: AccountId, m: u32, proof: &str) -> Result<(), ChainSettleError> {
        let now = self.now;
        self.shipments[idx].submit_proof(caller, m, proof.as_bytes().to_vec(), now)
    }

    fn confirm(&mut self, idx: usize, buyer: AccountId, m: u32) -> Result<(), ChainSettleError> {
        let (fee, now) = (self.cfg.fee, self.now);
        let ts = self.shipments[idx].confirm_milestone(buyer, m, fee, now)?;
        self.apply(&ts);
        Ok(())
    }

    fn partial(&mut self, idx: usize, buyer: AccountId, m: u32, qty: u32) -> Result<(), ChainSettleError> {
        let (fee, now) = (self.cfg.fee, self.now);
        let ts = self.shipments[idx].confirm_partial_quantity(buyer, m, qty, fee, now)?;
        self.apply(&ts);
        Ok(())
    }

    fn graded(&mut self, idx: usize, buyer: AccountId, m: u32, grade: u32) -> Result<(), ChainSettleError> {
        let (fee, now) = (self.cfg.fee, self.now);
        let ts = self.shipments[idx].confirm_milestone_graded(buyer, m, grade, fee, now)?;
        self.apply(&ts);
        Ok(())
    }

    fn release_held(&mut self, idx: usize, m: u32) -> Result<(), ChainSettleError> {
        let (fee, now) = (self.cfg.fee, self.now);
        let ts = self.shipments[idx].release_held_payment(m, fee, now)?;
        self.apply(&ts);
        Ok(())
    }

    fn dispute(&mut self, idx: usize, caller: AccountId, m: u32) -> Result<(), ChainSettleError> {
        let now = self.now;
        self.shipments[idx].raise_dispute(caller, m, now)
    }

    fn resolve(&mut self, idx: usize, caller: AccountId, m: u32, approve: bool) -> Result<(), ChainSettleError> {
        let (fee, now) = (self.cfg.fee, self.now);
        let ts = self.shipments[idx].resolve_dispute(caller, m, approve, fee, now)?;
        self.apply(&ts);
        Ok(())
    }

    fn cancel(&mut self, idx: usize, caller: AccountId) -> Result<(), ChainSettleError> {
        let now = self.now;
        let ts = self.shipments[idx].cancel_shipment(caller, now)?;
        self.apply(&ts);
        Ok(())
    }

    fn escrowed(&self) -> i128 {
        get_total_escrowed_value(&self.shipments, TOKEN)
    }
}

fn ms(name: &str, pct: u32, deadline: Option<u32>) -> Milestone {
    Milestone::new(name.as_bytes().to_vec(), pct, deadline)
}

fn build_milestones() -> Vec<Milestone> {
    vec![
        ms("Goods Dispatched", 25, None),
        ms("In Transit", 50, None),
        ms("Delivered", 25, None),
    ]
}

fn default_options() -> ShipmentOptions {
    ShipmentOptions::new(MilestoneMode::Parallel)
}

use chainsettle::types::DEFAULT_GRADE_REVIEW_WINDOW_LEDGERS;

const TOTAL: i128 = 1_000_000;
const M0_GROSS: i128 = 250_000;
const REVIEW_WINDOW: u32 = 100;

fn graded_options() -> ShipmentOptions {
    let mut opts = default_options();
    opts.quality_grades = vec![10_000u32, 9_000u32, 7_500u32];
    opts.review_window_ledgers = Some(REVIEW_WINDOW);
    opts
}

fn create(w: &mut World, id: &str, opts: ShipmentOptions) -> Result<usize, ChainSettleError> {
    w.create(id, vec![BUYER], TOTAL, build_milestones(), opts)
}

fn submit(w: &mut World, idx: usize, m: u32) {
    w.submit(idx, SUPPLIER, m, "proof").unwrap();
}

fn advance_past_review_window(w: &mut World, idx: usize, m: u32) {
    w.now = w.shipments[idx].milestones[m as usize].release_after_ledger;
}

fn has_audit(w: &World, idx: usize, action: AuditAction) -> bool {
    w.shipments[idx].audit_log.iter().any(|e| e.action == action)
}

#[test]
fn test_grade_zero_behaves_like_confirm_milestone() {
    let mut w = World::new();
    let plain = create(&mut w, "GRADE-PLAIN", graded_options()).unwrap();
    let graded = create(&mut w, "GRADE-ZERO", graded_options()).unwrap();
    submit(&mut w, plain, 0);
    submit(&mut w, graded, 0);
    let before = w.balance(SUPPLIER);
    w.confirm(plain, BUYER, 0).unwrap();
    let plain_paid = w.balance(SUPPLIER) - before;
    let before = w.balance(SUPPLIER);
    w.graded(graded, BUYER, 0, 0).unwrap();
    let graded_paid = w.balance(SUPPLIER) - before;
    assert_eq!(plain_paid, M0_GROSS);
    assert_eq!(graded_paid, plain_paid);
    assert_eq!(w.shipments[plain].released_amount, w.shipments[graded].released_amount);
    assert_eq!(w.shipments[graded].milestones[0].status, MilestoneStatus::Confirmed);
    assert_eq!(w.shipments[graded].get_milestone_grade(0), Ok(Some(0u32)));
}

#[test]
fn test_lower_grade_splits_payout_and_refund() {
    let mut w = World::new();
    let id = create(&mut w, "GRADE-SPLIT", graded_options()).unwrap();
    submit(&mut w, id, 0);
    let supplier_before = w.balance(SUPPLIER);
    let buyer_before = w.balance(BUYER);
    w.graded(id, BUYER, 0, 2).unwrap();
    let m = &w.shipments[id].milestones[0];
    assert_eq!(m.status, MilestoneStatus::ConfirmedHeld);
    assert_eq!(m.release_after_ledger, w.now + REVIEW_WINDOW);
    assert_eq!(w.balance(SUPPLIER), supplier_before);
    advance_past_review_window(&mut w, id, 0);
    w.release_held(id, 0).unwrap();
    let payout = w.balance(SUPPLIER) - supplier_before;
    let refund = w.balance(BUYER) - buyer_before;
    assert_eq!(payout, 187_500);
    assert_eq!(refund, 62_500);
    assert_eq!(payout + refund, M0_GROSS);
    let s = &w.shipments[id];
    assert_eq!(s.released_amount, M0_GROSS);
    assert_eq!(s.milestones[0].status, MilestoneStatus::Confirmed);
    assert_eq!(s.get_escrow_balance(), TOTAL - M0_GROSS);
    assert_eq!(s.get_completion_percentage(), 25);
}

#[test]
fn test_payout_and_refund_sum_to_gross_with_rounding() {
    let mut w = World::new();
    let mut opts = graded_options();
    opts.quality_grades = vec![10_000u32, 3_333u32];
    let id = create(&mut w, "GRADE-ROUND", opts).unwrap();
    submit(&mut w, id, 0);
    let supplier_before = w.balance(SUPPLIER);
    let buyer_before = w.balance(BUYER);
    w.graded(id, BUYER, 0, 1).unwrap();
    advance_past_review_window(&mut w, id, 0);
    w.release_held(id, 0).unwrap();
    let payout = w.balance(SUPPLIER) - supplier_before;
    let refund = w.balance(BUYER) - buyer_before;
    assert_eq!(payout, (M0_GROSS * 3_333) / 10_000);
    assert_eq!(payout + refund, M0_GROSS);
}

#[test]
fn test_grade_recorded_in_audit_log_and_events() {
    let mut w = World::new();
    let id = create(&mut w, "GRADE-AUDIT", graded_options()).unwrap();
    submit(&mut w, id, 0);
    w.graded(id, BUYER, 0, 1).unwrap();
    assert!(has_audit(&w, id, AuditAction::MilestoneGraded));
    let s = &w.shipments[id];
    let last = s.audit_log[s.audit_log.len() - 1];
    assert_eq!(last.action, AuditAction::MilestoneGraded);
    assert_eq!(last.actor, Some(BUYER));
    assert_eq!(s.get_milestone_grade(0), Ok(Some(1u32)));
    advance_past_review_window(&mut w, id, 0);
    w.release_held(id, 0).unwrap();
    assert!(has_audit(&w, id, AuditAction::GradeSettled));
}

#[test]
fn test_default_review_window_when_none_configured() {
    let mut w = World::new();
    let mut opts = graded_options();
    opts.review_window_ledgers = None;
    let id = create(&mut w, "GRADE-DEFWIN", opts).unwrap();
    submit(&mut w, id, 0);
    w.graded(id, BUYER, 0, 1).unwrap();
    assert_eq!(
        w.shipments[id].milestones[0].release_after_ledger,
        w.now + DEFAULT_GRADE_REVIEW_WINDOW_LEDGERS
    );
}

#[test]
fn test_invalid_grade_index_rejected() {
    let mut w = World::new();
    let id = create(&mut w, "GRADE-BAD", graded_options()).unwrap();
    submit(&mut w, id, 0);
    assert_eq!(w.graded(id, BUYER, 0, 3), Err(ChainSettleError::InvalidGradeIndex));
}

#[test]
fn test_graded_confirmation_requires_configured_grades() {
    let mut w = World::new();
    let id = create(&mut w, "GRADE-NONE", default_options()).unwrap();
    submit(&mut w, id, 0);
    assert_eq!(w.graded(id, BUYER, 0, 0), Err(ChainSettleError::GradesNotConfigured));
}

#[test]
fn test_graded_confirmation_requires_submitted_proof() {
    let mut w = World::new();
    let id = create(&mut w, "GRADE-NOPROOF", graded_options()).unwrap();
    assert_eq!(w.graded(id, BUYER, 0, 1), Err(ChainSettleError::ProofNotSubmitted));
}

#[test]
fn test_non_buyer_cannot_grade() {
    let mut w = World::new();
    let id = create(&mut w, "GRADE-AUTH", graded_options()).unwrap();
    submit(&mut w, id, 0);
    assert_eq!(w.graded(id, SUPPLIER, 0, 1), Err(ChainSettleError::Unauthorized));
}

#[test]
fn test_creation_rejects_grade_zero_below_full() {
    let mut w = World::new();
    let mut opts = graded_options();
    opts.quality_grades = vec![9_000u32, 7_500u32];
    assert_eq!(create(&mut w, "GRADE-CFG1", opts), Err(ChainSettleError::GradeZeroNotFull));
}

#[test]
fn test_creation_rejects_increasing_grades() {
    let mut w = World::new();
    let mut opts = graded_options();
    opts.quality_grades = vec![10_000u32, 7_500u32, 9_000u32];
    assert_eq!(create(&mut w, "GRADE-CFG2", opts), Err(ChainSettleError::GradesNotNonIncreasing));
}

#[test]
fn test_supplier_contests_grade_and_wins() {
    let mut w = World::new();
    let id = create(&mut w, "GRADE-WIN", graded_options()).unwrap();
    submit(&mut w, id, 0);
    w.graded(id, BUYER, 0, 2).unwrap();
    w.dispute(id, SUPPLIER, 0).unwrap();
    assert!(has_audit(&w, id, AuditAction::GradeDisputed));
    assert_eq!(w.shipments[id].milestones[0].status, MilestoneStatus::Disputed);
    let before = w.balance(SUPPLIER);
    w.resolve(id, ARBITER, 0, true).unwrap();
    assert_eq!(w.balance(SUPPLIER) - before, M0_GROSS);
    assert_eq!(w.shipments[id].milestones[0].status, MilestoneStatus::Resolved);
}

#[test]
fn test_supplier_contests_grade_and_loses() {
    let mut w = World::new();
    let id = create(&mut w, "GRADE-LOSE", graded_options()).unwrap();
    submit(&mut w, id, 0);
    w.graded(id, BUYER, 0, 2).unwrap();
    w.dispute(id, SUPPLIER, 0).unwrap();
    let supplier_before = w.balance(SUPPLIER);
    let buyer_before = w.balance(BUYER);
    w.resolve(id, ARBITER, 0, false).unwrap();
    let payout = w.balance(SUPPLIER) - supplier_before;
    let refund = w.balance(BUYER) - buyer_before;
    assert_eq!(payout, 187_500);
    assert_eq!(refund, 62_500);
    let s = &w.shipments[id];
    assert_eq!(s.released_amount, M0_GROSS);
    assert_eq!(s.milestones[0].status, MilestoneStatus::Resolved);
}

#[test]
fn test_supplier_cannot_contest_after_review_window() {
    let mut w = World::new();
    let id = create(&mut w, "GRADE-LATE", graded_options()).unwrap();
    submit(&mut w, id, 0);
    w.graded(id, BUYER, 0, 2).unwrap();
    advance_past_review_window(&mut w, id, 0);
    assert_eq!(w.dispute(id, SUPPLIER, 0), Err(ChainSettleError::GradeReviewElapsed));
}

#[test]
fn test_buyer_cannot_dispute_own_grade() {
    let mut w = World::new();
    let id = create(&mut w, "GRADE-BUYDISP", graded_options()).unwrap();
    submit(&mut w, id, 0);
    w.graded(id, BUYER, 0, 2).unwrap();
    assert_eq!(w.dispute(id, BUYER, 0), Err(ChainSettleError::GradeDisputeSupplierOnly));
}

#[test]
fn test_buyer_cannot_withdraw_supplier_grade_dispute() {
    let mut w = World::new();
    let id = create(&mut w, "GRADE-WITHDRAW", graded_options()).unwrap();
    submit(&mut w, id, 0);
    w.graded(id, BUYER, 0, 2).unwrap();
    w.dispute(id, SUPPLIER, 0).unwrap();
    let now = w.now;
    assert_eq!(
        w.shipments[id].withdraw_dispute(BUYER, 0, now),
        Err(ChainSettleError::GradeDisputeArbiterOnly)
    );
}

#[test]
fn test_graded_payment_cannot_be_released_early() {
    let mut w = World::new();
    let id = create(&mut w, "GRADE-EARLY", graded_options()).unwrap();
    submit(&mut w, id, 0);
    w.graded(id, BUYER, 0, 1).unwrap();
    assert_eq!(w.release_held(id, 0), Err(ChainSettleError::HoldbackNotExpired));
}

#[test]
fn test_buyer_withdraws_ordinary_dispute() {
    let mut w = World::new();
    let id = create(&mut w, "DISP-WITHDRAW", default_options()).unwrap();
    submit(&mut w, id, 0);
    w.dispute(id, BUYER, 0).unwrap();
    let now = w.now;
    assert_eq!(w.shipments[id].withdraw_dispute(SUPPLIER, 0, now), Err(ChainSettleError::Unauthorized));
    w.shipments[id].withdraw_dispute(BUYER, 0, now).unwrap();
    assert_eq!(w.shipments[id].milestones[0].status, MilestoneStatus::ProofSubmitted);
    w.confirm(id, BUYER, 0).unwrap();
    assert_eq!(w.balance(SUPPLIER), M0_GROSS);
}
