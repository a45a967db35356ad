#![allow(dead_code)]
use chainsettle::create::create_shipment;
use chainsettle::queries::get_total_escrowed_value;
use chainsettle::types::{
    AccountId, AuditAction, ChainSettleError, Config, Milestone, MilestoneMode, MilestoneStatus,
    Shipment, ShipmentOptions, ShipmentStatus, Transfer,
};
use std::collections::HashMap;

const BUYER: AccountId = 1;
const BUYER2: AccountId = 2;
const SUPPLIER: AccountId = 3;
const LOGISTICS: AccountId = 4;
const ARBITER: AccountId = 5;
const TREASURY: AccountId = 6;
const TOKEN: AccountId = 100;
const CONTRACT: AccountId = 999;

/// A small host: the contract configuration, the stored shipments, token balances
/// and the current ledger.
struct World {
    cfg: Config,
    shipments: Vec<Shipment>,
    balances: HashMap<AccountId, i128>,
    now: u32,
}

impl World {
    fn new() -> World {
        let mut cfg = Config::new();
        cfg.init(BUYER);
        let mut balances = HashMap::new();
        balances.insert(BUYER, 10_000_000_000);
        balances.insert(BUYER2, 10_000_000_000);
        World { cfg, shipments: Vec::new(), balances, now: 0 }
    }

    fn balance(&self, a: AccountId) -> i128 {
        *self.balances.get(&a).unwrap_or(&0)
    }

    fn apply(&mut self, ts: &[Transfer]) {
        for t in ts {
            assert_eq!(t.token, TOKEN);
            assert!(t.amount > 0);
            let (from, to) = if t.into_escrow {
                (t.counterparty, CONTRACT)
            } else {
                (CONTRACT, t.counterparty)
            };
            let fb = self.balance(from) - t.amount;
            assert!(fb >= 0, "insufficient balance");
            self.balances.insert(from, fb);
            let tb = self.balance(to) + t.amount;
            self.balances.insert(to, tb);
        }
    }

    fn create(
        &mut self,
        id: &str,
        buyers: Vec<AccountId>,
        total: i128,
        milestones: Vec<Milestone>,
        options: ShipmentOptions,
    ) -> Result<usize, ChainSettleError> {
        let exists = self.shipments.iter().any(|s| s.id == id.as_bytes().to_vec());
        let (s, deposit) = create_shipment(
            id.as_bytes().to_vec(),
            buyers,
            SUPPLIER,
            LOGISTICS,
            ARBITER,
            TOKEN,
            total,
            milestones,
            options,
            &self.cfg,
            exists,
            self.now,
        )?;
        self.apply(&[deposit]);
        self.shipments.push(s);
        Ok(self.shipments.len() - 1)
    }

    fn submit(&mut self, idx: usize, caller: AccountId, m: u32, proof: &str) -> Result<(), ChainSettleError> {
        let now = self.now;
        self.shipments[idx].submit_proof(caller, m, proof.as_bytes().to_vec(), now)
    }

    fn confirm(&mut self, idx: usize, buyer: AccountId, m: u32) -> Result<(), ChainSettleError> {
        let (fee, now) = (self.cfg.fee, self.now);
        let ts = self.shipments[idx].confirm_milestone(buyer, m, fee, now)?;
        self.apply(&ts);
        Ok(())
    }

    fn partial(&mut self, idx: usize, buyer: AccountId, m: u32, qty: u32) -> Result<(), ChainSettleError> {
        let (fee, now) = (self.cfg.fee, self.now);
        let ts = self.shipments[idx].confirm_partial_quantity(buyer, m, qty, fee, now)?;
        self.apply(&ts);
        Ok(())
    }

    fn graded(&mut self, idx: usize, buyer: AccountId, m: u32, grade: u32) -> Result<(), ChainSettleError> {
        let (fee, now) = (self.cfg.fee, self.now);
        let ts = self.shipments[idx].confirm_milestone_graded(buyer, m, grade, fee, now)?;
        self.apply(&ts);
        Ok(())
    }

    fn release_held(&mut self, idx: usize, m: u32) -> Result<(), ChainSettleError> {
        let (fee, now) = (self.cfg.fee, self.now);
        let ts = self.shipments[idx].release_held_payment(m, fee, now)?;
        self.apply(&ts);
        Ok(())
    }

    fn dispute(&mut self, idx: usize, caller: AccountId, m: u32) -> Result<(), ChainSettleError> {
        let now = self.now;
        self.shipments[idx].raise_dispute(caller, m, now)
    }

    fn resolve(&mut self, idx: usize, caller: AccountId, m: u32, approve: bool) -> Result<(), ChainSettleError> {
        let (fee, now) = (self.cfg.fee, self.now);
        let ts = self.shipments[idx].resolve_dispute(caller, m, approve, fee, now)?;
        self.apply(&ts);
        Ok(())
    }

    fn cancel(&mut self, idx: usize, caller: AccountId) -> Result<(), ChainSettleError> {
        let now = self.now;
        let ts = self.shipments[idx].cancel_shipment(caller, now)?;
        self.apply(&ts);
        Ok(())
    }

    fn escrowed(&self) -> i128 {
        get_total_escrowed_value(&self.shipments, TOKEN)
    }
}

fn ms(name: &str, pct: u32, deadline: Option<u32>) -> Milestone {
    Milestone::new(name.as_bytes().to_vec(), pct, deadline)
}

fn build_milestones() -> Vec<Milestone> {
    vec![
        ms("Goods Dispatched", 25, None),
        ms("In Transit", 50, None),
        ms("Delivered", 25, None),
    ]
}

fn default_options() -> ShipmentOptions {
    ShipmentOptions::new(MilestoneMode::Parallel)
}

fn single(mode: MilestoneMode) -> ShipmentOptions {
    ShipmentOptions::new(mode)
}

fn build_milestones_with_deadline(deadline: u32) -> Vec<Milestone> {
    vec![ms("Dispatched", 50, Some(deadline)), ms("Delivered", 50, None)]
}

#[test]
fn test_create_shipment_success() {
    let mut w = World::new();
    let total_amount: i128 = 1_000_000_000;
    let id = w.create("SHIP-001", vec![BUYER], total_amount, build_milestones(), single(MilestoneMode::Parallel)).unwrap();
    assert_eq!(w.balance(BUYER), 10_000_000_000 - total_amount);
    assert_eq!(w.balance(CONTRACT), total_amount);
    let s = &w.shipments[id];
    assert_eq!(s.status, ShipmentStatus::Active);
    assert_eq!(s.total_amount, total_amount);
    assert_eq!(s.released_amount, 0);
    assert_eq!(s.milestones.len(), 3);
}

#[test]
fn test_create_shipment_invalid_percentages() {
    let mut w = World::new();
    let bad = vec![ms("Step 1", 30, None), ms("Step 2", 30, None), ms("Step 3", 30, None)];
    let r = w.create("SHIP-BAD", vec![BUYER], 1_000_000_000, bad, single(MilestoneMode::Parallel));
    assert_eq!(r, Err(ChainSettleError::InvalidPercentages));
}

#[test]
fn test_submit_proof_and_confirm_milestone() {
    let mut w = World::new();
    let total_amount: i128 = 1_000_000_000;
    let id = w.create("SHIP-001", vec![BUYER], total_amount, build_milestones(), single(MilestoneMode::Parallel)).unwrap();
    w.submit(id, SUPPLIER, 0, "ipfs://QmXxx...dispatch").unwrap();
    assert_eq!(w.shipments[id].milestones[0].status, MilestoneStatus::ProofSubmitted);
    w.confirm(id, BUYER, 0).unwrap();
    let expected_payment = total_amount * 25 / 100;
    assert_eq!(w.balance(SUPPLIER), expected_payment);
    assert_eq!(w.shipments[id].released_amount, expected_payment);
    assert_eq!(w.shipments[id].status, ShipmentStatus::Active);
}

#[test]
fn test_full_shipment_lifecycle() {
    let mut w = World::new();
    let total_amount: i128 = 1_000_000_000;
    let id = w.create("SHIP-FULL", vec![BUYER], total_amount, build_milestones(), single(MilestoneMode::Parallel)).unwrap();
    w.submit(id, SUPPLIER, 0, "ipfs://dispatch").unwrap();
    w.confirm(id, BUYER, 0).unwrap();
    w.submit(id, LOGISTICS, 1, "ipfs://transit").unwrap();
    w.confirm(id, BUYER, 1).unwrap();
    w.submit(id, SUPPLIER, 2, "ipfs://delivered").unwrap();
    w.confirm(id, BUYER, 2).unwrap();
    let s = &w.shipments[id];
    assert_eq!(s.status, ShipmentStatus::Completed);
    assert_eq!(s.released_amount, total_amount);
    assert_eq!(w.balance(SUPPLIER), total_amount);
    assert_eq!(w.shipments[id].get_escrow_balance(), 0);
}

#[test]
fn test_raise_and_resolve_dispute_approve() {
    let mut w = World::new();
    let total_amount: i128 = 1_000_000_000;
    let id = w.create("SHIP-DISPUTE", vec![BUYER], total_amount, build_milestones(), single(MilestoneMode::Parallel)).unwrap();
    w.submit(id, SUPPLIER, 0, "ipfs://proof").unwrap();
    w.dispute(id, BUYER, 0).unwrap();
    assert_eq!(w.shipments[id].milestones[0].status, MilestoneStatus::Disputed);
    w.resolve(id, ARBITER, 0, true).unwrap();
    assert_eq!(w.balance(SUPPLIER), total_amount * 25 / 100);
}

#[test]
fn test_raise_and_resolve_dispute_reject() {
    let mut w = World::new();
    let id = w.create("SHIP-REJECT", vec![BUYER], 1_000_000_000, build_milestones(), single(MilestoneMode::Parallel)).unwrap();
    w.submit(id, SUPPLIER, 0, "ipfs://bad-proof").unwrap();
    w.dispute(id, BUYER, 0).unwrap();
    w.resolve(id, ARBITER, 0, false).unwrap();
    assert_eq!(w.shipments[id].milestones[0].status, MilestoneStatus::Pending);
    assert_eq!(w.balance(SUPPLIER), 0);
}

#[test]
fn test_cancel_shipment() {
    let mut w = World::new();
    let before = w.balance(BUYER);
    let id = w.create("SHIP-CANCEL", vec![BUYER], 1_000_000_000, build_milestones(), single(MilestoneMode::Parallel)).unwrap();
    w.cancel(id, BUYER).unwrap();
    assert_eq!(w.shipments[id].status, ShipmentStatus::Cancelled);
    assert_eq!(w.balance(BUYER), before);
}

#[test]
fn test_unauthorized_confirm_milestone() {
    let mut w = World::new();
    let id = w.create("SHIP-AUTH", vec![BUYER], 1_000_000_000, build_milestones(), single(MilestoneMode::Parallel)).unwrap();
    w.submit(id, SUPPLIER, 0, "ipfs://proof").unwrap();
    assert_eq!(w.confirm(id, SUPPLIER, 0), Err(ChainSettleError::Unauthorized));
}

#[test]
fn test_deadline_cancellation_success() {
    let mut w = World::new();
    let total_amount: i128 = 1_000_000_000;
    let id = w.create("SHIP-DEADLINE", vec![BUYER], total_amount, build_milestones_with_deadline(100), single(MilestoneMode::Parallel)).unwrap();
    w.now = 101;
    let before = w.balance(BUYER);
    let ts = w.shipments[id].trigger_deadline_cancellation(0, 101).unwrap();
    w.apply(&ts);
    assert_eq!(w.shipments[id].status, ShipmentStatus::Cancelled);
    assert_eq!(w.balance(BUYER) - before, total_amount);
}

#[test]
fn test_deadline_cancellation_too_early() {
    let mut w = World::new();
    let id = w.create("SHIP-EARLY", vec![BUYER], 1_000_000_000, build_milestones_with_deadline(100), single(MilestoneMode::Parallel)).unwrap();
    let r = w.shipments[id].trigger_deadline_cancellation(0, 0);
    assert_eq!(r, Err(ChainSettleError::DeadlineNotBreached));
}

#[test]
fn test_submit_proof_after_deadline_rejected() {
    let mut w = World::new();
    let id = w.create("SHIP-LATE", vec![BUYER], 1_000_000_000, build_milestones_with_deadline(100), single(MilestoneMode::Parallel)).unwrap();
    w.now = 101;
    assert_eq!(w.submit(id, SUPPLIER, 0, "ipfs://late"), Err(ChainSettleError::DeadlinePassed));
}

#[test]
fn test_submit_proof_on_deadline_ledger_allowed() {
    let mut w = World::new();
    let id = w.create("SHIP-ONTIME", vec![BUYER], 1_000_000_000, build_milestones_with_deadline(100), single(MilestoneMode::Parallel)).unwrap();
    w.now = 100;
    w.submit(id, SUPPLIER, 0, "ipfs://ontime").unwrap();
    assert_eq!(w.shipments[id].milestones[0].status, MilestoneStatus::ProofSubmitted);
}

#[test]
fn test_multisig_both_buyers_must_confirm() {
    let mut w = World::new();
    let total_amount: i128 = 1_000_000_000;
    let id = w.create("SHIP-MULTI", vec![BUYER, BUYER2], total_amount, build_milestones(), single(MilestoneMode::Parallel)).unwrap();
    w.submit(id, SUPPLIER, 0, "ipfs://proof").unwrap();
    w.confirm(id, BUYER, 0).unwrap();
    assert_eq!(w.balance(SUPPLIER), 0, "payment must not release after only one approval");
    let m0 = &w.shipments[id].milestones[0];
    assert_eq!(m0.status, MilestoneStatus::ProofSubmitted, "status stays ProofSubmitted until all approve");
    assert_eq!(m0.approvals.len(), 1);
    w.confirm(id, BUYER2, 0).unwrap();
    assert_eq!(w.balance(SUPPLIER), total_amount * 25 / 100);
    assert_eq!(w.shipments[id].milestones[0].status, MilestoneStatus::Confirmed);
}

#[test]
fn test_multisig_duplicate_approval_rejected() {
    let mut w = World::new();
    let id = w.create("SHIP-DUP", vec![BUYER, BUYER2], 1_000_000_000, build_milestones(), single(MilestoneMode::Parallel)).unwrap();
    w.submit(id, SUPPLIER, 0, "ipfs://proof").unwrap();
    w.confirm(id, BUYER, 0).unwrap();
    assert_eq!(w.confirm(id, BUYER, 0), Err(ChainSettleError::AlreadyApproved));
}

#[test]
fn test_multisig_minority_veto_dispute() {
    let mut w = World::new();
    let id = w.create("SHIP-VETO", vec![BUYER, BUYER2], 1_000_000_000, build_milestones(), single(MilestoneMode::Parallel)).unwrap();
    w.submit(id, SUPPLIER, 0, "ipfs://proof").unwrap();
    w.dispute(id, BUYER2, 0).unwrap();
    let m0 = &w.shipments[id].milestones[0];
    assert_eq!(m0.status, MilestoneStatus::Disputed);
    assert_eq!(m0.approvals.len(), 0);
}

#[test]
fn test_sequential_mode_blocks_out_of_order_proof() {
    let mut w = World::new();
    let id = w.create("SHIP-SEQ", vec![BUYER], 1_000_000_000, build_milestones(), single(MilestoneMode::Sequential)).unwrap();
    assert_eq!(w.submit(id, SUPPLIER, 1, "ipfs://skip"), Err(ChainSettleError::PreviousMilestoneNotComplete));
}

#[test]
fn test_sequential_mode_allows_in_order_proof() {
    let mut w = World::new();
    let id = w.create("SHIP-SEQ-OK", vec![BUYER], 1_000_000_000, build_milestones(), single(MilestoneMode::Sequential)).unwrap();
    w.submit(id, SUPPLIER, 0, "ipfs://m0").unwrap();
    w.confirm(id, BUYER, 0).unwrap();
    w.submit(id, SUPPLIER, 1, "ipfs://m1").unwrap();
    assert_eq!(w.shipments[id].milestones[1].status, MilestoneStatus::ProofSubmitted);
}

#[test]
fn test_parallel_mode_allows_any_order() {
    let mut w = World::new();
    let id = w.create("SHIP-PAR", vec![BUYER], 1_000_000_000, build_milestones(), single(MilestoneMode::Parallel)).unwrap();
    w.submit(id, SUPPLIER, 2, "ipfs://m2-first").unwrap();
    assert_eq!(w.shipments[id].milestones[2].status, MilestoneStatus::ProofSubmitted);
}

#[test]
fn test_fee_deducted_on_confirm_milestone() {
    let mut w = World::new();
    w.cfg.set_fee_config(BUYER, 100, TREASURY).unwrap();
    let total_amount: i128 = 1_000_000_000;
    let id = w.create("SHIP-FEE", vec![BUYER], total_amount, build_milestones(), single(MilestoneMode::Parallel)).unwrap();
    w.submit(id, SUPPLIER, 0, "ipfs://proof").unwrap();
    w.confirm(id, BUYER, 0).unwrap();
    let gross_payment: i128 = total_amount * 25 / 100;
    let expected_fee: i128 = gross_payment * 100 / 10_000;
    let expected_net: i128 = gross_payment - expected_fee;
    assert_eq!(w.balance(SUPPLIER), expected_net);
    assert_eq!(w.balance(TREASURY), expected_fee);
}

#[test]
fn test_zero_fee_bps_no_deduction() {
    let mut w = World::new();
    w.cfg.set_fee_config(BUYER, 0, TREASURY).unwrap();
    let total_amount: i128 = 1_000_000_000;
    let id = w.create("SHIP-NOFEE", vec![BUYER], total_amount, build_milestones(), single(MilestoneMode::Parallel)).unwrap();
    w.submit(id, SUPPLIER, 0, "ipfs://proof").unwrap();
    w.confirm(id, BUYER, 0).unwrap();
    assert_eq!(w.balance(SUPPLIER), total_amount * 25 / 100);
    assert_eq!(w.balance(TREASURY), 0);
}

#[test]
fn test_fee_bps_exceeds_max_rejected() {
    let mut w = World::new();
    assert_eq!(w.cfg.set_fee_config(BUYER, 1001, TREASURY), Err(ChainSettleError::FeeTooHigh));
}

#[test]
fn test_fee_deducted_on_dispute_resolve_approve() {
    let mut w = World::new();
    w.cfg.set_fee_config(BUYER, 50, TREASURY).unwrap();
    let total_amount: i128 = 1_000_000_000;
    let id = w.create("SHIP-DISPUTE-FEE", vec![BUYER], total_amount, build_milestones(), single(MilestoneMode::Parallel)).unwrap();
    w.submit(id, SUPPLIER, 0, "ipfs://proof").unwrap();
    w.dispute(id, BUYER, 0).unwrap();
    w.resolve(id, ARBITER, 0, true).unwrap();
    let gross: i128 = total_amount * 25 / 100;
    let fee: i128 = gross * 50 / 10_000;
    let net: i128 = gross - fee;
    assert_eq!(w.balance(SUPPLIER), net);
    assert_eq!(w.balance(TREASURY), fee);
}

#[test]
fn test_no_fee_config_backward_compatible() {
    let mut w = World::new();
    let total_amount: i128 = 1_000_000_000;
    let id = w.create("SHIP-COMPAT", vec![BUYER], total_amount, build_milestones(), single(MilestoneMode::Parallel)).unwrap();
    w.submit(id, SUPPLIER, 0, "ipfs://proof").unwrap();
    w.confirm(id, BUYER, 0).unwrap();
    assert_eq!(w.balance(SUPPLIER), total_amount * 25 / 100);
    assert_eq!(w.balance(TREASURY), 0);
}
