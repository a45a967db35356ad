#![allow(dead_code)]
use chainsettle::create::create_shipment;
use chainsettle::queries::get_total_escrowed_value;
use chainsettle::types::{
    AccountId, AuditAction, ChainSettleError, Config, Milestone, MilestoneMode, MilestoneStatus,
    Shipment, ShipmentOptions, ShipmentStatus, Transfer,
};
use std::collections::HashMap;

const BUYER: AccountId = 1;
const BUYER2: AccountId = 2;
const SUPPLIER: AccountId = 3;
const LOGISTICS: AccountId = 4;
const ARBITER: AccountId = 5;
const TREASURY: AccountId = 6;
const TOKEN: AccountId = 100;
const CONTRACT: AccountId = 999;

/// A small host: the contract configuration, the stored shipments, token balances
/// and the current ledger.
struct World {
    cfg: Config,
    shipments: Vec<Shipment>,
    balances: HashMap<AccountId, i128>,
    now: u32,
}

impl World {
    fn new() -> World {
        let mut cfg = Config::new();
        cfg.init(BUYER);
        let mut balances = HashMap::new();
        balances.insert(BUYER, 10_000_000_000);
        balances.insert(BUYER2, 10_000_000_000);
        World { cfg, shipments: Vec::new(), balances, now: 0 }
    }

    fn balance(&self, a: AccountId) -> i128 {
        *self.balances.get(&a).unwrap_or(&0)
    }

    fn apply(&mut self, ts: &[Transfer]) {
        for t in ts {
            assert_eq!(t.token, TOKEN);
            assert!(t.amount > 0);
            let (from, to) = if t.into_escrow {
                (t.counterparty, CONTRACT)
            } else {
                (CONTRACT, t.counterparty)
            };
            let fb = self.balance(from) - t.amount;
            assert!(fb >= 0, "insufficient balance");
            self.balances.insert(from, fb);
            let tb = self.balance(to) + t.amount;
            self.balances.insert(to, tb);
        }
    }

    fn create(
        &mut self,
        id: &str,
        buyers: Vec<AccountId>,
        total: i128,
        milestones: Vec<Milestone>,
        options: ShipmentOptions,
    ) -> Result<usize, ChainSettleError> {
        let exists = self.shipments.iter().any(|s| s.id == id.as_bytes().to_vec());
        let (s, deposit) = create_shipment(
            id.as_bytes().to_vec(),
            buyers,
            SUPPLIER,
            LOGISTICS,
            ARBITER,
            TOKEN,
            total,
            milestones,
            options,
            &self.cfg,
            exists,
            self.now,
        )?;
        self.apply(&[deposit]);
        self.shipments.push(s);
        Ok(self.shipments.len() - 1)
    }

    fn submit(&mut self, idx: usize, caller: AccountId, m: u32, proof: &str) -> Result<(), ChainSettleError> {
        let now = self.now;
        self.shipments[idx].submit_proof(caller, m, proof.as_bytes().to_vec(), now)
    }

    fn confirm(&mut self, idx: usize, buyer: AccountId, m: u32) -> Result<(), ChainSettleError> {
        let (fee, now) = (self.cfg.fee, self.now);
        let ts = self.shipments[idx].confirm_milestone(buyer, m, fee, now)?;
        self.apply(&ts);
        Ok(())
    }

    fn partial(&mut self, idx: usize, buyer: AccountId, m: u32, qty: u32) -> Result<(), ChainSettleError> {
        let (fee, now) = (self.cfg.fee, self.now);
        let ts = self.shipments[idx].confirm_partial_quantity(buyer, m, qty, fee, now)?;
        self.apply(&ts);
        Ok(())
    }

    fn graded(&mut self, idx: usize, buyer: AccountId, m: u32, grade: u32) -> Result<(), ChainSettleError> {
        let (fee, now) = (self.cfg.fee, self.now);
        let ts = self.shipments[idx].confirm_milestone_graded(buyer, m, grade, fee, now)?;
        self.apply(&ts);
        Ok(())
    }

    fn release_held(&mut self, idx: usize, m: u32) -> Result<(), ChainSettleError> {
        let (fee, now) = (self.cfg.fee, self.now);
        let ts = self.shipments[idx].release_held_payment(m, fee, now)?;
        self.apply(&ts);
        Ok(())
    }

    fn dispute(&mut self, idx: usize, caller: AccountId, m: u32) -> Result<(), ChainSettleError> {
        let now = self.now;
        self.shipments[idx].raise_dispute(caller, m, now)
    }

    fn resolve(&mut self, idx: usize, caller: AccountId, m: u32, approve: bool) -> Result<(), ChainSettleError> {
        let (fee, now) = (self.cfg.fee, self.now);
        let ts = self.shipments[idx].resolve_dispute(caller, m, approve, fee, now)?;
        self.apply(&ts);
        Ok(())
    }

    fn cancel(&mut self, idx: usize, caller: AccountId) -> Result<(), ChainSettleError> {
        let now = self.now;
        let ts = self.shipments[idx].cancel_shipment(caller, now)?;
        self.apply(&ts);
        Ok(())
    }

    fn escrowed(&self) -> i128 {
        get_total_escrowed_value(&self.shipments, TOKEN)
    }
}

fn ms(name: &str, pct: u32, deadline: Option<u32>) -> Milestone {
    Milestone::new(name.as_bytes().to_vec(), pct, deadline)
}

fn build_milestones() -> Vec<Milestone> {
    vec![
        ms("Goods Dispatched", 25, None),
        ms("In Transit", 50, None),
        ms("Delivered", 25, None),
    ]
}

fn default_options() -> ShipmentOptions {
    ShipmentOptions::new(MilestoneMode::Parallel)
}

const TOTAL: i128 = 1_000_000;

fn retainage_options(bps: u32) -> ShipmentOptions {
    let mut opts = default_options();
    opts.retainage_bps = bps;
    opts
}

fn create(w: &mut World, id: &str, opts: ShipmentOptions) -> Result<usize, ChainSettleError> {
    w.create(id, vec![BUYER], TOTAL, build_milestones(), opts)
}

fn confirm(w: &mut World, idx: usize, m: u32) {
    w.submit(idx, SUPPLIER, m, "proof").unwrap();
    w.confirm(idx, BUYER, m).unwrap();
}

#[test]
fn test_each_confirmation_withholds_exactly_retainage_bps() {
    let mut w = World::new();
    let id = create(&mut w, "RET-EACH", retainage_options(1_000)).unwrap();
    let before = w.balance(SUPPLIER);
    confirm(&mut w, id, 0);
    // The host publishes one event per audit entry: `holdback_withheld` here.
    let withheld = w.shipments[id]
        .audit_log
        .iter()
        .find(|e| e.action == AuditAction::RetainageWithheld)
        .copied()
        .expect("retainage withheld entry");
    assert_eq!(withheld.amount, 25_000);
    assert_eq!(withheld.milestone_index, 0);
    assert_eq!(w.balance(SUPPLIER) - before, 225_000);
    assert_eq!(w.shipments[id].get_retainage_balance(), 25_000);
    let before = w.balance(SUPPLIER);
    confirm(&mut w, id, 1);
    assert_eq!(w.balance(SUPPLIER) - before, 450_000);
    assert_eq!(w.shipments[id].get_retainage_balance(), 75_000);
}

#[test]
fn test_withholding_applies_to_net_payment_after_fees() {
    let mut w = World::new();
    w.cfg.set_fee_config(BUYER, 1_000, TREASURY).unwrap();
    let id = create(&mut w, "RET-NET", retainage_options(1_000)).unwrap();
    let before = w.balance(SUPPLIER);
    confirm(&mut w, id, 0);
    assert_eq!(w.shipments[id].get_retainage_balance(), 22_500);
    assert_eq!(w.balance(SUPPLIER) - before, 202_500);
}

#[test]
fn test_final_confirmation_releases_all_retainage() {
    let mut w = World::new();
    let id = create(&mut w, "RET-FINAL", retainage_options(2_000)).unwrap();
    let before = w.balance(SUPPLIER);
    confirm(&mut w, id, 0);
    confirm(&mut w, id, 1);
    assert_eq!(w.shipments[id].get_retainage_balance(), 150_000);
    confirm(&mut w, id, 2);
    assert_eq!(w.shipments[id].get_retainage_balance(), 0);
    assert_eq!(w.balance(SUPPLIER) - before, TOTAL);
    let s = &w.shipments[id];
    assert_eq!(s.status, ShipmentStatus::Completed);
    assert!(s.audit_log.iter().any(|e| e.action == AuditAction::RetainageReleased));
    assert_eq!(w.escrowed(), 0);
}

#[test]
fn test_cancellation_refunds_retainage_to_buyer() {
    let mut w = World::new();
    let id = create(&mut w, "RET-CANCEL", retainage_options(1_000)).unwrap();
    confirm(&mut w, id, 0);
    assert_eq!(w.shipments[id].get_retainage_balance(), 25_000);
    let buyer_before = w.balance(BUYER);
    w.cancel(id, BUYER).unwrap();
    // The host publishes one event per audit entry: `holdback_refunded` here.
    let log = &w.shipments[id].audit_log;
    let refunded = log[log.len() - 1];
    assert_eq!(refunded.action, AuditAction::RetainageRefunded);
    assert_eq!(refunded.amount, 25_000);
    assert_eq!(log[log.len() - 2].action, AuditAction::ShipmentCancelled);
    assert_eq!(w.balance(BUYER) - buyer_before, 775_000);
    assert_eq!(w.shipments[id].get_retainage_balance(), 0);
    assert_eq!(w.escrowed(), 0);
}

#[test]
fn test_completion_and_escrow_balance_stay_consistent() {
    let mut w = World::new();
    let id = create(&mut w, "RET-CONSIST", retainage_options(1_000)).unwrap();
    confirm(&mut w, id, 0);
    assert_eq!(w.shipments[id].get_completion_percentage(), 25);
    assert_eq!(w.shipments[id].get_escrow_balance(), 750_000);
    assert_eq!(w.escrowed(), 775_000);
    confirm(&mut w, id, 1);
    assert_eq!(w.shipments[id].get_completion_percentage(), 75);
    assert_eq!(w.shipments[id].get_escrow_balance(), 250_000);
}

#[test]
fn test_zero_retainage_is_backward_compatible() {
    let mut w = World::new();
    let id = create(&mut w, "RET-OFF", default_options()).unwrap();
    let before = w.balance(SUPPLIER);
    confirm(&mut w, id, 0);
    assert_eq!(w.balance(SUPPLIER) - before, 250_000);
    assert_eq!(w.shipments[id].get_retainage_balance(), 0);
}

#[test]
fn test_creation_rejects_retainage_above_max() {
    let mut w = World::new();
    assert_eq!(create(&mut w, "RET-MAX", retainage_options(2_001)), Err(ChainSettleError::RetainageTooHigh));
}

#[test]
fn test_non_buyer_cannot_cancel_to_reclaim_retainage() {
    let mut w = World::new();
    let id = create(&mut w, "RET-AUTH", retainage_options(1_000)).unwrap();
    confirm(&mut w, id, 0);
    assert_eq!(w.cancel(id, SUPPLIER), Err(ChainSettleError::Unauthorized));
}

#[test]
fn no_retainage_entry_without_retainage() {
    let mut w = World::new();
    let id = create(&mut w, "RET-NONE", default_options()).unwrap();
    confirm(&mut w, id, 0);
    w.cancel(id, BUYER).unwrap();
    let log = &w.shipments[id].audit_log;
    assert!(!log.iter().any(|e| e.action == AuditAction::RetainageWithheld));
    assert!(!log.iter().any(|e| e.action == AuditAction::RetainageRefunded));
}
