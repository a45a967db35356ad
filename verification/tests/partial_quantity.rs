#![allow(dead_code)]
use chainsettle::create::create_shipment;
use chainsettle::queries::get_total_escrowed_value;
use chainsettle::types::{
    AccountId, AuditAction, ChainSettleError, Config, Milestone, MilestoneMode, MilestoneStatus,
    Shipment, ShipmentOptions, ShipmentStatus, Transfer,
};
use std::collections::HashMap;

const BUYER: AccountId = 1;
const BUYER2: AccountId = 2;
const SUPPLIER: AccountId = 3;
const LOGISTICS: AccountId = 4;
const ARBITER: AccountId = 5;
const TREASURY: AccountId = 6;
const TOKEN: AccountId = 100;
const CONTRACT: AccountId = 999;

/// A small host: the contract configuration, the stored shipments, token balances
/// and the current ledger.
struct World {
    cfg: Config,
    shipments: Vec<Shipment>,
    balances: HashMap<AccountId, i128>,
    now: u32,
}

impl World {
    fn new() -> World {
        let mut cfg = Config::new();
        cfg.init(BUYER);
        let mut balances = HashMap::new();
        balances.insert(BUYER, 10_000_000_000);
        balances.insert(BUYER2, 10_000_000_000);
        World { cfg, shipments: Vec::new(), balances, now: 0 }
    }

    fn balance(&self, a: AccountId) -> i128 {
        *self.balances.get(&a).unwrap_or(&0)
    }

    fn apply(&mut self, ts: &[Transfer]) {
        for t in ts {
            assert_eq!(t.token, TOKEN);
            assert!(t.amount > 0);
            let (from, to) = if t.into_escrow {
                (t.counterparty, CONTRACT)
            } else {
                (CONTRACT, t.counterparty)
            };
            let fb = self.balance(from) - t.amount;
            assert!(fb >= 0, "insufficient balance");
            self.balances.insert(from, fb);
            let tb = self.balance(to) + t.amount;
            self.balances.insert(to, tb);
        }
    }

    fn create(
        &mut self,
        id: &str,
        buyers: Vec<AccountId>,
        total: i128,
        milestones: Vec<Milestone>,
        options: ShipmentOptions,
    ) -> Result<usize, ChainSettleError> {
        let exists = self.shipments.iter().any(|s| s.id == id.as_bytes().to_vec());
        let (s, deposit) = create_shipment(
            id.as_bytes().to_vec(),
            buyers,
            SUPPLIER,
            LOGISTICS,
            ARBITER,
            TOKEN,
            total,
            milestones,
            options,
            &self.cfg,
            exists,
            self.now,
        )?;
        self.apply(&[deposit]);
        self.shipments.push(s);
        Ok(self.shipments.len() - 1)
    }

    fn submit(&mut self, idx: usize, caller: AccountId, m: u32, proof: &str) -> Result<(), ChainSettleError> {
        let now = self.now;
        self.shipments[idx].submit_proof(caller, m, proof.as_bytes().to_vec(), now)
    }

    fn confirm(&mut self, idx: usize, buyer: AccountId, m: u32) -> Result<(), ChainSettleError> {
        let (fee, now) = (self.cfg.fee, self.now);
        let ts = self.shipments[idx].confirm_milestone(buyer, m, fee, now)?;
        self.apply(&ts);
        Ok(())
    }

    fn partial(&mut self, idx: usize, buyer: AccountId, m: u32, qty: u32) -> Result<(), ChainSettleError> {
        let (fee, now) = (self.cfg.fee, self.now);
        let ts = self.shipments[idx].confirm_partial_quantity(buyer, m, qty, fee, now)?;
        self.apply(&ts);
        Ok(())
    }

    fn graded(&mut self, idx: usize, buyer: AccountId, m: u32, grade: u32) -> Result<(), ChainSettleError> {
        let (fee, now) = (self.cfg.fee, self.now);
        let ts = self.shipments[idx].confirm_milestone_graded(buyer, m, grade, fee, now)?;
        self.apply(&ts);
        Ok(())
    }

    fn release_held(&mut self, idx: usize, m: u32) -> Result<(), ChainSettleError> {
        let (fee, now) = (self.cfg.fee, self.now);
        let ts = self.shipments[idx].release_held_payment(m, fee, now)?;
        self.apply(&ts);
        Ok(())
    }

    fn dispute(&mut self, idx: usize, caller: AccountId, m: u32) -> Result<(), ChainSettleError> {
        let now = self.now;
        self.shipments[idx].raise_dispute(caller, m, now)
    }

    fn resolve(&mut self, idx: usize, caller: AccountId, m: u32, approve: bool) -> Result<(), ChainSettleError> {
        let (fee, now) = (self.cfg.fee, self.now);
        let ts = self.shipments[idx].resolve_dispute(caller, m, approve, fee, now)?;
        self.apply(&ts);
        Ok(())
    }

    fn cancel(&mut self, idx: usize, caller: AccountId) -> Result<(), ChainSettleError> {
        let now = self.now;
        let ts = self.shipments[idx].cancel_shipment(caller, now)?;
        self.apply(&ts);
        Ok(())
    }

    fn escrowed(&self) -> i128 {
        get_total_escrowed_value(&self.shipments, TOKEN)
    }
}

fn ms(name: &str, pct: u32, deadline: Option<u32>) -> Milestone {
    Milestone::new(name.as_bytes().to_vec(), pct, deadline)
}

fn build_milestones() -> Vec<Milestone> {
    vec![
        ms("Goods Dispatched", 25, None),
        ms("In Transit", 50, None),
        ms("Delivered", 25, None),
    ]
}

fn default_options() -> ShipmentOptions {
    ShipmentOptions::new(MilestoneMode::Parallel)
}

const TOTAL: i128 = 1_000_000;
const M0_GROSS: i128 = 250_000;

fn quantity_options(expected: u32) -> ShipmentOptions {
    let mut opts = default_options();
    opts.milestone_quantities = vec![expected, 0u32, 0u32];
    opts
}

fn create(w: &mut World, id: &str, opts: ShipmentOptions) -> usize {
    let idx = w.create(id, vec![BUYER], TOTAL, build_milestones(), opts).unwrap();
    w.submit(idx, SUPPLIER, 0, "proof").unwrap();
    idx
}

#[test]
fn test_partial_releases_are_pro_rata_and_dust_goes_to_final_unit() {
    let mut w = World::new();
    let id = create(&mut w, "QTY-PRORATA", quantity_options(3));
    let mut paid = Vec::new();
    for _ in 0..3 {
        let before = w.balance(SUPPLIER);
        w.partial(id, BUYER, 0, 1).unwrap();
        paid.push(w.balance(SUPPLIER) - before);
    }
    assert_eq!(paid, vec![83_333, 83_333, 83_334]);
    assert_eq!(paid.iter().sum::<i128>(), M0_GROSS);
    assert_eq!(w.shipments[id].get_delivered_quantity(0), Ok((3u32, 3u32)));
    let s = &w.shipments[id];
    assert_eq!(s.milestones[0].status, MilestoneStatus::Confirmed);
    assert_eq!(s.released_amount, M0_GROSS);
}

#[test]
fn test_milestone_stays_open_until_expected_quantity_reached() {
    let mut w = World::new();
    let id = create(&mut w, "QTY-OPEN", quantity_options(10));
    w.partial(id, BUYER, 0, 4).unwrap();
    assert_eq!(w.shipments[id].milestones[0].status, MilestoneStatus::ProofSubmitted);
    assert_eq!(w.shipments[id].get_delivered_quantity(0), Ok((4u32, 10u32)));
    assert_eq!(w.shipments[id].released_amount, 100_000);
    assert_eq!(w.shipments[id].get_completion_percentage(), 10);
    assert_eq!(w.shipments[id].get_escrow_balance(), TOTAL - 100_000);
    w.partial(id, BUYER, 0, 6).unwrap();
    assert_eq!(w.shipments[id].milestones[0].status, MilestoneStatus::Confirmed);
    assert_eq!(w.shipments[id].released_amount, M0_GROSS);
}

#[test]
fn test_full_confirmation_after_partial_pays_only_remainder() {
    let mut w = World::new();
    let id = create(&mut w, "QTY-REST", quantity_options(4));
    let before = w.balance(SUPPLIER);
    w.partial(id, BUYER, 0, 1).unwrap();
    w.confirm(id, BUYER, 0).unwrap();
    assert_eq!(w.balance(SUPPLIER) - before, M0_GROSS);
    assert_eq!(w.shipments[id].released_amount, M0_GROSS);
}

#[test]
fn test_fees_applied_to_each_partial_release() {
    let mut w = World::new();
    w.cfg.set_fee_config(BUYER, 1_000, TREASURY).unwrap();
    let id = create(&mut w, "QTY-FEES", quantity_options(4));
    for _ in 0..3 {
        let supplier_before = w.balance(SUPPLIER);
        let treasury_before = w.balance(TREASURY);
        w.partial(id, BUYER, 0, 1).unwrap();
        assert_eq!(w.balance(TREASURY) - treasury_before, 6_250);
        assert_eq!(w.balance(SUPPLIER) - supplier_before, 56_250);
    }
    let treasury_before = w.balance(TREASURY);
    w.partial(id, BUYER, 0, 1).unwrap();
    assert_eq!(w.balance(TREASURY) - treasury_before, 6_250);
}

#[test]
fn test_partial_quantity_emits_event_and_audit_entry() {
    let mut w = World::new();
    let id = create(&mut w, "QTY-EVENT", quantity_options(5));
    w.partial(id, BUYER, 0, 2).unwrap();
    let s = &w.shipments[id];
    // The entry carries what the event reports: milestone, quantities, amount released.
    assert_eq!(s.get_delivered_quantity(0), Ok((2u32, 5u32)));
    let last = s.audit_log[s.audit_log.len() - 1];
    assert_eq!(last.action, AuditAction::PartialQtyConfirmed);
    assert_eq!(last.milestone_index, 0);
    assert_eq!(last.amount, 100_000);
    assert_eq!(w.balance(TREASURY), 0);
}

#[test]
fn test_confirming_more_than_remaining_rejected() {
    let mut w = World::new();
    let id = create(&mut w, "QTY-OVER", quantity_options(3));
    w.partial(id, BUYER, 0, 2).unwrap();
    assert_eq!(w.partial(id, BUYER, 0, 2), Err(ChainSettleError::QuantityExceedsRemaining));
}

#[test]
fn test_zero_quantity_rejected() {
    let mut w = World::new();
    let id = create(&mut w, "QTY-ZERO", quantity_options(3));
    assert_eq!(w.partial(id, BUYER, 0, 0), Err(ChainSettleError::ZeroQuantity));
}

#[test]
fn test_non_quantity_milestone_rejected() {
    let mut w = World::new();
    let id = create(&mut w, "QTY-NONE", default_options());
    assert_eq!(w.partial(id, BUYER, 0, 1), Err(ChainSettleError::NotQuantityBased));
}

#[test]
fn test_creation_rejects_mismatched_quantity_count() {
    let mut w = World::new();
    let mut opts = default_options();
    opts.milestone_quantities = vec![5u32];
    let r = w.create("QTY-CFG", vec![BUYER], TOTAL, build_milestones(), opts);
    assert_eq!(r, Err(ChainSettleError::QuantityCountMismatch));
}

#[test]
fn test_non_buyer_cannot_confirm_quantity() {
    let mut w = World::new();
    let id = create(&mut w, "QTY-AUTH", quantity_options(3));
    assert_eq!(w.partial(id, SUPPLIER, 0, 1), Err(ChainSettleError::Unauthorized));
}

#[test]
fn test_partial_quantity_before_proof_rejected() {
    let mut w = World::new();
    let id = w.create("QTY-NOPROOF", vec![BUYER], TOTAL, build_milestones(), quantity_options(3)).unwrap();
    assert_eq!(w.partial(id, BUYER, 0, 1), Err(ChainSettleError::ProofNotSubmitted));
}

#[test]
fn test_partial_final_unit_with_holdback_is_held() {
    let mut w = World::new();
    let mut opts = quantity_options(2);
    opts.holdback_ledgers = 10;
    let id = create(&mut w, "QTY-HOLD", opts);
    w.partial(id, BUYER, 0, 1).unwrap();
    assert_eq!(w.balance(SUPPLIER), 125_000);
    w.partial(id, BUYER, 0, 1).unwrap();
    assert_eq!(w.shipments[id].milestones[0].status, MilestoneStatus::ConfirmedHeld);
    assert_eq!(w.shipments[id].milestones[0].release_after_ledger, 10);
    assert_eq!(w.balance(SUPPLIER), 125_000);
    w.now = 10;
    w.release_held(id, 0).unwrap();
    assert_eq!(w.balance(SUPPLIER), M0_GROSS);
}
