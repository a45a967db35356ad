//! Arithmetic of payments and the settlement steps shared by the operations.
use vstd::prelude::*;

verus! {

use crate::lemmas::{
    lemma_bps_bounds, lemma_floor_div, lemma_gross_bounds, lemma_view_update, lemma_wf_bounds,
};
use crate::model::{
    audit, bps_of, complete_if_done, fee_ok, finalize, gross_of, is_done, pay_supplier, payout,
    pro_rata, settle_full, settle_graded, settled_milestone,
};
use crate::types::{
    AccountId, AuditAction, AuditEntry, FeeConfig, MilestoneStatus, MilestoneView, Shipment,
    ShipmentStatus, ShipmentView, Transfer, MAX_RETAINAGE_BPS, MAX_SHIPMENT_VALUE, MAX_WARRANTY_BPS,
};

/// `bps` basis points of `amount`, rounded down.
pub fn bps_share(amount: i128, bps: u32) -> (r: i128)
    requires
        0 <= amount <= MAX_SHIPMENT_VALUE,
        bps <= 10000,
    ensures
        r == bps_of(amount as int, bps as int),
        0 <= r <= amount,
{
    proof {
        lemma_bps_bounds(amount as int, bps as int);
    }
    assert(0 <= amount * (bps as i128) <= MAX_SHIPMENT_VALUE * 10000) by (nonlinear_arith)
        requires
            0 <= amount <= MAX_SHIPMENT_VALUE,
            bps <= 10000,
    ;
    amount * (bps as i128) / 10000
}

/// `pct` percent of `total`, rounded down.
pub fn percent_share(total: i128, pct: u32) -> (r: i128)
    requires
        0 <= total <= MAX_SHIPMENT_VALUE,
        pct <= 100,
    ensures
        r == gross_of(total as int, pct as int),
        0 <= r <= total,
{
    proof {
        lemma_gross_bounds(total as int, pct as int);
    }
    assert(0 <= total * (pct as i128) <= MAX_SHIPMENT_VALUE * 100) by (nonlinear_arith)
        requires
            0 <= total <= MAX_SHIPMENT_VALUE,
            pct <= 100,
    ;
    total * (pct as i128) / 100
}

/// The share of `gross` for `qty` of `expected` units, rounded down.
pub fn pro_rata_share(gross: i128, qty: u32, expected: u32) -> (r: i128)
    requires
        0 <= gross <= MAX_SHIPMENT_VALUE,
        0 < expected,
    ensures
        r == pro_rata(gross as int, qty as int, expected as int),
{
    assert(0 <= gross * (qty as i128) <= MAX_SHIPMENT_VALUE * 0xffff_ffff) by (nonlinear_arith)
        requires
            0 <= gross <= MAX_SHIPMENT_VALUE,
            qty <= 0xffff_ffff,
    ;
    proof {
        lemma_floor_div(gross * qty, expected as int);
    }
    gross * (qty as i128) / (expected as i128)
}

pub fn contains_account(v: &Vec<AccountId>, a: AccountId) -> (b: bool)
    ensures
        b == v@.contains(a),
{
    let mut k: usize = 0;
    while k < v.len()
        invariant
            k <= v@.len(),
            forall|j: int| 0 <= j < k ==> v@[j] != a,
        decreases v@.len() - k,
    {
        if v[k] == a {
            assert(v@[k as int] == a);
            return true;
        }
        k = k + 1;
    }
    false
}

pub fn audit_entry(
    action: AuditAction,
    actor: Option<AccountId>,
    ledger: u32,
    index: u32,
    amount: i128,
) -> (e: AuditEntry)
    ensures
        e == audit(action, actor, ledger, index, amount as int),
{
    AuditEntry { action, actor, ledger, milestone_index: index, amount }
}

pub fn payout_to(token: AccountId, to: AccountId, amount: i128) -> (t: Transfer)
    ensures
        t == payout(token, to, amount as int),
{
    Transfer { token, counterparty: to, amount, into_escrow: false }
}

/// Once milestone `i` is settled, a shipment whose other milestones are unchanged
/// is all done only if every other milestone already was.
proof fn lemma_completes_after_settle(s: ShipmentView, t: ShipmentView, i: int)
    requires
        t.milestones.len() == s.milestones.len(),
        forall|j: int| 0 <= j < s.milestones.len() && j != i ==> t.milestones[j] == s.milestones[j],
    ensures
        t.all_done() ==> s.completes_with(i),
{
    if t.all_done() {
        assert forall|j: int| 0 <= j < s.milestones.len() && j != i implies is_done(
            #[trigger] s.milestones[j].status,
        ) by {
            assert(is_done(t.milestones[j].status));
        }
    }
}

impl Shipment {
    pub fn is_buyer(&self, a: AccountId) -> (b: bool)
        ensures
            b == self@.is_buyer(a),
    {
        contains_account(&self.buyers, a)
    }

    /// Gross payment of milestone `i`.
    pub fn gross_at(&self, i: usize) -> (g: i128)
        requires
            self@.wf(),
            i < self@.milestones.len(),
        ensures
            g == self@.gross(i as int),
            0 <= g <= self.total_amount,
    {
        proof {
            lemma_wf_bounds(self@);
            assert(0 <= self@.gross(i as int));
        }
        percent_share(self.total_amount, self.milestones[i].payment_percent)
    }

    pub fn all_milestones_done(&self) -> (b: bool)
        ensures
            b == self@.all_done(),
    {
        let mut k: usize = 0;
        while k < self.milestones.len()
            invariant
                k <= self.milestones@.len(),
                forall|j: int| 0 <= j < k ==> crate::model::is_done(#[trigger] self@.milestones[j].status),
            decreases self.milestones@.len() - k,
        {
            let st = self.milestones[k].status;
            if st != MilestoneStatus::Confirmed && st != MilestoneStatus::Resolved {
                assert(!crate::model::is_done(self@.milestones[k as int].status));
                return false;
            }
            k = k + 1;
        }
        true
    }

    pub fn any_milestone_disputed(&self) -> (b: bool)
        ensures
            b == self@.any_disputed(),
    {
        let mut k: usize = 0;
        while k < self.milestones.len()
            invariant
                k <= self.milestones@.len(),
                forall|j: int|
                    0 <= j < k ==> #[trigger] self@.milestones[j].status != MilestoneStatus::Disputed,
            decreases self.milestones@.len() - k,
        {
            if self.milestones[k].status == MilestoneStatus::Disputed {
                assert(self@.milestones[k as int].status == MilestoneStatus::Disputed);
                return true;
            }
            k = k + 1;
        }
        false
    }

    pub fn all_buyers_approved(&self, i: usize) -> (b: bool)
        requires
            i < self@.milestones.len(),
        ensures
            b == self@.all_approved(i as int),
    {
        let mut k: usize = 0;
        while k < self.buyers.len()
            invariant
                i < self@.milestones.len(),
                k <= self.buyers@.len(),
                forall|j: int|
                    0 <= j < k ==> self@.milestones[i as int].approvals.contains(
                        #[trigger] self@.buyers[j],
                    ),
            decreases self.buyers@.len() - k,
        {
            if !contains_account(&self.milestones[i].approvals, self.buyers[k]) {
                assert(!self@.milestones[i as int].approvals.contains(self@.buyers[k as int]));
                return false;
            }
            k = k + 1;
        }
        true
    }

    /// In grade review: the milestone carries a grade below full.
    pub fn grade_review_at(&self, i: usize) -> (b: bool)
        requires
            i < self@.milestones.len(),
        ensures
            b == self@.in_grade_review(i as int),
    {
        match self.milestones[i].grade {
            Some(g) => (g as usize) < self.quality_grades.len() && self.quality_grades[g as usize]
                < crate::types::FULL_GRADE_BPS,
            None => false,
        }
    }

    /// Pays `amount` to the supplier, net of the protocol fee, keeping the retainage
    /// and warranty shares in escrow.
    /// Retainage kept back is logged against milestone `i`.
    pub(crate) fn pay_supplier(&mut self, amount: i128, fee: Option<FeeConfig>, now: u32, i: u32) -> (ts: Vec<Transfer>)
        requires
            0 <= amount <= MAX_SHIPMENT_VALUE,
            fee_ok(fee),
            old(self).retainage_bps <= MAX_RETAINAGE_BPS,
            old(self).warranty_bps <= MAX_WARRANTY_BPS,
            0 <= old(self).retainage_balance <= MAX_SHIPMENT_VALUE,
            0 <= old(self).warranty_balance <= MAX_SHIPMENT_VALUE,
        ensures
            (final(self)@, ts@) == pay_supplier(old(self)@, amount as int, fee, now, i),
    {
        let f: i128 = match fee {
            Some(c) => bps_share(amount, c.fee_bps),
            None => 0,
        };
        let net = amount - f;
        let ret = bps_share(net, self.retainage_bps);
        let war = bps_share(net, self.warranty_bps);
        let sup = net - ret - war;
        self.retainage_balance = self.retainage_balance + ret;
        self.warranty_balance = self.warranty_balance + war;
        if ret > 0 {
            self.audit_log.push(audit_entry(AuditAction::RetainageWithheld, None, now, i, ret));
        }
        let mut ts: Vec<Transfer> = Vec::new();
        if sup > 0 {
            ts.push(payout_to(self.token, self.supplier, sup));
        }
        let ghost first = ts@;
        match fee {
            Some(c) => {
                if f > 0 {
                    ts.push(payout_to(self.token, c.treasury, f));
                }
            },
            None => {},
        }
        proof {
            let pair = pay_supplier(old(self)@, amount as int, fee, now, i);
            assert(first =~= crate::model::payout_if_positive(self.token, self.supplier, sup as int));
            assert(ts@ =~= pair.1);
            assert(self@ =~= pair.0);
        }
        ts
    }

    /// Completes the shipment when every milestone is done.
    pub(crate) fn complete_if_done(&mut self, now: u32) -> (ts: Vec<Transfer>)
        requires
            old(self)@.all_done() ==> old(self)@.warranty_fits(now),
        ensures
            (final(self)@, ts@) == complete_if_done(old(self)@, now),
    {
        let mut ts: Vec<Transfer> = Vec::new();
        if self.all_milestones_done() {
            let r = self.retainage_balance;
            if r > 0 {
                ts.push(payout_to(self.token, self.supplier, r));
                self.audit_log.push(audit_entry(AuditAction::RetainageReleased, None, now, 0, r));
            }
            self.status = ShipmentStatus::Completed;
            self.retainage_balance = 0;
            self.warranty_end_ledger = now + self.warranty_ledgers;
            proof {
                let pair = complete_if_done(old(self)@, now);
                assert(ts@ =~= pair.1);
                assert(self@ =~= pair.0);
            }
        }
        ts
    }

    /// Marks milestone `i` settled with status `target` and counts its remainder as
    /// released; returns the remainder.
    fn mark_settled(&mut self, i: usize, target: MilestoneStatus) -> (piece: i128)
        requires
            old(self)@.wf(),
            i < old(self)@.milestones.len(),
        ensures
            piece == old(self)@.remainder(i as int),
            0 <= piece <= old(self)@.gross(i as int),
            final(self)@ == (crate::types::ShipmentView {
                released_amount: (old(self)@.released_amount + piece) as i128,
                ..old(self)@.with_milestone(i as int, settled_milestone(old(self)@, i as int, target))
            }),
    {
        proof {
            lemma_wf_bounds(self@);
        }
        let g = self.gross_at(i);
        let piece = g - self.milestones[i].released;
        let expected = self.milestones[i].expected_quantity;
        self.milestones[i].status = target;
        self.milestones[i].released = g;
        self.milestones[i].delivered_quantity = expected;
        self.milestones[i].release_after_ledger = 0;
        self.released_amount = self.released_amount + piece;
        proof {
            assert(self@.milestones =~= old(self)@.milestones.update(
                i as int,
                settled_milestone(old(self)@, i as int, target),
            ));
        }
        piece
    }

    pub(crate) fn settle_full(
        &mut self,
        i: u32,
        target: MilestoneStatus,
        fee: Option<FeeConfig>,
        now: u32,
        action: AuditAction,
        actor: Option<AccountId>,
    ) -> (ts: Vec<Transfer>)
        requires
            old(self)@.wf(),
            i < old(self)@.milestones.len(),
            fee_ok(fee),
            old(self)@.settle_fits(i as int, now),
        ensures
            (final(self)@, ts@) == settle_full(old(self)@, i, target, fee, now, action, actor),
    {
        proof {
            lemma_wf_bounds(self@);
        }
        let piece = self.mark_settled(i as usize, target);
        self.audit_log.push(audit_entry(action, actor, now, i, piece));
        let mut t1 = self.pay_supplier(piece, fee, now, i);
        let ghost s2 = self@;
        let ghost t1v = t1@;
        proof {
            lemma_completes_after_settle(old(self)@, self@, i as int);
        }
        let mut t2 = self.complete_if_done(now);
        t1.append(&mut t2);
        proof {
            let pair = settle_full(old(self)@, i, target, fee, now, action, actor);
            assert(t1@ =~= pair.1);
        }
        t1
    }

    pub(crate) fn settle_graded(
        &mut self,
        i: u32,
        target: MilestoneStatus,
        fee: Option<FeeConfig>,
        now: u32,
        action: AuditAction,
        actor: Option<AccountId>,
    ) -> (ts: Vec<Transfer>)
        requires
            old(self)@.wf(),
            i < old(self)@.milestones.len(),
            old(self)@.in_grade_review(i as int),
            fee_ok(fee),
            old(self)@.settle_fits(i as int, now),
        ensures
            (final(self)@, ts@) == settle_graded(old(self)@, i, target, fee, now, action, actor),
    {
        proof {
            lemma_wf_bounds(self@);
        }
        let g = self.milestones[i as usize].grade.unwrap();
        let bps = self.quality_grades[g as usize];
        let piece = self.mark_settled(i as usize, target);
        let share = bps_share(piece, bps);
        let refund = piece - share;
        self.audit_log.push(audit_entry(action, actor, now, i, share));
        let mut t1 = self.pay_supplier(share, fee, now, i);
        if refund > 0 {
            t1.push(payout_to(self.token, self.buyers[0], refund));
        }
        proof {
            lemma_completes_after_settle(old(self)@, self@, i as int);
        }
        let mut t2 = self.complete_if_done(now);
        t1.append(&mut t2);
        proof {
            let pair = settle_graded(old(self)@, i, target, fee, now, action, actor);
            assert(t1@ =~= pair.1);
        }
        t1
    }

    pub(crate) fn finalize(&mut self, i: u32, fee: Option<FeeConfig>, now: u32, actor: Option<AccountId>) -> (ts: Vec<Transfer>)
        requires
            old(self)@.wf(),
            i < old(self)@.milestones.len(),
            fee_ok(fee),
            old(self)@.finalize_fits(i as int, now),
        ensures
            (final(self)@, ts@) == finalize(old(self)@, i, fee, now, actor),
    {
        if self.holdback_ledgers > 0 {
            proof {
                lemma_wf_bounds(self@);
            }
            let g = self.gross_at(i as usize);
            let rem = g - self.milestones[i as usize].released;
            let idx = i as usize;
            self.milestones[idx].status = MilestoneStatus::ConfirmedHeld;
            self.milestones[idx].release_after_ledger = now + self.holdback_ledgers;
            self.audit_log.push(audit_entry(AuditAction::PaymentHeld, actor, now, i, rem));
            proof {
                let m = old(self)@.milestones[i as int];
                assert(self@.milestones =~= old(self)@.milestones.update(
                    i as int,
                    MilestoneView {
                        status: MilestoneStatus::ConfirmedHeld,
                        release_after_ledger: (now + old(self)@.holdback_ledgers) as u32,
                        ..m
                    },
                ));
            }
            Vec::new()
        } else {
            self.settle_full(i, MilestoneStatus::Confirmed, fee, now, AuditAction::MilestoneConfirmed, actor)
        }
    }
}

} // verus!
