//! The ledger arithmetic an operation does on the path it takes: the release ledger
//! of a held payment, the end of a grade review and the end of the warranty. The
//! operations require it to stay within `u32`; these checks tell a caller whether
//! it does, before the call.
use vstd::prelude::*;

verus! {

use crate::model::{
    confirm_fits, graded_fits, is_done, partial_fits, release_fits, resolve_fits,
};
use crate::settlement::contains_account;
use crate::types::{AccountId, MilestoneStatus, Shipment, ShipmentStatus, FULL_GRADE_BPS};

/// `a + b` stays within `u32`.
fn sum_fits(a: u32, b: u32) -> (r: bool)
    ensures
        r == (a + b <= u32::MAX),
{
    a.checked_add(b).is_some()
}

impl Shipment {
    /// Every milestone but `i` is settled.
    fn completes_with_at(&self, i: usize) -> (b: bool)
        ensures
            b == self@.completes_with(i as int),
    {
        let mut k: usize = 0;
        while k < self.milestones.len()
            invariant
                k <= self.milestones@.len(),
                forall|j: int|
                    0 <= j < k && j != i ==> is_done(#[trigger] self@.milestones[j].status),
            decreases self.milestones@.len() - k,
        {
            if k != i {
                let st = self.milestones[k].status;
                if st != MilestoneStatus::Confirmed && st != MilestoneStatus::Resolved {
                    assert(!is_done(self@.milestones[k as int].status));
                    return false;
                }
            }
            k = k + 1;
        }
        true
    }

    fn settle_fits_at(&self, i: usize, now: u32) -> (b: bool)
        ensures
            b == self@.settle_fits(i as int, now),
    {
        !self.completes_with_at(i) || sum_fits(now, self.warranty_ledgers)
    }

    fn finalize_fits_at(&self, i: usize, now: u32) -> (b: bool)
        ensures
            b == self@.finalize_fits(i as int, now),
    {
        if self.holdback_ledgers > 0 {
            sum_fits(now, self.holdback_ledgers)
        } else {
            self.settle_fits_at(i, now)
        }
    }

    /// `buyer`'s approval is the last one milestone `i` waits for.
    fn last_approval_at(&self, buyer: AccountId, i: usize) -> (b: bool)
        requires
            i < self@.milestones.len(),
        ensures
            b == self@.last_approval(buyer, i as int),
    {
        let mut k: usize = 0;
        while k < self.buyers.len()
            invariant
                i < self@.milestones.len(),
                k <= self.buyers@.len(),
                forall|j: int|
                    0 <= j < k ==> #[trigger] self@.buyers[j] == buyer
                        || self@.milestones[i as int].approvals.contains(self@.buyers[j]),
            decreases self.buyers@.len() - k,
        {
            let b = self.buyers[k];
            if b != buyer && !contains_account(&self.milestones[i].approvals, b) {
                assert(!(self@.buyers[k as int] == buyer || self@.milestones[i as int].approvals.contains(
                    self@.buyers[k as int],
                )));
                return false;
            }
            k = k + 1;
        }
        true
    }

    /// Whether `confirm_milestone(buyer, index, _, now)` keeps its ledger
    /// arithmetic within `u32`, as it requires.
    pub fn confirm_ledgers_fit(&self, buyer: AccountId, index: u32, now: u32) -> (b: bool)
        ensures
            b == confirm_fits(self@, buyer, index, now),
    {
        let i = index as usize;
        if self.status != ShipmentStatus::Active || !self.is_buyer(buyer) || i
            >= self.milestones.len() {
            return true;
        }
        if self.milestones[i].status != MilestoneStatus::ProofSubmitted || contains_account(
            &self.milestones[i].approvals,
            buyer,
        ) {
            return true;
        }
        !self.last_approval_at(buyer, i) || self.finalize_fits_at(i, now)
    }

    /// Whether `confirm_partial_quantity(buyer, index, qty, _, now)` keeps its ledger
    /// arithmetic within `u32`, as it requires.
    pub fn partial_ledgers_fit(&self, buyer: AccountId, index: u32, qty: u32, now: u32) -> (b: bool)
        ensures
            b == partial_fits(self@, buyer, index, qty, now),
    {
        let i = index as usize;
        if self.status != ShipmentStatus::Active || !self.is_buyer(buyer) || i
            >= self.milestones.len() {
            return true;
        }
        let m = &self.milestones[i];
        if m.status != MilestoneStatus::ProofSubmitted || m.expected_quantity == 0 || qty == 0 {
            return true;
        }
        if m.delivered_quantity > m.expected_quantity || qty > m.expected_quantity
            - m.delivered_quantity {
            return true;
        }
        qty != m.expected_quantity - m.delivered_quantity || self.finalize_fits_at(i, now)
    }

    /// Whether `confirm_milestone_graded(buyer, index, grade, _, now)` keeps its
    /// ledger arithmetic within `u32`, as it requires.
    pub fn graded_ledgers_fit(&self, buyer: AccountId, index: u32, grade: u32, now: u32) -> (b: bool)
        ensures
            b == graded_fits(self@, buyer, index, grade, now),
    {
        let i = index as usize;
        if self.status != ShipmentStatus::Active || !self.is_buyer(buyer) || i
            >= self.milestones.len() {
            return true;
        }
        if self.milestones[i].status != MilestoneStatus::ProofSubmitted
            || self.quality_grades.len() == 0 || grade as usize >= self.quality_grades.len() {
            return true;
        }
        if self.quality_grades[grade as usize] == FULL_GRADE_BPS {
            self.finalize_fits_at(i, now)
        } else {
            sum_fits(now, self.review_window_ledgers)
        }
    }

    /// Whether `release_held_payment(index, _, now)` keeps its ledger arithmetic
    /// within `u32`, as it requires.
    pub fn release_ledgers_fit(&self, index: u32, now: u32) -> (b: bool)
        ensures
            b == release_fits(self@, index, now),
    {
        let i = index as usize;
        if self.status != ShipmentStatus::Active || i >= self.milestones.len() {
            return true;
        }
        if self.milestones[i].status != MilestoneStatus::ConfirmedHeld || now
            < self.milestones[i].release_after_ledger {
            return true;
        }
        self.settle_fits_at(i, now)
    }

    /// Whether `resolve_dispute(caller, index, approve, _, now)` keeps its ledger
    /// arithmetic within `u32`, as it requires.
    pub fn resolve_ledgers_fit(&self, caller: AccountId, index: u32, approve: bool, now: u32) -> (b: bool)
        ensures
            b == resolve_fits(self@, caller, index, approve, now),
    {
        let i = index as usize;
        if self.status != ShipmentStatus::Active || caller != self.arbiter || i
            >= self.milestones.len() {
            return true;
        }
        if self.milestones[i].status != MilestoneStatus::Disputed {
            return true;
        }
        !(approve || self.grade_review_at(i)) || self.settle_fits_at(i, now)
    }
}

} // verus!
