//! The operations on a funded shipment: proofs, confirmations, disputes,
//! cancellation and warranty.
use vstd::prelude::*;

verus! {

use crate::laws::{
    law_cancel, law_confirm, law_deadline, law_file_claim, law_graded, law_partial, law_raise,
    law_release, law_release_warranty, law_resolve, law_resolve_claim, law_submit_proof,
    law_withdraw, lemma_milestone_touch, lemma_last_approval, lemma_finalize_fits_same,
};
use crate::lemmas::{lemma_pro_rata_step, lemma_wf_bounds};
use crate::model::{
    pays_only_parties,
    all_zero, approved, audit, cancel_error, cancel_post, confirm_error, confirm_post,
    deadline_error, deadline_post, fee_ok, file_claim_error, file_claim_post, graded_error,
    graded_post, partial_error, partial_post, payout_if_positive, raise_error, raise_post,
    release_error, release_post, release_warranty_error, release_warranty_post,
    resolve_claim_error, resolve_claim_post, resolve_error, resolve_post, sound_step,
    submit_proof_error, submit_proof_post, withdraw_error, withdraw_post, confirm_fits,
    graded_fits, partial_fits, release_fits, resolve_fits,
};
use crate::settlement::{audit_entry, payout_to, pro_rata_share};
use crate::types::{
    AccountId, AuditAction, ChainSettleError, FeeConfig, MilestoneMode, MilestoneStatus,
    MilestoneView, Shipment, ShipmentStatus, Transfer, WarrantyClaim, FULL_GRADE_BPS,
};

impl Shipment {
    /// The supplier or the logistics party submits the proof for milestone `index`.
    pub fn submit_proof(&mut self, caller: AccountId, index: u32, proof_hash: Vec<u8>, now: u32) -> (r:
        Result<(), ChainSettleError>)
        requires
            old(self)@.wf(),
        ensures
            match r {
                Ok(()) => {
                    &&& submit_proof_error(old(self)@, caller, index, now) is None
                    &&& final(self)@ == submit_proof_post(
                        old(self)@,
                        caller,
                        index,
                        proof_hash@,
                        now,
                    )
                    &&& sound_step(old(self)@, final(self)@, seq![])
                },
                Err(e) => {
                    &&& submit_proof_error(old(self)@, caller, index, now) == Some(e)
                    &&& final(self)@ == old(self)@
                },
            },
    {
        if self.status != ShipmentStatus::Active {
            return Err(ChainSettleError::ShipmentNotActive);
        }
        if index as usize >= self.milestones.len() {
            return Err(ChainSettleError::InvalidMilestoneIndex);
        }
        let i = index as usize;
        if self.milestones[i].status != MilestoneStatus::Pending {
            return Err(ChainSettleError::InvalidMilestoneStatus);
        }
        if caller != self.supplier && caller != self.logistics {
            return Err(ChainSettleError::Unauthorized);
        }
        if self.milestone_mode == MilestoneMode::Sequential && index > 0 {
            let prev = self.milestones[i - 1].status;
            if prev != MilestoneStatus::Confirmed && prev != MilestoneStatus::Resolved {
                return Err(ChainSettleError::PreviousMilestoneNotComplete);
            }
        }
        if let Some(d) = self.milestones[i].deadline_ledger {
            if now > d {
                return Err(ChainSettleError::DeadlinePassed);
            }
        }
        self.milestones[i].proof_hash = proof_hash;
        self.milestones[i].status = MilestoneStatus::ProofSubmitted;
        self.audit_log.push(audit_entry(AuditAction::ProofSubmitted, Some(caller), now, index, 0));
        proof {
            let m = old(self)@.milestones[i as int];
            assert(self@.milestones =~= old(self)@.milestones.update(
                i as int,
                MilestoneView { proof_hash: proof_hash@, status: MilestoneStatus::ProofSubmitted, ..m },
            ));
            law_submit_proof(old(self)@, caller, index, proof_hash@, now);
        }
        Ok(())
    }

    /// A co-buyer confirms milestone `index`. Payment is due once every co-buyer has
    /// confirmed; it is held when the shipment has a holdback.
    pub fn confirm_milestone(
        &mut self,
        buyer: AccountId,
        index: u32,
        fee: Option<FeeConfig>,
        now: u32,
    ) -> (r: Result<Vec<Transfer>, ChainSettleError>)
        requires
            old(self)@.wf(),
            fee_ok(fee),
            confirm_fits(old(self)@, buyer, index, now),
        ensures
            match r {
                Ok(ts) => {
                    &&& confirm_error(old(self)@, buyer, index) is None
                    &&& (final(self)@, ts@) == confirm_post(old(self)@, buyer, index, fee, now)
                    &&& sound_step(old(self)@, final(self)@, ts@)
                    &&& pays_only_parties(old(self)@, fee, ts@)
                },
                Err(e) => {
                    &&& confirm_error(old(self)@, buyer, index) == Some(e)
                    &&& final(self)@ == old(self)@
                },
            },
    {
        if self.status != ShipmentStatus::Active {
            return Err(ChainSettleError::ShipmentNotActive);
        }
        if !self.is_buyer(buyer) {
            return Err(ChainSettleError::Unauthorized);
        }
        if index as usize >= self.milestones.len() {
            return Err(ChainSettleError::InvalidMilestoneIndex);
        }
        let i = index as usize;
        if self.milestones[i].status != MilestoneStatus::ProofSubmitted {
            return Err(ChainSettleError::ProofNotSubmitted);
        }
        if crate::settlement::contains_account(&self.milestones[i].approvals, buyer) {
            return Err(ChainSettleError::AlreadyApproved);
        }
        self.milestones[i].approvals.push(buyer);
        self.audit_log.push(audit_entry(AuditAction::MilestoneApproved, Some(buyer), now, index, 0));
        proof {
            let m = old(self)@.milestones[i as int];
            assert(self@.milestones =~= old(self)@.milestones.update(
                i as int,
                MilestoneView { approvals: m.approvals.push(buyer), ..m },
            ));
            assert(self@ == approved(old(self)@, buyer, index, now));
            law_confirm(old(self)@, buyer, index, fee, now);
            assert(old(self)@.milestone_wf(i as int));
            lemma_milestone_touch(
                old(self)@,
                i as int,
                MilestoneView { approvals: m.approvals.push(buyer), ..m },
                audit(AuditAction::MilestoneApproved, Some(buyer), now, index, 0),
            );
        }
        proof {
            lemma_last_approval(old(self)@, buyer, index, now);
        }
        if self.all_buyers_approved(i) {
            Ok(self.finalize(index, fee, now, Some(buyer)))
        } else {
            Ok(Vec::new())
        }
    }

    /// A buyer confirms delivery of `qty` units of a quantity-based milestone. The
    /// pro-rata share is paid at once; the unit that completes the milestone
    /// confirms it and settles the rest, rounding dust included.
    pub fn confirm_partial_quantity(
        &mut self,
        buyer: AccountId,
        index: u32,
        qty: u32,
        fee: Option<FeeConfig>,
        now: u32,
    ) -> (r: Result<Vec<Transfer>, ChainSettleError>)
        requires
            old(self)@.wf(),
            fee_ok(fee),
            partial_fits(old(self)@, buyer, index, qty, now),
        ensures
            match r {
                Ok(ts) => {
                    &&& partial_error(old(self)@, buyer, index, qty) is None
                    &&& (final(self)@, ts@) == partial_post(old(self)@, buyer, index, qty, fee, now)
                    &&& sound_step(old(self)@, final(self)@, ts@)
                    &&& pays_only_parties(old(self)@, fee, ts@)
                },
                Err(e) => {
                    &&& partial_error(old(self)@, buyer, index, qty) == Some(e)
                    &&& final(self)@ == old(self)@
                },
            },
    {
        if self.status != ShipmentStatus::Active {
            return Err(ChainSettleError::ShipmentNotActive);
        }
        if !self.is_buyer(buyer) {
            return Err(ChainSettleError::Unauthorized);
        }
        if index as usize >= self.milestones.len() {
            return Err(ChainSettleError::InvalidMilestoneIndex);
        }
        let i = index as usize;
        if self.milestones[i].status != MilestoneStatus::ProofSubmitted {
            return Err(ChainSettleError::ProofNotSubmitted);
        }
        let expected = self.milestones[i].expected_quantity;
        let delivered_before = self.milestones[i].delivered_quantity;
        if expected == 0 {
            return Err(ChainSettleError::NotQuantityBased);
        }
        if qty == 0 {
            return Err(ChainSettleError::ZeroQuantity);
        }
        proof {
            assert(old(self)@.milestone_wf(i as int));
            lemma_wf_bounds(old(self)@);
            assert(0 <= old(self)@.gross(i as int) <= old(self)@.total_amount);
        }
        if qty > expected - delivered_before {
            return Err(ChainSettleError::QuantityExceedsRemaining);
        }
        proof {
            law_partial(old(self)@, buyer, index, qty, fee, now);
        }
        let delivered = delivered_before + qty;
        let g = self.gross_at(i);
        if delivered == expected {
            let rem = g - self.milestones[i].released;
            self.milestones[i].delivered_quantity = delivered;
            self.audit_log.push(
                audit_entry(AuditAction::PartialQtyConfirmed, Some(buyer), now, index, rem),
            );
            proof {
                let m = old(self)@.milestones[i as int];
                let m1 = MilestoneView { delivered_quantity: delivered, ..m };
                assert(self@.milestones =~= old(self)@.milestones.update(i as int, m1));
                lemma_milestone_touch(
                    old(self)@,
                    i as int,
                    m1,
                    audit(AuditAction::PartialQtyConfirmed, Some(buyer), now, index, rem as int),
                );
                lemma_finalize_fits_same(old(self)@, self@, i as int, now);
            }
            Ok(self.finalize(index, fee, now, Some(buyer)))
        } else {
            let amt = pro_rata_share(g, qty, expected);
            proof {
                lemma_pro_rata_step(
                    g as int,
                    old(self)@.milestones[i as int].released as int,
                    delivered_before as int,
                    qty as int,
                    expected as int,
                );
            }
            let released_before = self.milestones[i].released;
            self.milestones[i].delivered_quantity = delivered;
            self.milestones[i].released = released_before + amt;
            self.released_amount = self.released_amount + amt;
            self.audit_log.push(
                audit_entry(AuditAction::PartialQtyConfirmed, Some(buyer), now, index, amt),
            );
            proof {
                let m = old(self)@.milestones[i as int];
                assert(self@.milestones =~= old(self)@.milestones.update(
                    i as int,
                    MilestoneView {
                        delivered_quantity: delivered,
                        released: (m.released + amt) as i128,
                        ..m
                    },
                ));
            }
            Ok(self.pay_supplier(amt, fee, now, index))
        }
    }
}


impl Shipment {
    /// A buyer confirms milestone `index` at quality grade `grade`. A full grade
    /// confirms as usual; a lower grade holds the payment for the review window,
    /// after which it settles at the grade's share.
    #[verifier::spinoff_prover]
    pub fn confirm_milestone_graded(
        &mut self,
        buyer: AccountId,
        index: u32,
        grade: u32,
        fee: Option<FeeConfig>,
        now: u32,
    ) -> (r: Result<Vec<Transfer>, ChainSettleError>)
        requires
            old(self)@.wf(),
            fee_ok(fee),
            graded_fits(old(self)@, buyer, index, grade, now),
        ensures
            match r {
                Ok(ts) => {
                    &&& graded_error(old(self)@, buyer, index, grade) is None
                    &&& (final(self)@, ts@) == graded_post(old(self)@, buyer, index, grade, fee, now)
                    &&& sound_step(old(self)@, final(self)@, ts@)
                    &&& pays_only_parties(old(self)@, fee, ts@)
                },
                Err(e) => {
                    &&& graded_error(old(self)@, buyer, index, grade) == Some(e)
                    &&& final(self)@ == old(self)@
                },
            },
    {
        if self.status != ShipmentStatus::Active {
            return Err(ChainSettleError::ShipmentNotActive);
        }
        if !self.is_buyer(buyer) {
            return Err(ChainSettleError::Unauthorized);
        }
        if index as usize >= self.milestones.len() {
            return Err(ChainSettleError::InvalidMilestoneIndex);
        }
        let i = index as usize;
        if self.milestones[i].status != MilestoneStatus::ProofSubmitted {
            return Err(ChainSettleError::ProofNotSubmitted);
        }
        if self.quality_grades.len() == 0 {
            return Err(ChainSettleError::GradesNotConfigured);
        }
        if grade as usize >= self.quality_grades.len() {
            return Err(ChainSettleError::InvalidGradeIndex);
        }
        proof {
            law_graded(old(self)@, buyer, index, grade, fee, now);
        }
        let bps = self.quality_grades[grade as usize];
        self.milestones[i].grade = Some(grade);
        self.audit_log.push(
            audit_entry(AuditAction::MilestoneGraded, Some(buyer), now, index, bps as i128),
        );
        let ghost m = old(self)@.milestones[i as int];
        let ghost e = audit(AuditAction::MilestoneGraded, Some(buyer), now, index, bps as int);
        proof {
            assert(self@.milestones =~= old(self)@.milestones.update(
                i as int,
                MilestoneView { grade: Some(grade), ..m },
            ));
            assert(old(self)@.milestone_wf(i as int));
            lemma_milestone_touch(old(self)@, i as int, MilestoneView { grade: Some(grade), ..m }, e);
            lemma_finalize_fits_same(old(self)@, self@, i as int, now);
        }
        if bps == FULL_GRADE_BPS {
            let ts = self.finalize(index, fee, now, Some(buyer));
            proof {
                assert((self@, ts@) == graded_post(old(self)@, buyer, index, grade, fee, now));
            }
            Ok(ts)
        } else {
            self.milestones[i].status = MilestoneStatus::ConfirmedHeld;
            self.milestones[i].release_after_ledger = now + self.review_window_ledgers;
            proof {
                assert(self@.milestones =~= old(self)@.milestones.update(
                    i as int,
                    MilestoneView {
                        grade: Some(grade),
                        status: MilestoneStatus::ConfirmedHeld,
                        release_after_ledger: (now + old(self)@.review_window_ledgers) as u32,
                        ..m
                    },
                ));
                assert((self@, Seq::<Transfer>::empty()) == graded_post(old(self)@, buyer, index, grade, fee, now));
            }
            Ok(Vec::new())
        }
    }

    /// Anyone releases a held payment once its holdback or review window is over.
    pub fn release_held_payment(&mut self, index: u32, fee: Option<FeeConfig>, now: u32) -> (r: Result<
        Vec<Transfer>,
        ChainSettleError,
    >)
        requires
            old(self)@.wf(),
            fee_ok(fee),
            release_fits(old(self)@, index, now),
        ensures
            match r {
                Ok(ts) => {
                    &&& release_error(old(self)@, index, now) is None
                    &&& (final(self)@, ts@) == release_post(old(self)@, index, fee, now)
                    &&& sound_step(old(self)@, final(self)@, ts@)
                    &&& pays_only_parties(old(self)@, fee, ts@)
                },
                Err(e) => {
                    &&& release_error(old(self)@, index, now) == Some(e)
                    &&& final(self)@ == old(self)@
                },
            },
    {
        if self.status != ShipmentStatus::Active {
            return Err(ChainSettleError::ShipmentNotActive);
        }
        if index as usize >= self.milestones.len() {
            return Err(ChainSettleError::InvalidMilestoneIndex);
        }
        let i = index as usize;
        if self.milestones[i].status != MilestoneStatus::ConfirmedHeld {
            return Err(ChainSettleError::NotHeld);
        }
        if now < self.milestones[i].release_after_ledger {
            return Err(ChainSettleError::HoldbackNotExpired);
        }
        proof {
            law_release(old(self)@, index, fee, now);
        }
        if self.grade_review_at(i) {
            Ok(self.settle_graded(index, MilestoneStatus::Confirmed, fee, now, AuditAction::GradeSettled, None))
        } else {
            Ok(
                self.settle_full(
                    index,
                    MilestoneStatus::Confirmed,
                    fee,
                    now,
                    AuditAction::HeldPaymentReleased,
                    None,
                ),
            )
        }
    }

    /// Disputes milestone `index`: a co-buyer disputes a submitted proof or a held
    /// payment; the supplier contests a grade below full within its review window.
    pub fn raise_dispute(&mut self, caller: AccountId, index: u32, now: u32) -> (r: Result<
        (),
        ChainSettleError,
    >)
        requires
            old(self)@.wf(),
        ensures
            match r {
                Ok(()) => {
                    &&& raise_error(old(self)@, caller, index, now) is None
                    &&& final(self)@ == raise_post(old(self)@, caller, index, now)
                    &&& sound_step(old(self)@, final(self)@, seq![])
                },
                Err(e) => {
                    &&& raise_error(old(self)@, caller, index, now) == Some(e)
                    &&& final(self)@ == old(self)@
                },
            },
    {
        if self.status != ShipmentStatus::Active {
            return Err(ChainSettleError::ShipmentNotActive);
        }
        let i = index as usize;
        let graded = i < self.milestones.len() && self.milestones[i].status
            == MilestoneStatus::ConfirmedHeld && self.grade_review_at(i);
        if graded {
            if caller != self.supplier {
                return Err(ChainSettleError::GradeDisputeSupplierOnly);
            }
            if now >= self.milestones[i].release_after_ledger {
                return Err(ChainSettleError::GradeReviewElapsed);
            }
        } else {
            if !self.is_buyer(caller) {
                return Err(ChainSettleError::Unauthorized);
            }
            if i >= self.milestones.len() {
                return Err(ChainSettleError::InvalidMilestoneIndex);
            }
            let st = self.milestones[i].status;
            if st != MilestoneStatus::ProofSubmitted && st != MilestoneStatus::ConfirmedHeld {
                return Err(ChainSettleError::CannotDisputeStatus);
            }
        }
        let action = if graded {
            AuditAction::GradeDisputed
        } else {
            AuditAction::DisputeRaised
        };
        self.milestones[i].status = MilestoneStatus::Disputed;
        self.milestones[i].release_after_ledger = 0;
        self.milestones[i].approvals = Vec::new();
        self.audit_log.push(audit_entry(action, Some(caller), now, index, 0));
        proof {
            let m = old(self)@.milestones[i as int];
            assert(self@.milestones =~= old(self)@.milestones.update(
                i as int,
                MilestoneView {
                    status: MilestoneStatus::Disputed,
                    release_after_ledger: 0,
                    approvals: seq![],
                    ..m
                },
            ));
            law_raise(old(self)@, caller, index, now);
        }
        Ok(())
    }

    /// The arbiter resolves a dispute: approval pays the milestone in full;
    /// rejection lets a contested grade stand, or otherwise resets the milestone
    /// to pending.
    pub fn resolve_dispute(
        &mut self,
        caller: AccountId,
        index: u32,
        approve: bool,
        fee: Option<FeeConfig>,
        now: u32,
    ) -> (r: Result<Vec<Transfer>, ChainSettleError>)
        requires
            old(self)@.wf(),
            fee_ok(fee),
            resolve_fits(old(self)@, caller, index, approve, now),
        ensures
            match r {
                Ok(ts) => {
                    &&& resolve_error(old(self)@, caller, index) is None
                    &&& (final(self)@, ts@) == resolve_post(old(self)@, caller, index, approve, fee, now)
                    &&& sound_step(old(self)@, final(self)@, ts@)
                    &&& pays_only_parties(old(self)@, fee, ts@)
                },
                Err(e) => {
                    &&& resolve_error(old(self)@, caller, index) == Some(e)
                    &&& final(self)@ == old(self)@
                },
            },
    {
        if self.status != ShipmentStatus::Active {
            return Err(ChainSettleError::ShipmentNotActive);
        }
        if caller != self.arbiter {
            return Err(ChainSettleError::Unauthorized);
        }
        if index as usize >= self.milestones.len() {
            return Err(ChainSettleError::InvalidMilestoneIndex);
        }
        let i = index as usize;
        if self.milestones[i].status != MilestoneStatus::Disputed {
            return Err(ChainSettleError::MilestoneNotDisputed);
        }
        proof {
            law_resolve(old(self)@, caller, index, approve, fee, now);
        }
        if approve {
            Ok(
                self.settle_full(
                    index,
                    MilestoneStatus::Resolved,
                    fee,
                    now,
                    AuditAction::DisputeResolved,
                    Some(caller),
                ),
            )
        } else if self.grade_review_at(i) {
            Ok(
                self.settle_graded(
                    index,
                    MilestoneStatus::Resolved,
                    fee,
                    now,
                    AuditAction::DisputeResolved,
                    Some(caller),
                ),
            )
        } else {
            self.milestones[i].status = MilestoneStatus::Pending;
            self.milestones[i].proof_hash = Vec::new();
            self.milestones[i].approvals = Vec::new();
            self.milestones[i].release_after_ledger = 0;
            self.milestones[i].grade = None;
            self.audit_log.push(audit_entry(AuditAction::DisputeResolved, Some(caller), now, index, 0));
            proof {
                let m = old(self)@.milestones[i as int];
                assert(self@.milestones =~= old(self)@.milestones.update(
                    i as int,
                    MilestoneView {
                        status: MilestoneStatus::Pending,
                        proof_hash: seq![],
                        approvals: seq![],
                        release_after_ledger: 0,
                        grade: None,
                        ..m
                    },
                ));
            }
            Ok(Vec::new())
        }
    }

    /// A co-buyer withdraws a dispute; the proof goes back to awaiting confirmation.
    /// A contested grade can only be settled by the arbiter.
    pub fn withdraw_dispute(&mut self, caller: AccountId, index: u32, now: u32) -> (r: Result<
        (),
        ChainSettleError,
    >)
        requires
            old(self)@.wf(),
        ensures
            match r {
                Ok(()) => {
                    &&& withdraw_error(old(self)@, caller, index) is None
                    &&& final(self)@ == withdraw_post(old(self)@, caller, index, now)
                    &&& sound_step(old(self)@, final(self)@, seq![])
                },
                Err(e) => {
                    &&& withdraw_error(old(self)@, caller, index) == Some(e)
                    &&& final(self)@ == old(self)@
                },
            },
    {
        if self.status != ShipmentStatus::Active {
            return Err(ChainSettleError::ShipmentNotActive);
        }
        if index as usize >= self.milestones.len() {
            return Err(ChainSettleError::InvalidMilestoneIndex);
        }
        let i = index as usize;
        if self.milestones[i].status != MilestoneStatus::Disputed {
            return Err(ChainSettleError::MilestoneNotDisputed);
        }
        if self.grade_review_at(i) {
            return Err(ChainSettleError::GradeDisputeArbiterOnly);
        }
        if !self.is_buyer(caller) {
            return Err(ChainSettleError::Unauthorized);
        }
        self.milestones[i].status = MilestoneStatus::ProofSubmitted;
        self.audit_log.push(audit_entry(AuditAction::DisputeWithdrawn, Some(caller), now, index, 0));
        proof {
            let m = old(self)@.milestones[i as int];
            assert(self@.milestones =~= old(self)@.milestones.update(
                i as int,
                MilestoneView { status: MilestoneStatus::ProofSubmitted, ..m },
            ));
            law_withdraw(old(self)@, caller, index, now);
        }
        Ok(())
    }

    /// Cancels the shipment and refunds everything it still holds (unreleased
    /// escrow, retainage and warranty) to the primary buyer.
    fn refund_and_cancel(&mut self, action: AuditAction, actor: Option<AccountId>, index: u32, now: u32) -> (ts: Vec<Transfer>)
        requires
            old(self)@.wf(),
            old(self).status == ShipmentStatus::Active,
        ensures
            (final(self)@, ts@) == crate::model::cancelled(
                old(self)@,
                audit(action, actor, now, index, old(self)@.refund_amount()),
            ),
    {
        proof {
            lemma_wf_bounds(self@);
        }
        let refund = self.total_amount - self.released_amount + self.retainage_balance
            + self.warranty_balance;
        let mut ts: Vec<Transfer> = Vec::new();
        if refund > 0 {
            ts.push(payout_to(self.token, self.buyers[0], refund));
        }
        let retained = self.retainage_balance;
        self.status = ShipmentStatus::Cancelled;
        self.retainage_balance = 0;
        self.warranty_balance = 0;
        self.audit_log.push(audit_entry(action, actor, now, index, refund));
        if retained > 0 {
            self.audit_log.push(
                audit_entry(AuditAction::RetainageRefunded, actor, now, index, retained),
            );
        }
        proof {
            assert(ts@ =~= payout_if_positive(self.token, self.buyers@[0], refund as int));
        }
        ts
    }

    /// A co-buyer cancels the shipment; blocked while a milestone is disputed.
    pub fn cancel_shipment(&mut self, caller: AccountId, now: u32) -> (r: Result<Vec<Transfer>, ChainSettleError>)
        requires
            old(self)@.wf(),
        ensures
            match r {
                Ok(ts) => {
                    &&& cancel_error(old(self)@, caller) is None
                    &&& (final(self)@, ts@) == cancel_post(old(self)@, caller, now)
                    &&& sound_step(old(self)@, final(self)@, ts@)
                    &&& pays_only_parties(old(self)@, None, ts@)
                },
                Err(e) => {
                    &&& cancel_error(old(self)@, caller) == Some(e)
                    &&& final(self)@ == old(self)@
                },
            },
    {
        if self.status != ShipmentStatus::Active {
            return Err(ChainSettleError::ShipmentNotActive);
        }
        if !self.is_buyer(caller) {
            return Err(ChainSettleError::Unauthorized);
        }
        if self.any_milestone_disputed() {
            return Err(ChainSettleError::DisputeMustBeResolved);
        }
        proof {
            law_cancel(old(self)@, caller, now);
        }
        Ok(self.refund_and_cancel(AuditAction::ShipmentCancelled, Some(caller), 0, now))
    }

    /// Anyone cancels the shipment once a pending milestone has missed its deadline.
    pub fn trigger_deadline_cancellation(&mut self, index: u32, now: u32) -> (r: Result<
        Vec<Transfer>,
        ChainSettleError,
    >)
        requires
            old(self)@.wf(),
        ensures
            match r {
                Ok(ts) => {
                    &&& deadline_error(old(self)@, index, now) is None
                    &&& (final(self)@, ts@) == deadline_post(old(self)@, index, now)
                    &&& sound_step(old(self)@, final(self)@, ts@)
                    &&& pays_only_parties(old(self)@, None, ts@)
                },
                Err(e) => {
                    &&& deadline_error(old(self)@, index, now) == Some(e)
                    &&& final(self)@ == old(self)@
                },
            },
    {
        if self.status != ShipmentStatus::Active {
            return Err(ChainSettleError::ShipmentNotActive);
        }
        if index as usize >= self.milestones.len() {
            return Err(ChainSettleError::InvalidMilestoneIndex);
        }
        let i = index as usize;
        if self.milestones[i].status != MilestoneStatus::Pending {
            return Err(ChainSettleError::MilestoneNotPending);
        }
        match self.milestones[i].deadline_ledger {
            None => {
                return Err(ChainSettleError::NoDeadline);
            },
            Some(d) => {
                if now <= d {
                    return Err(ChainSettleError::DeadlineNotBreached);
                }
            },
        }
        proof {
            law_deadline(old(self)@, index, now);
        }
        Ok(self.refund_and_cancel(AuditAction::DeadlineBreached, None, index, now))
    }

    /// A co-buyer files a warranty claim on a completed shipment before its warranty
    /// period ends.
    pub fn file_warranty_claim(&mut self, caller: AccountId, evidence: [u8; 32], now: u32) -> (r: Result<
        (),
        ChainSettleError,
    >)
        requires
            old(self)@.wf(),
        ensures
            match r {
                Ok(()) => {
                    &&& file_claim_error(old(self)@, caller, evidence@, now) is None
                    &&& final(self)@ == file_claim_post(old(self)@, caller, evidence@, now)
                    &&& sound_step(old(self)@, final(self)@, seq![])
                },
                Err(e) => {
                    &&& file_claim_error(old(self)@, caller, evidence@, now) == Some(e)
                    &&& final(self)@ == old(self)@
                },
            },
    {
        if self.status != ShipmentStatus::Completed {
            return Err(ChainSettleError::ShipmentNotCompleted);
        }
        if !self.is_buyer(caller) {
            return Err(ChainSettleError::Unauthorized);
        }
        let mut k: usize = 0;
        let mut zero = true;
        while k < 32
            invariant
                k <= 32,
                evidence@.len() == 32,
                zero <==> (forall|j: int| 0 <= j < k ==> evidence@[j] == 0),
            decreases 32 - k,
        {
            if evidence[k] != 0 {
                zero = false;
            }
            k = k + 1;
        }
        if zero {
            return Err(ChainSettleError::InvalidEvidence);
        }
        if self.warranty_claim.is_some() {
            return Err(ChainSettleError::WarrantyClaimOpen);
        }
        if now >= self.warranty_end_ledger {
            return Err(ChainSettleError::WarrantyPeriodEnded);
        }
        self.warranty_claim = Some(WarrantyClaim { buyer: caller, evidence, filed_at: now });
        self.audit_log.push(audit_entry(AuditAction::WarrantyClaimFiled, Some(caller), now, 0, 0));
        proof {
            law_file_claim(old(self)@, caller, evidence@, now);
        }
        Ok(())
    }

    /// The arbiter resolves the open warranty claim: upholding it refunds the
    /// warranty balance to the claimant; dismissing it leaves the balance for the
    /// supplier.
    pub fn resolve_warranty_claim(&mut self, caller: AccountId, uphold: bool, now: u32) -> (r: Result<
        Vec<Transfer>,
        ChainSettleError,
    >)
        requires
            old(self)@.wf(),
        ensures
            match r {
                Ok(ts) => {
                    &&& resolve_claim_error(old(self)@, caller) is None
                    &&& (final(self)@, ts@) == resolve_claim_post(old(self)@, caller, uphold, now)
                    &&& sound_step(old(self)@, final(self)@, ts@)
                    &&& pays_only_parties(old(self)@, None, ts@)
                },
                Err(e) => {
                    &&& resolve_claim_error(old(self)@, caller) == Some(e)
                    &&& final(self)@ == old(self)@
                },
            },
    {
        if self.status != ShipmentStatus::Completed {
            return Err(ChainSettleError::ShipmentNotCompleted);
        }
        let claimant = match &self.warranty_claim {
            Some(c) => c.buyer,
            None => {
                return Err(ChainSettleError::NoWarrantyClaim);
            },
        };
        if caller != self.arbiter {
            return Err(ChainSettleError::Unauthorized);
        }
        proof {
            law_resolve_claim(old(self)@, caller, uphold, now);
        }
        let mut ts: Vec<Transfer> = Vec::new();
        if uphold {
            let w = self.warranty_balance;
            if w > 0 {
                ts.push(payout_to(self.token, claimant, w));
            }
            self.warranty_balance = 0;
            self.warranty_claim = None;
            self.audit_log.push(audit_entry(AuditAction::WarrantyClaimResolved, Some(caller), now, 0, w));
            proof {
                assert(ts@ =~= payout_if_positive(self.token, claimant, w as int));
            }
        } else {
            self.warranty_claim = None;
            self.audit_log.push(audit_entry(AuditAction::WarrantyClaimResolved, Some(caller), now, 0, 0));
        }
        Ok(ts)
    }

    /// Anyone pays the warranty balance to the supplier once the warranty period
    /// has ended with no claim open.
    pub fn release_warranty(&mut self, now: u32) -> (r: Result<Vec<Transfer>, ChainSettleError>)
        requires
            old(self)@.wf(),
        ensures
            match r {
                Ok(ts) => {
                    &&& release_warranty_error(old(self)@, now) is None
                    &&& (final(self)@, ts@) == release_warranty_post(old(self)@, now)
                    &&& sound_step(old(self)@, final(self)@, ts@)
                    &&& pays_only_parties(old(self)@, None, ts@)
                },
                Err(e) => {
                    &&& release_warranty_error(old(self)@, now) == Some(e)
                    &&& final(self)@ == old(self)@
                },
            },
    {
        if self.status != ShipmentStatus::Completed {
            return Err(ChainSettleError::ShipmentNotCompleted);
        }
        if self.warranty_claim.is_some() {
            return Err(ChainSettleError::WarrantyClaimPending);
        }
        if self.warranty_balance == 0 {
            return Err(ChainSettleError::NoWarrantyBalance);
        }
        if now < self.warranty_end_ledger {
            return Err(ChainSettleError::WarrantyPeriodNotEnded);
        }
        proof {
            law_release_warranty(old(self)@, now);
        }
        let w = self.warranty_balance;
        let mut ts: Vec<Transfer> = Vec::new();
        if w > 0 {
            ts.push(payout_to(self.token, self.supplier, w));
        }
        self.warranty_balance = 0;
        self.audit_log.push(audit_entry(AuditAction::WarrantyReleased, None, now, 0, w));
        proof {
            assert(ts@ =~= payout_if_positive(self.token, self.supplier, w as int));
        }
        Ok(ts)
    }
}

} // verus!
