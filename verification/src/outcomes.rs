//! Laws on what the operations pay and to whom, and on the ledgers they set:
//! who funds and who is refunded, how a settled payment splits between treasury,
//! escrow and supplier, and when the review and warranty windows end.
use vstd::prelude::*;

verus! {

use crate::laws::{lemma_finalize_fits_same, lemma_settle_bound};
use crate::lemmas::{lemma_bps_bounds, lemma_paid_concat, lemma_paid_payout, lemma_wf_bounds};
use crate::model::{
    approved, bps_of, cancel_error, cancel_post, complete_if_done, confirm_error, confirm_fits,
    confirm_post, deadline_error, deadline_post, fee_ok, fee_part, finalize, graded_error,
    graded_fits, graded_post, is_done, paid_to, partial_error, partial_fits, partial_post,
    pay_supplier, payout_if_positive, raise_error, release_error, release_fits, release_post,
    resolve_error, resolve_fits, resolve_post, settle_full, settle_graded, settled_milestone,
};
use crate::types::{
    AccountId, AuditAction, ChainSettleError, FeeConfig, MilestoneStatus, MilestoneView,
    ShipmentStatus, ShipmentView, Transfer, FULL_GRADE_BPS,
};

/// The fee in force is paid to `a`.
pub open spec fn treasury_is(fee: Option<FeeConfig>, a: AccountId) -> bool {
    match fee {
        Some(c) => c.treasury == a,
        None => false,
    }
}

/// After milestone `i` is settled and nothing else changes, every milestone is
/// settled exactly when all but `i` already were.
proof fn lemma_all_done_after(s: ShipmentView, t: ShipmentView, i: int)
    requires
        0 <= i < s.milestones.len(),
        t.milestones.len() == s.milestones.len(),
        is_done(t.milestones[i].status),
        forall|j: int|
            0 <= j < s.milestones.len() && j != i ==> t.milestones[j].status
                == s.milestones[j].status,
    ensures
        t.all_done() == s.completes_with(i),
{
    if t.all_done() {
        assert forall|j: int| 0 <= j < s.milestones.len() && j != i implies is_done(
            #[trigger] s.milestones[j].status,
        ) by {
            assert(is_done(t.milestones[j].status));
        }
    }
    if s.completes_with(i) {
        assert forall|j: int| 0 <= j < t.milestones.len() implies is_done(
            #[trigger] t.milestones[j].status,
        ) by {
            if j != i {
                assert(is_done(s.milestones[j].status));
            }
        }
    }
}

/// Settling milestone `i` in full releases its unpaid gross `g`: the treasury gets
/// the fee `f`; of the net, the retainage and warranty shares stay in escrow and the
/// supplier gets the rest. When it completes the shipment, the supplier also gets
/// all the retainage and the warranty period starts at `now`.
pub proof fn lemma_settle_full_pays(
    s: ShipmentView,
    i: u32,
    target: MilestoneStatus,
    fee: Option<FeeConfig>,
    now: u32,
    action: AuditAction,
    actor: Option<AccountId>,
)
    requires
        s.wf(),
        i < s.milestones.len(),
        is_done(target),
        fee_ok(fee),
    ensures
        ({
            let (t, ts) = settle_full(s, i, target, fee, now, action, actor);
            let g = s.remainder(i as int);
            let f = fee_part(fee, g);
            let held = bps_of(g - f, s.retainage_bps as int);
            let war = bps_of(g - f, s.warranty_bps as int);
            &&& t.released_amount == s.released_amount + g
            &&& t.milestones[i as int].status == target
            &&& t.warranty_balance == s.warranty_balance + war
            &&& (fee matches Some(c) ==> (c.treasury != s.supplier ==> paid_to(ts, c.treasury) == f))
            &&& if s.completes_with(i as int) {
                &&& t.status == ShipmentStatus::Completed
                &&& t.retainage_balance == 0
                &&& t.warranty_end_ledger == (now + s.warranty_ledgers) as u32
                &&& (!treasury_is(fee, s.supplier) ==> paid_to(ts, s.supplier)
                    == g - f - held - war + s.retainage_balance + held)
            } else {
                &&& t.status == s.status
                &&& t.retainage_balance == s.retainage_balance + held
                &&& t.warranty_end_ledger == s.warranty_end_ledger
                &&& (!treasury_is(fee, s.supplier) ==> paid_to(ts, s.supplier)
                    == g - f - held - war)
            }
        }),
{
    let ii = i as int;
    lemma_wf_bounds(s);
    assert(s.milestone_wf(ii));
    lemma_settle_bound(s, ii, target);
    let g = s.remainder(ii);
    let s2 = ShipmentView {
        released_amount: (s.released_amount + g) as i128,
        ..s.with_milestone(ii, settled_milestone(s, ii, target))
    }.log(crate::model::audit(action, actor, now, i, g));
    let f = fee_part(fee, g);
    match fee {
        Some(c) => {
            lemma_bps_bounds(g, c.fee_bps as int);
        },
        None => {},
    }
    let net = g - f;
    lemma_bps_bounds(net, s.retainage_bps as int);
    lemma_bps_bounds(net, s.warranty_bps as int);
    let held = bps_of(net, s.retainage_bps as int);
    let war = bps_of(net, s.warranty_bps as int);
    assert(held + war <= net) by (nonlinear_arith)
        requires
            10000 * held <= net * s.retainage_bps,
            10000 * war <= net * s.warranty_bps,
            s.retainage_bps <= 2000,
            s.warranty_bps <= 2000,
            0 <= net,
    ;
    let sup = net - held - war;
    let (s3, t1) = pay_supplier(s2, g, fee, now, i);
    let (s4, t2) = complete_if_done(s3, now);
    lemma_all_done_after(s, s3, ii);
    lemma_paid_concat(t1, t2, s.supplier);
    lemma_paid_payout(s.token, s.supplier, sup, s.supplier);
    lemma_paid_payout(s.token, s.supplier, s3.retainage_balance as int, s.supplier);
    match fee {
        Some(c) => {
            lemma_paid_concat(t1, t2, c.treasury);
            lemma_paid_payout(s.token, s.supplier, sup, c.treasury);
            lemma_paid_payout(s.token, c.treasury, f, c.treasury);
            lemma_paid_payout(s.token, c.treasury, f, s.supplier);
            lemma_paid_payout(s.token, s.supplier, s3.retainage_balance as int, c.treasury);
            lemma_paid_concat(
                payout_if_positive(s.token, s.supplier, sup),
                payout_if_positive(s.token, c.treasury, f),
                s.supplier,
            );
            lemma_paid_concat(
                payout_if_positive(s.token, s.supplier, sup),
                payout_if_positive(s.token, c.treasury, f),
                c.treasury,
            );
        },
        None => {
            assert(t1 =~= payout_if_positive(s.token, s.supplier, sup));
        },
    }
    if !s3.all_done() {
        assert(t2 =~= Seq::<Transfer>::empty());
        assert(paid_to(t2, s.supplier) == 0);
        match fee {
            Some(c) => {
                assert(paid_to(t2, c.treasury) == 0);
            },
            None => {},
        }
    }
}


/// Settling milestone `i` at its grade completes the shipment exactly when every
/// other milestone is settled, and then starts the warranty period at `now`.
pub proof fn lemma_settle_graded_end(
    s: ShipmentView,
    i: u32,
    target: MilestoneStatus,
    fee: Option<FeeConfig>,
    now: u32,
    action: AuditAction,
    actor: Option<AccountId>,
)
    requires
        s.wf(),
        s.status == ShipmentStatus::Active,
        i < s.milestones.len(),
        is_done(target),
    ensures
        ({
            let t = settle_graded(s, i, target, fee, now, action, actor).0;
            &&& (t.status == ShipmentStatus::Completed) == s.completes_with(i as int)
            &&& t.status != ShipmentStatus::Completed ==> t.status == s.status
            &&& t.status == ShipmentStatus::Completed ==> t.warranty_end_ledger == (now
                + s.warranty_ledgers) as u32
        }),
{
    let ii = i as int;
    let piece = s.remainder(ii);
    let share = bps_of(piece, s.grade_bps(ii));
    let s2 = ShipmentView {
        released_amount: (s.released_amount + piece) as i128,
        ..s.with_milestone(ii, settled_milestone(s, ii, target))
    }.log(crate::model::audit(action, actor, now, i, share));
    let s3 = pay_supplier(s2, share, fee, now, i).0;
    lemma_all_done_after(s, s3, ii);
}

/// Confirming milestone `i` completes the shipment exactly when it pays at once
/// (no holdback) and every other milestone is settled; the warranty period then
/// starts at `now`.
pub proof fn lemma_finalize_end(
    s: ShipmentView,
    i: u32,
    fee: Option<FeeConfig>,
    now: u32,
    actor: Option<AccountId>,
)
    requires
        s.wf(),
        s.status == ShipmentStatus::Active,
        i < s.milestones.len(),
        fee_ok(fee),
    ensures
        ({
            let t = finalize(s, i, fee, now, actor).0;
            &&& (t.status == ShipmentStatus::Completed) == (s.holdback_ledgers == 0
                && s.completes_with(i as int))
            &&& t.status != ShipmentStatus::Completed ==> t.status == s.status
            &&& t.status == ShipmentStatus::Completed ==> t.warranty_end_ledger == (now
                + s.warranty_ledgers) as u32
        }),
{
    if s.holdback_ledgers == 0 {
        lemma_settle_full_pays(
            s,
            i,
            MilestoneStatus::Confirmed,
            fee,
            now,
            AuditAction::MilestoneConfirmed,
            actor,
        );
    }
}

// ------------------------------------------------------------------
// Funding and refunds
// ------------------------------------------------------------------

/// Law: a co-buyer's cancellation refunds everything the shipment still holds
/// (unreleased escrow, retainage and warranty) to the primary buyer, who funded it,
/// and pays nobody else, whichever co-buyer cancels.
pub proof fn law_cancel_refunds_primary(s: ShipmentView, caller: AccountId, now: u32, a: AccountId)
    requires
        s.wf(),
        cancel_error(s, caller) is None,
    ensures
        ({
            let (t, ts) = cancel_post(s, caller, now);
            &&& paid_to(ts, s.buyers[0]) == s.total_amount - s.released_amount
                + s.retainage_balance + s.warranty_balance
            &&& paid_to(ts, s.buyers[0]) == s.escrowed()
            &&& (a != s.buyers[0] ==> paid_to(ts, a) == 0)
            &&& forall|k: int|
                0 <= k < ts.len() ==> (#[trigger] ts[k]).counterparty == s.buyers[0]
                    && !ts[k].into_escrow
            &&& t.status == ShipmentStatus::Cancelled
            &&& t.escrowed() == 0
        }),
{
    lemma_wf_bounds(s);
    let r = s.refund_amount();
    lemma_paid_payout(s.token, s.buyers[0], r, s.buyers[0]);
    lemma_paid_payout(s.token, s.buyers[0], r, a);
}

/// Law: a deadline cancellation refunds everything the shipment still holds to the
/// primary buyer and pays nobody else.
pub proof fn law_deadline_refunds_primary(s: ShipmentView, i: u32, now: u32, a: AccountId)
    requires
        s.wf(),
        deadline_error(s, i, now) is None,
    ensures
        ({
            let (t, ts) = deadline_post(s, i, now);
            &&& paid_to(ts, s.buyers[0]) == s.escrowed()
            &&& (a != s.buyers[0] ==> paid_to(ts, a) == 0)
            &&& forall|k: int|
                0 <= k < ts.len() ==> (#[trigger] ts[k]).counterparty == s.buyers[0]
                    && !ts[k].into_escrow
            &&& t.status == ShipmentStatus::Cancelled
        }),
{
    lemma_wf_bounds(s);
    let r = s.refund_amount();
    lemma_paid_payout(s.token, s.buyers[0], r, s.buyers[0]);
    lemma_paid_payout(s.token, s.buyers[0], r, a);
}

// ------------------------------------------------------------------
// How settled payments split
// ------------------------------------------------------------------

/// Law: releasing a held payment that is not under grade review pays the milestone's
/// unpaid gross `g` as a confirmation does: the treasury gets the protocol fee of
/// `g`, the retainage and warranty shares of the net stay in escrow, and the
/// supplier gets the rest, plus all the retainage when the release completes the
/// shipment.
pub proof fn law_release_payment(s: ShipmentView, i: u32, fee: Option<FeeConfig>, now: u32)
    requires
        s.wf(),
        release_error(s, i, now) is None,
        !s.in_grade_review(i as int),
        fee_ok(fee),
    ensures
        ({
            let (t, ts) = release_post(s, i, fee, now);
            let g = s.remainder(i as int);
            let f = fee_part(fee, g);
            let held = bps_of(g - f, s.retainage_bps as int);
            let war = bps_of(g - f, s.warranty_bps as int);
            &&& t.released_amount == s.released_amount + g
            &&& t.milestones[i as int].status == MilestoneStatus::Confirmed
            &&& t.warranty_balance == s.warranty_balance + war
            &&& (fee matches Some(c) ==> (c.treasury != s.supplier ==> paid_to(ts, c.treasury)
                == f))
            &&& (fee matches Some(c) ==> (c.fee_bps > 0 && g >= 10000 ==> f > 0))
            &&& if s.completes_with(i as int) {
                &&& t.status == ShipmentStatus::Completed
                &&& t.retainage_balance == 0
                &&& (!treasury_is(fee, s.supplier) ==> paid_to(ts, s.supplier) == g - f - war
                    + s.retainage_balance)
            } else {
                &&& t.status == ShipmentStatus::Active
                &&& t.retainage_balance == s.retainage_balance + held
                &&& (!treasury_is(fee, s.supplier) ==> paid_to(ts, s.supplier) == g - f - held
                    - war)
            }
        }),
{
    lemma_settle_full_pays(
        s,
        i,
        MilestoneStatus::Confirmed,
        fee,
        now,
        AuditAction::HeldPaymentReleased,
        None,
    );
    match fee {
        Some(c) => {
            let g = s.remainder(i as int);
            if c.fee_bps > 0 && g >= 10000 {
                assert(g * c.fee_bps >= 10000) by (nonlinear_arith)
                    requires
                        c.fee_bps >= 1,
                        g >= 10000,
                ;
            }
        },
        None => {},
    }
}

/// Law: an arbiter's approval of a disputed milestone pays its unpaid gross `g`
/// the same way: the fee of `g` to the treasury, the retainage and warranty shares
/// of the net into escrow, the rest to the supplier.
pub proof fn law_resolve_payment(s: ShipmentView, caller: AccountId, i: u32, fee: Option<FeeConfig>, now: u32)
    requires
        s.wf(),
        resolve_error(s, caller, i) is None,
        fee_ok(fee),
    ensures
        ({
            let (t, ts) = resolve_post(s, caller, i, true, fee, now);
            let g = s.remainder(i as int);
            let f = fee_part(fee, g);
            let held = bps_of(g - f, s.retainage_bps as int);
            let war = bps_of(g - f, s.warranty_bps as int);
            &&& t.released_amount == s.released_amount + g
            &&& t.milestones[i as int].status == MilestoneStatus::Resolved
            &&& t.warranty_balance == s.warranty_balance + war
            &&& (fee matches Some(c) ==> (c.treasury != s.supplier ==> paid_to(ts, c.treasury)
                == f))
            &&& if s.completes_with(i as int) {
                &&& t.status == ShipmentStatus::Completed
                &&& t.retainage_balance == 0
                &&& (!treasury_is(fee, s.supplier) ==> paid_to(ts, s.supplier) == g - f - war
                    + s.retainage_balance)
            } else {
                &&& t.status == ShipmentStatus::Active
                &&& t.retainage_balance == s.retainage_balance + held
                &&& (!treasury_is(fee, s.supplier) ==> paid_to(ts, s.supplier) == g - f - held
                    - war)
            }
        }),
{
    lemma_settle_full_pays(
        s,
        i,
        MilestoneStatus::Resolved,
        fee,
        now,
        AuditAction::DisputeResolved,
        Some(caller),
    );
}

// ------------------------------------------------------------------
// Windows: the grade review and the warranty period
// ------------------------------------------------------------------

/// Law: a graded confirmation below the full grade holds the milestone and pays
/// nothing; for `review_window_ledgers` ledgers from the grading the supplier may
/// contest the grade and the payment cannot be released, and from then on the
/// payment can be released and the grade no longer contested.
pub proof fn law_graded_review(
    s: ShipmentView,
    buyer: AccountId,
    i: u32,
    grade: u32,
    fee: Option<FeeConfig>,
    now: u32,
    later: u32,
)
    requires
        s.wf(),
        graded_error(s, buyer, i, grade) is None,
        s.quality_grades[grade as int] < FULL_GRADE_BPS,
        graded_fits(s, buyer, i, grade, now),
        now <= later,
    ensures
        ({
            let (t, ts) = graded_post(s, buyer, i, grade, fee, now);
            &&& ts.len() == 0
            &&& t.released_amount == s.released_amount
            &&& t.milestones[i as int].status == MilestoneStatus::ConfirmedHeld
            &&& t.milestones[i as int].grade == Some(grade)
            &&& t.milestones[i as int].release_after_ledger == now + s.review_window_ledgers
            &&& (later < now + s.review_window_ledgers ==> {
                &&& raise_error(t, s.supplier, i, later) is None
                &&& release_error(t, i, later) == Some(ChainSettleError::HoldbackNotExpired)
            })
            &&& (later >= now + s.review_window_ledgers ==> {
                &&& raise_error(t, s.supplier, i, later) == Some(
                    ChainSettleError::GradeReviewElapsed,
                )
                &&& release_error(t, i, later) is None
            })
        }),
{
    let t = graded_post(s, buyer, i, grade, fee, now).0;
    assert(t.in_grade_review(i as int));
}

/// Law: a buyer's confirmation that completes the shipment starts the warranty
/// period at that ledger: it ends `warranty_ledgers` after `now`. It completes the
/// shipment exactly when it is the last approval, there is no holdback and every
/// other milestone is settled.
pub proof fn law_confirm_starts_warranty(s: ShipmentView, buyer: AccountId, i: u32, fee: Option<FeeConfig>, now: u32)
    requires
        s.wf(),
        confirm_error(s, buyer, i) is None,
        confirm_fits(s, buyer, i, now),
        fee_ok(fee),
    ensures
        ({
            let t = confirm_post(s, buyer, i, fee, now).0;
            &&& (t.status == ShipmentStatus::Completed) == (s.last_approval(buyer, i as int)
                && s.holdback_ledgers == 0 && s.completes_with(i as int))
            &&& t.status != ShipmentStatus::Completed ==> t.status == ShipmentStatus::Active
            &&& t.status == ShipmentStatus::Completed ==> t.warranty_end_ledger == now
                + s.warranty_ledgers
        }),
{
    crate::laws::lemma_last_approval(s, buyer, i, now);
    let s1 = approved(s, buyer, i, now);
    lemma_wf_bounds(s);
    let m = s.milestones[i as int];
    assert(s.milestone_wf(i as int));
    crate::laws::lemma_milestone_touch(
        s,
        i as int,
        MilestoneView { approvals: m.approvals.push(buyer), ..m },
        crate::model::audit(AuditAction::MilestoneApproved, Some(buyer), now, i, 0),
    );
    if s1.all_approved(i as int) {
        lemma_finalize_end(s1, i, fee, now, Some(buyer));
    }
}


/// Law: a partial-quantity confirmation that completes the shipment (it delivers
/// the last units of the last open milestone) starts the warranty period at that
/// ledger.
pub proof fn law_partial_starts_warranty(
    s: ShipmentView,
    buyer: AccountId,
    i: u32,
    qty: u32,
    fee: Option<FeeConfig>,
    now: u32,
)
    requires
        s.wf(),
        partial_error(s, buyer, i, qty) is None,
        partial_fits(s, buyer, i, qty, now),
        fee_ok(fee),
    ensures
        ({
            let t = partial_post(s, buyer, i, qty, fee, now).0;
            &&& t.status != ShipmentStatus::Completed ==> t.status == ShipmentStatus::Active
            &&& t.status == ShipmentStatus::Completed ==> t.warranty_end_ledger == now
                + s.warranty_ledgers
        }),
{
    let ii = i as int;
    let m = s.milestones[ii];
    assert(s.milestone_wf(ii));
    lemma_wf_bounds(s);
    let delivered = m.delivered_quantity + qty;
    if delivered == m.expected_quantity {
        let m1 = MilestoneView { delivered_quantity: delivered as u32, ..m };
        let e = crate::model::audit(
            AuditAction::PartialQtyConfirmed,
            Some(buyer),
            now,
            i,
            s.remainder(ii),
        );
        crate::laws::lemma_milestone_touch(s, ii, m1, e);
        let s1 = s.with_milestone(ii, m1).log(e);
        lemma_finalize_fits_same(s, s1, ii, now);
        lemma_finalize_end(s1, i, fee, now, Some(buyer));
    }
}

/// Law: a graded confirmation that completes the shipment (a full grade on the last
/// open milestone, with no holdback) starts the warranty period at that ledger.
pub proof fn law_graded_starts_warranty(
    s: ShipmentView,
    buyer: AccountId,
    i: u32,
    grade: u32,
    fee: Option<FeeConfig>,
    now: u32,
)
    requires
        s.wf(),
        graded_error(s, buyer, i, grade) is None,
        graded_fits(s, buyer, i, grade, now),
        fee_ok(fee),
    ensures
        ({
            let t = graded_post(s, buyer, i, grade, fee, now).0;
            &&& t.status != ShipmentStatus::Completed ==> t.status == ShipmentStatus::Active
            &&& t.status == ShipmentStatus::Completed ==> t.warranty_end_ledger == now
                + s.warranty_ledgers
        }),
{
    let ii = i as int;
    let m = s.milestones[ii];
    assert(s.milestone_wf(ii));
    let bps = s.quality_grades[grade as int];
    let e = crate::model::audit(AuditAction::MilestoneGraded, Some(buyer), now, i, bps as int);
    let m1 = MilestoneView { grade: Some(grade), ..m };
    crate::laws::lemma_milestone_touch(s, ii, m1, e);
    let s1 = s.with_milestone(ii, m1).log(e);
    if bps == FULL_GRADE_BPS {
        lemma_finalize_fits_same(s, s1, ii, now);
        lemma_finalize_end(s1, i, fee, now, Some(buyer));
    }
}

/// Law: releasing a held payment that completes the shipment starts the warranty
/// period at that ledger; it completes the shipment exactly when every other
/// milestone is settled.
pub proof fn law_release_starts_warranty(s: ShipmentView, i: u32, fee: Option<FeeConfig>, now: u32)
    requires
        s.wf(),
        release_error(s, i, now) is None,
        release_fits(s, i, now),
        fee_ok(fee),
    ensures
        ({
            let t = release_post(s, i, fee, now).0;
            &&& (t.status == ShipmentStatus::Completed) == s.completes_with(i as int)
            &&& t.status != ShipmentStatus::Completed ==> t.status == ShipmentStatus::Active
            &&& t.status == ShipmentStatus::Completed ==> t.warranty_end_ledger == now
                + s.warranty_ledgers
        }),
{
    if s.in_grade_review(i as int) {
        lemma_settle_graded_end(
            s,
            i,
            MilestoneStatus::Confirmed,
            fee,
            now,
            AuditAction::GradeSettled,
            None,
        );
    } else {
        lemma_settle_full_pays(
            s,
            i,
            MilestoneStatus::Confirmed,
            fee,
            now,
            AuditAction::HeldPaymentReleased,
            None,
        );
    }
}

/// Law: an arbiter's resolution that completes the shipment starts the warranty
/// period at that ledger. A rejection that sends the milestone back to pending
/// never completes it.
pub proof fn law_resolve_starts_warranty(
    s: ShipmentView,
    caller: AccountId,
    i: u32,
    approve: bool,
    fee: Option<FeeConfig>,
    now: u32,
)
    requires
        s.wf(),
        resolve_error(s, caller, i) is None,
        resolve_fits(s, caller, i, approve, now),
        fee_ok(fee),
    ensures
        ({
            let t = resolve_post(s, caller, i, approve, fee, now).0;
            &&& (approve || s.in_grade_review(i as int)) ==> (t.status
                == ShipmentStatus::Completed) == s.completes_with(i as int)
            &&& t.status != ShipmentStatus::Completed ==> t.status == ShipmentStatus::Active
            &&& t.status == ShipmentStatus::Completed ==> t.warranty_end_ledger == now
                + s.warranty_ledgers
        }),
{
    if approve {
        lemma_settle_full_pays(
            s,
            i,
            MilestoneStatus::Resolved,
            fee,
            now,
            AuditAction::DisputeResolved,
            Some(caller),
        );
    } else if s.in_grade_review(i as int) {
        lemma_settle_graded_end(
            s,
            i,
            MilestoneStatus::Resolved,
            fee,
            now,
            AuditAction::DisputeResolved,
            Some(caller),
        );
    }
}


// ------------------------------------------------------------------
// More payment laws
// ------------------------------------------------------------------

/// Paying `amount` towards the supplier: the treasury gets the fee `f` of it; of
/// the net, the retainage and warranty shares stay in escrow and the supplier gets
/// the rest; nobody else is paid.
pub proof fn lemma_pay_supplier_pays(s: ShipmentView, amount: int, fee: Option<FeeConfig>, now: u32, i: u32, a: AccountId)
    requires
        0 <= amount <= crate::types::MAX_SHIPMENT_VALUE,
        fee_ok(fee),
        s.retainage_bps <= crate::types::MAX_RETAINAGE_BPS,
        s.warranty_bps <= crate::types::MAX_WARRANTY_BPS,
        0 <= s.retainage_balance,
        0 <= s.warranty_balance,
        s.retainage_balance + s.warranty_balance + amount <= crate::types::MAX_SHIPMENT_VALUE,
    ensures
        ({
            let (t, ts) = pay_supplier(s, amount, fee, now, i);
            let f = fee_part(fee, amount);
            let held = bps_of(amount - f, s.retainage_bps as int);
            let war = bps_of(amount - f, s.warranty_bps as int);
            &&& 0 <= f <= amount
            &&& 0 <= held && 0 <= war && held + war <= amount - f
            &&& t.retainage_balance == s.retainage_balance + held
            &&& t.warranty_balance == s.warranty_balance + war
            &&& t.status == s.status
            &&& t.milestones == s.milestones
            &&& t.released_amount == s.released_amount
            &&& (!treasury_is(fee, s.supplier) ==> paid_to(ts, s.supplier) == amount - f - held - war)
            &&& (fee matches Some(c) ==> (c.treasury != s.supplier ==> paid_to(ts, c.treasury) == f))
            &&& (a != s.supplier && !treasury_is(fee, a) ==> paid_to(ts, a) == 0)
        }),
{
    let f = fee_part(fee, amount);
    match fee {
        Some(c) => {
            lemma_bps_bounds(amount, c.fee_bps as int);
        },
        None => {},
    }
    let net = amount - f;
    lemma_bps_bounds(net, s.retainage_bps as int);
    lemma_bps_bounds(net, s.warranty_bps as int);
    let held = bps_of(net, s.retainage_bps as int);
    let war = bps_of(net, s.warranty_bps as int);
    assert(held + war <= net) by (nonlinear_arith)
        requires
            10000 * held <= net * s.retainage_bps,
            10000 * war <= net * s.warranty_bps,
            s.retainage_bps <= 2000,
            s.warranty_bps <= 2000,
            0 <= net,
    ;
    let sup = net - held - war;
    let t1 = pay_supplier(s, amount, fee, now, i).1;
    lemma_paid_payout(s.token, s.supplier, sup, s.supplier);
    lemma_paid_payout(s.token, s.supplier, sup, a);
    match fee {
        Some(c) => {
            lemma_paid_payout(s.token, s.supplier, sup, c.treasury);
            lemma_paid_payout(s.token, c.treasury, f, c.treasury);
            lemma_paid_payout(s.token, c.treasury, f, s.supplier);
            lemma_paid_payout(s.token, c.treasury, f, a);
            lemma_paid_concat(
                payout_if_positive(s.token, s.supplier, sup),
                payout_if_positive(s.token, c.treasury, f),
                s.supplier,
            );
            lemma_paid_concat(
                payout_if_positive(s.token, s.supplier, sup),
                payout_if_positive(s.token, c.treasury, f),
                c.treasury,
            );
            lemma_paid_concat(
                payout_if_positive(s.token, s.supplier, sup),
                payout_if_positive(s.token, c.treasury, f),
                a,
            );
        },
        None => {
            assert(t1 =~= payout_if_positive(s.token, s.supplier, sup));
        },
    }
}

/// Law: a partial-quantity confirmation that leaves units outstanding releases the
/// pro-rata share `p = gross * qty / expected` (rounded down) and pays it as any
/// other payment: the fee of `p` to the treasury, the retainage and warranty shares
/// of the net into escrow, the rest to the supplier, and nobody else.
pub proof fn law_partial_payment(
    s: ShipmentView,
    buyer: AccountId,
    i: u32,
    qty: u32,
    fee: Option<FeeConfig>,
    now: u32,
    a: AccountId,
)
    requires
        s.wf(),
        partial_error(s, buyer, i, qty) is None,
        s.milestones[i as int].delivered_quantity + qty < s.milestones[i as int].expected_quantity,
        fee_ok(fee),
    ensures
        ({
            let (t, ts) = partial_post(s, buyer, i, qty, fee, now);
            let m = s.milestones[i as int];
            let p = s.gross(i as int) * qty / (m.expected_quantity as int);
            let f = fee_part(fee, p);
            let held = bps_of(p - f, s.retainage_bps as int);
            let war = bps_of(p - f, s.warranty_bps as int);
            &&& t.released_amount == s.released_amount + p
            &&& t.milestones[i as int].released == m.released + p
            &&& t.milestones[i as int].delivered_quantity == m.delivered_quantity + qty
            &&& t.milestones[i as int].status == MilestoneStatus::ProofSubmitted
            &&& t.retainage_balance == s.retainage_balance + held
            &&& t.warranty_balance == s.warranty_balance + war
            &&& t.status == ShipmentStatus::Active
            &&& (!treasury_is(fee, s.supplier) ==> paid_to(ts, s.supplier) == p - f - held - war)
            &&& (fee matches Some(c) ==> (c.treasury != s.supplier ==> paid_to(ts, c.treasury) == f))
            &&& (a != s.supplier && !treasury_is(fee, a) ==> paid_to(ts, a) == 0)
        }),
{
    let ii = i as int;
    let m = s.milestones[ii];
    assert(s.milestone_wf(ii));
    lemma_wf_bounds(s);
    let g = s.gross(ii);
    assert(0 <= g <= s.total_amount);
    let p = crate::model::pro_rata(g, qty as int, m.expected_quantity as int);
    crate::lemmas::lemma_pro_rata_step(
        g,
        m.released as int,
        m.delivered_quantity as int,
        qty as int,
        m.expected_quantity as int,
    );
    let m1 = MilestoneView {
        delivered_quantity: (m.delivered_quantity + qty) as u32,
        released: (m.released + p) as i128,
        ..m
    };
    crate::laws::lemma_release_bound(s, ii, m1);
    let s1 = ShipmentView {
        released_amount: (s.released_amount + p) as i128,
        ..s.with_milestone(ii, m1)
    }.log(crate::model::audit(AuditAction::PartialQtyConfirmed, Some(buyer), now, i, p));
    lemma_pay_supplier_pays(s1, p, fee, now, i, a);
}

/// Law: settling a milestone at a grade below full splits its unpaid gross `g`:
/// the graded share `sh = g * grade / 10000` (rounded down) is paid as any payment
/// (the fee of `sh` to the treasury, retainage and warranty shares into escrow, the
/// rest to the supplier) and the remainder `g - sh` goes back to the primary buyer.
pub proof fn law_release_graded_payment(s: ShipmentView, i: u32, fee: Option<FeeConfig>, now: u32, a: AccountId)
    requires
        s.wf(),
        release_error(s, i, now) is None,
        s.in_grade_review(i as int),
        fee_ok(fee),
        s.buyers[0] != s.supplier,
        !treasury_is(fee, s.supplier),
        !treasury_is(fee, s.buyers[0]),
    ensures
        ({
            let (t, ts) = release_post(s, i, fee, now);
            let g = s.remainder(i as int);
            let sh = g * s.grade_bps(i as int) / 10000;
            let f = fee_part(fee, sh);
            let held = bps_of(sh - f, s.retainage_bps as int);
            let war = bps_of(sh - f, s.warranty_bps as int);
            &&& 0 <= sh <= g
            &&& t.released_amount == s.released_amount + g
            &&& t.milestones[i as int].status == MilestoneStatus::Confirmed
            &&& paid_to(ts, s.buyers[0]) == g - sh
            &&& (fee matches Some(c) ==> paid_to(ts, c.treasury) == f)
            &&& t.warranty_balance == s.warranty_balance + war
            &&& if s.completes_with(i as int) {
                &&& t.status == ShipmentStatus::Completed
                &&& t.retainage_balance == 0
                &&& paid_to(ts, s.supplier) == sh - f - war + s.retainage_balance
            } else {
                &&& t.status == ShipmentStatus::Active
                &&& t.retainage_balance == s.retainage_balance + held
                &&& paid_to(ts, s.supplier) == sh - f - held - war
            }
            &&& (a != s.supplier && a != s.buyers[0] && !treasury_is(fee, a) ==> paid_to(ts, a) == 0)
        }),
{
    let ii = i as int;
    lemma_wf_bounds(s);
    assert(s.milestone_wf(ii));
    lemma_settle_bound(s, ii, MilestoneStatus::Confirmed);
    let g = s.remainder(ii);
    let bps = s.grade_bps(ii);
    assert(0 <= bps < 10000);
    lemma_bps_bounds(g, bps);
    let sh = bps_of(g, bps);
    let target = MilestoneStatus::Confirmed;
    let s2 = ShipmentView {
        released_amount: (s.released_amount + g) as i128,
        ..s.with_milestone(ii, settled_milestone(s, ii, target))
    }.log(crate::model::audit(AuditAction::GradeSettled, None, now, i, sh));
    let (s3, t1) = pay_supplier(s2, sh, fee, now, i);
    let tr = payout_if_positive(s.token, s.buyers[0], g - sh);
    let (s4, t2) = complete_if_done(s3, now);
    lemma_pay_supplier_pays(s2, sh, fee, now, i, a);
    lemma_pay_supplier_pays(s2, sh, fee, now, i, s.buyers[0]);
    lemma_all_done_after(s, s3, ii);
    assert(s.buyers[0] == s.primary_buyer());
    lemma_paid_concat(t1, tr, s.supplier);
    lemma_paid_concat(t1, tr, s.buyers[0]);
    lemma_paid_concat(t1, tr, a);
    lemma_paid_concat(t1 + tr, t2, s.supplier);
    lemma_paid_concat(t1 + tr, t2, s.buyers[0]);
    lemma_paid_concat(t1 + tr, t2, a);
    lemma_paid_payout(s.token, s.buyers[0], g - sh, s.supplier);
    lemma_paid_payout(s.token, s.buyers[0], g - sh, s.buyers[0]);
    lemma_paid_payout(s.token, s.buyers[0], g - sh, a);
    lemma_paid_payout(s.token, s.supplier, s3.retainage_balance as int, s.supplier);
    lemma_paid_payout(s.token, s.supplier, s3.retainage_balance as int, s.buyers[0]);
    lemma_paid_payout(s.token, s.supplier, s3.retainage_balance as int, a);
    match fee {
        Some(c) => {
            lemma_pay_supplier_pays(s2, sh, fee, now, i, c.treasury);
            lemma_paid_concat(t1, tr, c.treasury);
            lemma_paid_concat(t1 + tr, t2, c.treasury);
            lemma_paid_payout(s.token, s.buyers[0], g - sh, c.treasury);
            lemma_paid_payout(s.token, s.supplier, s3.retainage_balance as int, c.treasury);
        },
        None => {},
    }
    if !s3.all_done() {
        assert(t2 =~= Seq::<Transfer>::empty());
    }
}

/// Law: the last approval of a shipment with a holdback pays nothing and holds the
/// milestone: its payment cannot be released before `holdback_ledgers` have passed
/// since the confirmation, and can from then on.
pub proof fn law_holdback_window(
    s: ShipmentView,
    buyer: AccountId,
    i: u32,
    fee: Option<FeeConfig>,
    now: u32,
    later: u32,
)
    requires
        s.wf(),
        confirm_error(s, buyer, i) is None,
        s.last_approval(buyer, i as int),
        s.holdback_ledgers > 0,
        confirm_fits(s, buyer, i, now),
    ensures
        ({
            let (t, ts) = confirm_post(s, buyer, i, fee, now);
            &&& ts.len() == 0
            &&& t.released_amount == s.released_amount
            &&& t.milestones[i as int].status == MilestoneStatus::ConfirmedHeld
            &&& t.milestones[i as int].release_after_ledger == now + s.holdback_ledgers
            &&& (later < now + s.holdback_ledgers ==> release_error(t, i, later) == Some(
                ChainSettleError::HoldbackNotExpired,
            ))
            &&& (later >= now + s.holdback_ledgers ==> release_error(t, i, later) is None)
        }),
{
    crate::laws::lemma_last_approval(s, buyer, i, now);
}

/// Law: upholding a warranty claim pays the whole warranty balance to the buyer who
/// filed it and nobody else; rejecting it pays nothing and keeps the balance.
pub proof fn law_claim_payout(s: ShipmentView, caller: AccountId, uphold: bool, now: u32, a: AccountId)
    requires
        s.wf(),
        crate::model::resolve_claim_error(s, caller) is None,
    ensures
        ({
            let (t, ts) = crate::model::resolve_claim_post(s, caller, uphold, now);
            let claimant = s.warranty_claim.unwrap().buyer;
            &&& t.warranty_claim is None
            &&& uphold ==> paid_to(ts, claimant) == s.warranty_balance && t.warranty_balance == 0
            &&& uphold && a != claimant ==> paid_to(ts, a) == 0
            &&& !uphold ==> ts.len() == 0 && t.warranty_balance == s.warranty_balance
        }),
{
    let claimant = s.warranty_claim.unwrap().buyer;
    lemma_wf_bounds(s);
    lemma_paid_payout(s.token, claimant, s.warranty_balance as int, claimant);
    lemma_paid_payout(s.token, claimant, s.warranty_balance as int, a);
}

/// Law: releasing the warranty after its period pays the whole warranty balance to
/// the supplier and nobody else.
pub proof fn law_warranty_payout(s: ShipmentView, now: u32, a: AccountId)
    requires
        s.wf(),
        crate::model::release_warranty_error(s, now) is None,
    ensures
        ({
            let (t, ts) = crate::model::release_warranty_post(s, now);
            &&& now >= s.warranty_end_ledger
            &&& paid_to(ts, s.supplier) == s.warranty_balance
            &&& t.warranty_balance == 0
            &&& (a != s.supplier ==> paid_to(ts, a) == 0)
        }),
{
    lemma_wf_bounds(s);
    lemma_paid_payout(s.token, s.supplier, s.warranty_balance as int, s.supplier);
    lemma_paid_payout(s.token, s.supplier, s.warranty_balance as int, a);
}

} // verus!
