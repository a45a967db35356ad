//! The laws of the escrow: every operation that succeeds is a sound step.
use vstd::prelude::*;

verus! {

use crate::lemmas::{
    lemma_parties_concat, lemma_parties_same, lemma_payout_parties,
    lemma_bps_bounds, lemma_flow_concat, lemma_flow_payout, lemma_gross_sum_update,
    lemma_percent_sum_update, lemma_released_sum_update, lemma_transfers_concat, lemma_wf_bounds,
    lemma_paid_concat, lemma_paid_payout,
};
use crate::model::{
    party_of, pays_only_parties,
    approved, audit, cancel_error, cancel_post, cancelled, confirm_error, confirm_post,
    deadline_error, deadline_post, file_claim_error, file_claim_post, finalize, graded_error,
    graded_post, partial_error, partial_post, pro_rata, raise_error, raise_post, release_error,
    release_post, release_warranty_error, release_warranty_post, resolve_claim_error,
    resolve_claim_post, resolve_error, resolve_post, submit_proof_error, submit_proof_post,
    withdraw_error, withdraw_post, grade_hold,
    bps_of, complete_if_done, fee_ok, fee_part, inflow, is_done, outflow, pay_supplier,
    payout_if_positive, percent_sum, released_sum, settle_full, settle_graded, settled_milestone,
    sound_step, transfers_of, paid_to,
};
use crate::types::{
    AccountId, AuditAction, ChainSettleError, FeeConfig, MilestoneStatus, MilestoneView, ShipmentStatus,
    ShipmentView, Transfer, MAX_RETAINAGE_BPS, MAX_SHIPMENT_VALUE, MAX_WARRANTY_BPS,
};

/// Paying the supplier moves exactly `amount` out of the released funds: what does
/// not leave as a transfer stays in escrow as retainage or warranty.
pub proof fn lemma_pay_supplier(s: ShipmentView, amount: int, fee: Option<FeeConfig>, now: u32, i: u32)
    requires
        0 <= amount,
        fee_ok(fee),
        s.retainage_bps <= MAX_RETAINAGE_BPS,
        s.warranty_bps <= MAX_WARRANTY_BPS,
        0 <= s.retainage_balance,
        0 <= s.warranty_balance,
        s.retainage_balance + s.warranty_balance + amount <= MAX_SHIPMENT_VALUE,
    ensures
        ({
            let (t, ts) = pay_supplier(s, amount, fee, now, i);
            &&& t == (ShipmentView {
                retainage_balance: t.retainage_balance,
                warranty_balance: t.warranty_balance,
                audit_log: t.audit_log,
                ..s
            })
            &&& s.audit_log.len() <= t.audit_log.len()
            &&& t.audit_log.subrange(0, s.audit_log.len() as int) == s.audit_log
            &&& s.retainage_balance <= t.retainage_balance
            &&& s.warranty_balance <= t.warranty_balance
            &&& t.retainage_balance + t.warranty_balance <= s.retainage_balance
                + s.warranty_balance + amount
            &&& inflow(ts) == 0
            &&& outflow(ts) + (t.retainage_balance - s.retainage_balance) + (t.warranty_balance
                - s.warranty_balance) == amount
            &&& transfers_of(ts, s.token)
            &&& pays_only_parties(s, fee, ts)
        }),
{
    let f = fee_part(fee, amount);
    match fee {
        Some(c) => {
            lemma_bps_bounds(amount, c.fee_bps as int);
            assert(f <= amount);
        },
        None => {},
    }
    let net = amount - f;
    let ret = bps_of(net, s.retainage_bps as int);
    let war = bps_of(net, s.warranty_bps as int);
    lemma_bps_bounds(net, s.retainage_bps as int);
    lemma_bps_bounds(net, s.warranty_bps as int);
    assert(ret + war <= net) by (nonlinear_arith)
        requires
            10000 * ret <= net * s.retainage_bps,
            10000 * war <= net * s.warranty_bps,
            s.retainage_bps <= 2000,
            s.warranty_bps <= 2000,
            0 <= net,
    ;
    let sup = net - ret - war;
    let (t, ts) = pay_supplier(s, amount, fee, now, i);
    assert(t.audit_log.subrange(0, s.audit_log.len() as int) =~= s.audit_log);
    lemma_flow_payout(s.token, s.supplier, sup);
    lemma_payout_parties(s, fee, s.token, s.supplier, sup);
    match fee {
        Some(c) => {
            lemma_flow_payout(s.token, c.treasury, f);
            lemma_payout_parties(s, fee, s.token, c.treasury, f);
            lemma_parties_concat(
                s,
                fee,
                payout_if_positive(s.token, s.supplier, sup),
                payout_if_positive(s.token, c.treasury, f),
            );
            lemma_flow_concat(
                payout_if_positive(s.token, s.supplier, sup),
                payout_if_positive(s.token, c.treasury, f),
            );
            lemma_transfers_concat(
                payout_if_positive(s.token, s.supplier, sup),
                payout_if_positive(s.token, c.treasury, f),
                s.token,
            );
        },
        None => {
            let e = Seq::<Transfer>::empty();
            assert(payout_if_positive(s.token, s.supplier, sup) + e =~= payout_if_positive(
                s.token,
                s.supplier,
                sup,
            ));
        },
    }
}

/// The ledger arithmetic a confirmation does depends on the other milestones'
/// statuses and the shipment's windows only.
pub proof fn lemma_finalize_fits_same(s: ShipmentView, t: ShipmentView, i: int, now: u32)
    requires
        t.holdback_ledgers == s.holdback_ledgers,
        t.warranty_ledgers == s.warranty_ledgers,
        t.milestones.len() == s.milestones.len(),
        forall|j: int|
            0 <= j < s.milestones.len() && j != i ==> t.milestones[j].status
                == s.milestones[j].status,
    ensures
        t.finalize_fits(i, now) == s.finalize_fits(i, now),
        t.completes_with(i) == s.completes_with(i),
{
    assert(t.completes_with(i) == s.completes_with(i)) by {
        if t.completes_with(i) {
            assert forall|j: int| 0 <= j < s.milestones.len() && j != i implies is_done(
                #[trigger] s.milestones[j].status,
            ) by {
                assert(is_done(t.milestones[j].status));
            }
        }
        if s.completes_with(i) {
            assert forall|j: int| 0 <= j < t.milestones.len() && j != i implies is_done(
                #[trigger] t.milestones[j].status,
            ) by {
                assert(is_done(s.milestones[j].status));
            }
        }
    }
}

/// Once `buyer`'s approval is recorded, milestone `i` has every co-buyer's approval
/// exactly when that approval was the last one it waited for.
pub proof fn lemma_last_approval(s: ShipmentView, buyer: AccountId, i: u32, now: u32)
    requires
        i < s.milestones.len(),
    ensures
        approved(s, buyer, i, now).all_approved(i as int) == s.last_approval(buyer, i as int),
        approved(s, buyer, i, now).finalize_fits(i as int, now) == s.finalize_fits(i as int, now),
        approved(s, buyer, i, now).completes_with(i as int) == s.completes_with(i as int),
{
    let t = approved(s, buyer, i, now);
    let a = s.milestones[i as int].approvals;
    if t.all_approved(i as int) {
        assert forall|j: int| 0 <= j < s.buyers.len() implies #[trigger] s.buyers[j] == buyer
            || a.contains(s.buyers[j]) by {
            assert(t.milestones[i as int].approvals.contains(t.buyers[j]));
            assert(t.milestones[i as int].approvals == a.push(buyer));
            let k = choose|k: int| 0 <= k < a.push(buyer).len() && a.push(buyer)[k] == s.buyers[j];
            if k < a.len() {
                assert(a[k] == s.buyers[j]);
            }
        }
    }
    if s.last_approval(buyer, i as int) {
        assert forall|j: int| 0 <= j < t.buyers.len() implies t.milestones[i as int].approvals.contains(
            #[trigger] t.buyers[j],
        ) by {
            assert(t.milestones[i as int].approvals == a.push(buyer));
            if s.buyers[j] == buyer {
                assert(a.push(buyer)[a.len() as int] == buyer);
            } else {
                assert(a.contains(s.buyers[j]));
                let k = choose|k: int| 0 <= k < a.len() && a[k] == s.buyers[j];
                assert(a.push(buyer)[k] == s.buyers[j]);
            }
        }
    }
    lemma_finalize_fits_same(s, t, i as int, now);
}

/// A prefix of a prefix is a prefix.
pub proof fn lemma_prefix_trans(a: Seq<crate::types::AuditEntry>, b: Seq<crate::types::AuditEntry>, c: Seq<crate::types::AuditEntry>)
    requires
        a.len() <= b.len() <= c.len(),
        b.subrange(0, a.len() as int) == a,
        c.subrange(0, b.len() as int) == b,
    ensures
        c.subrange(0, a.len() as int) == a,
{
    assert(c.subrange(0, a.len() as int) =~= a) by {
        assert forall|k: int| 0 <= k < a.len() implies c[k] == a[k] by {
            assert(c.subrange(0, b.len() as int)[k] == b[k]);
            assert(b.subrange(0, a.len() as int)[k] == a[k]);
        }
    }
}

/// Completing a shipment pays out its retainage and nothing else.
pub proof fn lemma_complete_if_done(s: ShipmentView, now: u32)
    requires
        s.status == ShipmentStatus::Active,
        0 <= s.retainage_balance <= MAX_SHIPMENT_VALUE,
    ensures
        ({
            let (t, ts) = complete_if_done(s, now);
            &&& t.escrowed() + outflow(ts) == s.escrowed()
            &&& inflow(ts) == 0
            &&& transfers_of(ts, s.token)
            &&& t.status == if s.all_done() {
                ShipmentStatus::Completed
            } else {
                s.status
            }
            &&& (s.all_done() ==> t.retainage_balance == 0)
            &&& t == (ShipmentView {
                status: t.status,
                retainage_balance: t.retainage_balance,
                warranty_end_ledger: t.warranty_end_ledger,
                audit_log: t.audit_log,
                ..s
            })
            &&& s.audit_log.len() <= t.audit_log.len()
            &&& t.audit_log.subrange(0, s.audit_log.len() as int) == s.audit_log
            &&& forall|f: Option<FeeConfig>| #[trigger] pays_only_parties(s, f, ts)
        }),
{
    lemma_flow_payout(s.token, s.supplier, s.retainage_balance as int);
    assert forall|f: Option<FeeConfig>| #[trigger] pays_only_parties(s, f, complete_if_done(s, now).1) by {
        lemma_payout_parties(s, f, s.token, s.supplier, s.retainage_balance as int);
        if !s.all_done() {
            assert(complete_if_done(s, now).1 =~= Seq::<Transfer>::empty());
        }
    }
    let (t, ts) = complete_if_done(s, now);
    if s.all_done() {
        assert(t.audit_log.subrange(0, s.audit_log.len() as int) =~= s.audit_log);
    } else {
        assert(ts =~= Seq::<Transfer>::empty());
        assert(t.audit_log.subrange(0, s.audit_log.len() as int) =~= s.audit_log);
    }
}

/// A shipment that differs from a well-formed one only in milestone `i`, in the
/// released amount that goes with it, and in its balances and status, is well
/// formed when milestone `i` and those balances are.
pub proof fn lemma_wf_after_update(s: ShipmentView, t: ShipmentView, i: int)
    requires
        s.wf(),
        0 <= i < s.milestones.len(),
        t.milestones == s.milestones.update(i, t.milestones[i]),
        t.milestones[i].payment_percent == s.milestones[i].payment_percent,
        t.milestone_wf(i),
        t.buyers == s.buyers,
        t.total_amount == s.total_amount,
        t.quality_grades == s.quality_grades,
        t.retainage_bps == s.retainage_bps,
        t.warranty_bps == s.warranty_bps,
        t.released_amount == s.released_amount - s.milestones[i].released
            + t.milestones[i].released,
        0 <= t.retainage_balance,
        0 <= t.warranty_balance,
        t.retainage_balance + t.warranty_balance <= t.released_amount,
        t.status == ShipmentStatus::Completed ==> t.all_done() && t.retainage_balance == 0,
        t.status != ShipmentStatus::Completed ==> t.warranty_claim is None,
        t.warranty_claim == s.warranty_claim,
        t.milestone_mode == s.milestone_mode,
        !is_done(s.milestones[i].status),
        s.milestones[i].status == MilestoneStatus::Pending && t.milestones[i].status
            != MilestoneStatus::Pending && s.milestone_mode == crate::types::MilestoneMode::Sequential
            && i > 0 ==> is_done(s.milestones[i - 1].status),
    ensures
        t.wf(),
{
    lemma_released_sum_update(s.milestones, i, t.milestones[i]);
    lemma_percent_sum_update(s.milestones, i, t.milestones[i]);
    if s.milestone_mode == crate::types::MilestoneMode::Sequential {
        assert forall|j: int, k: int|
            0 <= k < j < t.milestones.len() && #[trigger] t.milestones[j].status
                != MilestoneStatus::Pending implies is_done(#[trigger] t.milestones[k].status) by {
            if j == i {
                if s.milestones[i].status == MilestoneStatus::Pending {
                    assert(is_done(s.milestones[i - 1].status));
                    if k < i - 1 {
                        assert(s.milestones[i - 1].status != MilestoneStatus::Pending);
                        assert(is_done(s.milestones[k].status));
                    }
                } else {
                    assert(is_done(s.milestones[k].status));
                }
            } else if k == i {
                assert(s.milestones[j].status != MilestoneStatus::Pending);
                assert(is_done(s.milestones[i].status));
            } else {
                assert(t.milestones[j] == s.milestones[j]);
                assert(t.milestones[k] == s.milestones[k]);
            }
        }
    }
    assert forall|j: int| 0 <= j < t.milestones.len() implies #[trigger] t.milestone_wf(j) by {
        if j != i {
            assert(s.milestone_wf(j));
            assert(t.milestones[j] == s.milestones[j]);
            assert(t.gross(j) == s.gross(j));
        }
    }
}

/// The settled milestone is well formed.
pub proof fn lemma_settled_wf(s: ShipmentView, i: int, target: MilestoneStatus)
    requires
        s.wf(),
        0 <= i < s.milestones.len(),
    ensures
        ({
            let t = s.with_milestone(i, settled_milestone(s, i, target));
            &&& t.milestone_wf(i)
            &&& t.gross(i) == s.gross(i)
        }),
{
    lemma_wf_bounds(s);
    assert(s.milestone_wf(i));
    assert(s.gross(i) <= s.total_amount);
    let t = s.with_milestone(i, settled_milestone(s, i, target));
    assert(t.gross(i) == s.gross(i));
    let g = s.gross(i);
    let e = s.milestones[i].expected_quantity as int;
    assert(g * e <= g * e);
}

/// Counting a milestone's remainder as released keeps the released amount within
/// the total.
pub proof fn lemma_settle_bound(s: ShipmentView, ii: int, target: MilestoneStatus)
    requires
        s.wf(),
        0 <= ii < s.milestones.len(),
    ensures
        0 <= s.remainder(ii) <= s.gross(ii),
        s.released_amount + s.remainder(ii) <= s.total_amount,
        released_sum(s.with_milestone(ii, settled_milestone(s, ii, target)).milestones)
            == s.released_amount + s.remainder(ii),
{
    lemma_wf_bounds(s);
    assert(0 <= s.gross(ii) <= s.total_amount);
    lemma_released_sum_update(s.milestones, ii, settled_milestone(s, ii, target));
    lemma_settled_wf(s, ii, target);
    lemma_percent_sum_update(s.milestones, ii, settled_milestone(s, ii, target));
    // The new released amount stays within the total.
    let u = s.with_milestone(ii, settled_milestone(s, ii, target));
    assert(u.milestone_wf(ii));
    assert(s.released_amount + s.remainder(ii) <= s.total_amount) by {
        assert forall|j: int|
            0 <= j < u.milestones.len() implies 0 <= #[trigger] u.milestones[j].released
            <= crate::model::gross_of(s.total_amount as int, u.milestones[j].payment_percent as int)
            && u.milestones[j].payment_percent <= 100 by {
            if j != ii {
                assert(s.milestone_wf(j));
                assert(u.milestones[j] == s.milestones[j]);
            }
        }
        assert forall|j: int|
            0 <= j < u.milestones.len() implies #[trigger] u.milestones[j].payment_percent <= 100 by {
            assert(u.milestone_wf(j)) by {
                if j != ii {
                    assert(s.milestone_wf(j));
                    assert(u.milestones[j] == s.milestones[j]);
                }
            }
        }
        crate::lemmas::lemma_released_le_gross(s.total_amount as int, u.milestones);
        crate::lemmas::lemma_gross_sum_le_total(s.total_amount as int, u.milestones);
    }
}

/// Settling a milestone in full is a sound step.
pub proof fn lemma_settle_full(
    s: ShipmentView,
    i: u32,
    target: MilestoneStatus,
    fee: Option<FeeConfig>,
    now: u32,
    action: AuditAction,
    actor: Option<AccountId>,
)
    requires
        s.wf(),
        s.status == ShipmentStatus::Active,
        i < s.milestones.len(),
        !is_done(s.milestones[i as int].status),
        s.milestones[i as int].status != MilestoneStatus::Pending,
        is_done(target),
        fee_ok(fee),
    ensures
        ({
            let (t, ts) = settle_full(s, i, target, fee, now, action, actor);
            &&& sound_step(s, t, ts)
            &&& pays_only_parties(s, fee, ts)
            &&& t.milestones[i as int] == settled_milestone(s, i as int, target)
            &&& inflow(ts) == 0
        }),
{
    lemma_wf_bounds(s);
    let ii = i as int;
    let piece = s.remainder(ii);
    assert(0 <= s.gross(ii) <= s.total_amount);
    let s1 = ShipmentView {
        released_amount: (s.released_amount + piece) as i128,
        ..s.with_milestone(ii, settled_milestone(s, ii, target))
    }.log(crate::model::audit(action, actor, now, i, piece));
    lemma_released_sum_update(s.milestones, ii, settled_milestone(s, ii, target));
    lemma_percent_sum_update(s.milestones, ii, settled_milestone(s, ii, target));
    lemma_gross_sum_update(s.total_amount as int, s.milestones, ii, settled_milestone(s, ii, target));
    lemma_settled_wf(s, ii, target);
    lemma_settle_bound(s, ii, target);
    lemma_pay_supplier(s1, piece, fee, now, i);
    let (s2, t1) = pay_supplier(s1, piece, fee, now, i);
    lemma_complete_if_done(s2, now);
    let (s3, t2) = complete_if_done(s2, now);
    lemma_flow_concat(t1, t2);
    lemma_transfers_concat(t1, t2, s.token);
    lemma_parties_same(s, s1, fee, t1);
    assert(pays_only_parties(s2, fee, t2));
    lemma_parties_same(s, s2, fee, t2);
    lemma_parties_concat(s, fee, t1, t2);
    lemma_wf_after_update(s, s3, ii);
    assert(s3.audit_log.subrange(0, s.audit_log.len() as int) =~= s.audit_log) by {
        assert(s1.audit_log.subrange(0, s.audit_log.len() as int) =~= s.audit_log);
        lemma_prefix_trans(s.audit_log, s1.audit_log, s2.audit_log);
        lemma_prefix_trans(s.audit_log, s2.audit_log, s3.audit_log);
    }
    assert forall|j: int|
        0 <= j < s.milestones.len() && is_done(#[trigger] s.milestones[j].status) implies s3.milestones[j]
        == s.milestones[j] by {
        assert(j != ii);
    }
}


/// Settling a milestone at its grade is a sound step; the refund goes back to the
/// primary buyer.
pub proof fn lemma_settle_graded(
    s: ShipmentView,
    i: u32,
    target: MilestoneStatus,
    fee: Option<FeeConfig>,
    now: u32,
    action: AuditAction,
    actor: Option<AccountId>,
)
    requires
        s.wf(),
        s.status == ShipmentStatus::Active,
        i < s.milestones.len(),
        !is_done(s.milestones[i as int].status),
        s.milestones[i as int].status != MilestoneStatus::Pending,
        s.in_grade_review(i as int),
        is_done(target),
        fee_ok(fee),
    ensures
        ({
            let (t, ts) = settle_graded(s, i, target, fee, now, action, actor);
            &&& sound_step(s, t, ts)
            &&& pays_only_parties(s, fee, ts)
            &&& t.milestones[i as int] == settled_milestone(s, i as int, target)
            &&& inflow(ts) == 0
        }),
{
    lemma_wf_bounds(s);
    let ii = i as int;
    let piece = s.remainder(ii);
    let bps = s.grade_bps(ii);
    assert(0 <= bps < 10000);
    lemma_bps_bounds(piece, bps);
    let share = bps_of(piece, bps);
    let refund = piece - share;
    let s1 = ShipmentView {
        released_amount: (s.released_amount + piece) as i128,
        ..s.with_milestone(ii, settled_milestone(s, ii, target))
    }.log(crate::model::audit(action, actor, now, i, share));
    lemma_percent_sum_update(s.milestones, ii, settled_milestone(s, ii, target));
    lemma_settled_wf(s, ii, target);
    lemma_settle_bound(s, ii, target);
    lemma_pay_supplier(s1, share, fee, now, i);
    let (s2, t1) = pay_supplier(s1, share, fee, now, i);
    let tr = payout_if_positive(s.token, s.primary_buyer(), refund);
    lemma_flow_payout(s.token, s.primary_buyer(), refund);
    lemma_complete_if_done(s2, now);
    let (s3, t2) = complete_if_done(s2, now);
    lemma_flow_concat(t1, tr);
    lemma_flow_concat(t1 + tr, t2);
    lemma_transfers_concat(t1, tr, s.token);
    lemma_transfers_concat(t1 + tr, t2, s.token);
    lemma_parties_same(s, s1, fee, t1);
    assert(s.is_buyer(s.primary_buyer())) by {
        assert(s.buyers[0] == s.primary_buyer());
    }
    lemma_payout_parties(s, fee, s.token, s.primary_buyer(), refund);
    assert(pays_only_parties(s2, fee, t2));
    lemma_parties_same(s, s2, fee, t2);
    lemma_parties_concat(s, fee, t1, tr);
    lemma_parties_concat(s, fee, t1 + tr, t2);
    lemma_wf_after_update(s, s3, ii);
    assert(s3.audit_log.subrange(0, s.audit_log.len() as int) =~= s.audit_log) by {
        assert(s1.audit_log.subrange(0, s.audit_log.len() as int) =~= s.audit_log);
        lemma_prefix_trans(s.audit_log, s1.audit_log, s2.audit_log);
        lemma_prefix_trans(s.audit_log, s2.audit_log, s3.audit_log);
    }
    assert forall|j: int|
        0 <= j < s.milestones.len() && is_done(#[trigger] s.milestones[j].status) implies s3.milestones[j]
        == s.milestones[j] by {
        assert(j != ii);
    }
}

/// Confirming a milestone, held or paid, is a sound step.
pub proof fn lemma_finalize(
    s: ShipmentView,
    i: u32,
    fee: Option<FeeConfig>,
    now: u32,
    actor: Option<AccountId>,
)
    requires
        s.wf(),
        s.status == ShipmentStatus::Active,
        i < s.milestones.len(),
        !is_done(s.milestones[i as int].status),
        s.milestones[i as int].status != MilestoneStatus::Pending,
        fee_ok(fee),
    ensures
        ({
            let (t, ts) = crate::model::finalize(s, i, fee, now, actor);
            &&& sound_step(s, t, ts)
            &&& inflow(ts) == 0
            &&& pays_only_parties(s, fee, ts)
        }),
{
    if s.holdback_ledgers > 0 {
        let ii = i as int;
        let m = s.milestones[ii];
        let m2 = MilestoneView {
            status: MilestoneStatus::ConfirmedHeld,
            release_after_ledger: (now + s.holdback_ledgers) as u32,
            ..m
        };
        let (t, ts) = crate::model::finalize(s, i, fee, now, actor);
        assert(s.milestone_wf(ii));
        assert(t.gross(ii) == s.gross(ii));
        lemma_wf_after_update(s, t, ii);
        assert(ts =~= Seq::<Transfer>::empty());
        assert(t.audit_log.subrange(0, s.audit_log.len() as int) =~= s.audit_log);
        assert forall|j: int|
            0 <= j < s.milestones.len() && is_done(#[trigger] s.milestones[j].status) implies t.milestones[j]
            == s.milestones[j] by {
            assert(j != ii);
        }
    } else {
        lemma_settle_full(
            s,
            i,
            MilestoneStatus::Confirmed,
            fee,
            now,
            AuditAction::MilestoneConfirmed,
            actor,
        );
    }
}


/// Two sound steps in a row make a sound step.
pub proof fn lemma_sound_trans(
    s: ShipmentView,
    s1: ShipmentView,
    t1: Seq<Transfer>,
    s2: ShipmentView,
    t2: Seq<Transfer>,
)
    requires
        sound_step(s, s1, t1),
        sound_step(s1, s2, t2),
    ensures
        sound_step(s, s2, t1 + t2),
{
    lemma_flow_concat(t1, t2);
    lemma_transfers_concat(t1, t2, s.token);
    let n = s.audit_log.len() as int;
    let n1 = s1.audit_log.len() as int;
    assert(s2.audit_log.subrange(0, n) =~= s2.audit_log.subrange(0, n1).subrange(0, n));
    assert forall|j: int|
        0 <= j < s.milestones.len() && is_done(#[trigger] s.milestones[j].status) implies s2.milestones[j]
        == s.milestones[j] by {
        assert(s1.milestones[j] == s.milestones[j]);
    }
}

/// Changing the bookkeeping of an unsettled milestone, without paying anything,
/// is a sound step.
pub proof fn lemma_milestone_touch(s: ShipmentView, i: int, m: MilestoneView, e: crate::types::AuditEntry)
    requires
        s.wf(),
        s.status == ShipmentStatus::Active,
        0 <= i < s.milestones.len(),
        !is_done(s.milestones[i].status),
        !is_done(m.status),
        m.payment_percent == s.milestones[i].payment_percent,
        m.released == s.milestones[i].released,
        m.expected_quantity == s.milestones[i].expected_quantity,
        s.milestones[i].delivered_quantity <= m.delivered_quantity <= m.expected_quantity,
        m.grade matches Some(k) ==> k < s.quality_grades.len(),
        s.milestones[i].status == MilestoneStatus::Pending && m.status != MilestoneStatus::Pending
            && s.milestone_mode == crate::types::MilestoneMode::Sequential && i > 0 ==> is_done(
            s.milestones[i - 1].status,
        ),
    ensures
        sound_step(s, s.with_milestone(i, m).log(e), seq![]),
{
    let t = s.with_milestone(i, m).log(e);
    assert(s.milestone_wf(i));
    lemma_wf_bounds(s);
    assert(0 <= s.gross(i));
    let g = s.gross(i);
    assert(g * s.milestones[i].delivered_quantity <= g * m.delivered_quantity) by (nonlinear_arith)
        requires
            0 <= g,
            s.milestones[i].delivered_quantity <= m.delivered_quantity,
    ;
    assert(t.gross(i) == s.gross(i));
    lemma_wf_after_update(s, t, i);
    assert(inflow(Seq::<Transfer>::empty()) == 0 && outflow(Seq::<Transfer>::empty()) == 0);
    assert(t.audit_log.subrange(0, s.audit_log.len() as int) =~= s.audit_log);
    assert forall|j: int|
        0 <= j < s.milestones.len() && is_done(#[trigger] s.milestones[j].status) implies t.milestones[j]
        == s.milestones[j] by {
        assert(j != i);
    }
}


/// Counting part of a milestone's gross as released keeps the released amount
/// within the total.
pub proof fn lemma_release_bound(s: ShipmentView, i: int, m: MilestoneView)
    requires
        s.wf(),
        0 <= i < s.milestones.len(),
        m.payment_percent == s.milestones[i].payment_percent,
        0 <= m.released <= s.gross(i),
    ensures
        released_sum(s.milestones.update(i, m)) == s.released_amount - s.milestones[i].released
            + m.released,
        s.released_amount - s.milestones[i].released + m.released <= s.total_amount,
{
    lemma_wf_bounds(s);
    lemma_released_sum_update(s.milestones, i, m);
    lemma_percent_sum_update(s.milestones, i, m);
    let u = s.with_milestone(i, m);
    assert forall|j: int|
        0 <= j < u.milestones.len() implies 0 <= #[trigger] u.milestones[j].released
        <= crate::model::gross_of(s.total_amount as int, u.milestones[j].payment_percent as int) by {
        if j != i {
            assert(s.milestone_wf(j));
            assert(u.milestones[j] == s.milestones[j]);
        }
    }
    assert forall|j: int|
        0 <= j < u.milestones.len() implies #[trigger] u.milestones[j].payment_percent <= 100 by {
        if j != i {
            assert(s.milestone_wf(j));
            assert(u.milestones[j] == s.milestones[j]);
        } else {
            assert(s.milestone_wf(i));
        }
    }
    crate::lemmas::lemma_released_le_gross(s.total_amount as int, u.milestones);
    crate::lemmas::lemma_gross_sum_le_total(s.total_amount as int, u.milestones);
}

/// Law: a proof submission that succeeds is a sound step.
pub proof fn law_submit_proof(s: ShipmentView, caller: AccountId, i: u32, proof_hash: Seq<u8>, now: u32)
    requires
        s.wf(),
        submit_proof_error(s, caller, i, now) is None,
    ensures
        sound_step(s, submit_proof_post(s, caller, i, proof_hash, now), seq![]),
{
    let m = s.milestones[i as int];
    assert(s.milestone_wf(i as int));
    lemma_milestone_touch(
        s,
        i as int,
        MilestoneView { proof_hash, status: MilestoneStatus::ProofSubmitted, ..m },
        audit(AuditAction::ProofSubmitted, Some(caller), now, i, 0),
    );
}

/// Law: a buyer's confirmation that succeeds is a sound step.
pub proof fn law_confirm(s: ShipmentView, buyer: AccountId, i: u32, fee: Option<FeeConfig>, now: u32)
    requires
        s.wf(),
        confirm_error(s, buyer, i) is None,
        fee_ok(fee),
    ensures
        sound_step(s, confirm_post(s, buyer, i, fee, now).0, confirm_post(s, buyer, i, fee, now).1),
        pays_only_parties(s, fee, confirm_post(s, buyer, i, fee, now).1),
{
    let m = s.milestones[i as int];
    assert(s.milestone_wf(i as int));
    lemma_milestone_touch(
        s,
        i as int,
        MilestoneView { approvals: m.approvals.push(buyer), ..m },
        audit(AuditAction::MilestoneApproved, Some(buyer), now, i, 0),
    );
    let s1 = approved(s, buyer, i, now);
    if s1.all_approved(i as int) {
        lemma_finalize(s1, i, fee, now, Some(buyer));
        let (s2, t2) = finalize(s1, i, fee, now, Some(buyer));
        lemma_sound_trans(s, s1, seq![], s2, t2);
        assert(Seq::<Transfer>::empty() + t2 =~= t2);
        lemma_parties_same(s, s1, fee, t2);
    }
}

/// Law: a partial-quantity confirmation that succeeds is a sound step.
pub proof fn law_partial(s: ShipmentView, buyer: AccountId, i: u32, qty: u32, fee: Option<FeeConfig>, now: u32)
    requires
        s.wf(),
        partial_error(s, buyer, i, qty) is None,
        fee_ok(fee),
    ensures
        sound_step(s, partial_post(s, buyer, i, qty, fee, now).0, partial_post(s, buyer, i, qty, fee, now).1),
        pays_only_parties(s, fee, partial_post(s, buyer, i, qty, fee, now).1),
{
    let ii = i as int;
    let m = s.milestones[ii];
    assert(s.milestone_wf(ii));
    lemma_wf_bounds(s);
    assert(0 <= s.gross(ii) <= s.total_amount);
    let delivered = m.delivered_quantity + qty;
    if delivered == m.expected_quantity {
        let m1 = MilestoneView { delivered_quantity: delivered as u32, ..m };
        let e = audit(AuditAction::PartialQtyConfirmed, Some(buyer), now, i, s.remainder(ii));
        lemma_milestone_touch(s, ii, m1, e);
        let s1 = s.with_milestone(ii, m1).log(e);
        lemma_finalize(s1, i, fee, now, Some(buyer));
        let (s2, t2) = finalize(s1, i, fee, now, Some(buyer));
        lemma_sound_trans(s, s1, seq![], s2, t2);
        assert(Seq::<Transfer>::empty() + t2 =~= t2);
        lemma_parties_same(s, s1, fee, t2);
    } else {
        let g = s.gross(ii);
        let amt = pro_rata(g, qty as int, m.expected_quantity as int);
        crate::lemmas::lemma_pro_rata_step(
            g,
            m.released as int,
            m.delivered_quantity as int,
            qty as int,
            m.expected_quantity as int,
        );
        let m1 = MilestoneView {
            delivered_quantity: delivered as u32,
            released: (m.released + amt) as i128,
            ..m
        };
        lemma_release_bound(s, ii, m1);
        let s1 = ShipmentView {
            released_amount: (s.released_amount + amt) as i128,
            ..s.with_milestone(ii, m1)
        }.log(audit(AuditAction::PartialQtyConfirmed, Some(buyer), now, i, amt));
        lemma_pay_supplier(s1, amt, fee, now, i);
        let (s2, t) = pay_supplier(s1, amt, fee, now, i);
        lemma_parties_same(s, s1, fee, t);
        assert(s2.gross(ii) == s.gross(ii));
        assert(s2.milestone_wf(ii));
        lemma_wf_after_update(s, s2, ii);
        assert(s2.audit_log.subrange(0, s.audit_log.len() as int) =~= s.audit_log);
        assert forall|j: int|
            0 <= j < s.milestones.len() && is_done(#[trigger] s.milestones[j].status) implies s2.milestones[j]
            == s.milestones[j] by {
            assert(j != ii);
        }
    }
}

/// Law: a graded confirmation that succeeds is a sound step.
pub proof fn law_graded(s: ShipmentView, buyer: AccountId, i: u32, grade: u32, fee: Option<FeeConfig>, now: u32)
    requires
        s.wf(),
        graded_error(s, buyer, i, grade) is None,
        fee_ok(fee),
    ensures
        sound_step(s, graded_post(s, buyer, i, grade, fee, now).0, graded_post(s, buyer, i, grade, fee, now).1),
        pays_only_parties(s, fee, graded_post(s, buyer, i, grade, fee, now).1),
{
    let ii = i as int;
    let m = s.milestones[ii];
    assert(s.milestone_wf(ii));
    let bps = s.quality_grades[grade as int];
    let e = audit(AuditAction::MilestoneGraded, Some(buyer), now, i, bps as int);
    let m1 = MilestoneView { grade: Some(grade), ..m };
    lemma_milestone_touch(s, ii, m1, e);
    let s1 = s.with_milestone(ii, m1).log(e);
    if bps == crate::types::FULL_GRADE_BPS {
        lemma_finalize(s1, i, fee, now, Some(buyer));
        let (s2, t2) = finalize(s1, i, fee, now, Some(buyer));
        lemma_sound_trans(s, s1, seq![], s2, t2);
        assert(Seq::<Transfer>::empty() + t2 =~= t2);
        lemma_parties_same(s, s1, fee, t2);
    } else {
        let m2 = MilestoneView {
            grade: Some(grade),
            status: MilestoneStatus::ConfirmedHeld,
            release_after_ledger: (now + s.review_window_ledgers) as u32,
            ..m
        };
        lemma_milestone_touch(s, ii, m2, e);
        assert(s1.with_milestone(ii, m2) =~= s.with_milestone(ii, m2).log(e));
    }
}

/// Law: releasing a held payment that succeeds is a sound step.
pub proof fn law_release(s: ShipmentView, i: u32, fee: Option<FeeConfig>, now: u32)
    requires
        s.wf(),
        release_error(s, i, now) is None,
        fee_ok(fee),
    ensures
        sound_step(s, release_post(s, i, fee, now).0, release_post(s, i, fee, now).1),
        pays_only_parties(s, fee, release_post(s, i, fee, now).1),
{
    if s.in_grade_review(i as int) {
        lemma_settle_graded(s, i, MilestoneStatus::Confirmed, fee, now, AuditAction::GradeSettled, None);
    } else {
        lemma_settle_full(s, i, MilestoneStatus::Confirmed, fee, now, AuditAction::HeldPaymentReleased, None);
    }
}

/// Law: raising a dispute that succeeds is a sound step.
pub proof fn law_raise(s: ShipmentView, caller: AccountId, i: u32, now: u32)
    requires
        s.wf(),
        raise_error(s, caller, i, now) is None,
    ensures
        sound_step(s, raise_post(s, caller, i, now), seq![]),
{
    let m = s.milestones[i as int];
    assert(s.milestone_wf(i as int));
    let action = if grade_hold(s, i as int) {
        AuditAction::GradeDisputed
    } else {
        AuditAction::DisputeRaised
    };
    lemma_milestone_touch(
        s,
        i as int,
        MilestoneView {
            status: MilestoneStatus::Disputed,
            release_after_ledger: 0,
            approvals: seq![],
            ..m
        },
        audit(action, Some(caller), now, i, 0),
    );
}

/// Law: resolving a dispute that succeeds is a sound step.
pub proof fn law_resolve(s: ShipmentView, caller: AccountId, i: u32, approve: bool, fee: Option<FeeConfig>, now: u32)
    requires
        s.wf(),
        resolve_error(s, caller, i) is None,
        fee_ok(fee),
    ensures
        sound_step(s, resolve_post(s, caller, i, approve, fee, now).0, resolve_post(s, caller, i, approve, fee, now).1),
        pays_only_parties(s, fee, resolve_post(s, caller, i, approve, fee, now).1),
{
    if approve {
        lemma_settle_full(s, i, MilestoneStatus::Resolved, fee, now, AuditAction::DisputeResolved, Some(caller));
    } else if s.in_grade_review(i as int) {
        lemma_settle_graded(s, i, MilestoneStatus::Resolved, fee, now, AuditAction::DisputeResolved, Some(caller));
    } else {
        let m = s.milestones[i as int];
        assert(s.milestone_wf(i as int));
        lemma_milestone_touch(
            s,
            i as int,
            MilestoneView {
                status: MilestoneStatus::Pending,
                proof_hash: seq![],
                approvals: seq![],
                release_after_ledger: 0,
                grade: None,
                ..m
            },
            audit(AuditAction::DisputeResolved, Some(caller), now, i, 0),
        );
    }
}

/// Law: withdrawing a dispute that succeeds is a sound step.
pub proof fn law_withdraw(s: ShipmentView, caller: AccountId, i: u32, now: u32)
    requires
        s.wf(),
        withdraw_error(s, caller, i) is None,
    ensures
        sound_step(s, withdraw_post(s, caller, i, now), seq![]),
{
    let m = s.milestones[i as int];
    assert(s.milestone_wf(i as int));
    lemma_milestone_touch(
        s,
        i as int,
        MilestoneView { status: MilestoneStatus::ProofSubmitted, ..m },
        audit(AuditAction::DisputeWithdrawn, Some(caller), now, i, 0),
    );
}

/// A cancellation refunds exactly what the shipment still holds.
pub proof fn lemma_cancelled(s: ShipmentView, e: crate::types::AuditEntry)
    requires
        s.wf(),
        s.status == ShipmentStatus::Active,
    ensures
        sound_step(s, cancelled(s, e).0, cancelled(s, e).1),
        cancelled(s, e).0.escrowed() == 0,
        outflow(cancelled(s, e).1) == s.escrowed(),
        pays_only_parties(s, None, cancelled(s, e).1),
{
    lemma_wf_bounds(s);
    let (t, ts) = cancelled(s, e);
    lemma_flow_payout(s.token, s.primary_buyer(), s.refund_amount());
    assert(s.is_buyer(s.primary_buyer())) by {
        assert(s.buyers[0] == s.primary_buyer());
    }
    lemma_payout_parties(s, None, s.token, s.primary_buyer(), s.refund_amount());
    assert(t.audit_log.subrange(0, s.audit_log.len() as int) =~= s.audit_log);
    assert forall|j: int| 0 <= j < t.milestones.len() implies #[trigger] t.milestone_wf(j) by {
        assert(s.milestone_wf(j));
    }
}

/// Law: a buyer's cancellation that succeeds is a sound step.
pub proof fn law_cancel(s: ShipmentView, caller: AccountId, now: u32)
    requires
        s.wf(),
        cancel_error(s, caller) is None,
    ensures
        sound_step(s, cancel_post(s, caller, now).0, cancel_post(s, caller, now).1),
        pays_only_parties(s, None, cancel_post(s, caller, now).1),
{
    lemma_cancelled(s, audit(AuditAction::ShipmentCancelled, Some(caller), now, 0, s.refund_amount()));
}

/// Law: a deadline cancellation that succeeds is a sound step.
pub proof fn law_deadline(s: ShipmentView, i: u32, now: u32)
    requires
        s.wf(),
        deadline_error(s, i, now) is None,
    ensures
        sound_step(s, deadline_post(s, i, now).0, deadline_post(s, i, now).1),
        pays_only_parties(s, None, deadline_post(s, i, now).1),
{
    lemma_cancelled(s, audit(AuditAction::DeadlineBreached, None, now, i, s.refund_amount()));
}

/// Law: filing a warranty claim that succeeds is a sound step.
pub proof fn law_file_claim(s: ShipmentView, caller: AccountId, evidence: Seq<u8>, now: u32)
    requires
        s.wf(),
        file_claim_error(s, caller, evidence, now) is None,
    ensures
        sound_step(s, file_claim_post(s, caller, evidence, now), seq![]),
{
    let t = file_claim_post(s, caller, evidence, now);
    assert(inflow(Seq::<Transfer>::empty()) == 0 && outflow(Seq::<Transfer>::empty()) == 0);
    assert(t.audit_log.subrange(0, s.audit_log.len() as int) =~= s.audit_log);
    assert forall|j: int| 0 <= j < t.milestones.len() implies #[trigger] t.milestone_wf(j) by {
        assert(s.milestone_wf(j));
    }
}

/// Law: resolving a warranty claim that succeeds is a sound step.
pub proof fn law_resolve_claim(s: ShipmentView, caller: AccountId, uphold: bool, now: u32)
    requires
        s.wf(),
        resolve_claim_error(s, caller) is None,
    ensures
        sound_step(s, resolve_claim_post(s, caller, uphold, now).0, resolve_claim_post(s, caller, uphold, now).1),
        pays_only_parties(s, None, resolve_claim_post(s, caller, uphold, now).1),
{
    lemma_wf_bounds(s);
    let (t, ts) = resolve_claim_post(s, caller, uphold, now);
    lemma_flow_payout(s.token, s.warranty_claim.unwrap().buyer, s.warranty_balance as int);
    lemma_payout_parties(s, None, s.token, s.warranty_claim.unwrap().buyer, s.warranty_balance as int);
    assert(inflow(Seq::<Transfer>::empty()) == 0 && outflow(Seq::<Transfer>::empty()) == 0);
    assert(t.audit_log.subrange(0, s.audit_log.len() as int) =~= s.audit_log);
    assert forall|j: int| 0 <= j < t.milestones.len() implies #[trigger] t.milestone_wf(j) by {
        assert(s.milestone_wf(j));
    }
}

/// Law: releasing the warranty balance that succeeds is a sound step.
pub proof fn law_release_warranty(s: ShipmentView, now: u32)
    requires
        s.wf(),
        release_warranty_error(s, now) is None,
    ensures
        sound_step(s, release_warranty_post(s, now).0, release_warranty_post(s, now).1),
        pays_only_parties(s, None, release_warranty_post(s, now).1),
{
    lemma_wf_bounds(s);
    let (t, ts) = release_warranty_post(s, now);
    lemma_flow_payout(s.token, s.supplier, s.warranty_balance as int);
    lemma_payout_parties(s, None, s.token, s.supplier, s.warranty_balance as int);
    assert(t.audit_log.subrange(0, s.audit_log.len() as int) =~= s.audit_log);
    assert forall|j: int| 0 <= j < t.milestones.len() implies #[trigger] t.milestone_wf(j) by {
        assert(s.milestone_wf(j));
    }
}


/// Law: a cancelled shipment is frozen: every operation on it is refused.
pub proof fn law_cancelled_is_frozen(
    s: ShipmentView,
    caller: AccountId,
    i: u32,
    qty: u32,
    grade: u32,
    evidence: Seq<u8>,
    now: u32,
)
    requires
        s.status == ShipmentStatus::Cancelled,
    ensures
        submit_proof_error(s, caller, i, now) == Some(ChainSettleError::ShipmentNotActive),
        confirm_error(s, caller, i) == Some(ChainSettleError::ShipmentNotActive),
        partial_error(s, caller, i, qty) == Some(ChainSettleError::ShipmentNotActive),
        graded_error(s, caller, i, grade) == Some(ChainSettleError::ShipmentNotActive),
        release_error(s, i, now) == Some(ChainSettleError::ShipmentNotActive),
        raise_error(s, caller, i, now) == Some(ChainSettleError::ShipmentNotActive),
        resolve_error(s, caller, i) == Some(ChainSettleError::ShipmentNotActive),
        withdraw_error(s, caller, i) == Some(ChainSettleError::ShipmentNotActive),
        cancel_error(s, caller) == Some(ChainSettleError::ShipmentNotActive),
        deadline_error(s, i, now) == Some(ChainSettleError::ShipmentNotActive),
        file_claim_error(s, caller, evidence, now) == Some(ChainSettleError::ShipmentNotCompleted),
        resolve_claim_error(s, caller) == Some(ChainSettleError::ShipmentNotCompleted),
        release_warranty_error(s, now) == Some(ChainSettleError::ShipmentNotCompleted),
{
}

/// Law: once a shipment is completed no milestone can change any more; only the
/// warranty operations apply to it.
pub proof fn law_completed_milestones_frozen(
    s: ShipmentView,
    caller: AccountId,
    i: u32,
    qty: u32,
    grade: u32,
    now: u32,
)
    requires
        s.status == ShipmentStatus::Completed,
    ensures
        submit_proof_error(s, caller, i, now) == Some(ChainSettleError::ShipmentNotActive),
        confirm_error(s, caller, i) == Some(ChainSettleError::ShipmentNotActive),
        partial_error(s, caller, i, qty) == Some(ChainSettleError::ShipmentNotActive),
        graded_error(s, caller, i, grade) == Some(ChainSettleError::ShipmentNotActive),
        release_error(s, i, now) == Some(ChainSettleError::ShipmentNotActive),
        raise_error(s, caller, i, now) == Some(ChainSettleError::ShipmentNotActive),
        resolve_error(s, caller, i) == Some(ChainSettleError::ShipmentNotActive),
        withdraw_error(s, caller, i) == Some(ChainSettleError::ShipmentNotActive),
        cancel_error(s, caller) == Some(ChainSettleError::ShipmentNotActive),
        deadline_error(s, i, now) == Some(ChainSettleError::ShipmentNotActive),
{
}

/// Law: a milestone's payment waits for every co-buyer. Until the last co-buyer
/// confirms, a confirmation only records the approval; the last one confirms the
/// milestone, held when the shipment has a holdback and paid otherwise.
pub proof fn law_multisig(s: ShipmentView, buyer: AccountId, i: u32, fee: Option<FeeConfig>, now: u32)
    requires
        s.wf(),
        confirm_error(s, buyer, i) is None,
        fee_ok(fee),
    ensures
        ({
            let (t, ts) = confirm_post(s, buyer, i, fee, now);
            let s1 = approved(s, buyer, i, now);
            &&& !s1.all_approved(i as int) ==> ts.len() == 0 && t.milestones[i as int].status
                == MilestoneStatus::ProofSubmitted && t.released_amount == s.released_amount
            &&& s1.all_approved(i as int) && s.holdback_ledgers > 0 ==> ts.len() == 0
                && t.milestones[i as int].status == MilestoneStatus::ConfirmedHeld
            &&& s1.all_approved(i as int) && s.holdback_ledgers == 0 ==> t.milestones[i as int].status
                == MilestoneStatus::Confirmed && t.milestones[i as int].released == s.gross(i as int)
        }),
{
    let s1 = approved(s, buyer, i, now);
    let m = s.milestones[i as int];
    assert(s.milestone_wf(i as int));
    lemma_milestone_touch(
        s,
        i as int,
        MilestoneView { approvals: m.approvals.push(buyer), ..m },
        audit(AuditAction::MilestoneApproved, Some(buyer), now, i, 0),
    );
    if s1.all_approved(i as int) && s.holdback_ledgers == 0 {
        lemma_settle_full(
            s1,
            i,
            MilestoneStatus::Confirmed,
            fee,
            now,
            AuditAction::MilestoneConfirmed,
            Some(buyer),
        );
        assert(s1.gross(i as int) == s.gross(i as int));
        lemma_wf_bounds(s1);
        assert(0 <= s1.gross(i as int) <= s1.total_amount);
    }
}

/// Law: in sequential mode, a proof is accepted only after the previous milestone
/// is settled.
pub proof fn law_sequential_order(s: ShipmentView, caller: AccountId, i: u32, now: u32)
    requires
        submit_proof_error(s, caller, i, now) is None,
        s.milestone_mode == crate::types::MilestoneMode::Sequential,
        i > 0,
    ensures
        is_done(s.milestones[i - 1].status),
{
}

/// Law: in sequential mode, in every well-formed state (and every operation keeps
/// the state well formed), a milestone that has left `Pending` has only settled
/// milestones before it.
pub proof fn law_sequential_in_order(s: ShipmentView, k: int, j: int)
    requires
        s.wf(),
        s.milestone_mode == crate::types::MilestoneMode::Sequential,
        0 <= k < j < s.milestones.len(),
        s.milestones[j].status != MilestoneStatus::Pending,
    ensures
        is_done(s.milestones[k].status),
{
}

/// Law: for a pending milestone with a deadline, a proof is accepted exactly as
/// long as the deadline cancellation is refused for want of a breach, and once the
/// deadline has passed the cancellation is open to anyone.
pub proof fn law_deadline_exclusive(s: ShipmentView, caller: AccountId, i: u32, now: u32)
    requires
        s.status == ShipmentStatus::Active,
        i < s.milestones.len(),
        s.milestones[i as int].status == MilestoneStatus::Pending,
        s.milestones[i as int].deadline_ledger is Some,
        caller == s.supplier || caller == s.logistics,
        !(s.milestone_mode == crate::types::MilestoneMode::Sequential && i > 0 && !is_done(
            s.milestones[i - 1].status,
        )),
    ensures
        submit_proof_error(s, caller, i, now) is None <==> deadline_error(s, i, now) == Some(
            ChainSettleError::DeadlineNotBreached,
        ),
        submit_proof_error(s, caller, i, now) is None || deadline_error(s, i, now) is None,
{
}

/// Law: a settled milestone has been paid exactly its gross, however many partial
/// deliveries it took.
pub proof fn law_settled_paid_in_full(s: ShipmentView, i: int)
    requires
        s.wf(),
        0 <= i < s.milestones.len(),
        is_done(s.milestones[i].status),
    ensures
        s.milestones[i].released == s.gross(i),
{
    assert(s.milestone_wf(i));
}

proof fn lemma_gross_sum_lower(total: int, ms: Seq<MilestoneView>)
    requires
        0 <= total,
    ensures
        total * percent_sum(ms) < 100 * crate::model::gross_sum(total, ms) + 100 * ms.len()
            || ms.len() == 0,
    decreases ms.len(),
{
    if ms.len() > 0 {
        let p = ms.last().payment_percent as int;
        lemma_gross_sum_lower(total, ms.drop_last());
        assert(0 <= total * p) by (nonlinear_arith)
            requires
                0 <= total,
                0 <= p,
        ;
        crate::lemmas::lemma_floor_div(total * p, 100);
        let a = percent_sum(ms.drop_last());
        assert(total * (a + p) == total * a + total * p) by (nonlinear_arith);
    }
}

/// Law: a completed shipment has released every milestone's gross; what it still
/// holds is the warranty plus rounding dust of less than one unit per milestone.
pub proof fn law_completed(s: ShipmentView)
    requires
        s.wf(),
        s.status == ShipmentStatus::Completed,
    ensures
        s.all_done(),
        s.released_amount == crate::model::gross_sum(s.total_amount as int, s.milestones),
        s.retainage_balance == 0,
        s.escrowed() == s.total_amount - s.released_amount + s.warranty_balance,
        0 <= s.total_amount - s.released_amount < s.milestones.len(),
{
    lemma_wf_bounds(s);
    assert forall|i: int|
        0 <= i < s.milestones.len() implies #[trigger] s.milestones[i].released
        == crate::model::gross_of(s.total_amount as int, s.milestones[i].payment_percent as int) by {
        assert(s.milestone_wf(i));
    }
    crate::lemmas::lemma_released_eq_gross(s.total_amount as int, s.milestones);
    lemma_gross_sum_lower(s.total_amount as int, s.milestones);
}


/// Law: a confirmation that pays a milestone (the last co-buyer's approval, no
/// holdback) releases the milestone's unpaid gross `g`. The protocol fee `f` of `g`
/// goes to the treasury; of the net `g - f`, the retainage share is withheld and
/// the warranty share held, and the supplier gets the rest. When the confirmation
/// completes the shipment, the supplier also gets all the retainage, which drops
/// to zero; otherwise the retainage grows by the share withheld.
pub proof fn law_confirm_payment(s: ShipmentView, buyer: AccountId, i: u32, fee: Option<FeeConfig>, now: u32)
    requires
        s.wf(),
        confirm_error(s, buyer, i) is None,
        s.last_approval(buyer, i as int),
        s.holdback_ledgers == 0,
        fee_ok(fee),
        fee matches Some(c) ==> c.treasury != s.supplier,
    ensures
        ({
            let (t, ts) = confirm_post(s, buyer, i, fee, now);
            let g = s.remainder(i as int);
            let f = fee_part(fee, g);
            let held = bps_of(g - f, s.retainage_bps as int);
            let war = bps_of(g - f, s.warranty_bps as int);
            &&& t.released_amount == s.released_amount + g
            &&& t.milestones[i as int].status == MilestoneStatus::Confirmed
            &&& t.warranty_balance == s.warranty_balance + war
            &&& (fee matches Some(c) ==> paid_to(ts, c.treasury) == f)
            &&& if s.completes_with(i as int) {
                &&& t.status == ShipmentStatus::Completed
                &&& t.retainage_balance == 0
                &&& paid_to(ts, s.supplier) == g - f - held - war + s.retainage_balance + held
            } else {
                &&& t.status == ShipmentStatus::Active
                &&& t.retainage_balance == s.retainage_balance + held
                &&& paid_to(ts, s.supplier) == g - f - held - war
            }
        }),
{
    let ii = i as int;
    lemma_wf_bounds(s);
    assert(s.milestone_wf(ii));
    let s1 = approved(s, buyer, i, now);
    assert(s1.all_approved(ii)) by {
        assert forall|j: int| 0 <= j < s1.buyers.len() implies s1.milestones[ii].approvals.contains(
            #[trigger] s1.buyers[j],
        ) by {
            let a = s.milestones[ii].approvals;
            assert(s1.milestones[ii].approvals == a.push(buyer));
            if s.buyers[j] == buyer {
                assert(a.push(buyer)[a.len() as int] == buyer);
            } else {
                assert(a.contains(s.buyers[j]));
                let k = choose|k: int| 0 <= k < a.len() && a[k] == s.buyers[j];
                assert(a.push(buyer)[k] == s.buyers[j]);
            }
        }
    }
    assert(s1.remainder(ii) == s.remainder(ii));
    let g = s.remainder(ii);
    assert(0 <= g <= s.gross(ii) <= s.total_amount);
    let target = MilestoneStatus::Confirmed;
    let s2 = ShipmentView {
        released_amount: (s1.released_amount + g) as i128,
        ..s1.with_milestone(ii, settled_milestone(s1, ii, target))
    }.log(audit(AuditAction::MilestoneConfirmed, Some(buyer), now, i, g));
    let f = fee_part(fee, g);
    match fee {
        Some(c) => {
            lemma_bps_bounds(g, c.fee_bps as int);
        },
        None => {},
    }
    let net = g - f;
    lemma_bps_bounds(net, s.retainage_bps as int);
    lemma_bps_bounds(net, s.warranty_bps as int);
    let held = bps_of(net, s.retainage_bps as int);
    let war = bps_of(net, s.warranty_bps as int);
    assert(held + war <= net) by (nonlinear_arith)
        requires
            10000 * held <= net * s.retainage_bps,
            10000 * war <= net * s.warranty_bps,
            s.retainage_bps <= 2000,
            s.warranty_bps <= 2000,
            0 <= net,
    ;
    let sup = net - held - war;
    let (s3, t1) = pay_supplier(s2, g, fee, now, i);
    let (s4, t2) = complete_if_done(s3, now);
    assert(s3.all_done() == s.completes_with(ii)) by {
        if s3.all_done() {
            assert forall|j: int| 0 <= j < s.milestones.len() && j != ii implies is_done(
                #[trigger] s.milestones[j].status,
            ) by {
                assert(is_done(s3.milestones[j].status));
            }
        }
        if s.completes_with(ii) {
            assert forall|j: int| 0 <= j < s3.milestones.len() implies is_done(
                #[trigger] s3.milestones[j].status,
            ) by {
                if j != ii {
                    assert(is_done(s.milestones[j].status));
                }
            }
        }
    }
    lemma_paid_concat(t1, t2, s.supplier);
    lemma_paid_payout(s.token, s.supplier, sup, s.supplier);
    lemma_paid_payout(s.token, s.supplier, s3.retainage_balance as int, s.supplier);
    match fee {
        Some(c) => {
            lemma_paid_concat(t1, t2, c.treasury);
            lemma_paid_payout(s.token, s.supplier, sup, c.treasury);
            lemma_paid_payout(s.token, c.treasury, f, c.treasury);
            lemma_paid_payout(s.token, c.treasury, f, s.supplier);
            lemma_paid_payout(s.token, s.supplier, s3.retainage_balance as int, c.treasury);
            lemma_paid_concat(
                payout_if_positive(s.token, s.supplier, sup),
                payout_if_positive(s.token, c.treasury, f),
                s.supplier,
            );
            lemma_paid_concat(
                payout_if_positive(s.token, s.supplier, sup),
                payout_if_positive(s.token, c.treasury, f),
                c.treasury,
            );
        },
        None => {
            assert(t1 =~= payout_if_positive(s.token, s.supplier, sup));
        },
    }
    if !s3.all_done() {
        assert(t2 =~= Seq::<Transfer>::empty());
        assert(paid_to(t2, s.supplier) == 0);
        match fee {
            Some(c) => {
                assert(paid_to(t2, c.treasury) == 0);
            },
            None => {},
        }
    }
}

} // verus!
