//! The mathematical model of a shipment: its well-formedness, how much of the
//! escrow it still holds, and the transition each operation makes.
use vstd::prelude::*;

verus! {

use crate::types::{
    AccountId, AuditAction, AuditEntry, ChainSettleError, FeeConfig, MilestoneMode,
    MilestoneStatus, MilestoneView, ShipmentStatus, ShipmentView, Transfer, WarrantyClaimView,
    FULL_GRADE_BPS, MAX_RETAINAGE_BPS, MAX_SHIPMENT_VALUE, MAX_WARRANTY_BPS,
};

// ------------------------------------------------------------------
// Arithmetic
// ------------------------------------------------------------------

/// A milestone's gross payment: `pct` percent of `total`, rounded down.
pub open spec fn gross_of(total: int, pct: int) -> int {
    total * pct / 100
}

/// `bps` basis points of `amount`, rounded down.
pub open spec fn bps_of(amount: int, bps: int) -> int {
    amount * bps / 10000
}

/// The pro-rata share of `gross` for `qty` out of `expected` units, rounded down.
pub open spec fn pro_rata(gross: int, qty: int, expected: int) -> int {
    gross * qty / expected
}

pub open spec fn fee_part(fee: Option<FeeConfig>, amount: int) -> int {
    match fee {
        Some(c) => bps_of(amount, c.fee_bps as int),
        None => 0,
    }
}

pub open spec fn fee_ok(fee: Option<FeeConfig>) -> bool {
    match fee {
        Some(c) => c.fee_bps <= crate::types::MAX_FEE_BPS,
        None => true,
    }
}

pub open spec fn is_done(st: MilestoneStatus) -> bool {
    st == MilestoneStatus::Confirmed || st == MilestoneStatus::Resolved
}

// ------------------------------------------------------------------
// Transfers
// ------------------------------------------------------------------

pub open spec fn payout(token: AccountId, to: AccountId, amount: int) -> Transfer {
    Transfer { token, counterparty: to, amount: amount as i128, into_escrow: false }
}

pub open spec fn payout_if_positive(token: AccountId, to: AccountId, amount: int) -> Seq<Transfer> {
    if amount > 0 {
        seq![payout(token, to, amount)]
    } else {
        seq![]
    }
}

/// Total moved into the escrow by a list of transfers.
pub open spec fn inflow(ts: Seq<Transfer>) -> int
    decreases ts.len(),
{
    if ts.len() == 0 {
        0
    } else {
        inflow(ts.drop_last()) + if ts.last().into_escrow {
            ts.last().amount as int
        } else {
            0
        }
    }
}

/// Total paid out of the escrow by a list of transfers.
pub open spec fn outflow(ts: Seq<Transfer>) -> int
    decreases ts.len(),
{
    if ts.len() == 0 {
        0
    } else {
        outflow(ts.drop_last()) + if ts.last().into_escrow {
            0
        } else {
            ts.last().amount as int
        }
    }
}

/// Total that a list of transfers pays out of the escrow to `a`.
pub open spec fn paid_to(ts: Seq<Transfer>, a: AccountId) -> int
    decreases ts.len(),
{
    if ts.len() == 0 {
        0
    } else {
        paid_to(ts.drop_last(), a) + if !ts.last().into_escrow && ts.last().counterparty == a {
            ts.last().amount as int
        } else {
            0
        }
    }
}

/// `a` may receive funds from the escrow of `s`: the supplier, a co-buyer, or the
/// treasury of the protocol fee in force.
pub open spec fn party_of(s: ShipmentView, fee: Option<FeeConfig>, a: AccountId) -> bool {
    a == s.supplier || s.is_buyer(a) || (fee matches Some(c) && a == c.treasury)
}

/// Every transfer is a payment out of escrow to a party of the shipment.
pub open spec fn pays_only_parties(s: ShipmentView, fee: Option<FeeConfig>, ts: Seq<Transfer>) -> bool {
    forall|k: int|
        #![trigger ts[k]]
        0 <= k < ts.len() ==> !ts[k].into_escrow && party_of(s, fee, ts[k].counterparty)
}

/// Every transfer moves a positive amount of `token`.
pub open spec fn transfers_of(ts: Seq<Transfer>, token: AccountId) -> bool {
    forall|k: int| 0 <= k < ts.len() ==> #[trigger] ts[k].amount > 0 && ts[k].token == token
}

pub open spec fn audit(
    action: AuditAction,
    actor: Option<AccountId>,
    ledger: u32,
    index: u32,
    amount: int,
) -> AuditEntry {
    AuditEntry { action, actor, ledger, milestone_index: index, amount: amount as i128 }
}

// ------------------------------------------------------------------
// Sums over milestones
// ------------------------------------------------------------------

pub open spec fn percent_sum(ms: Seq<MilestoneView>) -> int
    decreases ms.len(),
{
    if ms.len() == 0 {
        0
    } else {
        percent_sum(ms.drop_last()) + ms.last().payment_percent
    }
}

pub open spec fn released_sum(ms: Seq<MilestoneView>) -> int
    decreases ms.len(),
{
    if ms.len() == 0 {
        0
    } else {
        released_sum(ms.drop_last()) + ms.last().released
    }
}

pub open spec fn gross_sum(total: int, ms: Seq<MilestoneView>) -> int
    decreases ms.len(),
{
    if ms.len() == 0 {
        0
    } else {
        gross_sum(total, ms.drop_last()) + gross_of(total, ms.last().payment_percent as int)
    }
}

/// Grades start at a full grade and never increase.
pub open spec fn grades_valid(gs: Seq<u32>) -> bool {
    gs.len() == 0 || (gs[0] == FULL_GRADE_BPS && forall|i: int, j: int|
        0 <= i <= j < gs.len() ==> #[trigger] gs[j] <= #[trigger] gs[i])
}

impl ShipmentView {
    pub open spec fn gross(self, i: int) -> int {
        gross_of(self.total_amount as int, self.milestones[i].payment_percent as int)
    }

    /// Part of milestone `i`'s gross payment not yet counted as released.
    pub open spec fn remainder(self, i: int) -> int {
        self.gross(i) - self.milestones[i].released
    }

    pub open spec fn is_buyer(self, a: AccountId) -> bool {
        self.buyers.contains(a)
    }

    pub open spec fn primary_buyer(self) -> AccountId {
        self.buyers[0]
    }

    pub open spec fn all_done(self) -> bool {
        forall|i: int| 0 <= i < self.milestones.len() ==> is_done(#[trigger] self.milestones[i].status)
    }

    pub open spec fn any_disputed(self) -> bool {
        exists|i: int|
            0 <= i < self.milestones.len() && #[trigger] self.milestones[i].status
                == MilestoneStatus::Disputed
    }

    pub open spec fn all_approved(self, i: int) -> bool {
        forall|j: int|
            0 <= j < self.buyers.len() ==> self.milestones[i].approvals.contains(
                #[trigger] self.buyers[j],
            )
    }

    /// Milestone `i` carries a grade below full, so its settlement splits the payment.
    pub open spec fn in_grade_review(self, i: int) -> bool {
        match self.milestones[i].grade {
            Some(g) => g < self.quality_grades.len() && self.quality_grades[g as int]
                < FULL_GRADE_BPS,
            None => false,
        }
    }

    pub open spec fn grade_bps(self, i: int) -> int {
        self.quality_grades[self.milestones[i].grade.unwrap() as int] as int
    }

    /// Value the contract still holds for this shipment.
    pub open spec fn escrowed(self) -> int {
        if self.status == ShipmentStatus::Cancelled {
            0
        } else {
            self.total_amount - self.released_amount + self.retainage_balance
                + self.warranty_balance
        }
    }

    /// What a cancellation returns to the primary buyer.
    pub open spec fn refund_amount(self) -> int {
        self.total_amount - self.released_amount + self.retainage_balance + self.warranty_balance
    }

    pub open spec fn milestone_wf(self, i: int) -> bool {
        let m = self.milestones[i];
        let g = self.gross(i);
        &&& m.payment_percent <= 100
        &&& 0 <= m.released <= g
        &&& m.delivered_quantity <= m.expected_quantity
        &&& (m.expected_quantity > 0 ==> m.released * m.expected_quantity <= g
            * m.delivered_quantity)
        &&& (is_done(m.status) ==> m.released == g)
        &&& (m.grade matches Some(k) ==> k < self.quality_grades.len())
    }

    /// The invariant that every shipment keeps from creation on.
    pub open spec fn wf(self) -> bool {
        &&& self.buyers.len() > 0
        &&& 0 < self.total_amount <= MAX_SHIPMENT_VALUE
        &&& percent_sum(self.milestones) == 100
        &&& forall|i: int| 0 <= i < self.milestones.len() ==> #[trigger] self.milestone_wf(i)
        &&& self.released_amount == released_sum(self.milestones)
        &&& 0 <= self.retainage_balance
        &&& 0 <= self.warranty_balance
        &&& self.retainage_balance + self.warranty_balance <= self.released_amount
        &&& self.retainage_bps <= MAX_RETAINAGE_BPS
        &&& self.warranty_bps <= MAX_WARRANTY_BPS
        &&& grades_valid(self.quality_grades)
        &&& (self.status == ShipmentStatus::Completed ==> self.all_done()
            && self.retainage_balance == 0)
        &&& (self.status != ShipmentStatus::Completed ==> self.warranty_claim is None)
        &&& (self.warranty_claim matches Some(c) ==> self.is_buyer(c.buyer))
        &&& (self.milestone_mode == MilestoneMode::Sequential ==> self.in_order())
    }

    /// Every milestone that has left `Pending` comes after settled milestones only.
    pub open spec fn in_order(self) -> bool {
        forall|j: int, k: int|
            0 <= k < j < self.milestones.len() && #[trigger] self.milestones[j].status
                != MilestoneStatus::Pending ==> is_done(#[trigger] self.milestones[k].status)
    }

    /// The warranty period that completion starts at ledger `now` ends within `u32`.
    pub open spec fn warranty_fits(self, now: u32) -> bool {
        now + self.warranty_ledgers <= u32::MAX
    }

    /// Every milestone but `i` is settled, so settling `i` completes the shipment.
    pub open spec fn completes_with(self, i: int) -> bool {
        forall|j: int|
            0 <= j < self.milestones.len() && j != i ==> is_done(#[trigger] self.milestones[j].status)
    }

    /// Settling milestone `i` at ledger `now` keeps the ledger arithmetic within
    /// `u32`: the warranty period it starts when it completes the shipment ends there.
    pub open spec fn settle_fits(self, i: int, now: u32) -> bool {
        self.completes_with(i) ==> self.warranty_fits(now)
    }

    /// Confirming milestone `i` at ledger `now` keeps the ledger arithmetic within
    /// `u32`: the end of the holdback when the payment is held, otherwise what
    /// settling the milestone computes.
    pub open spec fn finalize_fits(self, i: int, now: u32) -> bool {
        if self.holdback_ledgers > 0 {
            now + self.holdback_ledgers <= u32::MAX
        } else {
            self.settle_fits(i, now)
        }
    }

    /// `buyer`'s approval is the last one that milestone `i` waits for.
    pub open spec fn last_approval(self, buyer: AccountId, i: int) -> bool {
        forall|j: int|
            0 <= j < self.buyers.len() ==> #[trigger] self.buyers[j] == buyer
                || self.milestones[i].approvals.contains(self.buyers[j])
    }

    /// The grade review window that starts at ledger `now` ends within `u32`.
    pub open spec fn review_fits(self, now: u32) -> bool {
        now + self.review_window_ledgers <= u32::MAX
    }

    pub open spec fn with_milestone(self, i: int, m: MilestoneView) -> ShipmentView {
        ShipmentView { milestones: self.milestones.update(i, m), ..self }
    }

    pub open spec fn log(self, e: AuditEntry) -> ShipmentView {
        ShipmentView { audit_log: self.audit_log.push(e), ..self }
    }
}

// ------------------------------------------------------------------
// Shared steps of the transitions
// ------------------------------------------------------------------

/// Pays `amount` to the supplier: the protocol fee goes to the treasury, and the
/// retainage and warranty shares of the net stay in escrow.
/// Retainage kept back is recorded in the audit trail against milestone `i`.
pub open spec fn pay_supplier(s: ShipmentView, amount: int, fee: Option<FeeConfig>, now: u32, i: u32) -> (
    ShipmentView,
    Seq<Transfer>,
) {
    let f = fee_part(fee, amount);
    let net = amount - f;
    let ret = bps_of(net, s.retainage_bps as int);
    let war = bps_of(net, s.warranty_bps as int);
    let sup = net - ret - war;
    let log = if ret > 0 {
        s.audit_log.push(audit(AuditAction::RetainageWithheld, None, now, i, ret))
    } else {
        s.audit_log
    };
    let s1 = ShipmentView {
        retainage_balance: (s.retainage_balance + ret) as i128,
        warranty_balance: (s.warranty_balance + war) as i128,
        audit_log: log,
        ..s
    };
    let fee_transfer = match fee {
        Some(c) => payout_if_positive(s.token, c.treasury, f),
        None => seq![],
    };
    (s1, payout_if_positive(s.token, s.supplier, sup) + fee_transfer)
}

/// Completes the shipment when every milestone is done: the retainage goes to the
/// supplier and the warranty period starts.
pub open spec fn complete_if_done(s: ShipmentView, now: u32) -> (ShipmentView, Seq<Transfer>) {
    if s.all_done() {
        let r = s.retainage_balance as int;
        let log = if r > 0 {
            s.audit_log.push(audit(AuditAction::RetainageReleased, None, now, 0, r))
        } else {
            s.audit_log
        };
        (
            ShipmentView {
                status: ShipmentStatus::Completed,
                retainage_balance: 0,
                warranty_end_ledger: (now + s.warranty_ledgers) as u32,
                audit_log: log,
                ..s
            },
            payout_if_positive(s.token, s.supplier, r),
        )
    } else {
        (s, seq![])
    }
}

/// Milestone `i` after its whole gross payment is counted as released.
pub open spec fn settled_milestone(s: ShipmentView, i: int, target: MilestoneStatus) -> MilestoneView {
    let m = s.milestones[i];
    MilestoneView {
        status: target,
        released: s.gross(i) as i128,
        delivered_quantity: m.expected_quantity,
        release_after_ledger: 0,
        ..m
    }
}

/// Settles milestone `i` in full: its remainder goes to the supplier.
pub open spec fn settle_full(
    s: ShipmentView,
    i: u32,
    target: MilestoneStatus,
    fee: Option<FeeConfig>,
    now: u32,
    action: AuditAction,
    actor: Option<AccountId>,
) -> (ShipmentView, Seq<Transfer>) {
    let piece = s.remainder(i as int);
    let s1 = ShipmentView {
        released_amount: (s.released_amount + piece) as i128,
        ..s.with_milestone(i as int, settled_milestone(s, i as int, target))
    }.log(audit(action, actor, now, i, piece));
    let (s2, t1) = pay_supplier(s1, piece, fee, now, i);
    let (s3, t2) = complete_if_done(s2, now);
    (s3, t1 + t2)
}

/// Settles milestone `i` at its grade: the graded share goes to the supplier and the
/// rest back to the primary buyer.
pub open spec fn settle_graded(
    s: ShipmentView,
    i: u32,
    target: MilestoneStatus,
    fee: Option<FeeConfig>,
    now: u32,
    action: AuditAction,
    actor: Option<AccountId>,
) -> (ShipmentView, Seq<Transfer>) {
    let piece = s.remainder(i as int);
    let share = bps_of(piece, s.grade_bps(i as int));
    let refund = piece - share;
    let s1 = ShipmentView {
        released_amount: (s.released_amount + piece) as i128,
        ..s.with_milestone(i as int, settled_milestone(s, i as int, target))
    }.log(audit(action, actor, now, i, share));
    let (s2, t1) = pay_supplier(s1, share, fee, now, i);
    let t_refund = payout_if_positive(s.token, s.primary_buyer(), refund);
    let (s3, t2) = complete_if_done(s2, now);
    (s3, t1 + t_refund + t2)
}

/// Confirms milestone `i`: held when the shipment has a holdback, paid otherwise.
pub open spec fn finalize(
    s: ShipmentView,
    i: u32,
    fee: Option<FeeConfig>,
    now: u32,
    actor: Option<AccountId>,
) -> (ShipmentView, Seq<Transfer>) {
    if s.holdback_ledgers > 0 {
        let m = s.milestones[i as int];
        (
            s.with_milestone(
                i as int,
                MilestoneView {
                    status: MilestoneStatus::ConfirmedHeld,
                    release_after_ledger: (now + s.holdback_ledgers) as u32,
                    ..m
                },
            ).log(audit(AuditAction::PaymentHeld, actor, now, i, s.remainder(i as int))),
            seq![],
        )
    } else {
        settle_full(s, i, MilestoneStatus::Confirmed, fee, now, AuditAction::MilestoneConfirmed, actor)
    }
}

// ------------------------------------------------------------------
// Operations: the error each one gives, and the state it leads to
// ------------------------------------------------------------------

pub open spec fn submit_proof_error(s: ShipmentView, caller: AccountId, i: u32, now: u32) -> Option<
    ChainSettleError,
> {
    if s.status != ShipmentStatus::Active {
        Some(ChainSettleError::ShipmentNotActive)
    } else if i >= s.milestones.len() {
        Some(ChainSettleError::InvalidMilestoneIndex)
    } else if s.milestones[i as int].status != MilestoneStatus::Pending {
        Some(ChainSettleError::InvalidMilestoneStatus)
    } else if caller != s.supplier && caller != s.logistics {
        Some(ChainSettleError::Unauthorized)
    } else if s.milestone_mode == MilestoneMode::Sequential && i > 0 && !is_done(
        s.milestones[i - 1].status,
    ) {
        Some(ChainSettleError::PreviousMilestoneNotComplete)
    } else if s.milestones[i as int].deadline_ledger matches Some(d) && now > d {
        Some(ChainSettleError::DeadlinePassed)
    } else {
        None
    }
}

pub open spec fn submit_proof_post(
    s: ShipmentView,
    caller: AccountId,
    i: u32,
    proof_hash: Seq<u8>,
    now: u32,
) -> ShipmentView {
    let m = s.milestones[i as int];
    s.with_milestone(
        i as int,
        MilestoneView { proof_hash, status: MilestoneStatus::ProofSubmitted, ..m },
    ).log(audit(AuditAction::ProofSubmitted, Some(caller), now, i, 0))
}

pub open spec fn confirm_error(s: ShipmentView, buyer: AccountId, i: u32) -> Option<ChainSettleError> {
    if s.status != ShipmentStatus::Active {
        Some(ChainSettleError::ShipmentNotActive)
    } else if !s.is_buyer(buyer) {
        Some(ChainSettleError::Unauthorized)
    } else if i >= s.milestones.len() {
        Some(ChainSettleError::InvalidMilestoneIndex)
    } else if s.milestones[i as int].status != MilestoneStatus::ProofSubmitted {
        Some(ChainSettleError::ProofNotSubmitted)
    } else if s.milestones[i as int].approvals.contains(buyer) {
        Some(ChainSettleError::AlreadyApproved)
    } else {
        None
    }
}

/// The state after `buyer`'s approval is recorded on milestone `i`.
pub open spec fn approved(s: ShipmentView, buyer: AccountId, i: u32, now: u32) -> ShipmentView {
    let m = s.milestones[i as int];
    s.with_milestone(i as int, MilestoneView { approvals: m.approvals.push(buyer), ..m }).log(
        audit(AuditAction::MilestoneApproved, Some(buyer), now, i, 0),
    )
}

pub open spec fn confirm_post(
    s: ShipmentView,
    buyer: AccountId,
    i: u32,
    fee: Option<FeeConfig>,
    now: u32,
) -> (ShipmentView, Seq<Transfer>) {
    let s1 = approved(s, buyer, i, now);
    if s1.all_approved(i as int) {
        finalize(s1, i, fee, now, Some(buyer))
    } else {
        (s1, seq![])
    }
}

pub open spec fn partial_error(s: ShipmentView, buyer: AccountId, i: u32, qty: u32) -> Option<
    ChainSettleError,
> {
    if s.status != ShipmentStatus::Active {
        Some(ChainSettleError::ShipmentNotActive)
    } else if !s.is_buyer(buyer) {
        Some(ChainSettleError::Unauthorized)
    } else if i >= s.milestones.len() {
        Some(ChainSettleError::InvalidMilestoneIndex)
    } else if s.milestones[i as int].status != MilestoneStatus::ProofSubmitted {
        Some(ChainSettleError::ProofNotSubmitted)
    } else if s.milestones[i as int].expected_quantity == 0 {
        Some(ChainSettleError::NotQuantityBased)
    } else if qty == 0 {
        Some(ChainSettleError::ZeroQuantity)
    } else if qty > s.milestones[i as int].expected_quantity
        - s.milestones[i as int].delivered_quantity {
        Some(ChainSettleError::QuantityExceedsRemaining)
    } else {
        None
    }
}

pub open spec fn partial_post(
    s: ShipmentView,
    buyer: AccountId,
    i: u32,
    qty: u32,
    fee: Option<FeeConfig>,
    now: u32,
) -> (ShipmentView, Seq<Transfer>) {
    let m = s.milestones[i as int];
    let delivered = m.delivered_quantity + qty;
    if delivered == m.expected_quantity {
        let s1 = s.with_milestone(
            i as int,
            MilestoneView { delivered_quantity: delivered as u32, ..m },
        ).log(audit(AuditAction::PartialQtyConfirmed, Some(buyer), now, i, s.remainder(i as int)));
        finalize(s1, i, fee, now, Some(buyer))
    } else {
        let amt = pro_rata(s.gross(i as int), qty as int, m.expected_quantity as int);
        let s1 = ShipmentView {
            released_amount: (s.released_amount + amt) as i128,
            ..s.with_milestone(
                i as int,
                MilestoneView {
                    delivered_quantity: delivered as u32,
                    released: (m.released + amt) as i128,
                    ..m
                },
            )
        }.log(audit(AuditAction::PartialQtyConfirmed, Some(buyer), now, i, amt));
        pay_supplier(s1, amt, fee, now, i)
    }
}

pub open spec fn graded_error(s: ShipmentView, buyer: AccountId, i: u32, grade: u32) -> Option<
    ChainSettleError,
> {
    if s.status != ShipmentStatus::Active {
        Some(ChainSettleError::ShipmentNotActive)
    } else if !s.is_buyer(buyer) {
        Some(ChainSettleError::Unauthorized)
    } else if i >= s.milestones.len() {
        Some(ChainSettleError::InvalidMilestoneIndex)
    } else if s.milestones[i as int].status != MilestoneStatus::ProofSubmitted {
        Some(ChainSettleError::ProofNotSubmitted)
    } else if s.quality_grades.len() == 0 {
        Some(ChainSettleError::GradesNotConfigured)
    } else if grade >= s.quality_grades.len() {
        Some(ChainSettleError::InvalidGradeIndex)
    } else {
        None
    }
}

pub open spec fn graded_post(
    s: ShipmentView,
    buyer: AccountId,
    i: u32,
    grade: u32,
    fee: Option<FeeConfig>,
    now: u32,
) -> (ShipmentView, Seq<Transfer>) {
    let m = s.milestones[i as int];
    let bps = s.quality_grades[grade as int];
    let s1 = s.with_milestone(i as int, MilestoneView { grade: Some(grade), ..m }).log(
        audit(AuditAction::MilestoneGraded, Some(buyer), now, i, bps as int),
    );
    if bps == FULL_GRADE_BPS {
        finalize(s1, i, fee, now, Some(buyer))
    } else {
        (
            s1.with_milestone(
                i as int,
                MilestoneView {
                    grade: Some(grade),
                    status: MilestoneStatus::ConfirmedHeld,
                    release_after_ledger: (now + s.review_window_ledgers) as u32,
                    ..m
                },
            ),
            seq![],
        )
    }
}

pub open spec fn release_error(s: ShipmentView, i: u32, now: u32) -> Option<ChainSettleError> {
    if s.status != ShipmentStatus::Active {
        Some(ChainSettleError::ShipmentNotActive)
    } else if i >= s.milestones.len() {
        Some(ChainSettleError::InvalidMilestoneIndex)
    } else if s.milestones[i as int].status != MilestoneStatus::ConfirmedHeld {
        Some(ChainSettleError::NotHeld)
    } else if now < s.milestones[i as int].release_after_ledger {
        Some(ChainSettleError::HoldbackNotExpired)
    } else {
        None
    }
}

pub open spec fn release_post(s: ShipmentView, i: u32, fee: Option<FeeConfig>, now: u32) -> (
    ShipmentView,
    Seq<Transfer>,
) {
    if s.in_grade_review(i as int) {
        settle_graded(s, i, MilestoneStatus::Confirmed, fee, now, AuditAction::GradeSettled, None)
    } else {
        settle_full(
            s,
            i,
            MilestoneStatus::Confirmed,
            fee,
            now,
            AuditAction::HeldPaymentReleased,
            None,
        )
    }
}

/// Milestone `i` awaits the end of its grade review.
pub open spec fn grade_hold(s: ShipmentView, i: int) -> bool {
    s.milestones[i].status == MilestoneStatus::ConfirmedHeld && s.in_grade_review(i)
}

/// The supplier alone contests a grade under review; any other dispute is a
/// co-buyer's, on a submitted proof or a held payment.
pub open spec fn raise_error(s: ShipmentView, caller: AccountId, i: u32, now: u32) -> Option<
    ChainSettleError,
> {
    if s.status != ShipmentStatus::Active {
        Some(ChainSettleError::ShipmentNotActive)
    } else if i < s.milestones.len() && grade_hold(s, i as int) {
        if caller != s.supplier {
            Some(ChainSettleError::GradeDisputeSupplierOnly)
        } else if now >= s.milestones[i as int].release_after_ledger {
            Some(ChainSettleError::GradeReviewElapsed)
        } else {
            None
        }
    } else if !s.is_buyer(caller) {
        Some(ChainSettleError::Unauthorized)
    } else if i >= s.milestones.len() {
        Some(ChainSettleError::InvalidMilestoneIndex)
    } else if s.milestones[i as int].status != MilestoneStatus::ProofSubmitted
        && s.milestones[i as int].status != MilestoneStatus::ConfirmedHeld {
        Some(ChainSettleError::CannotDisputeStatus)
    } else {
        None
    }
}

pub open spec fn raise_post(s: ShipmentView, caller: AccountId, i: u32, now: u32) -> ShipmentView {
    let m = s.milestones[i as int];
    let action = if grade_hold(s, i as int) {
        AuditAction::GradeDisputed
    } else {
        AuditAction::DisputeRaised
    };
    s.with_milestone(
        i as int,
        MilestoneView {
            status: MilestoneStatus::Disputed,
            release_after_ledger: 0,
            approvals: seq![],
            ..m
        },
    ).log(audit(action, Some(caller), now, i, 0))
}

pub open spec fn resolve_error(s: ShipmentView, caller: AccountId, i: u32) -> Option<ChainSettleError> {
    if s.status != ShipmentStatus::Active {
        Some(ChainSettleError::ShipmentNotActive)
    } else if caller != s.arbiter {
        Some(ChainSettleError::Unauthorized)
    } else if i >= s.milestones.len() {
        Some(ChainSettleError::InvalidMilestoneIndex)
    } else if s.milestones[i as int].status != MilestoneStatus::Disputed {
        Some(ChainSettleError::MilestoneNotDisputed)
    } else {
        None
    }
}

pub open spec fn resolve_post(
    s: ShipmentView,
    caller: AccountId,
    i: u32,
    approve: bool,
    fee: Option<FeeConfig>,
    now: u32,
) -> (ShipmentView, Seq<Transfer>) {
    if approve {
        settle_full(
            s,
            i,
            MilestoneStatus::Resolved,
            fee,
            now,
            AuditAction::DisputeResolved,
            Some(caller),
        )
    } else if s.in_grade_review(i as int) {
        settle_graded(
            s,
            i,
            MilestoneStatus::Resolved,
            fee,
            now,
            AuditAction::DisputeResolved,
            Some(caller),
        )
    } else {
        let m = s.milestones[i as int];
        (
            s.with_milestone(
                i as int,
                MilestoneView {
                    status: MilestoneStatus::Pending,
                    proof_hash: seq![],
                    approvals: seq![],
                    release_after_ledger: 0,
                    grade: None,
                    ..m
                },
            ).log(audit(AuditAction::DisputeResolved, Some(caller), now, i, 0)),
            seq![],
        )
    }
}

pub open spec fn withdraw_error(s: ShipmentView, caller: AccountId, i: u32) -> Option<ChainSettleError> {
    if s.status != ShipmentStatus::Active {
        Some(ChainSettleError::ShipmentNotActive)
    } else if i >= s.milestones.len() {
        Some(ChainSettleError::InvalidMilestoneIndex)
    } else if s.milestones[i as int].status != MilestoneStatus::Disputed {
        Some(ChainSettleError::MilestoneNotDisputed)
    } else if s.in_grade_review(i as int) {
        Some(ChainSettleError::GradeDisputeArbiterOnly)
    } else if !s.is_buyer(caller) {
        Some(ChainSettleError::Unauthorized)
    } else {
        None
    }
}

pub open spec fn withdraw_post(s: ShipmentView, caller: AccountId, i: u32, now: u32) -> ShipmentView {
    let m = s.milestones[i as int];
    s.with_milestone(i as int, MilestoneView { status: MilestoneStatus::ProofSubmitted, ..m }).log(
        audit(AuditAction::DisputeWithdrawn, Some(caller), now, i, 0),
    )
}

pub open spec fn cancel_error(s: ShipmentView, caller: AccountId) -> Option<ChainSettleError> {
    if s.status != ShipmentStatus::Active {
        Some(ChainSettleError::ShipmentNotActive)
    } else if !s.is_buyer(caller) {
        Some(ChainSettleError::Unauthorized)
    } else if s.any_disputed() {
        Some(ChainSettleError::DisputeMustBeResolved)
    } else {
        None
    }
}

/// The shipment after it is cancelled and the rest of its escrow refunded; the
/// cancellation entry `e` is logged, then the retainage refund when there is one.
pub open spec fn cancelled(s: ShipmentView, e: AuditEntry) -> (ShipmentView, Seq<Transfer>) {
    let r = s.retainage_balance as int;
    let t = ShipmentView {
        status: ShipmentStatus::Cancelled,
        retainage_balance: 0,
        warranty_balance: 0,
        ..s
    }.log(e);
    (
        if r > 0 {
            t.log(audit(AuditAction::RetainageRefunded, e.actor, e.ledger, e.milestone_index, r))
        } else {
            t
        },
        payout_if_positive(s.token, s.primary_buyer(), s.refund_amount()),
    )
}

pub open spec fn cancel_post(s: ShipmentView, caller: AccountId, now: u32) -> (
    ShipmentView,
    Seq<Transfer>,
) {
    cancelled(s, audit(AuditAction::ShipmentCancelled, Some(caller), now, 0, s.refund_amount()))
}

pub open spec fn deadline_error(s: ShipmentView, i: u32, now: u32) -> Option<ChainSettleError> {
    if s.status != ShipmentStatus::Active {
        Some(ChainSettleError::ShipmentNotActive)
    } else if i >= s.milestones.len() {
        Some(ChainSettleError::InvalidMilestoneIndex)
    } else if s.milestones[i as int].status != MilestoneStatus::Pending {
        Some(ChainSettleError::MilestoneNotPending)
    } else if s.milestones[i as int].deadline_ledger is None {
        Some(ChainSettleError::NoDeadline)
    } else if now <= s.milestones[i as int].deadline_ledger.unwrap() {
        Some(ChainSettleError::DeadlineNotBreached)
    } else {
        None
    }
}

pub open spec fn deadline_post(s: ShipmentView, i: u32, now: u32) -> (ShipmentView, Seq<Transfer>) {
    cancelled(s, audit(AuditAction::DeadlineBreached, None, now, i, s.refund_amount()))
}

pub open spec fn all_zero(bytes: Seq<u8>) -> bool {
    forall|k: int| 0 <= k < bytes.len() ==> bytes[k] == 0
}

pub open spec fn file_claim_error(s: ShipmentView, caller: AccountId, evidence: Seq<u8>, now: u32) -> Option<
    ChainSettleError,
> {
    if s.status != ShipmentStatus::Completed {
        Some(ChainSettleError::ShipmentNotCompleted)
    } else if !s.is_buyer(caller) {
        Some(ChainSettleError::Unauthorized)
    } else if all_zero(evidence) {
        Some(ChainSettleError::InvalidEvidence)
    } else if s.warranty_claim is Some {
        Some(ChainSettleError::WarrantyClaimOpen)
    } else if now >= s.warranty_end_ledger {
        Some(ChainSettleError::WarrantyPeriodEnded)
    } else {
        None
    }
}

pub open spec fn file_claim_post(s: ShipmentView, caller: AccountId, evidence: Seq<u8>, now: u32) -> ShipmentView {
    ShipmentView {
        warranty_claim: Some(WarrantyClaimView { buyer: caller, evidence, filed_at: now }),
        ..s
    }.log(audit(AuditAction::WarrantyClaimFiled, Some(caller), now, 0, 0))
}

pub open spec fn resolve_claim_error(s: ShipmentView, caller: AccountId) -> Option<ChainSettleError> {
    if s.status != ShipmentStatus::Completed {
        Some(ChainSettleError::ShipmentNotCompleted)
    } else if s.warranty_claim is None {
        Some(ChainSettleError::NoWarrantyClaim)
    } else if caller != s.arbiter {
        Some(ChainSettleError::Unauthorized)
    } else {
        None
    }
}

pub open spec fn resolve_claim_post(s: ShipmentView, caller: AccountId, uphold: bool, now: u32) -> (
    ShipmentView,
    Seq<Transfer>,
) {
    let claimant = s.warranty_claim.unwrap().buyer;
    if uphold {
        let w = s.warranty_balance as int;
        (
            ShipmentView { warranty_claim: None, warranty_balance: 0, ..s }.log(
                audit(AuditAction::WarrantyClaimResolved, Some(caller), now, 0, w),
            ),
            payout_if_positive(s.token, claimant, w),
        )
    } else {
        (
            ShipmentView { warranty_claim: None, ..s }.log(
                audit(AuditAction::WarrantyClaimResolved, Some(caller), now, 0, 0),
            ),
            seq![],
        )
    }
}

pub open spec fn release_warranty_error(s: ShipmentView, now: u32) -> Option<ChainSettleError> {
    if s.status != ShipmentStatus::Completed {
        Some(ChainSettleError::ShipmentNotCompleted)
    } else if s.warranty_claim is Some {
        Some(ChainSettleError::WarrantyClaimPending)
    } else if s.warranty_balance == 0 {
        Some(ChainSettleError::NoWarrantyBalance)
    } else if now < s.warranty_end_ledger {
        Some(ChainSettleError::WarrantyPeriodNotEnded)
    } else {
        None
    }
}

pub open spec fn release_warranty_post(s: ShipmentView, now: u32) -> (ShipmentView, Seq<Transfer>) {
    let w = s.warranty_balance as int;
    (
        ShipmentView { warranty_balance: 0, ..s }.log(
            audit(AuditAction::WarrantyReleased, None, now, 0, w),
        ),
        payout_if_positive(s.token, s.supplier, w),
    )
}

// ------------------------------------------------------------------
// Ledger arithmetic each operation does on the path it takes
// ------------------------------------------------------------------

/// A confirmation that succeeds and is the last approval confirms the milestone.
pub open spec fn confirm_fits(s: ShipmentView, buyer: AccountId, i: u32, now: u32) -> bool {
    confirm_error(s, buyer, i) is None && s.last_approval(buyer, i as int) ==> s.finalize_fits(
        i as int,
        now,
    )
}

/// A partial confirmation that succeeds and delivers the last units confirms the
/// milestone.
pub open spec fn partial_fits(s: ShipmentView, buyer: AccountId, i: u32, qty: u32, now: u32) -> bool {
    partial_error(s, buyer, i, qty) is None && s.milestones[i as int].delivered_quantity + qty
        == s.milestones[i as int].expected_quantity ==> s.finalize_fits(i as int, now)
}

/// A graded confirmation that succeeds confirms the milestone at a full grade and
/// starts the review window otherwise.
pub open spec fn graded_fits(s: ShipmentView, buyer: AccountId, i: u32, grade: u32, now: u32) -> bool {
    graded_error(s, buyer, i, grade) is None ==> if s.quality_grades[grade as int]
        == FULL_GRADE_BPS {
        s.finalize_fits(i as int, now)
    } else {
        s.review_fits(now)
    }
}

/// A release that succeeds settles the milestone.
pub open spec fn release_fits(s: ShipmentView, i: u32, now: u32) -> bool {
    release_error(s, i, now) is None ==> s.settle_fits(i as int, now)
}

/// A resolution that succeeds settles the milestone when it approves or the
/// milestone awaits its grade review.
pub open spec fn resolve_fits(s: ShipmentView, caller: AccountId, i: u32, approve: bool, now: u32) -> bool {
    resolve_error(s, caller, i) is None && (approve || s.in_grade_review(i as int))
        ==> s.settle_fits(i as int, now)
}

} // verus!

verus! {

/// What every successful operation keeps: the invariant, the escrow balance
/// (nothing is created or lost, only moved by the transfers), the shipment's fixed
/// terms, the settled milestones, the terminal statuses and the audit trail so far.
pub open spec fn sound_step(s: ShipmentView, t: ShipmentView, ts: Seq<Transfer>) -> bool {
    &&& t.wf()
    &&& s.escrowed() + inflow(ts) == t.escrowed() + outflow(ts)
    &&& transfers_of(ts, s.token)
    &&& t.id == s.id
    &&& t.buyers == s.buyers
    &&& t.supplier == s.supplier
    &&& t.logistics == s.logistics
    &&& t.arbiter == s.arbiter
    &&& t.token == s.token
    &&& t.total_amount == s.total_amount
    &&& s.released_amount <= t.released_amount
    &&& t.milestones.len() == s.milestones.len()
    &&& (forall|j: int|
        0 <= j < s.milestones.len() && is_done(#[trigger] s.milestones[j].status) ==> t.milestones[j]
            == s.milestones[j])
    &&& (s.status != ShipmentStatus::Active ==> t.status == s.status)
    &&& s.audit_log.len() <= t.audit_log.len()
    &&& t.audit_log.subrange(0, s.audit_log.len() as int) == s.audit_log
}

} // verus!
