//! Creating a shipment: validating its terms and funding its escrow.
use vstd::prelude::*;

verus! {

use crate::model::{
    audit, grades_valid, inflow, outflow, percent_sum, released_sum, transfers_of,
};
use crate::settlement::{audit_entry, contains_account};
use crate::types::{
    milestones_view, AccountId, AuditAction, ChainSettleError, Config, Milestone,
    MilestoneStatus, MilestoneView, Shipment, ShipmentOptions, ShipmentStatus, ShipmentView,
    Transfer, DEFAULT_GRADE_REVIEW_WINDOW_LEDGERS, FULL_GRADE_BPS, MAX_RETAINAGE_BPS,
    MAX_SHIPMENT_VALUE, MAX_WARRANTY_BPS,
};

/// Grades never increase from one to the next.
pub open spec fn non_increasing(gs: Seq<u32>) -> bool {
    forall|i: int, j: int| 0 <= i <= j < gs.len() ==> #[trigger] gs[j] <= #[trigger] gs[i]
}

/// The first reason, in the order the checks run, why a shipment cannot be created.
pub open spec fn create_error(
    buyers: Seq<AccountId>,
    token: AccountId,
    total_amount: i128,
    milestones: Seq<Milestone>,
    options: ShipmentOptions,
    allowed_tokens: Seq<AccountId>,
    already_exists: bool,
) -> Option<ChainSettleError> {
    let quantities = options.milestone_quantities@;
    let grades = options.quality_grades@;
    if buyers.len() == 0 {
        Some(ChainSettleError::EmptyBuyersList)
    } else if total_amount <= 0 {
        Some(ChainSettleError::InvalidAmount)
    } else if total_amount > MAX_SHIPMENT_VALUE {
        Some(ChainSettleError::MaxShipmentValueExceeded)
    } else if allowed_tokens.len() > 0 && !allowed_tokens.contains(token) {
        Some(ChainSettleError::Unauthorized)
    } else if percent_sum(milestones_view(milestones)) != 100 {
        Some(ChainSettleError::InvalidPercentages)
    } else if quantities.len() != 0 && quantities.len() != milestones.len() {
        Some(ChainSettleError::QuantityCountMismatch)
    } else if grades.len() > 0 && grades[0] != FULL_GRADE_BPS {
        Some(ChainSettleError::GradeZeroNotFull)
    } else if !non_increasing(grades) {
        Some(ChainSettleError::GradesNotNonIncreasing)
    } else if options.retainage_bps > MAX_RETAINAGE_BPS {
        Some(ChainSettleError::RetainageTooHigh)
    } else if options.warranty_bps > MAX_WARRANTY_BPS {
        Some(ChainSettleError::WarrantyTooHigh)
    } else if (options.warranty_bps > 0) != (options.warranty_ledgers > 0) {
        Some(ChainSettleError::WarrantyIncomplete)
    } else if already_exists {
        Some(ChainSettleError::ShipmentAlreadyExists)
    } else {
        None
    }
}

/// Expected quantity of milestone `j` under `options`.
pub open spec fn quantity_at(options: ShipmentOptions, j: int) -> u32 {
    if options.milestone_quantities@.len() == 0 {
        0
    } else {
        options.milestone_quantities@[j]
    }
}

/// A milestone as it starts out: pending, with nothing submitted, approved or paid.
pub open spec fn fresh_milestone(m: Milestone, quantity: u32) -> MilestoneView {
    MilestoneView {
        name: m.name@,
        payment_percent: m.payment_percent,
        proof_hash: seq![],
        status: MilestoneStatus::Pending,
        deadline_ledger: m.deadline_ledger,
        approvals: seq![],
        release_after_ledger: 0,
        expected_quantity: quantity,
        delivered_quantity: 0,
        released: 0,
        grade: None,
    }
}

/// The shipment that a successful creation stores.
pub open spec fn created(
    id: Seq<u8>,
    buyers: Seq<AccountId>,
    supplier: AccountId,
    logistics: AccountId,
    arbiter: AccountId,
    token: AccountId,
    total_amount: i128,
    milestones: Seq<Milestone>,
    options: ShipmentOptions,
    now: u32,
) -> ShipmentView {
    ShipmentView {
        id,
        buyers,
        supplier,
        logistics,
        arbiter,
        token,
        total_amount,
        released_amount: 0,
        milestones: Seq::new(
            milestones.len(),
            |j: int| fresh_milestone(milestones[j], quantity_at(options, j)),
        ),
        status: ShipmentStatus::Active,
        milestone_mode: options.milestone_mode,
        holdback_ledgers: options.holdback_ledgers,
        quality_grades: options.quality_grades@,
        review_window_ledgers: match options.review_window_ledgers {
            Some(w) => w,
            None => DEFAULT_GRADE_REVIEW_WINDOW_LEDGERS,
        },
        retainage_bps: options.retainage_bps,
        warranty_bps: options.warranty_bps,
        warranty_ledgers: options.warranty_ledgers,
        created_at: now,
        retainage_balance: 0,
        warranty_balance: 0,
        warranty_end_ledger: 0,
        warranty_claim: None,
        audit_log: seq![audit(AuditAction::ShipmentCreated, Some(buyers[0]), now, 0, total_amount as int)],
    }
}

/// The deposit that funds a new shipment: the whole total, from the primary buyer.
pub open spec fn funding(buyers: Seq<AccountId>, token: AccountId, total_amount: i128) -> Transfer {
    Transfer { token, counterparty: buyers[0], amount: total_amount, into_escrow: true }
}

proof fn lemma_percent_sum_prefix(ms: Seq<MilestoneView>, k: int)
    requires
        0 <= k < ms.len(),
    ensures
        percent_sum(ms.take(k + 1)) == percent_sum(ms.take(k)) + ms[k].payment_percent,
{
    assert(ms.take(k + 1).drop_last() =~= ms.take(k));
}

proof fn lemma_percent_sum_mono(ms: Seq<MilestoneView>, k: int)
    requires
        0 <= k <= ms.len(),
    ensures
        percent_sum(ms.take(k)) <= percent_sum(ms),
    decreases ms.len() - k,
{
    if k < ms.len() {
        lemma_percent_sum_prefix(ms, k);
        lemma_percent_sum_mono(ms, k + 1);
    } else {
        assert(ms.take(k) =~= ms);
    }
}

proof fn lemma_percent_sum_nonneg(ms: Seq<MilestoneView>)
    ensures
        0 <= percent_sum(ms),
    decreases ms.len(),
{
    if ms.len() > 0 {
        lemma_percent_sum_nonneg(ms.drop_last());
    }
}

proof fn lemma_pct_le_sum(ms: Seq<MilestoneView>, i: int)
    requires
        0 <= i < ms.len(),
    ensures
        ms[i].payment_percent <= percent_sum(ms),
{
    lemma_percent_sum_nonneg(ms.take(i));
    lemma_percent_sum_prefix(ms, i);
    lemma_percent_sum_mono(ms, i + 1);
    lemma_percent_sum_mono(ms, i);
}

proof fn lemma_percent_sum_same(a: Seq<MilestoneView>, b: Seq<MilestoneView>)
    requires
        a.len() == b.len(),
        forall|i: int| 0 <= i < a.len() ==> #[trigger] a[i].payment_percent == b[i].payment_percent,
    ensures
        percent_sum(a) == percent_sum(b),
    decreases a.len(),
{
    if a.len() > 0 {
        lemma_percent_sum_same(a.drop_last(), b.drop_last());
    }
}

proof fn lemma_released_sum_zero(a: Seq<MilestoneView>)
    requires
        forall|i: int| 0 <= i < a.len() ==> #[trigger] a[i].released == 0,
    ensures
        released_sum(a) == 0,
    decreases a.len(),
{
    if a.len() > 0 {
        lemma_released_sum_zero(a.drop_last());
    }
}

/// Law: a created shipment is well formed, active, and holds exactly the deposit
/// that funded it, drawn from the primary buyer (`buyers[0]`), the party that
/// cancellations refund.
pub proof fn law_create(
    id: Seq<u8>,
    buyers: Seq<AccountId>,
    supplier: AccountId,
    logistics: AccountId,
    arbiter: AccountId,
    token: AccountId,
    total_amount: i128,
    milestones: Seq<Milestone>,
    options: ShipmentOptions,
    allowed_tokens: Seq<AccountId>,
    now: u32,
)
    requires
        create_error(buyers, token, total_amount, milestones, options, allowed_tokens, false) is None,
    ensures
        ({
            let s = created(id, buyers, supplier, logistics, arbiter, token, total_amount, milestones, options, now);
            let ts = seq![funding(buyers, token, total_amount)];
            &&& s.wf()
            &&& s.status == ShipmentStatus::Active
            &&& s.escrowed() == total_amount
            &&& inflow(ts) == s.escrowed()
            &&& outflow(ts) == 0
            &&& transfers_of(ts, token)
            &&& s.buyers == buyers
            &&& ts[0].into_escrow
            &&& ts[0].counterparty == buyers[0]
            &&& ts[0].counterparty == s.primary_buyer()
        }),
{
    let s = created(id, buyers, supplier, logistics, arbiter, token, total_amount, milestones, options, now);
    let v = milestones_view(milestones);
    lemma_percent_sum_same(s.milestones, v);
    assert forall|i: int| 0 <= i < s.milestones.len() implies #[trigger] s.milestone_wf(i) by {
        lemma_pct_le_sum(v, i);
        assert(v[i].payment_percent == s.milestones[i].payment_percent);
        crate::lemmas::lemma_gross_bounds(total_amount as int, s.milestones[i].payment_percent as int);
        let m = s.milestones[i];
        let g = s.gross(i);
        assert(m.released == 0 && m.delivered_quantity == 0);
        assert(m.released * m.expected_quantity == 0);
        assert(g * m.delivered_quantity == 0);
        assert(!crate::model::is_done(m.status));
    }
    lemma_released_sum_zero(s.milestones);
    let ts = seq![funding(buyers, token, total_amount)];
    assert(ts.drop_last() =~= Seq::<Transfer>::empty());
    assert(inflow(Seq::<Transfer>::empty()) == 0 && outflow(Seq::<Transfer>::empty()) == 0);
}

/// Creates a shipment funded by its primary buyer, `buyers[0]`. The milestones'
/// payment percentages must add to 100; each starts out pending. Returns the new
/// shipment and the deposit the host must collect into escrow.
pub fn create_shipment(
    shipment_id: Vec<u8>,
    buyers: Vec<AccountId>,
    supplier: AccountId,
    logistics: AccountId,
    arbiter: AccountId,
    token: AccountId,
    total_amount: i128,
    milestones: Vec<Milestone>,
    options: ShipmentOptions,
    config: &Config,
    already_exists: bool,
    now: u32,
) -> (r: Result<(Shipment, Transfer), ChainSettleError>)
    ensures
        match r {
            Ok((s, t)) => {
                &&& create_error(
                    buyers@,
                    token,
                    total_amount,
                    milestones@,
                    options,
                    config.allowed_tokens@,
                    already_exists,
                ) is None
                &&& s@ == created(
                    shipment_id@,
                    buyers@,
                    supplier,
                    logistics,
                    arbiter,
                    token,
                    total_amount,
                    milestones@,
                    options,
                    now,
                )
                &&& t == funding(buyers@, token, total_amount)
                &&& s@.buyers == buyers@
                &&& t.counterparty == buyers@[0]
                &&& t.counterparty == s@.primary_buyer()
                &&& t.into_escrow
                &&& t.amount == total_amount
                &&& t.token == token
                &&& s@.wf()
                &&& s@.escrowed() == t.amount
            },
            Err(e) => create_error(
                buyers@,
                token,
                total_amount,
                milestones@,
                options,
                config.allowed_tokens@,
                already_exists,
            ) == Some(e),
        },
{
    if buyers.len() == 0 {
        return Err(ChainSettleError::EmptyBuyersList);
    }
    if total_amount <= 0 {
        return Err(ChainSettleError::InvalidAmount);
    }
    if total_amount > MAX_SHIPMENT_VALUE {
        return Err(ChainSettleError::MaxShipmentValueExceeded);
    }
    if config.allowed_tokens.len() > 0 && !contains_account(&config.allowed_tokens, token) {
        return Err(ChainSettleError::Unauthorized);
    }
    // Percentages must add up to exactly 100.
    let ghost v = milestones_view(milestones@);
    let mut k: usize = 0;
    let mut sum: u64 = 0;
    let mut over = false;
    while k < milestones.len() && !over
        invariant
            k <= milestones@.len(),
            v == milestones_view(milestones@),
            !over ==> sum == percent_sum(v.take(k as int)) && sum <= 100,
            over ==> percent_sum(v) > 100,
        decreases milestones@.len() - k,
    {
        proof {
            lemma_percent_sum_prefix(v, k as int);
        }
        sum = sum + milestones[k].payment_percent as u64;
        if sum > 100 {
            proof {
                lemma_percent_sum_mono(v, k + 1);
            }
            over = true;
        }
        k = k + 1;
    }
    proof {
        if !over {
            assert(v.take(milestones@.len() as int) =~= v);
        }
    }
    if over || sum != 100 {
        return Err(ChainSettleError::InvalidPercentages);
    }
    let nq = options.milestone_quantities.len();
    if nq != 0 && nq != milestones.len() {
        return Err(ChainSettleError::QuantityCountMismatch);
    }
    let ng = options.quality_grades.len();
    if ng > 0 && options.quality_grades[0] != FULL_GRADE_BPS {
        return Err(ChainSettleError::GradeZeroNotFull);
    }
    let mut g: usize = 1;
    let mut ordered = true;
    while g < ng && ordered
        invariant
            ng == options.quality_grades@.len(),
            1 <= g,
            g <= ng || ng == 0,
            ordered ==> forall|i: int, j: int|
                0 <= i <= j < g && j < ng ==> #[trigger] options.quality_grades@[j]
                    <= #[trigger] options.quality_grades@[i],
            !ordered ==> !non_increasing(options.quality_grades@),
        decreases ng - g,
    {
        let gs = Ghost(options.quality_grades@);
        if options.quality_grades[g] > options.quality_grades[g - 1] {
            proof {
                assert(!non_increasing(gs@)) by {
                    if non_increasing(gs@) {
                        assert(gs@[g as int] <= gs@[g - 1]);
                    }
                }
            }
            ordered = false;
        } else {
            proof {
                assert forall|i: int, j: int|
                    0 <= i <= j < g + 1 && j < ng implies #[trigger] gs@[j] <= #[trigger] gs@[i] by {
                    if j == g && i < j {
                        assert(gs@[g - 1] <= gs@[i]);
                    }
                }
            }
        }
        g = g + 1;
    }
    if !ordered {
        return Err(ChainSettleError::GradesNotNonIncreasing);
    }
    proof {
        let gs = options.quality_grades@;
        if ng > 0 {
            assert forall|i: int, j: int| 0 <= i <= j < gs.len() implies #[trigger] gs[j] <= #[trigger] gs[i] by {
                assert(j < g);
            }
        }
    }
    if options.retainage_bps > MAX_RETAINAGE_BPS {
        return Err(ChainSettleError::RetainageTooHigh);
    }
    if options.warranty_bps > MAX_WARRANTY_BPS {
        return Err(ChainSettleError::WarrantyTooHigh);
    }
    if (options.warranty_bps > 0) != (options.warranty_ledgers > 0) {
        return Err(ChainSettleError::WarrantyIncomplete);
    }
    if already_exists {
        return Err(ChainSettleError::ShipmentAlreadyExists);
    }
    // Normalise the milestones: nothing submitted, approved or paid yet.
    let ghost input = milestones@;
    let mut ms = milestones;
    let mut j: usize = 0;
    while j < ms.len()
        invariant
            ms@.len() == input.len(),
            j <= input.len(),
            nq == 0 || nq == input.len(),
            nq == options.milestone_quantities@.len(),
            forall|k: int| 0 <= k < j ==> #[trigger] ms@[k]@ == fresh_milestone(input[k], quantity_at(options, k)),
            forall|k: int| j <= k < input.len() ==> #[trigger] ms@[k] == input[k],
        decreases input.len() - j,
    {
        let q = if nq == 0 {
            0
        } else {
            options.milestone_quantities[j]
        };
        ms[j].proof_hash = Vec::new();
        ms[j].status = MilestoneStatus::Pending;
        ms[j].approvals = Vec::new();
        ms[j].release_after_ledger = 0;
        ms[j].expected_quantity = q;
        ms[j].delivered_quantity = 0;
        ms[j].released = 0;
        ms[j].grade = None;
        j = j + 1;
    }
    let review_window_ledgers = match options.review_window_ledgers {
        Some(w) => w,
        None => DEFAULT_GRADE_REVIEW_WINDOW_LEDGERS,
    };
    let primary = buyers[0];
    let mut audit_log: Vec<crate::types::AuditEntry> = Vec::new();
    audit_log.push(audit_entry(AuditAction::ShipmentCreated, Some(primary), now, 0, total_amount));
    let ghost opts = options;
    let ShipmentOptions {
        milestone_mode,
        holdback_ledgers,
        milestone_quantities: _,
        quality_grades,
        review_window_ledgers: _,
        retainage_bps,
        warranty_bps,
        warranty_ledgers,
    } = options;
    let s = Shipment {
        id: shipment_id,
        buyers,
        supplier,
        logistics,
        arbiter,
        token,
        total_amount,
        released_amount: 0,
        milestones: ms,
        status: ShipmentStatus::Active,
        milestone_mode,
        holdback_ledgers,
        quality_grades,
        review_window_ledgers,
        retainage_bps,
        warranty_bps,
        warranty_ledgers,
        created_at: now,
        retainage_balance: 0,
        warranty_balance: 0,
        warranty_end_ledger: 0,
        warranty_claim: None,
        audit_log,
    };
    proof {
        let c = created(
            shipment_id@,
            buyers@,
            supplier,
            logistics,
            arbiter,
            token,
            total_amount,
            input,
            opts,
            now,
        );
        assert(s@.milestones =~= c.milestones);
        assert(s@ =~= c);
        law_create(
            shipment_id@,
            buyers@,
            supplier,
            logistics,
            arbiter,
            token,
            total_amount,
            input,
            opts,
            config.allowed_tokens@,
            now,
        );
    }
    Ok((s, Transfer { token, counterparty: primary, amount: total_amount, into_escrow: true }))
}

} // verus!
