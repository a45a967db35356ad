//! Facts about the sums and arithmetic of the model.
use vstd::prelude::*;

verus! {

use crate::model::{
    bps_of, gross_of, gross_sum, inflow, is_done, outflow, paid_to, percent_sum, pro_rata,
    released_sum, payout_if_positive, transfers_of,
};
use crate::types::{AccountId, Milestone, MilestoneView, Transfer, milestones_view};

pub proof fn lemma_view_update(ms: Seq<Milestone>, i: int, m: Milestone)
    requires
        0 <= i < ms.len(),
    ensures
        milestones_view(ms.update(i, m)) == milestones_view(ms).update(i, m@),
{
    assert(milestones_view(ms.update(i, m)) =~= milestones_view(ms).update(i, m@));
}

pub proof fn lemma_released_sum_update(ms: Seq<MilestoneView>, i: int, m: MilestoneView)
    requires
        0 <= i < ms.len(),
    ensures
        released_sum(ms.update(i, m)) == released_sum(ms) - ms[i].released + m.released,
    decreases ms.len(),
{
    let u = ms.update(i, m);
    if i == ms.len() - 1 {
        assert(u.drop_last() =~= ms.drop_last());
    } else {
        lemma_released_sum_update(ms.drop_last(), i, m);
        assert(u.drop_last() =~= ms.drop_last().update(i, m));
    }
}

pub proof fn lemma_percent_sum_update(ms: Seq<MilestoneView>, i: int, m: MilestoneView)
    requires
        0 <= i < ms.len(),
        m.payment_percent == ms[i].payment_percent,
    ensures
        percent_sum(ms.update(i, m)) == percent_sum(ms),
    decreases ms.len(),
{
    let u = ms.update(i, m);
    if i == ms.len() - 1 {
        assert(u.drop_last() =~= ms.drop_last());
    } else {
        lemma_percent_sum_update(ms.drop_last(), i, m);
        assert(u.drop_last() =~= ms.drop_last().update(i, m));
    }
}

pub proof fn lemma_gross_sum_update(total: int, ms: Seq<MilestoneView>, i: int, m: MilestoneView)
    requires
        0 <= i < ms.len(),
        m.payment_percent == ms[i].payment_percent,
    ensures
        gross_sum(total, ms.update(i, m)) == gross_sum(total, ms),
    decreases ms.len(),
{
    let u = ms.update(i, m);
    if i == ms.len() - 1 {
        assert(u.drop_last() =~= ms.drop_last());
    } else {
        lemma_gross_sum_update(total, ms.drop_last(), i, m);
        assert(u.drop_last() =~= ms.drop_last().update(i, m));
    }
}

/// The floor of a share is at most the share itself.
pub proof fn lemma_floor_div(x: int, d: int)
    requires
        0 <= x,
        0 < d,
    ensures
        0 <= x / d,
        (x / d) * d <= x,
        x < (x / d + 1) * d,
{
    vstd::arithmetic::div_mod::lemma_fundamental_div_mod(x, d);
    vstd::arithmetic::div_mod::lemma_mod_bound(x, d);
    vstd::arithmetic::div_mod::lemma_div_pos_is_pos(x, d);
    let q = x / d;
    let r = x % d;
    assert(q * d <= x && x < (q + 1) * d) by (nonlinear_arith)
        requires
            x == d * q + r,
            0 <= r < d,
    ;
}

pub proof fn lemma_gross_bounds(total: int, pct: int)
    requires
        0 <= total,
        0 <= pct <= 100,
    ensures
        0 <= gross_of(total, pct) <= total,
        100 * gross_of(total, pct) <= total * pct,
{
    assert(0 <= total * pct <= total * 100) by (nonlinear_arith)
        requires
            0 <= total,
            0 <= pct <= 100,
    ;
    lemma_floor_div(total * pct, 100);
}

pub proof fn lemma_bps_bounds(amount: int, bps: int)
    requires
        0 <= amount,
        0 <= bps <= 10000,
    ensures
        0 <= bps_of(amount, bps) <= amount,
        10000 * bps_of(amount, bps) <= amount * bps,
{
    assert(0 <= amount * bps <= amount * 10000) by (nonlinear_arith)
        requires
            0 <= amount,
            0 <= bps <= 10000,
    ;
    lemma_floor_div(amount * bps, 10000);
}

/// Every milestone's gross is bounded by its percentage of the total, so the
/// grosses of milestones whose percentages add to 100 add to at most the total.
pub proof fn lemma_gross_sum_bound(total: int, ms: Seq<MilestoneView>)
    requires
        0 <= total,
        forall|i: int| 0 <= i < ms.len() ==> #[trigger] ms[i].payment_percent <= 100,
    ensures
        100 * gross_sum(total, ms) <= total * percent_sum(ms),
        0 <= gross_sum(total, ms),
    decreases ms.len(),
{
    if ms.len() > 0 {
        let p = ms.last().payment_percent as int;
        lemma_gross_sum_bound(total, ms.drop_last());
        lemma_gross_bounds(total, p);
        let a = percent_sum(ms.drop_last());
        assert(total * (a + p) == total * a + total * p) by (nonlinear_arith);
    }
}

pub proof fn lemma_gross_sum_le_total(total: int, ms: Seq<MilestoneView>)
    requires
        0 <= total,
        percent_sum(ms) == 100,
        forall|i: int| 0 <= i < ms.len() ==> #[trigger] ms[i].payment_percent <= 100,
    ensures
        0 <= gross_sum(total, ms) <= total,
{
    lemma_gross_sum_bound(total, ms);
}

/// Released amounts below each milestone's gross add to at most the grosses' sum.
pub proof fn lemma_released_le_gross(total: int, ms: Seq<MilestoneView>)
    requires
        forall|i: int|
            0 <= i < ms.len() ==> 0 <= #[trigger] ms[i].released <= gross_of(
                total,
                ms[i].payment_percent as int,
            ),
    ensures
        0 <= released_sum(ms) <= gross_sum(total, ms),
    decreases ms.len(),
{
    if ms.len() > 0 {
        let d = ms.drop_last();
        assert forall|i: int|
            0 <= i < d.len() implies 0 <= #[trigger] d[i].released <= gross_of(
                total,
                d[i].payment_percent as int,
            ) by {
            assert(d[i] == ms[i]);
        }
        lemma_released_le_gross(total, d);
    }
}

/// When every milestone is done, the released amounts are exactly the grosses.
pub proof fn lemma_released_eq_gross(total: int, ms: Seq<MilestoneView>)
    requires
        forall|i: int|
            0 <= i < ms.len() ==> #[trigger] ms[i].released == gross_of(
                total,
                ms[i].payment_percent as int,
            ),
    ensures
        released_sum(ms) == gross_sum(total, ms),
    decreases ms.len(),
{
    if ms.len() > 0 {
        let d = ms.drop_last();
        assert forall|i: int|
            0 <= i < d.len() implies #[trigger] d[i].released == gross_of(
                total,
                d[i].payment_percent as int,
            ) by {
            assert(d[i] == ms[i]);
        }
        lemma_released_eq_gross(total, d);
    }
}

pub proof fn lemma_flow_concat(a: Seq<Transfer>, b: Seq<Transfer>)
    ensures
        inflow(a + b) == inflow(a) + inflow(b),
        outflow(a + b) == outflow(a) + outflow(b),
    decreases b.len(),
{
    if b.len() == 0 {
        assert(a + b =~= a);
    } else {
        lemma_flow_concat(a, b.drop_last());
        assert((a + b).drop_last() =~= a + b.drop_last());
    }
}

pub proof fn lemma_flow_payout(token: AccountId, to: AccountId, amount: int)
    requires
        amount <= i128::MAX,
    ensures
        inflow(payout_if_positive(token, to, amount)) == 0,
        outflow(payout_if_positive(token, to, amount)) == if amount > 0 { amount } else { 0 },
        transfers_of(payout_if_positive(token, to, amount), token),
{
    let t = payout_if_positive(token, to, amount);
    let e = Seq::<Transfer>::empty();
    assert(inflow(e) == 0 && outflow(e) == 0);
    if amount > 0 {
        assert(t.drop_last() =~= e);
        assert(t.last().amount as int == amount);
    } else {
        assert(t =~= e);
    }
}

pub proof fn lemma_paid_concat(a: Seq<Transfer>, b: Seq<Transfer>, who: AccountId)
    ensures
        paid_to(a + b, who) == paid_to(a, who) + paid_to(b, who),
    decreases b.len(),
{
    if b.len() == 0 {
        assert(a + b =~= a);
    } else {
        lemma_paid_concat(a, b.drop_last(), who);
        assert((a + b).drop_last() =~= a + b.drop_last());
    }
}

pub proof fn lemma_paid_payout(token: AccountId, to: AccountId, amount: int, who: AccountId)
    requires
        amount <= i128::MAX,
    ensures
        paid_to(payout_if_positive(token, to, amount), who) == if amount > 0 && to == who {
            amount
        } else {
            0
        },
{
    let t = payout_if_positive(token, to, amount);
    let e = Seq::<Transfer>::empty();
    assert(paid_to(e, who) == 0);
    if amount > 0 {
        assert(t.drop_last() =~= e);
        assert(t.last().amount as int == amount);
    } else {
        assert(t =~= e);
    }
}

pub proof fn lemma_transfers_concat(a: Seq<Transfer>, b: Seq<Transfer>, token: AccountId)
    requires
        transfers_of(a, token),
        transfers_of(b, token),
    ensures
        transfers_of(a + b, token),
{
    assert forall|k: int| 0 <= k < (a + b).len() implies #[trigger] (a + b)[k].amount > 0 && (a
        + b)[k].token == token by {
        if k < a.len() {
            assert((a + b)[k] == a[k]);
        } else {
            assert((a + b)[k] == b[k - a.len()]);
        }
    }
}

/// A pro-rata share of a partial delivery keeps the released part within the gross.
pub proof fn lemma_pro_rata_step(gross: int, released: int, delivered: int, qty: int, expected: int)
    requires
        0 <= gross,
        0 <= released,
        0 < qty,
        0 <= delivered,
        delivered + qty <= expected,
        released * expected <= gross * delivered,
    ensures
        0 <= pro_rata(gross, qty, expected),
        (released + pro_rata(gross, qty, expected)) * expected <= gross * (delivered + qty),
        released + pro_rata(gross, qty, expected) <= gross,
{
    assert(0 <= gross * qty) by (nonlinear_arith)
        requires
            0 <= gross,
            0 < qty,
    ;
    lemma_floor_div(gross * qty, expected);
    let p = pro_rata(gross, qty, expected);
    assert((released + p) * expected == released * expected + p * expected) by (nonlinear_arith);
    assert(gross * (delivered + qty) == gross * delivered + gross * qty) by (nonlinear_arith);
    assert(gross * (delivered + qty) <= gross * expected) by (nonlinear_arith)
        requires
            0 <= gross,
            delivered + qty <= expected,
    ;
    assert((released + p) * expected <= gross * expected);
    assert(released + p <= gross) by (nonlinear_arith)
        requires
            (released + p) * expected <= gross * expected,
            0 < expected,
    ;
}

} // verus!

verus! {

use crate::types::{ShipmentView, MAX_SHIPMENT_VALUE};

/// Bounds that every well-formed shipment satisfies.
pub proof fn lemma_wf_bounds(s: ShipmentView)
    requires
        s.wf(),
    ensures
        0 <= s.released_amount <= s.total_amount,
        0 <= s.refund_amount() <= s.total_amount,
        s.milestones.len() > 0,
        forall|i: int|
            0 <= i < s.milestones.len() ==> 0 <= #[trigger] s.gross(i) <= s.total_amount
                && 0 <= s.milestones[i].released <= s.gross(i) && s.milestones[i].payment_percent <= 100,
        0 <= s.escrowed() <= MAX_SHIPMENT_VALUE,
{
    let ms = s.milestones;
    let t = s.total_amount as int;
    assert forall|i: int| 0 <= i < ms.len() implies #[trigger] ms[i].payment_percent <= 100 by {
        assert(s.milestone_wf(i));
    }
    assert forall|i: int|
        0 <= i < ms.len() implies 0 <= #[trigger] ms[i].released <= gross_of(
            t,
            ms[i].payment_percent as int,
        ) by {
        assert(s.milestone_wf(i));
    }
    assert forall|i: int|
        0 <= i < ms.len() implies 0 <= #[trigger] s.gross(i) <= s.total_amount && 0
            <= s.milestones[i].released <= s.gross(i)
            && s.milestones[i].payment_percent <= 100 by {
        assert(s.milestone_wf(i));
        lemma_gross_bounds(t, ms[i].payment_percent as int);
    }
    lemma_released_le_gross(t, ms);
    lemma_gross_sum_le_total(t, ms);
    if ms.len() == 0 {
        assert(percent_sum(ms) == 0);
    }
}

} // verus!

verus! {

use crate::model::{party_of, pays_only_parties};
use crate::types::FeeConfig;

pub proof fn lemma_payout_parties(s: ShipmentView, fee: Option<FeeConfig>, token: AccountId, to: AccountId, amount: int)
    requires
        party_of(s, fee, to),
    ensures
        pays_only_parties(s, fee, payout_if_positive(token, to, amount)),
{
}

pub proof fn lemma_parties_concat(s: ShipmentView, fee: Option<FeeConfig>, a: Seq<Transfer>, b: Seq<Transfer>)
    requires
        pays_only_parties(s, fee, a),
        pays_only_parties(s, fee, b),
    ensures
        pays_only_parties(s, fee, a + b),
{
    assert forall|k: int| #![trigger (a + b)[k]] 0 <= k < (a + b).len() implies !(a + b)[k].into_escrow && party_of(
        s,
        fee,
        (a + b)[k].counterparty,
    ) by {
        if k < a.len() {
            assert((a + b)[k] == a[k]);
        } else {
            assert((a + b)[k] == b[k - a.len()]);
        }
    }
}

/// Whom a shipment may pay depends only on its supplier and co-buyers.
pub proof fn lemma_parties_same(s: ShipmentView, t: ShipmentView, fee: Option<FeeConfig>, ts: Seq<Transfer>)
    requires
        pays_only_parties(t, fee, ts),
        s.supplier == t.supplier,
        s.buyers == t.buyers,
    ensures
        pays_only_parties(s, fee, ts),
{
    assert forall|k: int| #![trigger ts[k]] 0 <= k < ts.len() implies !ts[k].into_escrow && party_of(
        s,
        fee,
        ts[k].counterparty,
    ) by {
        assert(party_of(t, fee, ts[k].counterparty));
    }
}

} // verus!
