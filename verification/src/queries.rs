//! Read-only queries on shipments, and the escrow held across all of them.
use vstd::prelude::*;

verus! {

use crate::lemmas::lemma_wf_bounds;
use crate::model::{inflow, outflow, sound_step};
use crate::types::{
    AccountId, ChainSettleError, Milestone, Shipment, ShipmentView, WarrantyClaim,
    MAX_SHIPMENT_VALUE,
};

impl Shipment {
    /// Escrow not yet counted as released.
    pub fn get_escrow_balance(&self) -> (r: i128)
        requires
            self@.wf(),
        ensures
            r == self@.total_amount - self@.released_amount,
            0 <= r <= self@.total_amount,
    {
        proof {
            lemma_wf_bounds(self@);
        }
        self.total_amount - self.released_amount
    }

    /// Percentage of the total counted as released, rounded down.
    pub fn get_completion_percentage(&self) -> (r: u32)
        requires
            self@.wf(),
        ensures
            r == self@.released_amount * 100 / (self@.total_amount as int),
            r <= 100,
    {
        proof {
            lemma_wf_bounds(self@);
        }
        let released = self.released_amount;
        let total = self.total_amount;
        assert(0 <= released * 100 <= total * 100) by (nonlinear_arith)
            requires
                0 <= released <= total,
        ;
        let p = released * 100 / total;
        assert(p <= 100) by (nonlinear_arith)
            requires
                0 <= released <= total,
                0 < total,
                p == released * 100 / (total as int),
        ;
        p as u32
    }

    pub fn get_retainage_balance(&self) -> (r: i128)
        ensures
            r == self@.retainage_balance,
    {
        self.retainage_balance
    }

    pub fn get_warranty_balance(&self) -> (r: i128)
        ensures
            r == self@.warranty_balance,
    {
        self.warranty_balance
    }

    pub fn get_warranty_end_ledger(&self) -> (r: u32)
        ensures
            r == self@.warranty_end_ledger,
    {
        self.warranty_end_ledger
    }

    pub fn get_milestone(&self, index: u32) -> (r: Result<&Milestone, ChainSettleError>)
        ensures
            r is Err <==> index >= self@.milestones.len(),
            r matches Err(e) ==> e == ChainSettleError::InvalidMilestoneIndex,
            r matches Ok(m) ==> m@ == self@.milestones[index as int],
    {
        if index as usize >= self.milestones.len() {
            return Err(ChainSettleError::InvalidMilestoneIndex);
        }
        Ok(&self.milestones[index as usize])
    }

    /// Units delivered so far and units expected for milestone `index`.
    pub fn get_delivered_quantity(&self, index: u32) -> (r: Result<(u32, u32), ChainSettleError>)
        ensures
            r is Err <==> index >= self@.milestones.len(),
            r matches Err(e) ==> e == ChainSettleError::InvalidMilestoneIndex,
            r matches Ok(p) ==> p == (
                self@.milestones[index as int].delivered_quantity,
                self@.milestones[index as int].expected_quantity,
            ),
    {
        if index as usize >= self.milestones.len() {
            return Err(ChainSettleError::InvalidMilestoneIndex);
        }
        let m = &self.milestones[index as usize];
        Ok((m.delivered_quantity, m.expected_quantity))
    }

    /// The quality grade given to milestone `index`, if any.
    pub fn get_milestone_grade(&self, index: u32) -> (r: Result<Option<u32>, ChainSettleError>)
        ensures
            r is Err <==> index >= self@.milestones.len(),
            r matches Err(e) ==> e == ChainSettleError::InvalidMilestoneIndex,
            r matches Ok(g) ==> g == self@.milestones[index as int].grade,
    {
        if index as usize >= self.milestones.len() {
            return Err(ChainSettleError::InvalidMilestoneIndex);
        }
        Ok(self.milestones[index as usize].grade)
    }

    pub fn get_warranty_claim(&self) -> (r: Option<&WarrantyClaim>)
        ensures
            r is Some <==> self@.warranty_claim is Some,
            r matches Some(c) ==> self@.warranty_claim == Some(c@),
    {
        match &self.warranty_claim {
            Some(c) => Some(c),
            None => None,
        }
    }
}

pub open spec fn shipments_view(v: Seq<Shipment>) -> Seq<ShipmentView> {
    v.map_values(|s: Shipment| s@)
}

/// Escrow held in `token` across `ss`.
pub open spec fn escrowed_total(ss: Seq<ShipmentView>, token: AccountId) -> int
    decreases ss.len(),
{
    if ss.len() == 0 {
        0
    } else {
        escrowed_total(ss.drop_last(), token) + if ss.last().token == token {
            ss.last().escrowed()
        } else {
            0
        }
    }
}

pub open spec fn all_wf(ss: Seq<ShipmentView>) -> bool {
    forall|i: int| 0 <= i < ss.len() ==> #[trigger] ss[i].wf()
}

/// Total value held in escrow for `token` across `shipments`.
pub fn get_total_escrowed_value(shipments: &Vec<Shipment>, token: AccountId) -> (r: i128)
    requires
        all_wf(shipments_view(shipments@)),
    ensures
        r == escrowed_total(shipments_view(shipments@), token),
{
    let ghost ss = shipments_view(shipments@);
    let mut acc: i128 = 0;
    let mut k: usize = 0;
    while k < shipments.len()
        invariant
            ss == shipments_view(shipments@),
            all_wf(ss),
            k <= ss.len(),
            acc == escrowed_total(ss.take(k as int), token),
            0 <= acc <= k * MAX_SHIPMENT_VALUE,
        decreases ss.len() - k,
    {
        let s = &shipments[k];
        proof {
            assert(ss[k as int] == s@);
            assert(ss[k as int].wf());
            lemma_wf_bounds(s@);
            assert(ss.take(k + 1).drop_last() =~= ss.take(k as int));
        }
        if s.token == token {
            let e = if s.status == crate::types::ShipmentStatus::Cancelled {
                0
            } else {
                s.total_amount - s.released_amount + s.retainage_balance + s.warranty_balance
            };
            assert(acc + e <= (k + 1) * MAX_SHIPMENT_VALUE <= 0xffff_ffff_ffff_ffff * MAX_SHIPMENT_VALUE) by (nonlinear_arith)
                requires
                    acc <= k * MAX_SHIPMENT_VALUE,
                    e <= MAX_SHIPMENT_VALUE,
                    k < 0xffff_ffff_ffff_ffff,
            ;
            acc = acc + e;
        } else {
            assert(acc <= (k + 1) * MAX_SHIPMENT_VALUE) by (nonlinear_arith)
                requires
                    acc <= k * MAX_SHIPMENT_VALUE,
            ;
        }
        k = k + 1;
    }
    proof {
        assert(ss.take(ss.len() as int) =~= ss);
    }
    acc
}

proof fn lemma_escrowed_total_update(ss: Seq<ShipmentView>, i: int, t: ShipmentView, token: AccountId)
    requires
        0 <= i < ss.len(),
    ensures
        escrowed_total(ss.update(i, t), token) == escrowed_total(ss, token) - (if ss[i].token
            == token {
            ss[i].escrowed()
        } else {
            0
        }) + (if t.token == token {
            t.escrowed()
        } else {
            0
        }),
    decreases ss.len(),
{
    let u = ss.update(i, t);
    if i == ss.len() - 1 {
        assert(u.drop_last() =~= ss.drop_last());
    } else {
        lemma_escrowed_total_update(ss.drop_last(), i, t, token);
        assert(u.drop_last() =~= ss.drop_last().update(i, t));
    }
}

/// Law: when one shipment takes a sound step, the escrow held in its token across
/// all shipments changes by exactly what its transfers move in and out; the escrow
/// in any other token is unchanged. So the contract's balance of each token keeps
/// matching the escrow it records.
pub proof fn law_escrow_total_step(
    ss: Seq<ShipmentView>,
    i: int,
    t: ShipmentView,
    ts: Seq<crate::types::Transfer>,
    token: AccountId,
)
    requires
        0 <= i < ss.len(),
        sound_step(ss[i], t, ts),
    ensures
        ss[i].token == token ==> escrowed_total(ss.update(i, t), token) + outflow(ts)
            == escrowed_total(ss, token) + inflow(ts),
        ss[i].token != token ==> escrowed_total(ss.update(i, t), token) == escrowed_total(
            ss,
            token,
        ),
{
    lemma_escrowed_total_update(ss, i, t, token);
}

/// Law: a newly created shipment adds exactly its deposit to the escrow held in its
/// token.
pub proof fn law_escrow_total_create(ss: Seq<ShipmentView>, s: ShipmentView, token: AccountId)
    ensures
        escrowed_total(ss.push(s), token) == escrowed_total(ss, token) + if s.token == token {
            s.escrowed()
        } else {
            0
        },
{
    assert(ss.push(s).drop_last() =~= ss);
}

} // verus!
