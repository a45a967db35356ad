use vstd::prelude::*;

verus! {

/// An on-chain account (buyer, supplier, logistics, arbiter, treasury, token contract),
/// identified by a number that the host side assigns to each address.
pub type AccountId = u64;

/// Denominator of every basis-point quantity.
pub const BPS_DENOMINATOR: u32 = 10_000;

/// Largest protocol fee an admin may configure (10%).
pub const MAX_FEE_BPS: u32 = 1_000;

/// Largest share of each net payment that may be held back as retainage.
pub const MAX_RETAINAGE_BPS: u32 = 2_000;

/// Largest share of each net payment that may be held back as warranty.
pub const MAX_WARRANTY_BPS: u32 = 2_000;

/// The grade that pays a milestone in full.
pub const FULL_GRADE_BPS: u32 = 10_000;

/// Grade review window used when a shipment does not configure one.
pub const DEFAULT_GRADE_REVIEW_WINDOW_LEDGERS: u32 = 17_280;

/// Largest escrow a single shipment may hold: token balances of Stellar assets are
/// 64-bit, so no shipment can ever be funded with more than this.
pub const MAX_SHIPMENT_VALUE: i128 = 9_223_372_036_854_775_807;

/// Storage lifetime bounds used when the host persists a shipment.
pub const TTL_INITIAL_LEDGERS: u32 = 100_000;

pub const TTL_MAX_LEDGERS: u32 = 6_300_000;

#[derive(PartialEq, Eq, Structural, Clone, Copy, Debug)]
pub enum MilestoneStatus {
    Pending,
    ProofSubmitted,
    Confirmed,
    Disputed,
    Resolved,
    /// Confirmed, but the payment waits until `release_after_ledger`.
    ConfirmedHeld,
}

/// Whether milestone N needs milestone N-1 to be complete before its proof.
#[derive(PartialEq, Eq, Structural, Clone, Copy, Debug)]
pub enum MilestoneMode {
    Sequential,
    Parallel,
}

#[derive(PartialEq, Eq, Structural, Clone, Copy, Debug)]
pub enum ShipmentStatus {
    Active,
    Completed,
    Cancelled,
}

/// Protocol fee configuration set by the admin.
#[derive(PartialEq, Eq, Structural, Clone, Copy, Debug)]
pub struct FeeConfig {
    pub fee_bps: u32,
    pub treasury: AccountId,
}

/// A token movement that the host must perform after a successful operation.
/// `into_escrow` moves `amount` of `token` from `counterparty` into the contract;
/// otherwise the contract pays `amount` to `counterparty`.
#[derive(PartialEq, Eq, Structural, Clone, Copy, Debug)]
pub struct Transfer {
    pub token: AccountId,
    pub counterparty: AccountId,
    pub amount: i128,
    pub into_escrow: bool,
}

#[derive(PartialEq, Eq, Structural, Clone, Copy, Debug)]
pub enum AuditAction {
    ShipmentCreated,
    ProofSubmitted,
    MilestoneApproved,
    MilestoneConfirmed,
    PaymentHeld,
    HeldPaymentReleased,
    PartialQtyConfirmed,
    MilestoneGraded,
    GradeSettled,
    DisputeRaised,
    GradeDisputed,
    DisputeResolved,
    DisputeWithdrawn,
    /// Retainage kept back from a payment to the supplier.
    RetainageWithheld,
    RetainageReleased,
    /// Retainage returned to the primary buyer when the shipment is cancelled.
    RetainageRefunded,
    ShipmentCancelled,
    DeadlineBreached,
    WarrantyClaimFiled,
    WarrantyClaimResolved,
    WarrantyReleased,
}

/// One entry of a shipment's audit trail.
#[derive(PartialEq, Eq, Structural, Clone, Copy, Debug)]
pub struct AuditEntry {
    pub action: AuditAction,
    pub actor: Option<AccountId>,
    pub ledger: u32,
    pub milestone_index: u32,
    pub amount: i128,
}

#[derive(PartialEq, Eq, Structural, Clone, Copy, Debug)]
pub enum ChainSettleError {
    NotInitialised,
    EmptyBuyersList,
    InvalidAmount,
    MaxShipmentValueExceeded,
    Unauthorized,
    InvalidPercentages,
    QuantityCountMismatch,
    GradeZeroNotFull,
    GradesNotNonIncreasing,
    RetainageTooHigh,
    WarrantyTooHigh,
    WarrantyIncomplete,
    ShipmentAlreadyExists,
    ShipmentNotFound,
    ShipmentNotActive,
    InvalidMilestoneIndex,
    InvalidMilestoneStatus,
    PreviousMilestoneNotComplete,
    DeadlinePassed,
    ProofNotSubmitted,
    AlreadyApproved,
    NotHeld,
    HoldbackNotExpired,
    CannotDisputeStatus,
    GradeDisputeSupplierOnly,
    GradeReviewElapsed,
    MilestoneNotDisputed,
    GradeDisputeArbiterOnly,
    DisputeMustBeResolved,
    MilestoneNotPending,
    NoDeadline,
    DeadlineNotBreached,
    FeeTooHigh,
    NotQuantityBased,
    ZeroQuantity,
    QuantityExceedsRemaining,
    GradesNotConfigured,
    InvalidGradeIndex,
    ShipmentNotCompleted,
    InvalidEvidence,
    WarrantyClaimOpen,
    WarrantyPeriodEnded,
    WarrantyPeriodNotEnded,
    NoWarrantyClaim,
    NoWarrantyBalance,
    WarrantyClaimPending,
}

pub struct Milestone {
    pub name: Vec<u8>,
    /// Share of the shipment's total paid for this milestone, in percent.
    pub payment_percent: u32,
    pub proof_hash: Vec<u8>,
    pub status: MilestoneStatus,
    /// Last ledger on which a proof is accepted.
    pub deadline_ledger: Option<u32>,
    /// Co-buyers that have confirmed the submitted proof.
    pub approvals: Vec<AccountId>,
    /// Ledger from which a held payment may be released.
    pub release_after_ledger: u32,
    /// Units expected for a quantity-based milestone (0: not quantity-based).
    pub expected_quantity: u32,
    pub delivered_quantity: u32,
    /// Part of this milestone's gross payment already counted as released.
    pub released: i128,
    /// Index of the quality grade the buyer gave, if graded.
    pub grade: Option<u32>,
}

/// Per-shipment settings fixed at creation.
pub struct ShipmentOptions {
    pub milestone_mode: MilestoneMode,
    /// Ledgers a confirmed payment is held before release (0: pay at once).
    pub holdback_ledgers: u32,
    /// Expected quantity per milestone; empty when no milestone is quantity-based.
    pub milestone_quantities: Vec<u32>,
    /// Basis points paid for each quality grade; empty when grading is off.
    pub quality_grades: Vec<u32>,
    pub review_window_ledgers: Option<u32>,
    pub retainage_bps: u32,
    pub warranty_bps: u32,
    pub warranty_ledgers: u32,
}

pub struct WarrantyClaim {
    pub buyer: AccountId,
    pub evidence: [u8; 32],
    pub filed_at: u32,
}

pub struct Shipment {
    pub id: Vec<u8>,
    /// All co-buyers; `buyers[0]` is the primary buyer who funds and gets refunds.
    pub buyers: Vec<AccountId>,
    pub supplier: AccountId,
    pub logistics: AccountId,
    pub arbiter: AccountId,
    pub token: AccountId,
    pub total_amount: i128,
    pub released_amount: i128,
    pub milestones: Vec<Milestone>,
    pub status: ShipmentStatus,
    pub milestone_mode: MilestoneMode,
    pub holdback_ledgers: u32,
    pub quality_grades: Vec<u32>,
    pub review_window_ledgers: u32,
    pub retainage_bps: u32,
    pub warranty_bps: u32,
    pub warranty_ledgers: u32,
    pub created_at: u32,
    pub retainage_balance: i128,
    pub warranty_balance: i128,
    pub warranty_end_ledger: u32,
    pub warranty_claim: Option<WarrantyClaim>,
    pub audit_log: Vec<AuditEntry>,
}

/// Contract-wide configuration kept by the admin.
pub struct Config {
    pub admin: Option<AccountId>,
    /// When non-empty, only these tokens may fund a shipment.
    pub allowed_tokens: Vec<AccountId>,
    pub fee: Option<FeeConfig>,
}

// ------------------------------------------------------------------
// Mathematical views
// ------------------------------------------------------------------

#[verifier::ext_equal]
pub struct MilestoneView {
    pub name: Seq<u8>,
    pub payment_percent: u32,
    pub proof_hash: Seq<u8>,
    pub status: MilestoneStatus,
    pub deadline_ledger: Option<u32>,
    pub approvals: Seq<AccountId>,
    pub release_after_ledger: u32,
    pub expected_quantity: u32,
    pub delivered_quantity: u32,
    pub released: i128,
    pub grade: Option<u32>,
}

#[verifier::ext_equal]
pub struct WarrantyClaimView {
    pub buyer: AccountId,
    pub evidence: Seq<u8>,
    pub filed_at: u32,
}

#[verifier::ext_equal]
pub struct ShipmentView {
    pub id: Seq<u8>,
    pub buyers: Seq<AccountId>,
    pub supplier: AccountId,
    pub logistics: AccountId,
    pub arbiter: AccountId,
    pub token: AccountId,
    pub total_amount: i128,
    pub released_amount: i128,
    pub milestones: Seq<MilestoneView>,
    pub status: ShipmentStatus,
    pub milestone_mode: MilestoneMode,
    pub holdback_ledgers: u32,
    pub quality_grades: Seq<u32>,
    pub review_window_ledgers: u32,
    pub retainage_bps: u32,
    pub warranty_bps: u32,
    pub warranty_ledgers: u32,
    pub created_at: u32,
    pub retainage_balance: i128,
    pub warranty_balance: i128,
    pub warranty_end_ledger: u32,
    pub warranty_claim: Option<WarrantyClaimView>,
    pub audit_log: Seq<AuditEntry>,
}

impl View for Milestone {
    type V = MilestoneView;

    open spec fn view(&self) -> MilestoneView {
        MilestoneView {
            name: self.name@,
            payment_percent: self.payment_percent,
            proof_hash: self.proof_hash@,
            status: self.status,
            deadline_ledger: self.deadline_ledger,
            approvals: self.approvals@,
            release_after_ledger: self.release_after_ledger,
            expected_quantity: self.expected_quantity,
            delivered_quantity: self.delivered_quantity,
            released: self.released,
            grade: self.grade,
        }
    }
}

impl View for WarrantyClaim {
    type V = WarrantyClaimView;

    open spec fn view(&self) -> WarrantyClaimView {
        WarrantyClaimView { buyer: self.buyer, evidence: self.evidence@, filed_at: self.filed_at }
    }
}

pub open spec fn milestones_view(ms: Seq<Milestone>) -> Seq<MilestoneView> {
    ms.map_values(|m: Milestone| m@)
}

pub open spec fn claim_view(c: Option<WarrantyClaim>) -> Option<WarrantyClaimView> {
    match c {
        Some(w) => Some(w@),
        None => None,
    }
}

impl View for Shipment {
    type V = ShipmentView;

    open spec fn view(&self) -> ShipmentView {
        ShipmentView {
            id: self.id@,
            buyers: self.buyers@,
            supplier: self.supplier,
            logistics: self.logistics,
            arbiter: self.arbiter,
            token: self.token,
            total_amount: self.total_amount,
            released_amount: self.released_amount,
            milestones: milestones_view(self.milestones@),
            status: self.status,
            milestone_mode: self.milestone_mode,
            holdback_ledgers: self.holdback_ledgers,
            quality_grades: self.quality_grades@,
            review_window_ledgers: self.review_window_ledgers,
            retainage_bps: self.retainage_bps,
            warranty_bps: self.warranty_bps,
            warranty_ledgers: self.warranty_ledgers,
            created_at: self.created_at,
            retainage_balance: self.retainage_balance,
            warranty_balance: self.warranty_balance,
            warranty_end_ledger: self.warranty_end_ledger,
            warranty_claim: claim_view(self.warranty_claim),
            audit_log: self.audit_log@,
        }
    }
}

impl Milestone {
    /// A fresh milestone description, as a caller passes it to shipment creation.
    pub fn new(name: Vec<u8>, payment_percent: u32, deadline_ledger: Option<u32>) -> (m: Milestone)
        ensures
            m@.name == name@,
            m@.payment_percent == payment_percent,
            m@.deadline_ledger == deadline_ledger,
            m@.proof_hash.len() == 0,
            m@.status == MilestoneStatus::Pending,
            m@.approvals.len() == 0,
            m@.release_after_ledger == 0,
            m@.expected_quantity == 0,
            m@.delivered_quantity == 0,
            m@.released == 0,
            m@.grade is None,
    {
        Milestone {
            name,
            payment_percent,
            proof_hash: Vec::new(),
            status: MilestoneStatus::Pending,
            deadline_ledger,
            approvals: Vec::new(),
            release_after_ledger: 0,
            expected_quantity: 0,
            delivered_quantity: 0,
            released: 0,
            grade: None,
        }
    }
}

impl ShipmentOptions {
    /// Options with every optional feature switched off.
    pub fn new(milestone_mode: MilestoneMode) -> (o: ShipmentOptions)
        ensures
            o.milestone_mode == milestone_mode,
            o.holdback_ledgers == 0,
            o.milestone_quantities@.len() == 0,
            o.quality_grades@.len() == 0,
            o.review_window_ledgers is None,
            o.retainage_bps == 0,
            o.warranty_bps == 0,
            o.warranty_ledgers == 0,
    {
        ShipmentOptions {
            milestone_mode,
            holdback_ledgers: 0,
            milestone_quantities: Vec::new(),
            quality_grades: Vec::new(),
            review_window_ledgers: None,
            retainage_bps: 0,
            warranty_bps: 0,
            warranty_ledgers: 0,
        }
    }
}

} // verus!
