//! Plain-value records that the queries read and return.

use vstd::prelude::*;

use crate::audit::DrawAudit;

verus! {

/// Lifecycle status of a credit line.
#[derive(Clone, Copy, Debug, PartialEq, Eq, Structural)]
pub enum CreditStatus {
    Active,
    Suspended,
    Defaulted,
    Closed,
}

/// One borrower's credit line, as the last mutating operation left it.
///
/// Interest accrual is lazy: `accrued_interest` and `utilized_amount` reflect
/// the last checkpoint, not interest pending since `last_accrual_ts`.
#[derive(Clone, Copy, Debug, PartialEq, Eq, Structural)]
pub struct CreditLineData {
    pub credit_limit: i128,
    pub utilized_amount: i128,
    pub interest_rate_bps: u32,
    pub risk_score: u32,
    pub status: CreditStatus,
    pub last_rate_update_ts: u64,
    pub accrued_interest: i128,
    pub last_accrual_ts: u64,
}

/// Installment schedule configured for a borrower.
#[derive(Clone, Copy, Debug, PartialEq, Eq, Structural)]
pub struct RepaymentSchedule {
    /// Timestamp at which the next installment falls due.
    pub next_due_ts: u64,
}

/// Protocol-wide grace window granted after an installment's due time.
#[derive(Clone, Copy, Debug, PartialEq, Eq, Structural)]
pub struct GracePeriodConfig {
    pub grace_period_seconds: u64,
}

/// Protocol-level dashboard aggregates.
#[derive(Clone, Copy, Debug, PartialEq, Eq, Structural)]
pub struct ProtocolSummary {
    pub count: u32,
    pub total_utilized: i128,
    pub total_collateral: i128,
    pub treasury_balance: i128,
}

/// What the protocol holds about one borrower: the credit line, the
/// installment schedule and the draw audit log. A borrower that never had a
/// line has neither line nor schedule and an empty log.
pub struct BorrowerRecord {
    pub credit_line: Option<CreditLineData>,
    pub repayment_schedule: Option<RepaymentSchedule>,
    pub draw_audit: DrawAudit,
}

impl BorrowerRecord {
    /// A borrower the protocol knows nothing about.
    pub fn unknown() -> (r: Self)
        ensures
            r.credit_line is None,
            r.repayment_schedule is None,
            r.draw_audit.index().len() == 0,
            r.draw_audit.records() == Map::<u64, i128>::empty(),
    {
        BorrowerRecord { credit_line: None, repayment_schedule: None, draw_audit: DrawAudit::new() }
    }
}

/// Protocol-wide state the queries read: the current ledger time, the
/// optional grace-period configuration and the aggregate counters.
#[derive(Clone, Copy, Debug, PartialEq, Eq, Structural)]
pub struct ProtocolState {
    pub ledger_timestamp: u64,
    pub grace_period: Option<GracePeriodConfig>,
    pub credit_line_count: u32,
    pub total_utilized: i128,
    pub total_collateral: i128,
    pub treasury_balance: i128,
}

} // verus!
