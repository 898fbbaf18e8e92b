//! Read-only queries: credit line, protocol summary, repayment schedule,
//! delinquency and the draw audit log.

use vstd::prelude::*;

use crate::audit::{
    amount_or_zero, count_before, lemma_count_before_prefix, recorded_amount, sorted_times,
    DrawAudit,
};
use crate::types::{
    BorrowerRecord, CreditLineData, CreditStatus, GracePeriodConfig, ProtocolState,
    ProtocolSummary, RepaymentSchedule,
};

verus! {

/// Largest page that `enumerate_draw_audit` returns, whatever limit is asked.
pub const MAX_ENUMERATION_LIMIT: u32 = 100;

/// The requested page size, capped at `MAX_ENUMERATION_LIMIT`.
pub open spec fn capped_limit(limit: u32) -> nat {
    if limit < MAX_ENUMERATION_LIMIT {
        limit as nat
    } else {
        MAX_ENUMERATION_LIMIT as nat
    }
}

/// How many index entries a cursor leaves visible: those strictly before
/// it, or all of them without a cursor.
pub open spec fn visible_count(index: Seq<u64>, cursor: Option<u64>) -> nat {
    match cursor {
        Some(c) => count_before(index, c),
        None => index.len(),
    }
}

/// The timestamps of a page: the most recent visible index entries, newest
/// first, at most `capped_limit(limit)` of them.
pub open spec fn window_times(index: Seq<u64>, cursor: Option<u64>, limit: u32) -> Seq<u64> {
    let n = visible_count(index, cursor);
    let k = if capped_limit(limit) < n {
        capped_limit(limit)
    } else {
        n
    };
    Seq::new(k, |i: int| index[n - 1 - i])
}

/// A page of the draw log: each timestamp of the window with the amount
/// recorded for it, zero where none is.
pub open spec fn draw_page(
    index: Seq<u64>,
    records: Map<u64, i128>,
    cursor: Option<u64>,
    limit: u32,
) -> Seq<(u64, i128)> {
    window_times(index, cursor, limit).map_values(|t: u64| (t, amount_or_zero(records, t)))
}

/// `a + b`, held at `u64::MAX` instead of wrapping.
pub open spec fn saturating_sum(a: u64, b: u64) -> u64 {
    if a + b > u64::MAX {
        u64::MAX
    } else {
        (a + b) as u64
    }
}

/// The grace window in force: the configured one, or none at all.
pub open spec fn grace_seconds(grace: Option<GracePeriodConfig>) -> u64 {
    match grace {
        Some(cfg) => cfg.grace_period_seconds,
        None => 0,
    }
}

/// A borrower is delinquent when an open line with outstanding principal
/// has an installment whose due time, plus the grace window, lies strictly
/// before `now`.
pub open spec fn delinquent(
    line: Option<CreditLineData>,
    schedule: Option<RepaymentSchedule>,
    grace: Option<GracePeriodConfig>,
    now: u64,
) -> bool {
    match (line, schedule) {
        (Some(l), Some(s)) => {
            &&& l.status != CreditStatus::Closed
            &&& l.utilized_amount > 0
            &&& now > saturating_sum(s.next_due_ts, grace_seconds(grace))
        },
        _ => false,
    }
}

/// Return the credit line of `borrower`, or `None` if no line exists.
///
/// Accrual is lazy: interest pending since the last checkpoint is not
/// applied here.
pub fn get_credit_line(borrower: &BorrowerRecord) -> (r: Option<CreditLineData>)
    ensures
        r == borrower.credit_line,
{
    borrower.credit_line
}

/// Return the protocol-level dashboard aggregates.
pub fn get_protocol_summary(env: &ProtocolState) -> (r: ProtocolSummary)
    ensures
        r == (ProtocolSummary {
            count: env.credit_line_count,
            total_utilized: env.total_utilized,
            total_collateral: env.total_collateral,
            treasury_balance: env.treasury_balance,
        }),
{
    ProtocolSummary {
        count: env.credit_line_count,
        total_utilized: env.total_utilized,
        total_collateral: env.total_collateral,
        treasury_balance: env.treasury_balance,
    }
}

/// Return the installment schedule configured for `borrower`, if any.
pub fn get_repayment_schedule(borrower: &BorrowerRecord) -> (r: Option<RepaymentSchedule>)
    ensures
        r == borrower.repayment_schedule,
{
    borrower.repayment_schedule
}

/// Return `true` when `borrower` has missed an installment past the grace
/// window.
///
/// `false` when the borrower has no line, the line is `Closed` or has no
/// outstanding principal, or no schedule is configured. Without a grace
/// configuration the window is zero. The deadline saturates at `u64::MAX`
/// rather than wrapping.
pub fn is_delinquent(env: &ProtocolState, borrower: &BorrowerRecord) -> (r: bool)
    ensures
        r == delinquent(
            borrower.credit_line,
            borrower.repayment_schedule,
            env.grace_period,
            env.ledger_timestamp,
        ),
        r == match (borrower.credit_line, borrower.repayment_schedule) {
            (Some(line), Some(schedule)) => {
                let deadline = schedule.next_due_ts + match env.grace_period {
                    Some(cfg) => cfg.grace_period_seconds as int,
                    None => 0,
                };
                &&& line.status != CreditStatus::Closed
                &&& line.utilized_amount > 0
                &&& deadline < u64::MAX
                &&& env.ledger_timestamp > deadline
            },
            _ => false,
        },
{
    let line = match get_credit_line(borrower) {
        Some(line) => line,
        None => return false,
    };
    match line.status {
        CreditStatus::Closed => return false,
        _ => {},
    }
    if line.utilized_amount <= 0 {
        return false;
    }
    let schedule = match get_repayment_schedule(borrower) {
        Some(schedule) => schedule,
        None => return false,
    };
    let grace: u64 = match env.grace_period {
        Some(cfg) => cfg.grace_period_seconds,
        None => 0,
    };
    let delinquent_after = schedule.next_due_ts.saturating_add(grace);
    env.ledger_timestamp > delinquent_after
}

/// Number of index entries strictly before `cursor` (binary search).
fn entries_before(index: &Vec<u64>, cursor: u64) -> (n: usize)
    requires
        sorted_times(index@),
    ensures
        n == count_before(index@, cursor),
{
    proof {
        lemma_count_before_prefix(index@, cursor);
    }
    let mut lo: usize = 0;
    let mut hi: usize = index.len();
    while lo < hi
        invariant
            count_before(index@, cursor) <= index@.len(),
            forall|i: int|
                0 <= i < index@.len() ==> (#[trigger] index@[i] < cursor <==> i < count_before(
                    index@,
                    cursor,
                )),
            lo <= count_before(index@, cursor) <= hi <= index@.len(),
        decreases hi - lo,
    {
        let mid = lo + (hi - lo) / 2;
        if index[mid] < cursor {
            lo = mid + 1;
        } else {
            hi = mid;
        }
    }
    lo
}

/// Return the draw amount recorded for `borrower` at `timestamp`, or `None`
/// if no draw was recorded then.
pub fn get_draw_audit(borrower: &BorrowerRecord, timestamp: u64) -> (r: Option<i128>)
    ensures
        r == recorded_amount(borrower.draw_audit.records(), timestamp),
        r is Some <==> borrower.draw_audit.records().contains_key(timestamp),
        r matches Some(a) ==> a == borrower.draw_audit.records()[timestamp],
{
    borrower.draw_audit.amount_at(timestamp)
}

/// The timestamps that a page of the draw log shows, newest first: those
/// strictly before `cursor` (all without one), at most
/// `min(limit, MAX_ENUMERATION_LIMIT)` of them. A binary search over the
/// index finds the newest visible entry, then the walk goes backward; only
/// these timestamps' amounts need to be read.
pub fn draw_window(audit: &DrawAudit, cursor: Option<u64>, limit: u32) -> (out: Vec<u64>)
    ensures
        out@ == window_times(audit.index(), cursor, limit),
{
    let index = audit.index_entries();
    let ghost e = index@;
    let capped: u32 = if limit < MAX_ENUMERATION_LIMIT {
        limit
    } else {
        MAX_ENUMERATION_LIMIT
    };
    let mut out: Vec<u64> = Vec::new();
    proof {
        if let Some(c) = cursor {
            lemma_count_before_prefix(e, c);
        }
    }
    if capped == 0 {
        assert(out@ =~= window_times(e, cursor, limit));
        return out;
    }
    let len = index.len();
    if len == 0 {
        assert(out@ =~= window_times(e, cursor, limit));
        return out;
    }
    let end: usize = match cursor {
        Some(c) => entries_before(index, c),
        None => len,
    };
    let mut idx: usize = end;
    let mut collected: u32 = 0;
    while idx > 0 && collected < capped
        invariant
            index@ == e,
            end == visible_count(e, cursor),
            end <= e.len(),
            idx <= end,
            collected == end - idx,
            collected <= capped,
            capped == capped_limit(limit),
            out@ == Seq::new(collected as nat, |i: int| e[end - 1 - i]),
        decreases idx,
    {
        idx -= 1;
        out.push(index[idx]);
        collected += 1;
        assert(out@ =~= Seq::new(collected as nat, |i: int| e[end - 1 - i]));
    }
    assert(out@ =~= window_times(e, cursor, limit));
    out
}

/// Enumerate the draws of `borrower`, most recent first, as
/// `(timestamp, amount)` pairs.
///
/// `cursor` is an exclusive upper bound: only draws strictly before it are
/// returned; `None` starts from the most recent draw. At most
/// `min(limit, MAX_ENUMERATION_LIMIT)` entries come back. An indexed
/// timestamp with no recorded amount reads as zero.
pub fn enumerate_draw_audit(borrower: &BorrowerRecord, cursor: Option<u64>, limit: u32) -> (out:
    Vec<(u64, i128)>)
    ensures
        out@ == draw_page(borrower.draw_audit.index(), borrower.draw_audit.records(), cursor, limit),
        out@.len() <= limit,
        out@.len() <= MAX_ENUMERATION_LIMIT,
        out@.len() <= visible_count(borrower.draw_audit.index(), cursor),
        out@.len() == limit || out@.len() == MAX_ENUMERATION_LIMIT || out@.len() == visible_count(
            borrower.draw_audit.index(),
            cursor,
        ),
{
    let audit = &borrower.draw_audit;
    let window = draw_window(audit, cursor, limit);
    let ghost page = draw_page(audit.index(), audit.records(), cursor, limit);
    let mut out: Vec<(u64, i128)> = Vec::new();
    let mut i: usize = 0;
    while i < window.len()
        invariant
            page.len() == window@.len(),
            forall|j: int| 0 <= j < window@.len() ==> #[trigger] page[j] == (
                window@[j],
                amount_or_zero(audit.records(), window@[j]),
            ),
            i <= window@.len(),
            out@ == page.take(i as int),
        decreases window.len() - i,
    {
        let ts = window[i];
        let amount: i128 = match audit.amount_at(ts) {
            Some(amount) => amount,
            None => 0,
        };
        out.push((ts, amount));
        assert(page[i as int] == (ts, amount));
        i += 1;
        assert(out@ =~= page.take(i as int));
    }
    assert(out@ =~= page);
    out
}

} // verus!
