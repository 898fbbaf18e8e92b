use creditra_credit::query::{enumerate_draw_audit, get_draw_audit, MAX_ENUMERATION_LIMIT};
use creditra_credit::types::{BorrowerRecord, CreditLineData, CreditStatus};

/// A borrower with a freshly opened line: limit 100_000, rate 300 bps,
/// risk score 50.
fn setup_default() -> BorrowerRecord {
    let mut borrower = BorrowerRecord::unknown();
    borrower.credit_line = Some(CreditLineData {
        credit_limit: 100_000,
        utilized_amount: 0,
        interest_rate_bps: 300,
        risk_score: 50,
        status: CreditStatus::Active,
        last_rate_update_ts: 0,
        accrued_interest: 0,
        last_accrual_ts: 0,
    });
    borrower
}

/// A draw of `amount` at ledger time `ts`, as the audit log records it.
fn draw_credit(borrower: &mut BorrowerRecord, ts: u64, amount: i128) {
    borrower.draw_audit.record(ts, amount).unwrap();
    if let Some(line) = borrower.credit_line.as_mut() {
        line.utilized_amount += amount;
    }
}

fn with_three_draws() -> BorrowerRecord {
    let mut borrower = setup_default();
    draw_credit(&mut borrower, 1000, 2_000);
    draw_credit(&mut borrower, 2000, 3_000);
    draw_credit(&mut borrower, 3000, 4_000);
    borrower
}

#[test]
fn get_draw_audit_returns_recorded_amount() {
    let mut borrower = setup_default();
    let ts = 1000;
    draw_credit(&mut borrower, ts, 5_000);
    let audit = get_draw_audit(&borrower, ts);
    assert_eq!(audit, Some(5_000_i128));
}

#[test]
fn get_draw_audit_unknown_timestamp_returns_none() {
    let borrower = setup_default();
    let audit = get_draw_audit(&borrower, 0_u64);
    assert_eq!(audit, None);
}

#[test]
fn get_draw_audit_nonexistent_borrower_returns_none() {
    let stranger = BorrowerRecord::unknown();
    let audit = get_draw_audit(&stranger, 100_u64);
    assert_eq!(audit, None);
}

#[test]
fn enumerate_draw_audit_returns_multiple_draws() {
    let borrower = with_three_draws();
    let (ts1, ts2, ts3) = (1000, 2000, 3000);
    let audit = enumerate_draw_audit(&borrower, None, 10_u32);
    let expected = vec![(ts3, 4_000_i128), (ts2, 3_000_i128), (ts1, 2_000_i128)];
    assert_eq!(audit, expected);
}

#[test]
fn enumerate_draw_audit_cursor_excludes_upper_bound() {
    let borrower = with_three_draws();
    let (ts1, ts2, ts3) = (1000, 2000, 3000);
    // cursor = ts3 excludes entries at or after ts3, so only ts2, ts1
    let audit = enumerate_draw_audit(&borrower, Some(ts3), 10_u32);
    let expected = vec![(ts2, 3_000_i128), (ts1, 2_000_i128)];
    assert_eq!(audit, expected);
}

#[test]
fn enumerate_draw_audit_respects_limit() {
    let borrower = with_three_draws();
    let audit = enumerate_draw_audit(&borrower, None, 2_u32);
    assert_eq!(audit.len(), 2);
}

#[test]
fn enumerate_draw_audit_zero_limit_returns_empty() {
    let mut borrower = setup_default();
    draw_credit(&mut borrower, 1000, 2_000);
    let audit = enumerate_draw_audit(&borrower, None, 0_u32);
    assert_eq!(audit.len(), 0);
}

#[test]
fn enumerate_draw_audit_no_draws_returns_empty() {
    let borrower = setup_default();
    let audit = enumerate_draw_audit(&borrower, None, 10_u32);
    assert_eq!(audit.len(), 0);
}

#[test]
fn enumerate_draw_audit_nonexistent_borrower_returns_empty() {
    let stranger = BorrowerRecord::unknown();
    let audit = enumerate_draw_audit(&stranger, None, 10_u32);
    assert_eq!(audit.len(), 0);
}

#[test]
fn enumerate_draw_audit_cursor_between_draws() {
    let borrower = with_three_draws();
    let audit = enumerate_draw_audit(&borrower, Some(2500), 10);
    assert_eq!(audit, vec![(2000, 3_000), (1000, 2_000)]);
    let audit = enumerate_draw_audit(&borrower, Some(1000), 10);
    assert!(audit.is_empty());
    let audit = enumerate_draw_audit(&borrower, Some(u64::MAX), 1);
    assert_eq!(audit, vec![(3000, 4_000)]);
}

#[test]
fn enumerate_draw_audit_caps_limit() {
    let mut borrower = setup_default();
    for i in 0..(MAX_ENUMERATION_LIMIT as u64 + 20) {
        draw_credit(&mut borrower, 10 + i, i as i128);
    }
    let audit = enumerate_draw_audit(&borrower, None, u32::MAX);
    assert_eq!(audit.len(), MAX_ENUMERATION_LIMIT as usize);
    let newest = MAX_ENUMERATION_LIMIT as u64 + 19;
    assert_eq!(audit[0], (10 + newest, newest as i128));
    assert_eq!(audit[audit.len() - 1], (10 + newest - (MAX_ENUMERATION_LIMIT as u64 - 1), 20));
}

#[test]
fn pages_concatenate_when_resuming_from_last_timestamp() {
    let mut borrower = setup_default();
    for i in 1..=7u64 {
        draw_credit(&mut borrower, i * 100, i as i128 * 10);
    }
    let first = enumerate_draw_audit(&borrower, None, 3);
    let second = enumerate_draw_audit(&borrower, Some(first[first.len() - 1].0), 2);
    let whole = enumerate_draw_audit(&borrower, None, 5);
    let mut joined = first.clone();
    joined.extend(second);
    assert_eq!(joined, whole);
    assert_eq!(whole, vec![(700, 70), (600, 60), (500, 50), (400, 40), (300, 30)]);
}

#[test]
fn page_entries_match_lookup() {
    let borrower = with_three_draws();
    for (ts, amount) in enumerate_draw_audit(&borrower, None, 10) {
        assert_eq!(get_draw_audit(&borrower, ts), Some(amount));
    }
    assert_eq!(get_draw_audit(&borrower, 1500), None);
    assert_eq!(get_draw_audit(&borrower, 3001), None);
}
