//! Properties that hold across calls of the queries.

use vstd::prelude::*;

use crate::audit::{
    amount_or_zero, count_before, lemma_count_before_at_split, lemma_count_before_prefix,
    recorded_amount, sorted_times, strictly_increasing,
};
use crate::query::{
    capped_limit, delinquent, draw_page, grace_seconds, saturating_sum, visible_count,
    window_times, MAX_ENUMERATION_LIMIT,
};
use crate::types::{CreditLineData, CreditStatus, GracePeriodConfig, RepaymentSchedule};

verus! {

/// In a strictly increasing index, exactly the entries before the `m`-th
/// timestamp precede it.
proof fn lemma_count_before_entry(index: Seq<u64>, m: int)
    requires
        strictly_increasing(index),
        0 <= m < index.len(),
    ensures
        count_before(index, index[m]) == m,
{
    assert forall|i: int| 0 <= i < m implies #[trigger] index[i] < index[m] by {}
    assert forall|i: int| m <= i < index.len() implies #[trigger] index[i] >= index[m] by {
        if i > m {
            assert(index[m] < index[i]);
        }
    }
    lemma_count_before_at_split(index, index[m], m);
}

/// A page of the draw log comes newest first, holds only draws strictly
/// before the cursor and no more than the capped limit, shows only indexed
/// timestamps, and pairs each with the amount recorded for it (zero where
/// none is). Over an index without repeated timestamps, the page's
/// timestamps strictly decrease.
pub proof fn law_page_newest_first_before_cursor(
    index: Seq<u64>,
    records: Map<u64, i128>,
    cursor: Option<u64>,
    limit: u32,
)
    requires
        sorted_times(index),
    ensures
        draw_page(index, records, cursor, limit).len() <= capped_limit(limit),
        capped_limit(limit) <= MAX_ENUMERATION_LIMIT,
        forall|i: int, j: int|
            0 <= i < j < draw_page(index, records, cursor, limit).len() ==> draw_page(
                index,
                records,
                cursor,
                limit,
            )[i].0 >= draw_page(index, records, cursor, limit)[j].0,
        strictly_increasing(index) ==> forall|i: int, j: int|
            0 <= i < j < draw_page(index, records, cursor, limit).len() ==> draw_page(
                index,
                records,
                cursor,
                limit,
            )[i].0 > draw_page(index, records, cursor, limit)[j].0,
        forall|c: u64, i: int|
            cursor == Some(c) && 0 <= i < draw_page(index, records, cursor, limit).len()
                ==> draw_page(index, records, cursor, limit)[i].0 < c,
        forall|i: int|
            0 <= i < draw_page(index, records, cursor, limit).len() ==> index.contains(
                #[trigger] draw_page(index, records, cursor, limit)[i].0,
            ) && draw_page(index, records, cursor, limit)[i].1 == amount_or_zero(
                records,
                draw_page(index, records, cursor, limit)[i].0,
            ),
{
    let page = draw_page(index, records, cursor, limit);
    let w = window_times(index, cursor, limit);
    let n = visible_count(index, cursor);
    if let Some(c) = cursor {
        lemma_count_before_prefix(index, c);
    }
    assert forall|i: int, j: int| 0 <= i < j < page.len() implies page[i].0 >= page[j].0 by {
        assert(index[n - 1 - j] <= index[n - 1 - i]);
    }
    if strictly_increasing(index) {
        assert forall|i: int, j: int| 0 <= i < j < page.len() implies page[i].0 > page[j].0 by {
            assert(index[n - 1 - j] < index[n - 1 - i]);
        }
    }
    assert forall|i: int| 0 <= i < page.len() implies index.contains(#[trigger] page[i].0)
        && page[i].1 == amount_or_zero(records, page[i].0) by {
        assert(index[n - 1 - i] == w[i]);
    }
}

/// Paging through a log without repeated timestamps loses and repeats
/// nothing: a page of `a` entries, followed by a page of `b` entries that
/// starts at the oldest timestamp of the first, is the page of `a + b`
/// entries.
pub proof fn law_pages_concatenate(
    index: Seq<u64>,
    records: Map<u64, i128>,
    cursor: Option<u64>,
    a: u32,
    b: u32,
)
    requires
        strictly_increasing(index),
        a + b <= MAX_ENUMERATION_LIMIT,
        draw_page(index, records, cursor, a).len() > 0,
    ensures
        draw_page(index, records, cursor, (a + b) as u32) == draw_page(index, records, cursor, a)
            + draw_page(index, records, Some(draw_page(index, records, cursor, a).last().0), b),
{
    let first = draw_page(index, records, cursor, a);
    let n = visible_count(index, cursor);
    assert(sorted_times(index)) by {
        assert forall|i: int, j: int| 0 <= i <= j < index.len() implies index[i] <= index[j] by {
            if i < j {
                assert(index[i] < index[j]);
            }
        }
    }
    if let Some(c) = cursor {
        lemma_count_before_prefix(index, c);
    }
    let k = first.len() as int;
    assert(first.last().0 == index[n - k]);
    lemma_count_before_entry(index, n - k);
    let second = draw_page(index, records, Some(first.last().0), b);
    let whole = draw_page(index, records, cursor, (a + b) as u32);
    assert(whole =~= first + second);
}

/// Every entry that a page returns agrees with a lookup at its timestamp:
/// the lookup reads the page's amount, or finds nothing and the page shows
/// zero.
pub proof fn law_page_agrees_with_lookup(
    index: Seq<u64>,
    records: Map<u64, i128>,
    cursor: Option<u64>,
    limit: u32,
)
    ensures
        forall|i: int|
            0 <= i < draw_page(index, records, cursor, limit).len() ==> {
                let entry = #[trigger] draw_page(index, records, cursor, limit)[i];
                recorded_amount(records, entry.0) == Some(entry.1) || (recorded_amount(
                    records,
                    entry.0,
                ) is None && entry.1 == 0)
            },
{
}

/// After a draw is recorded, a lookup at its timestamp reads its amount,
/// and lookups at every other timestamp read what they read before.
pub proof fn law_lookup_after_record(
    records: Map<u64, i128>,
    timestamp: u64,
    amount: i128,
    other: u64,
)
    ensures
        recorded_amount(records.insert(timestamp, amount), timestamp) == Some(amount),
        other != timestamp ==> recorded_amount(records.insert(timestamp, amount), other)
            == recorded_amount(records, other),
{
}

/// After a draw is recorded, it heads every page taken without a cursor or
/// with a cursor after it, unless the limit is zero.
pub proof fn law_recorded_draw_heads_page(
    index: Seq<u64>,
    records: Map<u64, i128>,
    timestamp: u64,
    amount: i128,
    cursor: Option<u64>,
    limit: u32,
)
    requires
        sorted_times(index),
        index.len() == 0 || index.last() < timestamp,
        limit > 0,
        cursor matches Some(c) ==> timestamp < c,
    ensures
        draw_page(index.push(timestamp), records.insert(timestamp, amount), cursor, limit).len()
            > 0,
        draw_page(index.push(timestamp), records.insert(timestamp, amount), cursor, limit)[0] == (
            timestamp,
            amount,
        ),
{
    let grown = index.push(timestamp);
    assert(sorted_times(grown)) by {
        assert forall|i: int, j: int| 0 <= i <= j < grown.len() implies grown[i] <= grown[j] by {
            if j == index.len() && i < j {
                assert(index[i] <= index[index.len() - 1]);
            } else if j < index.len() {
                assert(index[i] <= index[j]);
            }
        }
    }
    if let Some(c) = cursor {
        lemma_count_before_prefix(grown, c);
        assert(grown[grown.len() - 1] < c);
    }
    assert(visible_count(grown, cursor) == grown.len());
}

/// Once delinquent, a borrower stays delinquent as ledger time advances
/// while the line, schedule and grace configuration stay as they are.
pub proof fn law_delinquency_persists(
    line: Option<CreditLineData>,
    schedule: Option<RepaymentSchedule>,
    grace: Option<GracePeriodConfig>,
    now: u64,
    later: u64,
)
    requires
        delinquent(line, schedule, grace, now),
        now <= later,
    ensures
        delinquent(line, schedule, grace, later),
{
}

/// A longer grace window never makes a borrower delinquent who was not,
/// and an absent configuration counts as a zero-second window.
pub proof fn law_grace_only_delays(
    line: Option<CreditLineData>,
    schedule: Option<RepaymentSchedule>,
    shorter: u64,
    longer: u64,
    now: u64,
)
    requires
        shorter <= longer,
    ensures
        delinquent(line, schedule, Some(GracePeriodConfig { grace_period_seconds: longer }), now)
            ==> delinquent(
            line,
            schedule,
            Some(GracePeriodConfig { grace_period_seconds: shorter }),
            now,
        ),
        delinquent(line, schedule, None, now) == delinquent(
            line,
            schedule,
            Some(GracePeriodConfig { grace_period_seconds: 0 }),
            now,
        ),
{
}

/// The deadline does not wrap: when due time plus grace reaches
/// `u64::MAX`, no ledger time makes the borrower delinquent.
pub proof fn law_saturated_deadline_never_delinquent(
    line: Option<CreditLineData>,
    schedule: RepaymentSchedule,
    grace: Option<GracePeriodConfig>,
    now: u64,
)
    requires
        schedule.next_due_ts + grace_seconds(grace) >= u64::MAX,
    ensures
        saturating_sum(schedule.next_due_ts, grace_seconds(grace)) == u64::MAX,
        !delinquent(line, Some(schedule), grace, now),
{
}

/// A lookup reads exactly what was recorded at the timestamp: the stored
/// amount where one is, and nothing where none is (so nothing at all in an
/// empty log).
pub proof fn law_lookup_reads_record(records: Map<u64, i128>, timestamp: u64)
    ensures
        records.contains_key(timestamp) ==> recorded_amount(records, timestamp) == Some(
            records[timestamp],
        ),
        !records.contains_key(timestamp) ==> recorded_amount(records, timestamp) is None,
        recorded_amount(Map::<u64, i128>::empty(), timestamp) is None,
{
}

/// A page has exactly as many entries as the smallest of the requested
/// limit, `MAX_ENUMERATION_LIMIT`, and the number `n` of indexed draws
/// before the cursor (all draws without one); its `i`-th entry is the
/// `(n - 1 - i)`-th indexed timestamp with the amount recorded for it, or
/// zero where none is.
pub proof fn law_page_size_and_contents(
    index: Seq<u64>,
    records: Map<u64, i128>,
    cursor: Option<u64>,
    limit: u32,
    n: int,
)
    requires
        sorted_times(index),
        0 <= n <= index.len(),
        cursor is None ==> n == index.len(),
        cursor matches Some(c) ==> forall|i: int| 0 <= i < n ==> #[trigger] index[i] < c,
        cursor matches Some(c) ==> forall|i: int|
            n <= i < index.len() ==> #[trigger] index[i] >= c,
    ensures
        draw_page(index, records, cursor, limit).len() <= limit,
        draw_page(index, records, cursor, limit).len() <= MAX_ENUMERATION_LIMIT,
        draw_page(index, records, cursor, limit).len() <= n,
        draw_page(index, records, cursor, limit).len() == limit || draw_page(
            index,
            records,
            cursor,
            limit,
        ).len() == MAX_ENUMERATION_LIMIT || draw_page(index, records, cursor, limit).len() == n,
        forall|i: int|
            0 <= i < draw_page(index, records, cursor, limit).len() ==> #[trigger] draw_page(
                index,
                records,
                cursor,
                limit,
            )[i] == (
                index[n - 1 - i],
                if records.contains_key(index[n - 1 - i]) {
                    records[index[n - 1 - i]]
                } else {
                    0
                },
            ),
{
    if let Some(c) = cursor {
        lemma_count_before_at_split(index, c, n);
    }
    assert(visible_count(index, cursor) == n);
}

/// Whether a borrower with a line and a schedule is delinquent depends on
/// the line's status and outstanding principal, the installment's due time,
/// the whole configured grace window (none when unconfigured) and the
/// ledger time alone: it is so exactly when the line is not `Closed`, has
/// principal outstanding, and the ledger time is past the due time plus the
/// grace window, that sum held at `u64::MAX`. Without a line or a schedule
/// nobody is delinquent.
pub proof fn law_delinquency_deadline(
    line: CreditLineData,
    schedule: RepaymentSchedule,
    grace: Option<GracePeriodConfig>,
    now: u64,
)
    ensures
        delinquent(Some(line), Some(schedule), grace, now) == {
            let sum = schedule.next_due_ts + match grace {
                Some(cfg) => cfg.grace_period_seconds as int,
                None => 0int,
            };
            let deadline = if sum > u64::MAX {
                u64::MAX as int
            } else {
                sum
            };
            &&& line.status != CreditStatus::Closed
            &&& line.utilized_amount > 0
            &&& now > deadline
        },
        !delinquent(None, Some(schedule), grace, now),
        !delinquent(Some(line), None, grace, now),
{
}

/// The configured grace window is granted in full: with principal
/// outstanding on a line that is not `Closed`, a borrower is not delinquent
/// at the last second of the window and is one second later.
pub proof fn law_full_grace_window(
    line: CreditLineData,
    schedule: RepaymentSchedule,
    grace_period_seconds: u64,
)
    requires
        line.status != CreditStatus::Closed,
        line.utilized_amount > 0,
        schedule.next_due_ts + grace_period_seconds < u64::MAX,
    ensures
        !delinquent(
            Some(line),
            Some(schedule),
            Some(GracePeriodConfig { grace_period_seconds }),
            (schedule.next_due_ts + grace_period_seconds) as u64,
        ),
        delinquent(
            Some(line),
            Some(schedule),
            Some(GracePeriodConfig { grace_period_seconds }),
            (schedule.next_due_ts + grace_period_seconds + 1) as u64,
        ),
{
}

/// Two lines that agree on status and outstanding principal agree on
/// delinquency, whatever their limits, rates, scores, accrued interest or
/// checkpoint timestamps.
pub proof fn law_delinquency_ignores_other_line_fields(
    line: CreditLineData,
    other: CreditLineData,
    schedule: Option<RepaymentSchedule>,
    grace: Option<GracePeriodConfig>,
    now: u64,
)
    requires
        line.status == other.status,
        line.utilized_amount == other.utilized_amount,
    ensures
        delinquent(Some(line), schedule, grace, now) == delinquent(Some(other), schedule, grace, now),
{
}

} // verus!
