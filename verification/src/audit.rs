//! The per-borrower draw audit log. As in contract storage, it has two
//! parts: the timestamp index, appended in ledger order, and the recorded
//! amounts, keyed by timestamp.

use std::collections::HashMap;
use vstd::prelude::*;

verus! {

broadcast use vstd::std_specs::hash::group_hash_axioms;

/// The index never goes back in time.
pub open spec fn sorted_times(index: Seq<u64>) -> bool {
    forall|i: int, j: int| 0 <= i <= j < index.len() ==> index[i] <= index[j]
}

/// Every timestamp in the index is after the one before it.
pub open spec fn strictly_increasing(index: Seq<u64>) -> bool {
    forall|i: int, j: int| 0 <= i < j < index.len() ==> index[i] < index[j]
}

/// Number of index entries strictly before `cursor`.
pub open spec fn count_before(index: Seq<u64>, cursor: u64) -> nat
    decreases index.len(),
{
    if index.len() == 0 {
        0
    } else {
        count_before(index.drop_last(), cursor) + if index.last() < cursor {
            1nat
        } else {
            0nat
        }
    }
}

/// The amount recorded at `timestamp`, if one is.
pub open spec fn recorded_amount(records: Map<u64, i128>, timestamp: u64) -> Option<i128> {
    if records.contains_key(timestamp) {
        Some(records[timestamp])
    } else {
        None
    }
}

/// The amount recorded at `timestamp`, or zero where none is.
pub open spec fn amount_or_zero(records: Map<u64, i128>, timestamp: u64) -> i128 {
    if records.contains_key(timestamp) {
        records[timestamp]
    } else {
        0
    }
}

/// Where the entries before `cursor` end and the others begin, the count
/// is that position.
pub proof fn lemma_count_before_at_split(index: Seq<u64>, cursor: u64, n: int)
    requires
        0 <= n <= index.len(),
        forall|i: int| 0 <= i < n ==> #[trigger] index[i] < cursor,
        forall|i: int| n <= i < index.len() ==> #[trigger] index[i] >= cursor,
    ensures
        count_before(index, cursor) == n,
    decreases index.len(),
{
    if index.len() > 0 {
        let init = index.drop_last();
        if n == index.len() {
            assert(index.last() < cursor) by {
                assert(index[index.len() - 1] < cursor);
            }
            lemma_count_before_at_split(init, cursor, n - 1);
        } else {
            assert(index.last() >= cursor) by {
                assert(index[index.len() - 1] >= cursor);
            }
            lemma_count_before_at_split(init, cursor, n);
        }
    }
}

/// In a sorted index, the entries before `cursor` form a prefix.
pub proof fn lemma_count_before_prefix(index: Seq<u64>, cursor: u64)
    requires
        sorted_times(index),
    ensures
        count_before(index, cursor) <= index.len(),
        forall|i: int|
            0 <= i < index.len() ==> (#[trigger] index[i] < cursor <==> i < count_before(
                index,
                cursor,
            )),
{
    let n = choose_split(index, cursor);
    lemma_count_before_at_split(index, cursor, n);
}

/// The position of the first entry at or after `cursor`.
proof fn choose_split(index: Seq<u64>, cursor: u64) -> (n: int)
    requires
        sorted_times(index),
    ensures
        0 <= n <= index.len(),
        forall|i: int| 0 <= i < n ==> #[trigger] index[i] < cursor,
        forall|i: int| n <= i < index.len() ==> #[trigger] index[i] >= cursor,
    decreases index.len(),
{
    if index.len() == 0 {
        0
    } else {
        let init = index.drop_last();
        let m = choose_split(init, cursor);
        if index.last() < cursor {
            assert forall|i: int| 0 <= i < index.len() implies #[trigger] index[i] < cursor by {
                assert(index[i] <= index[index.len() - 1]);
            }
            index.len() as int
        } else {
            assert forall|i: int| m <= i < index.len() implies #[trigger] index[i] >= cursor by {
                if i < index.len() - 1 {
                    assert(init[i] == index[i]);
                }
            }
            assert forall|i: int| 0 <= i < m implies #[trigger] index[i] < cursor by {
                assert(init[i] == index[i]);
            }
            m
        }
    }
}

/// Why a draw could not be appended to the log.
#[derive(Clone, Copy, Debug, PartialEq, Eq, Structural)]
pub enum DrawAuditError {
    /// The draw's timestamp is not after the newest indexed draw.
    TimestampRegression,
}

/// A borrower's draw log: the timestamp index, oldest first, and the
/// amounts recorded per timestamp.
pub struct DrawAudit {
    timestamps: Vec<u64>,
    amounts: HashMap<u64, i128>,
}

impl DrawAudit {
    /// The timestamp index, oldest first.
    pub closed spec fn index(&self) -> Seq<u64> {
        self.timestamps@
    }

    /// The recorded amounts, by timestamp.
    pub closed spec fn records(&self) -> Map<u64, i128> {
        self.amounts@
    }

    /// The index is kept in ledger order.
    #[verifier::type_invariant]
    closed spec fn index_sorted(&self) -> bool {
        sorted_times(self.timestamps@)
    }

    /// An empty log.
    pub fn new() -> (audit: Self)
        ensures
            audit.index() == Seq::<u64>::empty(),
            audit.records() == Map::<u64, i128>::empty(),
    {
        DrawAudit { timestamps: Vec::new(), amounts: HashMap::new() }
    }

    /// A log with the given index and no amounts yet, or `None` when the
    /// index goes back in time.
    pub fn from_index(timestamps: Vec<u64>) -> (r: Option<Self>)
        ensures
            r is Some <==> sorted_times(timestamps@),
            r matches Some(audit) ==> audit.index() == timestamps@ && audit.records() == Map::<
                u64,
                i128,
            >::empty(),
    {
        let n = timestamps.len();
        let mut i: usize = 1;
        while i < n
            invariant
                n == timestamps@.len(),
                1 <= i,
                n == 0 || i <= n,
                forall|a: int, b: int| 0 <= a <= b < i && b < n ==> timestamps@[a] <= timestamps@[b],
            decreases n - i,
        {
            if timestamps[i] < timestamps[i - 1] {
                return None;
            }
            assert forall|a: int, b: int| 0 <= a <= b < i + 1 && b < n implies timestamps@[a]
                <= timestamps@[b] by {
                if b == i && a < i {
                    assert(timestamps@[a] <= timestamps@[i - 1]);
                }
            }
            i += 1;
        }
        Some(DrawAudit { timestamps, amounts: HashMap::new() })
    }

    /// The timestamp index, oldest first.
    pub fn index_entries(&self) -> (r: &Vec<u64>)
        ensures
            r@ == self.index(),
            sorted_times(self.index()),
    {
        proof {
            use_type_invariant(self);
        }
        &self.timestamps
    }

    /// Number of indexed draws.
    pub fn len(&self) -> (n: usize)
        ensures
            n == self.index().len(),
    {
        self.timestamps.len()
    }

    /// The amount recorded at `timestamp`, if any.
    pub fn amount_at(&self, timestamp: u64) -> (r: Option<i128>)
        ensures
            r == recorded_amount(self.records(), timestamp),
            r is Some <==> self.records().contains_key(timestamp),
            r matches Some(a) ==> a == self.records()[timestamp],
    {
        match self.amounts.get(&timestamp) {
            Some(amount) => Some(*amount),
            None => None,
        }
    }

    /// Records `amount` at `timestamp`, leaving the index as it is.
    pub fn put_amount(&mut self, timestamp: u64, amount: i128)
        ensures
            final(self).index() == old(self).index(),
            final(self).records() == old(self).records().insert(timestamp, amount),
    {
        proof {
            use_type_invariant(&*self);
        }
        let mut amounts = HashMap::new();
        std::mem::swap(&mut amounts, &mut self.amounts);
        amounts.insert(timestamp, amount);
        self.amounts = amounts;
    }

    /// Appends a draw of `amount` at `timestamp`: the timestamp joins the
    /// index and the amount is recorded. Draws come in ledger order, so a
    /// timestamp at or before the newest indexed one is refused and the log
    /// is left unchanged.
    pub fn record(&mut self, timestamp: u64, amount: i128) -> (r: Result<(), DrawAuditError>)
        ensures
            r is Ok <==> (old(self).index().len() == 0 || old(self).index().last() < timestamp),
            r is Ok ==> final(self).index() == old(self).index().push(timestamp)
                && final(self).records() == old(self).records().insert(timestamp, amount),
            r is Err ==> final(self).index() == old(self).index() && final(self).records() == old(
                self,
            ).records() && r == Err::<(), DrawAuditError>(DrawAuditError::TimestampRegression),
    {
        proof {
            use_type_invariant(&*self);
        }
        let n = self.timestamps.len();
        if n > 0 && timestamp <= self.timestamps[n - 1] {
            return Err(DrawAuditError::TimestampRegression);
        }
        let ghost before = self.timestamps@;
        let mut timestamps = Vec::new();
        std::mem::swap(&mut timestamps, &mut self.timestamps);
        timestamps.push(timestamp);
        assert forall|i: int, j: int|
            0 <= i <= j < timestamps@.len() implies timestamps@[i] <= timestamps@[j] by {
            if j == n && i < n {
                assert(before[i] <= before[n - 1]);
            }
        }
        self.timestamps = timestamps;
        self.put_amount(timestamp, amount);
        Ok(())
    }
}

} // verus!
