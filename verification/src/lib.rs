//! Read-only queries over the state of a credit-line protocol: credit lines,
//! installment schedules, delinquency and the per-borrower draw audit log.

pub mod types;
pub mod audit;
pub mod query;
pub mod laws;
