//! A verified ledger engine for a small cooperative banking application:
//! fixed-point money, member share/loan/interest accounting, view-model
//! projection, and the command dispatcher over a SQLite-backed store.

use vstd::prelude::*;

pub mod auth;
pub mod dispatch;
pub mod ledger;
pub mod money;
pub mod store;
pub mod style;
pub mod views;

verus! {

/// The largest amount (in hundredths of a currency unit) the ledger accepts.
/// Amounts are stored as 64-bit integers in the database, so this bound is a
/// machine limit; it also keeps every sum and difference inside `u64`.
pub const AMOUNT_LIMIT: u64 = 999_999_999_999_999_999;

/// A ledger operation that was refused before any state was touched.
#[derive(Clone, Copy, Debug, PartialEq, Eq, Structural)]
pub enum LedgerError {
    /// The input was rejected: an empty name, an amount out of range,
    /// or a repayment larger than what it repays.
    Validation,
    /// The targeted member does not exist (the profit row is not a member).
    NotFound,
}

/// A failure of the persistent store itself.
#[derive(Debug, PartialEq, Eq)]
pub enum StoreError {
    /// The underlying database reported an error; the text describes it.
    Sql(String),
    /// The member table does not hold exactly one profit row, or holds an
    /// amount outside the ledger's range.
    Corrupt,
}

/// The text of a store failure, as contracts speak of it.
pub open spec fn store_error_text(e: StoreError) -> Seq<char> {
    match e {
        StoreError::Sql(m) => m@,
        StoreError::Corrupt => "The store is corrupt"@,
    }
}

impl StoreError {
    /// The inline message a failed store operation shows: exactly the
    /// failure's text.
    pub fn text(&self) -> (r: String)
        ensures
            r@ == store_error_text(*self),
    {
        match self {
            StoreError::Sql(m) => m.clone(),
            StoreError::Corrupt => String::from_str("The store is corrupt"),
        }
    }
}

/// Splits a requested repayment between loan principal and interest:
/// principal is paid off first, the remainder reduces interest.
pub fn split_repayment(loan: u64, interest: u64, repayment: u64) -> (r: (u64, u64))
    requires
        repayment <= loan + interest,
    ensures
        r.0 == principal_part(loan as int, repayment as int),
        r.1 == interest_part(loan as int, repayment as int),
        r.0 + r.1 == repayment,
        r.0 <= loan,
        r.1 <= interest,
{
    if loan > repayment {
        (repayment, 0)
    } else {
        (loan, repayment - loan)
    }
}

/// The part of a requested repayment that reduces loan principal.
pub open spec fn principal_part(loan: int, repayment: int) -> int {
    if repayment <= loan {
        repayment
    } else {
        loan
    }
}

/// The part of a requested repayment that reduces interest, and is in turn
/// credited to the pooled profit account.
pub open spec fn interest_part(loan: int, repayment: int) -> int {
    repayment - principal_part(loan, repayment)
}

} // verus!
