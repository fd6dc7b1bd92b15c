//! Failure taxonomy of the persistence layer.
//!
//! Every operation surfaces its failure to the caller as a distinct value;
//! nothing is retried or silently swallowed. Constraint violations (a
//! duplicate identity or a reference to an unknown market) are kept apart
//! from type/range violations (malformed numeric or timestamp input) so the
//! caller can decide on dedup or ordering logic.

use vstd::prelude::*;

verus! {

/// A failure of a persistence operation.
#[derive(Clone, Copy, PartialEq, Eq, Structural, Debug)]
pub enum DbError {
    /// A coin with the same `(account_address, module_name, struct_name)`
    /// identity is already registered.
    DuplicateCoin,
    /// A market with the same `market_id` is already registered.
    DuplicateMarket,
    /// A maker event referenced a `market_id` that no registered market has.
    UnknownMarket,
    /// A digit string was not a well-formed arbitrary-precision number.
    InvalidNumber,
    /// A timestamp's nanosecond part was out of range.
    InvalidTimestamp,
}

/// The two caller-visible failure categories of this layer.
#[derive(Clone, Copy, PartialEq, Eq, Structural, Debug)]
pub enum ErrorCategory {
    /// The backend's uniqueness or foreign-key constraints forbid the write.
    ConstraintViolation,
    /// An input value was malformed and was rejected before any write.
    TypeViolation,
}

impl DbError {
    /// The category an error belongs to.
    pub open spec fn spec_category(self) -> ErrorCategory {
        match self {
            DbError::DuplicateCoin => ErrorCategory::ConstraintViolation,
            DbError::DuplicateMarket => ErrorCategory::ConstraintViolation,
            DbError::UnknownMarket => ErrorCategory::ConstraintViolation,
            DbError::InvalidNumber => ErrorCategory::TypeViolation,
            DbError::InvalidTimestamp => ErrorCategory::TypeViolation,
        }
    }

    /// Classifies the error so a caller can distinguish a constraint
    /// violation from a malformed input.
    pub fn category(&self) -> (c: ErrorCategory)
        ensures
            c == self.spec_category(),
    {
        match self {
            DbError::DuplicateCoin => ErrorCategory::ConstraintViolation,
            DbError::DuplicateMarket => ErrorCategory::ConstraintViolation,
            DbError::UnknownMarket => ErrorCategory::ConstraintViolation,
            DbError::InvalidNumber => ErrorCategory::TypeViolation,
            DbError::InvalidTimestamp => ErrorCategory::TypeViolation,
        }
    }
}

} // verus!
