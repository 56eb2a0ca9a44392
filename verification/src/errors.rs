//! Error kinds reported by key generation and pool editing. Every error is
//! terminal for the failing call: the prior state of the generator is kept.

use vstd::prelude::*;

verus! {

/// The ways a `RandKey` operation can fail.
#[derive(Clone, Copy, Debug, PartialEq, Eq, Structural)]
pub enum GenError {
    /// A supplied count does not parse as a non-negative decimal integer.
    InvalidNumber,
    /// A supplied unit parses but equals zero.
    InvalidUnit,
    /// A pool-edit token is not a single ASCII character.
    InvalidChar,
    /// A class with a nonzero requested count has an empty pool.
    MissChar,
    /// A removal names a character present in none of the pools.
    DelNonExistValue,
    /// An adopted key's classified composition differs from the configured counts.
    InconsistentField,
}

impl GenError {
    /// A short text form of the error, for callers that print it.
    pub fn message(&self) -> &'static str {
        match self {
            GenError::InvalidNumber => "invalid number",
            GenError::InvalidUnit => "invalid unit",
            GenError::InvalidChar => "invalid character",
            GenError::MissChar => "missing character for a requested class",
            GenError::DelNonExistValue => "deleting a nonexistent character",
            GenError::InconsistentField => "inconsistent composition",
        }
    }
}

} // verus!
