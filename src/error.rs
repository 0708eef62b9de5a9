//! Error taxonomy shared by the library.
use vstd::prelude::*;

verus! {

/// Errors surfaced by the memory engine.
#[derive(Debug, PartialEq, Eq)]
pub enum Error {
    /// An action embedding fell below the ethical threshold. The similarity
    /// is `dot / sqrt(action_norm_sq * ethical_norm_sq)` (zero when either
    /// norm is zero); the threshold is `threshold / THRESHOLD_SCALE`.
    EthicsViolation { dot: i128, action_norm_sq: u128, ethical_norm_sq: u128, threshold: u32 },
    /// A vector's length disagrees with the configured dimension.
    DimensionMismatch { expected: usize, got: usize },
    /// The requested entity is absent.
    NotFound { id: String },
    /// Encoding or decoding failed.
    Serialization { message: String },
    /// Bad input (empty namespace, out-of-range layer, ...).
    Validation { message: String },
    /// Backend failure.
    System(String),
    /// Internal failure (exhausted counters, inconsistent storage, I/O).
    Internal { message: String },
    /// Wallet or ledger failure.
    Commerce(String),
}

/// Errors of the storage and inference back-ends.
#[derive(Debug, PartialEq, Eq)]
pub enum InfraError {
    LanceDb(String),
    Sled(String),
    Ort(String),
    Io(String),
}

impl Error {
    /// A short human-readable description of the error kind.
    pub fn kind_name(&self) -> (r: &'static str) {
        match self {
            Error::EthicsViolation { .. } => "ethics violation",
            Error::DimensionMismatch { .. } => "dimension mismatch",
            Error::NotFound { .. } => "not found",
            Error::Serialization { .. } => "serialization error",
            Error::Validation { .. } => "validation error",
            Error::System(_) => "system error",
            Error::Internal { .. } => "internal error",
            Error::Commerce(_) => "commerce error",
        }
    }
}

} // verus!
