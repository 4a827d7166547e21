//! Error taxonomy: setup and store errors, file-handling errors, and the
//! deployment pipeline's own failures. Variants carry plain values; rendering
//! them for an operator is the host program's concern.

use vstd::prelude::*;

verus! {

#[derive(Debug, PartialEq, Eq)]
pub enum SetupError {
    LadduSetupError(String),
}

#[derive(Debug, PartialEq, Eq)]
pub enum CacheError {
    /// The store file with this path was not found (or held no items).
    CacheFileNotFound(String),
    /// The store names a deployment target whose address does not parse.
    InvalidMagicHatAddress(String),
    /// The store file with this path could not be opened; the second field
    /// carries the underlying reason.
    FailedToOpenCacheFile(String, String),
    /// The store file could not be parsed; the field carries the reason.
    CacheFileWrongFormat(String),
}

#[derive(Debug, PartialEq, Eq)]
pub enum ReadFilesError {
    PathErrors,
    DeserializeErrors,
    ValidateErrors,
    FileOpenErrors,
}

#[derive(Debug, PartialEq, Eq)]
pub enum CustomMagicHatError {
    /// The payer key (first field) does not equal the target's authority
    /// public key (second field).
    AuthorityMismatch(String, String),
}

/// A file that could not be opened: its path and the underlying reason.
#[derive(Debug, PartialEq, Eq)]
pub struct FileOpenError {
    pub path: String,
    pub error: String,
}

/// Failures of the deployment pipeline itself.
#[derive(Debug, PartialEq, Eq)]
pub enum DeployError {
    /// The record with this index has an empty name.
    MissingName(u64),
    /// The record with this index has an empty metadata link.
    MissingMetadataLink(u64),
    /// The store is missing the record with this index (the store is expected
    /// to be dense).
    MissingCacheItem(u64),
    /// A batch submission failed; the field carries the remote diagnostic.
    AddConfigLineFailed(String),
    /// Not every planned batch was submitted (the run was cancelled first).
    NotAllConfigLinesDeployed,
    /// The payer's balance (first field, in base units) is below what the
    /// target account needs (second field).
    BalanceTooLow(u64, u64),
    /// The configured go-live date does not parse.
    InvalidGoLiveDate(String),
    /// A record's metadata failed validation.
    Validation(crate::validate::ValidateError),
    /// A configured creator address is not a well-formed public key.
    InvalidCreatorAddress(String),
    /// The number of configured items does not match the store (first field:
    /// configured, second: in the store).
    ItemCountMismatch(u64, u64),
    /// The number of creators (carried) is outside the allowed range.
    InvalidCreatorCount(usize),
    /// The creators' shares (their carried sum) do not add up to 100.
    InvalidCreatorShare(u32),
    /// Scaling the configured price overflowed.
    PriceOverflow,
    /// A token treasury and a sol treasury were both configured.
    TreasuryConflict,
    /// A token was configured but no account to receive its proceeds.
    MissingTokenAccount,
}

} // verus!
