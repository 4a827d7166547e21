//! Verifying uploaded data against the target: the error taxonomy.

use vstd::prelude::*;

verus! {

#[derive(Debug, PartialEq, Eq)]
pub enum VerifyError {
    /// The target account's data could not be fetched for this address.
    FailedToGetAccountData(String),
    /// A field (first) differs between what was expected (second) and what
    /// was found (third).
    Mismatch(String, String, String),
}

} // verus!
