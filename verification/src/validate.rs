//! Validation of the metadata a deployment carries: name, symbol and link
//! lengths, the royalty basis points, and creator addresses.

use vstd::prelude::*;
use vstd::utf8::encode_utf8;

verus! {

#[derive(Debug, PartialEq, Eq)]
pub enum ValidateError {
    MissingOrEmptyAssetsDirectory,
    InvalidAssetsDirectory,
    NameTooLong,
    SymbolTooLong,
    UrlTooLong,
    /// The carried creator address is not a well-formed public key.
    InvalidCreatorAddress(String),
    InvalidCreatorShare,
    InvalidSellerFeeBasisPoints,
    MissingAnimationUrl,
    MissingExternalUrl,
    MissingCollection,
}

/// What a base-58 string decodes to, if it is well formed.
pub uninterp spec fn base58_decoded(s: Seq<char>) -> Option<Seq<u8>>;

/// Relies on bs58's `decode(..).into_vec()`: Bitcoin-alphabet base-58
/// decoding, a function of the input characters alone.
#[verifier::external_body]
fn base58_decode(s: &str) -> (r: Option<Vec<u8>>)
    ensures
        match r {
            Some(v) => base58_decoded(s@) == Some(v@),
            None => base58_decoded(s@) is None,
        },
{
    bs58::decode(s).into_vec().ok()
}

/// A well-formed public-key string: base-58, decoding to exactly 32 bytes.
pub open spec fn is_valid_pubkey(s: Seq<char>) -> bool {
    base58_decoded(s) matches Some(b) && b.len() == 32
}

/// Whether `s` is a well-formed public-key string.
pub fn check_pubkey(s: &str) -> (b: bool)
    ensures
        b == is_valid_pubkey(s@),
{
    match base58_decode(s) {
        Some(v) => v.len() == 32,
        None => false,
    }
}

/// Accepts a metadata name of at most [`crate::magic_hat::MAX_NAME_LENGTH`]
/// bytes.
pub fn check_name(name: &str) -> (r: Result<(), ValidateError>)
    requires
        encode_utf8(name@).len() <= usize::MAX,
    ensures
        r is Ok <==> encode_utf8(name@).len() <= crate::magic_hat::MAX_NAME_LENGTH,
        r matches Err(e) ==> e == ValidateError::NameTooLong,
{
    if name.len() > crate::magic_hat::MAX_NAME_LENGTH {
        Err(ValidateError::NameTooLong)
    } else {
        Ok(())
    }
}

/// Accepts a symbol of at most [`crate::magic_hat::MAX_SYMBOL_LENGTH`] bytes.
pub fn check_symbol(symbol: &str) -> (r: Result<(), ValidateError>)
    requires
        encode_utf8(symbol@).len() <= usize::MAX,
    ensures
        r is Ok <==> encode_utf8(symbol@).len() <= crate::magic_hat::MAX_SYMBOL_LENGTH,
        r matches Err(e) ==> e == ValidateError::SymbolTooLong,
{
    if symbol.len() > crate::magic_hat::MAX_SYMBOL_LENGTH {
        Err(ValidateError::SymbolTooLong)
    } else {
        Ok(())
    }
}

/// Accepts a metadata link of at most [`crate::magic_hat::MAX_URI_LENGTH`]
/// bytes.
pub fn check_url(url: &str) -> (r: Result<(), ValidateError>)
    requires
        encode_utf8(url@).len() <= usize::MAX,
    ensures
        r is Ok <==> encode_utf8(url@).len() <= crate::magic_hat::MAX_URI_LENGTH,
        r matches Err(e) ==> e == ValidateError::UrlTooLong,
{
    if url.len() > crate::magic_hat::MAX_URI_LENGTH {
        Err(ValidateError::UrlTooLong)
    } else {
        Ok(())
    }
}

/// Accepts royalty basis points between zero and ten thousand.
pub fn check_seller_fee_basis_points(sfbp: u16) -> (r: Result<(), ValidateError>)
    ensures
        r is Ok <==> sfbp <= 10000,
        r matches Err(e) ==> e == ValidateError::InvalidSellerFeeBasisPoints,
{
    if sfbp > 10000 {
        Err(ValidateError::InvalidSellerFeeBasisPoints)
    } else {
        Ok(())
    }
}

} // verus!
