//! Setting and removing the collection a deployed target mints into: the
//! state checks that guard both transactions.

use vstd::prelude::*;

verus! {

pub struct SetCollectionArgs {
    pub collection_mint: String,
    pub keypair: Option<String>,
    pub rpc_url: Option<String>,
    pub cache: String,
    pub magic_hat: Option<String>,
}

pub struct RemoveCollectionArgs {
    pub keypair: Option<String>,
    pub rpc_url: Option<String>,
    pub cache: String,
    pub magic_hat: Option<String>,
}

#[derive(Debug, PartialEq, Eq)]
pub enum CollectionError {
    /// A collection requires the target to retain authority.
    RequiresRetainAuthority,
    /// The collection metadata's update authority (first field) is not the
    /// payer (second field).
    AuthorityMismatch(String, String),
    /// The collection must be a unique master edition (max supply zero).
    NotUniqueMasterEdition,
    /// The collection cannot change after items have been minted.
    ItemsAlreadyMinted,
}

/// Whether the collection may be set on the target: it must retain
/// authority, the payer must be the collection metadata's update authority,
/// the collection's master edition must have max supply zero, and nothing
/// may have been minted yet. Checks happen in that order.
pub fn check_set_collection(
    retain_authority: bool,
    update_authority: &String,
    payer: &String,
    max_supply: Option<u64>,
    items_redeemed: u64,
) -> (r: Result<(), CollectionError>)
    ensures
        r is Ok <==> (retain_authority && update_authority@ == payer@ && max_supply == Some(0u64)
            && items_redeemed == 0),
        r matches Err(e) ==> e == (if !retain_authority {
            CollectionError::RequiresRetainAuthority
        } else if update_authority@ != payer@ {
            CollectionError::AuthorityMismatch(*update_authority, *payer)
        } else if max_supply != Some(0u64) {
            CollectionError::NotUniqueMasterEdition
        } else {
            CollectionError::ItemsAlreadyMinted
        }),
{
    if !retain_authority {
        return Err(CollectionError::RequiresRetainAuthority);
    }
    if !(*update_authority == *payer) {
        return Err(
            CollectionError::AuthorityMismatch(update_authority.clone(), payer.clone()),
        );
    }
    match max_supply {
        Some(supply) => {
            if supply != 0 {
                return Err(CollectionError::NotUniqueMasterEdition);
            }
        },
        None => {
            return Err(CollectionError::NotUniqueMasterEdition);
        },
    }
    if items_redeemed > 0 {
        return Err(CollectionError::ItemsAlreadyMinted);
    }
    Ok(())
}

/// Whether the collection may be removed from the target: the payer must be
/// the collection metadata's update authority, and nothing may have been
/// minted yet. Checks happen in that order.
pub fn check_remove_collection(
    update_authority: &String,
    payer: &String,
    items_redeemed: u64,
) -> (r: Result<(), CollectionError>)
    ensures
        r is Ok <==> (update_authority@ == payer@ && items_redeemed == 0),
        r matches Err(e) ==> e == (if update_authority@ != payer@ {
            CollectionError::AuthorityMismatch(*update_authority, *payer)
        } else {
            CollectionError::ItemsAlreadyMinted
        }),
{
    if !(*update_authority == *payer) {
        return Err(
            CollectionError::AuthorityMismatch(update_authority.clone(), payer.clone()),
        );
    }
    if items_redeemed > 0 {
        return Err(CollectionError::ItemsAlreadyMinted);
    }
    Ok(())
}

} // verus!
