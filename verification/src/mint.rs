//! Minting from a deployed target: the eligibility rules an ordinary payer
//! must satisfy, and the bulk-mint amount check.

use vstd::prelude::*;

use crate::magic_hat::{EndSettingType, MagicHat};

verus! {

pub struct MintArgs {
    pub keypair: Option<String>,
    pub rpc_url: Option<String>,
    pub cache: String,
    pub number: Option<u64>,
    pub magic_hat: Option<String>,
}

#[derive(Debug, PartialEq, Eq)]
pub enum MintError {
    /// Command-line minting is disabled while gatekeeper settings are in use.
    GatekeeperEnabled,
    /// Every item has been redeemed.
    MagicHatEmpty,
    /// The target is not live for this payer at this time.
    MagicHatNotLive,
    /// The end-settings amount has been reached.
    EndAmountReached,
    /// The requested amount (second field) is zero or exceeds what is
    /// available (first field).
    InvalidMintNumber(u64, u64),
}

/// The minting rules, decided from the target's state, whether the payer is
/// the authority, and the current Unix time: a gatekeeper disables
/// command-line minting; an exhausted target refuses; an ordinary payer must
/// further satisfy the go-live date (or a whitelist presale) and any end
/// settings.
pub open spec fn spec_check_mint(state: MagicHat, payer_is_authority: bool, now: i64) -> Result<
    (),
    MintError,
> {
    if state.data.gatekeeper is Some {
        Err(MintError::GatekeeperEnabled)
    } else if state.items_redeemed >= state.data.items_available {
        Err(MintError::MagicHatEmpty)
    } else if !payer_is_authority {
        let live_by_date = match state.data.go_live_date {
            Some(date) => date < now,
            None => false,
        };
        let enabled = match state.data.whitelist_mint_settings {
            Some(wl) => wl.presale || live_by_date,
            None => live_by_date,
        };
        if !enabled {
            Err(MintError::MagicHatNotLive)
        } else {
            match state.data.end_settings {
                Some(es) => match es.end_setting_type {
                    EndSettingType::Date => {
                        if (es.number as i64) < now {
                            Err(MintError::MagicHatNotLive)
                        } else {
                            Ok(())
                        }
                    },
                    EndSettingType::Amount => {
                        if state.items_redeemed >= es.number {
                            Err(MintError::EndAmountReached)
                        } else {
                            Ok(())
                        }
                    },
                },
                None => Ok(()),
            }
        }
    } else {
        Ok(())
    }
}

/// Whether this payer may mint from the target right now; see
/// [`spec_check_mint`] for the rules.
pub fn check_mint_eligibility(state: &MagicHat, payer_is_authority: bool, now: i64) -> (r: Result<
    (),
    MintError,
>)
    requires
        state.data.end_settings matches Some(es) ==> es.number <= i64::MAX,
    ensures
        r == spec_check_mint(*state, payer_is_authority, now),
{
    if state.data.gatekeeper.is_some() {
        return Err(MintError::GatekeeperEnabled);
    }
    if state.items_redeemed >= state.data.items_available {
        return Err(MintError::MagicHatEmpty);
    }
    if payer_is_authority {
        return Ok(());
    }
    let live_by_date = match state.data.go_live_date {
        Some(date) => date < now,
        None => false,
    };
    let enabled = match &state.data.whitelist_mint_settings {
        Some(wl) => wl.presale || live_by_date,
        None => live_by_date,
    };
    if !enabled {
        return Err(MintError::MagicHatNotLive);
    }
    match &state.data.end_settings {
        Some(es) => match es.end_setting_type {
            EndSettingType::Date => {
                if (es.number as i64) < now {
                    Err(MintError::MagicHatNotLive)
                } else {
                    Ok(())
                }
            },
            EndSettingType::Amount => {
                if state.items_redeemed >= es.number {
                    Err(MintError::EndAmountReached)
                } else {
                    Ok(())
                }
            },
        },
        None => Ok(()),
    }
}

/// Whether `number` items can be minted in bulk: at least one, and no more
/// than remain unredeemed.
pub fn validate_mint_number(number: u64, items_available: u64, items_redeemed: u64) -> (r: Result<
    (),
    MintError,
>)
    requires
        items_redeemed <= items_available,
    ensures
        r is Ok <==> 1 <= number <= items_available - items_redeemed,
        r matches Err(e) ==> e == MintError::InvalidMintNumber(
            (items_available - items_redeemed) as u64,
            number,
        ),
{
    let available = items_available - items_redeemed;
    if number > available || number == 0 {
        Err(MintError::InvalidMintNumber(available, number))
    } else {
        Ok(())
    }
}

} // verus!
