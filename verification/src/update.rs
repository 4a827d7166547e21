//! Updating a deployed target's configuration on-chain: rebuilding the
//! account data from the configuration while keeping the target's identity.

use vstd::prelude::*;

use crate::config::{go_live_timestamp, ConfigData};
use crate::deploy::creators_all_valid;
use crate::errors::DeployError;
use crate::magic_hat::{pow10, MagicHatCreator, MagicHatData};

verus! {

pub struct UpdateArgs {
    pub keypair: Option<String>,
    pub rpc_url: Option<String>,
    pub cache: String,
    pub new_authority: Option<String>,
    pub config: String,
    pub magic_hat: Option<String>,
}

/// Rebuild the target's account data from the configuration for an update,
/// keeping the previous identity `uuid`. Unlike creation, the creators'
/// number and share total are not re-checked here; the go-live date is
/// parsed first, then the price is scaled, then each creator address is
/// validated. The first failure is returned.
pub fn update_magic_hat_data(config: &ConfigData, uuid: String, spl_token_decimals: Option<u8>) -> (
    r: Result<MagicHatData, DeployError>)
    requires
        spl_token_decimals matches Some(d) ==> d <= 19,
    ensures
        ({
            let n = config.creators@.len() as int;
            let dec = match spl_token_decimals {
                Some(d) => d as nat,
                None => 9nat,
            };
            match r {
                Ok(data) => {
                    &&& go_live_timestamp(config.go_live_date@) is Some
                    &&& config.price * pow10(dec) <= u64::MAX
                    &&& creators_all_valid(config.creators@)
                    &&& data.uuid == uuid
                    &&& data.price == config.price * pow10(dec)
                    &&& data.symbol == config.symbol
                    &&& data.seller_fee_basis_points == config.seller_fee_basis_points
                    &&& data.max_supply == 0
                    &&& data.is_mutable == config.is_mutable
                    &&& data.retain_authority == config.retain_authority
                    &&& data.go_live_date == go_live_timestamp(config.go_live_date@)
                    &&& data.end_settings == config.end_settings
                    &&& data.creators@.len() == n
                    &&& forall|k: int|
                        0 <= k < n ==> (#[trigger] data.creators@[k]).address
                            == config.creators@[k].address && !data.creators@[k].verified
                            && data.creators@[k].share == config.creators@[k].share
                    &&& data.whitelist_mint_settings == config.whitelist_mint_settings
                    &&& crate::config::opt_hidden_eq(data.hidden_settings, config.hidden_settings)
                    &&& data.items_available == config.number
                    &&& data.gatekeeper == config.gatekeeper
                },
                Err(e) => match e {
                    DeployError::InvalidGoLiveDate(s) => s == config.go_live_date
                        && go_live_timestamp(config.go_live_date@) is None,
                    DeployError::PriceOverflow => go_live_timestamp(config.go_live_date@) is Some
                        && config.price * pow10(dec) > u64::MAX,
                    DeployError::InvalidCreatorAddress(a) => go_live_timestamp(
                        config.go_live_date@,
                    ) is Some && config.price * pow10(dec) <= u64::MAX && exists|k: int|
                        0 <= k < n && !crate::validate::is_valid_pubkey(
                            (#[trigger] config.creators@[k]).address@,
                        ) && (forall|t: int|
                            0 <= t < k ==> crate::validate::is_valid_pubkey(
                                (#[trigger] config.creators@[t]).address@,
                            )) && a == config.creators@[k].address,
                    _ => false,
                },
            }
        }),
{
    let go_live_ts = match crate::config::go_live_date_as_timestamp(&config.go_live_date) {
        Ok(ts) => ts,
        Err(e) => {
            return Err(e);
        },
    };

    let price = match crate::magic_hat::parse_config_price(config.price, spl_token_decimals) {
        Ok(p) => p,
        Err(e) => {
            return Err(e);
        },
    };

    let mut creators: Vec<MagicHatCreator> = Vec::new();
    let mut k: usize = 0;
    while k < config.creators.len()
        invariant
            k <= config.creators@.len(),
            creators@.len() == k,
            go_live_timestamp(config.go_live_date@) is Some,
            config.price * pow10(
                match spl_token_decimals {
                    Some(d) => d as nat,
                    None => 9nat,
                },
            ) <= u64::MAX,
            forall|t: int| 0 <= t < k ==> crate::validate::is_valid_pubkey(
                (#[trigger] config.creators@[t]).address@,
            ),
            forall|t: int|
                0 <= t < k ==> (#[trigger] creators@[t]).address == config.creators@[t].address
                    && !creators@[t].verified && creators@[t].share == config.creators@[t].share,
        decreases config.creators@.len() - k,
    {
        match config.creators[k].into_magichat_format() {
            Ok(c) => {
                creators.push(c);
            },
            Err(crate::validate::ValidateError::InvalidCreatorAddress(a)) => {
                return Err(DeployError::InvalidCreatorAddress(a));
            },
            Err(_) => {
                proof {
                    assert(false);
                }
                return Err(DeployError::PriceOverflow);
            },
        }
        k = k + 1;
    }

    Ok(
        MagicHatData {
            uuid,
            price,
            symbol: config.symbol.clone(),
            seller_fee_basis_points: config.seller_fee_basis_points,
            max_supply: 0,
            is_mutable: config.is_mutable,
            retain_authority: config.retain_authority,
            go_live_date: Some(go_live_ts),
            end_settings: config.end_settings,
            creators,
            whitelist_mint_settings: crate::config::dup_whitelist(&config.whitelist_mint_settings),
            hidden_settings: crate::config::dup_hidden(&config.hidden_settings),
            items_available: config.number,
            gatekeeper: crate::config::dup_gatekeeper(&config.gatekeeper),
        },
    )
}

} // verus!
