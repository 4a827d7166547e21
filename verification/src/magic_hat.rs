//! The deployment target's own data model: the config line a record is
//! written as, the account data the target is created and updated with, and
//! the price scaling applied when a token treasury is configured.

use vstd::prelude::*;

use crate::errors::DeployError;

verus! {

/// Longest metadata name the target accepts, in bytes.
pub const MAX_NAME_LENGTH: usize = 32;

/// Longest symbol the target accepts, in bytes.
pub const MAX_SYMBOL_LENGTH: usize = 10;

/// Longest metadata link the target accepts, in bytes.
pub const MAX_URI_LENGTH: usize = 200;

/// One more than the number of creators a deployment may name.
pub const MAX_CREATOR_LIMIT: usize = 5;

/// Serialized size of one creator entry.
pub const MAX_CREATOR_LEN: usize = 32 + 1 + 1;

/// Serialized size of one config line slot in the target account.
pub const CONFIG_LINE_SIZE: usize = 4 + 32 + 4 + 200;

/// Byte offset of the config line array in the target account.
pub const CONFIG_ARRAY_START: usize = 8 + 32 + 32 + 33 + 4 + 6 + 8 + 8 + 9 + 10 + 4 + 10 + 2 + 4
    + 170 + 8 + 1 + 1 + 1 + 4 + 32 + 4 + 200 + 32 + 4 + 8 + 1 + 1 + 1 + 9 + 32 + 34;

/// One config line as the target program stores it: a display name and the
/// link to the record's metadata.
#[verifier::ext_equal]
#[derive(Debug)]
pub struct ConfigLine {
    pub name: String,
    pub uri: String,
}

/// Acceptance status of one config line, by index.
#[derive(Debug)]
pub struct ConfigStatus {
    pub index: u32,
    pub on_chain: bool,
}

/// One creator entry as the target stores it.
#[verifier::ext_equal]
#[derive(Debug)]
pub struct MagicHatCreator {
    pub address: String,
    pub verified: bool,
    pub share: u8,
}

#[derive(Debug, Clone, Copy, PartialEq, Eq, Structural)]
pub enum WhitelistMintMode {
    BurnEveryTime,
    NeverBurn,
}

#[verifier::ext_equal]
#[derive(Debug)]
pub struct WhitelistMintSettings {
    pub mode: WhitelistMintMode,
    pub mint: String,
    pub presale: bool,
    pub discount_price: Option<u64>,
}

#[derive(Debug, Clone, Copy, PartialEq, Eq, Structural)]
pub enum EndSettingType {
    Date,
    Amount,
}

#[verifier::ext_equal]
#[derive(Clone, Copy, PartialEq, Eq, Structural)]
#[derive(Debug)]
pub struct EndSettings {
    pub end_setting_type: EndSettingType,
    pub number: u64,
}

#[verifier::ext_equal]
#[derive(Debug)]
pub struct HiddenSettings {
    pub name: String,
    pub uri: String,
    pub hash: Vec<u8>,
}

#[verifier::ext_equal]
#[derive(Debug)]
pub struct GatekeeperConfig {
    pub gatekeeper_network: String,
    pub expire_on_use: bool,
}

/// The account data the target is created and updated with.
#[verifier::ext_equal]
#[derive(Debug)]
pub struct MagicHatData {
    pub uuid: String,
    pub price: u64,
    pub symbol: String,
    pub seller_fee_basis_points: u16,
    pub max_supply: u64,
    pub is_mutable: bool,
    pub retain_authority: bool,
    pub go_live_date: Option<i64>,
    pub end_settings: Option<EndSettings>,
    pub creators: Vec<MagicHatCreator>,
    pub whitelist_mint_settings: Option<WhitelistMintSettings>,
    pub hidden_settings: Option<HiddenSettings>,
    pub items_available: u64,
    pub gatekeeper: Option<GatekeeperConfig>,
}

/// The target's whole on-chain state.
#[verifier::ext_equal]
#[derive(Debug)]
pub struct MagicHat {
    pub authority: String,
    pub wallet: String,
    pub token_mint: Option<String>,
    pub items_redeemed: u64,
    pub data: MagicHatData,
}

/// Ten to the `d`-th power.
pub open spec fn pow10(d: nat) -> nat
    decreases d,
{
    if d == 0 {
        1
    } else {
        10 * pow10((d - 1) as nat)
    }
}

proof fn lemma_pow10_value()
    ensures
        pow10(19) == 10_000_000_000_000_000_000,
{
    assert(pow10(0) == 1);
    assert(pow10(1) == 10);
    assert(pow10(2) == 100);
    assert(pow10(3) == 1000);
    assert(pow10(4) == 10000);
    assert(pow10(5) == 100000);
    assert(pow10(6) == 1000000);
    assert(pow10(7) == 10000000);
    assert(pow10(8) == 100000000);
    assert(pow10(9) == 1000000000);
    assert(pow10(10) == 10000000000);
    assert(pow10(11) == 100000000000);
    assert(pow10(12) == 1000000000000);
    assert(pow10(13) == 10000000000000);
    assert(pow10(14) == 100000000000000);
    assert(pow10(15) == 1000000000000000);
    assert(pow10(16) == 10000000000000000);
    assert(pow10(17) == 100000000000000000);
    assert(pow10(18) == 1000000000000000000);
    assert(pow10(19) == 10000000000000000000);
}

proof fn lemma_pow10_pos(d: nat)
    ensures
        pow10(d) >= 1,
    decreases d,
{
    if d > 0 {
        lemma_pow10_pos((d - 1) as nat);
    }
}

proof fn lemma_pow10_mono(a: nat, b: nat)
    requires
        a <= b,
    ensures
        pow10(a) <= pow10(b),
    decreases b,
{
    if a < b {
        lemma_pow10_mono(a, (b - 1) as nat);
        lemma_pow10_pos((b - 1) as nat);
    }
}

/// Ten to the `d`-th power, exactly, for exponents a token's decimals can
/// take without overflowing the arithmetic.
fn pow10_u64(d: u8) -> (r: u64)
    requires
        d <= 19,
    ensures
        r == pow10(d as nat),
{
    proof {
        lemma_pow10_value();
    }
    let mut factor: u64 = 1;
    let mut k: u8 = 0;
    while k < d
        invariant
            k <= d,
            d <= 19,
            factor == pow10(k as nat),
            pow10(19) == 10_000_000_000_000_000_000,
        decreases d - k,
    {
        proof {
            lemma_pow10_mono((k + 1) as nat, 19);
        }
        factor = factor * 10;
        k = k + 1;
    }
    factor
}

/// Scale the configured whole-unit price into the treasury's base units: by
/// the payment token's decimals when a token treasury is configured (the host
/// looks the decimals up), else into lamports (nine decimals).
///
/// Fails with [`DeployError::PriceOverflow`] exactly when the scaled price
/// does not fit sixty-four bits.
pub fn parse_config_price(price: u64, spl_token_decimals: Option<u8>) -> (r: Result<
    u64,
    DeployError,
>)
    requires
        spl_token_decimals matches Some(d) ==> d <= 19,
    ensures
        ({
            let d = match spl_token_decimals {
                Some(d) => d as nat,
                None => 9nat,
            };
            match r {
                Ok(v) => v == price * pow10(d) && price * pow10(d) <= u64::MAX,
                Err(e) => e == DeployError::PriceOverflow && price * pow10(d) > u64::MAX,
            }
        }),
{
    let decimals: u8 = match spl_token_decimals {
        Some(d) => d,
        None => 9,
    };
    let factor = pow10_u64(decimals);
    match price.checked_mul(factor) {
        Some(v) => Ok(v),
        None => Err(DeployError::PriceOverflow),
    }
}

} // verus!
