//! The deployment configuration: what a deployment is created and updated
//! with, and the parsing of its go-live date.

use vstd::prelude::*;

use crate::errors::DeployError;
use crate::validate::{check_pubkey, is_valid_pubkey, ValidateError};
use crate::magic_hat::{
    EndSettings, GatekeeperConfig, HiddenSettings, MagicHatCreator, WhitelistMintSettings,
};

verus! {

/// One configured creator: a public-key address and a percentage share.
#[verifier::ext_equal]
#[derive(Debug)]
pub struct Creator {
    pub address: String,
    pub share: u8,
}

/// The deployment configuration. Addresses are carried as their base-58
/// strings; the price is in whole units (the host converts fractional
/// configuration values before handing them over).
#[verifier::ext_equal]
#[derive(Debug)]
pub struct ConfigData {
    pub price: u64,
    pub number: u64,
    pub symbol: String,
    pub seller_fee_basis_points: u16,
    pub is_mutable: bool,
    pub retain_authority: bool,
    pub go_live_date: String,
    pub creators: Vec<Creator>,
    pub spl_token: Option<String>,
    pub spl_token_account: Option<String>,
    pub sol_treasury_account: Option<String>,
    pub end_settings: Option<EndSettings>,
    pub whitelist_mint_settings: Option<WhitelistMintSettings>,
    pub hidden_settings: Option<HiddenSettings>,
    pub gatekeeper: Option<GatekeeperConfig>,
}

/// What the configured go-live string parses to: a Unix timestamp when it is
/// a well-formed RFC 3339 date, nothing otherwise.
pub uninterp spec fn go_live_timestamp(s: Seq<char>) -> Option<i64>;

/// Relies on chrono's `DateTime::parse_from_rfc3339` and
/// `DateTime::timestamp`: the result depends on the characters of the input
/// alone.
#[verifier::external_body]
fn parse_rfc3339_timestamp(s: &str) -> (r: Option<i64>)
    ensures
        r == go_live_timestamp(s@),
{
    match chrono::DateTime::parse_from_rfc3339(s) {
        Ok(dt) => Some(dt.timestamp()),
        Err(_) => None,
    }
}

/// The configured go-live date as a Unix timestamp; an unparseable date is
/// rejected, carrying the offending string.
pub fn go_live_date_as_timestamp(go_live_date: &String) -> (r: Result<i64, DeployError>)
    ensures
        match r {
            Ok(ts) => go_live_timestamp(go_live_date@) == Some(ts),
            Err(e) => go_live_timestamp(go_live_date@) is None && e
                == DeployError::InvalidGoLiveDate(*go_live_date),
        },
{
    match parse_rfc3339_timestamp(go_live_date.as_str()) {
        Some(ts) => Ok(ts),
        None => Err(DeployError::InvalidGoLiveDate(go_live_date.clone())),
    }
}

/// A byte-for-byte copy of a byte vector.
pub fn copy_bytes(v: &Vec<u8>) -> (r: Vec<u8>)
    ensures
        r@ == v@,
{
    let mut r: Vec<u8> = Vec::new();
    let mut i: usize = 0;
    while i < v.len()
        invariant
            i <= v@.len(),
            r@ == v@.subrange(0, i as int),
        decreases v@.len() - i,
    {
        r.push(v[i]);
        proof {
            assert(r@ =~= v@.subrange(0, i + 1));
        }
        i = i + 1;
    }
    proof {
        assert(r@ =~= v@);
    }
    r
}

impl WhitelistMintSettings {
    /// A copy equal to `self`.
    pub fn duplicate(&self) -> (r: WhitelistMintSettings)
        ensures
            r == *self,
    {
        let r = WhitelistMintSettings {
            mode: self.mode,
            mint: self.mint.clone(),
            presale: self.presale,
            discount_price: self.discount_price,
        };
        proof {
            assert(r =~= *self);
        }
        r
    }
}

/// The two hidden settings carry the same content.
pub open spec fn hidden_eq(a: HiddenSettings, b: HiddenSettings) -> bool {
    a.name == b.name && a.uri == b.uri && a.hash@ == b.hash@
}

/// The two optional hidden settings carry the same content.
pub open spec fn opt_hidden_eq(a: Option<HiddenSettings>, b: Option<HiddenSettings>) -> bool {
    match (a, b) {
        (Some(x), Some(y)) => hidden_eq(x, y),
        (None, None) => true,
        _ => false,
    }
}

impl HiddenSettings {
    /// A copy carrying the same content as `self`.
    pub fn duplicate(&self) -> (r: HiddenSettings)
        ensures
            hidden_eq(r, *self),
    {
        HiddenSettings {
            name: self.name.clone(),
            uri: self.uri.clone(),
            hash: copy_bytes(&self.hash),
        }
    }
}

impl GatekeeperConfig {
    /// A copy equal to `self`.
    pub fn duplicate(&self) -> (r: GatekeeperConfig)
        ensures
            r == *self,
    {
        let r = GatekeeperConfig {
            gatekeeper_network: self.gatekeeper_network.clone(),
            expire_on_use: self.expire_on_use,
        };
        proof {
            assert(r =~= *self);
        }
        r
    }
}

/// A copy of an optional whitelist setting.
pub fn dup_whitelist(o: &Option<WhitelistMintSettings>) -> (r: Option<WhitelistMintSettings>)
    ensures
        r == *o,
{
    match o {
        Some(s) => Some(s.duplicate()),
        None => None,
    }
}

/// A copy of an optional hidden setting.
pub fn dup_hidden(o: &Option<HiddenSettings>) -> (r: Option<HiddenSettings>)
    ensures
        opt_hidden_eq(r, *o),
{
    match o {
        Some(s) => Some(s.duplicate()),
        None => None,
    }
}

/// A copy of an optional gatekeeper setting.
pub fn dup_gatekeeper(o: &Option<GatekeeperConfig>) -> (r: Option<GatekeeperConfig>)
    ensures
        r == *o,
{
    match o {
        Some(s) => Some(s.duplicate()),
        None => None,
    }
}

impl Creator {
    /// The creator as the target stores it: the address validated as a
    /// public key, carried over unverified with the same share.
    pub fn into_magichat_format(&self) -> (r: Result<MagicHatCreator, ValidateError>)
        ensures
            match r {
                Ok(c) => is_valid_pubkey(self.address@) && c.address == self.address && c.verified
                    == false && c.share == self.share,
                Err(e) => !is_valid_pubkey(self.address@) && e
                    == ValidateError::InvalidCreatorAddress(self.address),
            },
    {
        if check_pubkey(self.address.as_str()) {
            Ok(MagicHatCreator { address: self.address.clone(), verified: false, share: self.share })
        } else {
            Err(ValidateError::InvalidCreatorAddress(self.address.clone()))
        }
    }
}

} // verus!
