//! The command-line surface: every command and its arguments, as plain data.
//! The host program parses the command line into these.

use vstd::prelude::*;

verus! {

pub struct Cli {
    pub log_level: Option<String>,
    pub command: Commands,
}

pub enum Commands {
    CreateConfig { config: Option<String>, rpc_url: Option<String>, keypair: Option<String>, assets_dir: String },
    Launch {
        assets_dir: String,
        keypair: Option<String>,
        config: String,
        rpc_url: Option<String>,
        cache: String,
        strict: bool,
    },
    Mint {
        keypair: Option<String>,
        rpc_url: Option<String>,
        cache: String,
        number: Option<u64>,
        magic_hat: Option<String>,
    },
    Update {
        config: String,
        keypair: Option<String>,
        rpc_url: Option<String>,
        cache: String,
        new_authority: Option<String>,
        magic_hat: Option<String>,
    },
    Deploy { config: String, keypair: Option<String>, rpc_url: Option<String>, cache: String },
    Upload {
        assets_dir: String,
        config: String,
        keypair: Option<String>,
        rpc_url: Option<String>,
        cache: String,
    },
    Withdraw { magic_hat: Option<String>, keypair: Option<String>, rpc_url: Option<String>, list: bool },
    Validate { assets_dir: String, strict: bool },
    Verify { keypair: Option<String>, rpc_url: Option<String>, cache: String },
    Show { keypair: Option<String>, rpc_url: Option<String>, cache: String, magic_hat: Option<String> },
    Bundlr { keypair: Option<String>, rpc_url: Option<String>, action: BundlrAction },
    Collection { command: CollectionSubcommands },
}

pub enum CollectionSubcommands {
    SetCollection {
        collection_mint: String,
        keypair: Option<String>,
        rpc_url: Option<String>,
        cache: String,
        magic_hat: Option<String>,
    },
    Remove {
        keypair: Option<String>,
        rpc_url: Option<String>,
        cache: String,
        magic_hat: Option<String>,
    },
}

pub enum BundlrAction {
    Balance,
    Withdraw,
}

} // verus!
