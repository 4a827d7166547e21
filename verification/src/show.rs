//! Inspecting a deployed target's on-chain configuration: the command's
//! arguments. Fetching and printing the state is the host program's concern.

use vstd::prelude::*;

verus! {

pub struct ShowArgs {
    pub keypair: Option<String>,
    pub rpc_url: Option<String>,
    pub cache: String,
    pub magic_hat: Option<String>,
}

} // verus!
