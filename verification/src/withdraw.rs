//! Withdrawing funds from deployed targets: the command's arguments. The
//! account lookups and draining transactions are the host program's concern.

use vstd::prelude::*;

verus! {

pub struct WithdrawArgs {
    pub magic_hat: Option<String>,
    pub keypair: Option<String>,
    pub rpc_url: Option<String>,
    pub list: bool,
}

} // verus!
