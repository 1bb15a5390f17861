//! The argument records the command handlers take.
//!
//! Each handler receives one of these, already parsed: file paths, optional
//! overrides, and nothing else. Cancellation is not carried here; it reaches
//! the upload run as an explicit event.

use vstd::prelude::*;

verus! {

/// Arguments of the deploy command.
#[derive(Debug, Clone, PartialEq, Eq)]
pub struct DeployArgs {
    pub config: String,
    pub cache: String,
    pub keypair: Option<String>,
    pub rpc_url: Option<String>,
}

/// Arguments of the mint command.
#[derive(Debug, Clone, PartialEq, Eq)]
pub struct MintArgs {
    pub keypair: Option<String>,
    pub rpc_url: Option<String>,
    pub cache: String,
    pub number: Option<u64>,
    pub tars: Option<String>,
}

/// Arguments of the update command.
#[derive(Debug, Clone, PartialEq, Eq)]
pub struct UpdateArgs {
    pub keypair: Option<String>,
    pub rpc_url: Option<String>,
    pub cache: String,
    pub new_authority: Option<String>,
    pub config: String,
    pub tars: Option<String>,
}

/// Arguments of the withdraw command.
#[derive(Debug, Clone, PartialEq, Eq)]
pub struct WithdrawArgs {
    pub tars: Option<String>,
    pub keypair: Option<String>,
    pub rpc_url: Option<String>,
    pub list: bool,
}

/// Arguments of the collection attach command.
#[derive(Debug, Clone, PartialEq, Eq)]
pub struct SetCollectionArgs {
    pub collection_mint: String,
    pub keypair: Option<String>,
    pub rpc_url: Option<String>,
    pub cache: String,
    pub tars: Option<String>,
}

/// Arguments of the collection detach command.
#[derive(Debug, Clone, PartialEq, Eq)]
pub struct RemoveCollectionArgs {
    pub keypair: Option<String>,
    pub rpc_url: Option<String>,
    pub cache: String,
    pub tars: Option<String>,
}

} // verus!
