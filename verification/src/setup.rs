//! Resolving the signing configuration: which RPC endpoint and which
//! keypair file a run uses.
//!
//! The precedence rules are decided here from plain values; reading the
//! ambient configuration file and the keypair file happens outside the
//! library.

use vstd::prelude::*;

verus! {

/// The RPC endpoint used when neither the operator nor the ambient
/// configuration names one.
pub fn default_rpc_url() -> (r: String)
    ensures
        r@ == "https://api.devnet.solana.com"@,
{
    "https://api.devnet.solana.com".to_owned()
}

/// Picks the RPC endpoint: the explicit argument wins, then the ambient
/// configuration, then the default endpoint.
pub fn resolve_rpc_url(arg: Option<String>, config_url: Option<String>) -> (r: String)
    ensures
        match arg {
            Some(u) => r == u,
            None => match config_url {
                Some(c) => r == c,
                None => r@ == "https://api.devnet.solana.com"@,
            },
        },
{
    match arg {
        Some(u) => u,
        None => match config_url {
            Some(c) => c,
            None => default_rpc_url(),
        },
    }
}

/// Where the signing keypair comes from.
#[derive(Debug, Clone, PartialEq, Eq)]
pub enum KeypairSource {
    /// The path the operator passed.
    Provided(String),
    /// The path named by the ambient configuration.
    FromConfig(String),
    /// The conventional default path, to be expanded by the caller.
    DefaultPath,
}

/// Picks the keypair file: the explicit argument wins, then the ambient
/// configuration's path, then the conventional default.
pub fn resolve_keypair_source(arg: Option<String>, config_path: Option<String>) -> (r:
    KeypairSource)
    ensures
        match arg {
            Some(p) => r == KeypairSource::Provided(p),
            None => match config_path {
                Some(c) => r == KeypairSource::FromConfig(c),
                None => r == KeypairSource::DefaultPath,
            },
        },
{
    match arg {
        Some(p) => KeypairSource::Provided(p),
        None => match config_path {
            Some(c) => KeypairSource::FromConfig(c),
            None => KeypairSource::DefaultPath,
        },
    }
}

} // verus!
