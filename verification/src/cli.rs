//! The command surface, as plain data.
//!
//! Each command carries the file paths and overrides its handler needs; the
//! argument parser that fills these values in lives outside the library and
//! converts into these types.

use vstd::prelude::*;

verus! {

/// The parsed invocation: the logging level and the chosen command.
#[derive(Debug, Clone, PartialEq, Eq)]
pub struct Cli {
    pub log_level: Option<String>,
    pub command: Commands,
}

/// One invocation of the tool.
#[derive(Debug, Clone, PartialEq, Eq)]
pub enum Commands {
    /// Interactive creation of the config file.
    CreateConfig { config: Option<String>, rpc_url: Option<String>, keypair: Option<String>, assets_dir: String },
    /// Upload assets and deploy in one pass.
    Launch {
        assets_dir: String,
        keypair: Option<String>,
        config: String,
        rpc_url: Option<String>,
        cache: String,
        strict: bool,
        skip_collection_prompt: bool,
    },
    /// Mint items from the deployed program.
    Mint {
        keypair: Option<String>,
        rpc_url: Option<String>,
        cache: String,
        number: Option<u64>,
        tars: Option<String>,
    },
    /// Update the deployed program's configuration.
    Update {
        config: String,
        keypair: Option<String>,
        rpc_url: Option<String>,
        cache: String,
        new_authority: Option<String>,
        tars: Option<String>,
    },
    /// Reconcile the cache against the remote program.
    Deploy { config: String, keypair: Option<String>, rpc_url: Option<String>, cache: String },
    /// Upload assets and build the cache.
    Upload {
        assets_dir: String,
        config: String,
        keypair: Option<String>,
        rpc_url: Option<String>,
        cache: String,
    },
    /// Drain funds from deployed program accounts.
    Withdraw { tars: Option<String>, keypair: Option<String>, rpc_url: Option<String>, list: bool },
    /// Validate the asset metadata files.
    Validate { assets_dir: String, strict: bool, skip_collection_prompt: bool },
    /// Audit the uploaded data against the remote program.
    Verify { keypair: Option<String>, rpc_url: Option<String>, cache: String },
    /// Show the remote program's configuration.
    Show {
        keypair: Option<String>,
        rpc_url: Option<String>,
        cache: String,
        tars: Option<String>,
        unminted: bool,
    },
    /// Interact with the upload network.
    Bundlr { keypair: Option<String>, rpc_url: Option<String>, action: BundlrAction },
    /// Manage the collection item.
    Collection { command: CollectionSubcommands },
}

/// Collection management commands.
#[derive(Debug, Clone, PartialEq, Eq)]
pub enum CollectionSubcommands {
    /// Attach a collection mint to the deployed program.
    SetMint {
        keypair: Option<String>,
        rpc_url: Option<String>,
        cache: String,
        tars: Option<String>,
        collection_mint: String,
    },
    /// Detach the collection mint from the deployed program.
    Remove { keypair: Option<String>, rpc_url: Option<String>, cache: String, tars: Option<String> },
}

/// Upload-network commands.
#[derive(Debug, Clone, PartialEq, Eq)]
pub enum BundlrAction {
    /// Show the balance held with the upload network.
    Balance,
    /// Withdraw the balance held with the upload network.
    Withdraw,
}

} // verus!
