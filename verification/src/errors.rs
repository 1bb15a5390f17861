//! Error types of the deployment pipeline.
//!
//! Every failure the library can report is a structured value: the variant
//! says what went wrong and the fields carry the offending input, so a caller
//! can render a message without the library doing any formatting itself.

use vstd::prelude::*;

verus! {

/// Errors raised while resolving the signing configuration.
#[derive(Debug, Clone, PartialEq, Eq)]
pub enum SetupError {
    CaseSetupError(String),
}

/// Errors raised by the cache store.
#[derive(Debug, Clone, PartialEq, Eq)]
pub enum CacheError {
    /// The cache file was absent (or held no items) at a point where one is
    /// required; the field is the path that was looked up.
    CacheFileNotFound(String),
    /// The cached program address does not parse as a valid address.
    InvalidTarsAddress(String),
    /// The cache file exists but could not be opened; path and cause.
    FailedToOpenCacheFile(String, String),
    /// The cache file exists but does not parse into the cache schema.
    CacheFileWrongFormat(String),
    /// The cache contents break an invariant of the store.
    InvalidState,
}

/// Errors raised by collection operations against the remote program.
#[derive(Debug, Clone, PartialEq, Eq)]
pub enum CustomTarsError {
    /// The payer key (first field) does not equal the authority key (second).
    AuthorityMismatch(String, String),
}

/// One validation failure, recorded against the file it came from.
#[derive(Debug, Clone, PartialEq, Eq)]
pub struct ValidateError {
    pub path: String,
    pub error: String,
}

/// Errors raised while reconciling and deploying the item set.
#[derive(Debug, Clone, PartialEq, Eq)]
pub enum DeployError {
    /// The index is not recorded in the cache although the declared count
    /// says it should be.
    MissingItem(i64),
    /// The item at this index has an empty name.
    MissingName(i64),
    /// The item at this index has an empty metadata link.
    MissingMetadataLink(i64),
    /// The manifest's declared item count (first field) disagrees with the
    /// number of non-collection entries in the cache (second field).
    CountMismatch(u64, u64),
    /// The signing account holds fewer lamports (first field) than the rent
    /// cost of the program account (second field).
    BalanceTooLow(u64, u64),
    /// The name of the item at this index is longer than the wire format
    /// allows.
    NameTooLong(i64),
    /// The metadata link of the item at this index is longer than the wire
    /// format allows.
    UrlTooLong(i64),
    /// The symbol is longer than the wire format allows.
    SymbolTooLong,
    /// The royalty share is above the whole-basis-points scale.
    FeeBasisPointsOverMax(u16),
    /// The creator list is empty or longer than the program accepts.
    CreatorCountInvalid(u64),
    /// The creator shares (field) do not add up to one hundred.
    ShareSumInvalid(u32),
    /// The sale start date does not parse as an RFC 3339 date-and-time.
    GoLiveDateInvalid(String),
    /// A treasury token was given together with a direct treasury account.
    TreasuryConflict,
    /// Scaling the price into base units overflowed.
    PriceOverflow,
    /// Computing the program account size overflowed.
    AccountSizeOverflow,
    /// Not every write call went through; the field counts the failed calls.
    AddConfigLineFailed(u64),
    /// The cached program address no longer resolves to an account on
    /// chain: the cache disagrees with remote reality, which only the
    /// operator can repair.
    AccountNotFound,
}

/// Errors refusing a mint.
#[derive(Debug, Clone, PartialEq, Eq)]
pub enum MintError {
    /// Fewer items remain (first field) than were requested (second field),
    /// or zero were requested.
    NotEnoughItems(u64, u64),
    /// Command-line minting is disabled while a gatekeeper is configured.
    GatekeeperEnabled,
    /// Every item has been redeemed.
    Empty,
    /// The sale has not started, or its end date has passed.
    NotLive,
    /// The end condition on the redeemed amount has been reached.
    EndAmountReached,
    /// The minter holds no allow-list token.
    NoWhitelistToken,
    /// The minter's allow-list token account does not exist.
    UninitializedWhitelistAccount,
    /// The transaction went through but no metadata account appeared: the
    /// write was most likely taxed away as a bot attempt.
    BotTaxSuspected,
}

/// Errors refusing a collection operation.
#[derive(Debug, Clone, PartialEq, Eq)]
pub enum CollectionError {
    /// The program must retain authority for a collection to be managed.
    RequiresRetainAuthority,
    /// The collection metadata's update authority (first field) is not the
    /// payer (second field).
    AuthorityMismatch(String, String),
    /// The collection item must be a unique master edition.
    NotUniqueMasterEdition,
    /// Items were already minted: the collection can no longer be modified.
    Locked,
}

} // verus!
