//! The deployment configuration and the data handed to the remote program.
//!
//! Addresses are carried as their display strings and dates as RFC 3339
//! strings until they are resolved into plain values; the remote program's
//! data record (`TarsData`) holds only resolved values.

use vstd::prelude::*;

use crate::chain::{go_live_timestamp, parse_go_live};
use crate::errors::DeployError;

verus! {

/// The most creators a program account can carry (one slot is reserved).
pub const MAX_CREATOR_LIMIT: usize = 5;

/// One royalty recipient: its address, whether it is verified, and its
/// share of the proceeds in whole percent.
#[derive(Debug, Clone, PartialEq, Eq)]
pub struct Creator {
    pub address: String,
    pub verified: bool,
    pub share: u8,
}

/// How a sale ends: at a date, or after an amount of items.
#[derive(Debug, Clone, Copy, PartialEq, Eq, Structural)]
pub enum EndSettingType {
    Date,
    Amount,
}

/// The end condition: the type says how `number` is read (a timestamp or an
/// item count).
#[derive(Debug, Clone, Copy, PartialEq, Eq, Structural)]
pub struct EndSettings {
    pub end_setting_type: EndSettingType,
    pub number: u64,
}

/// Whether an allow-list token is burned on use.
#[derive(Debug, Clone, Copy, PartialEq, Eq, Structural)]
pub enum WhitelistMintMode {
    BurnEveryTime,
    NeverBurn,
}

/// The allow-list settings: the token mint gating the sale, whether holders
/// may mint before the sale starts, and an optional discounted price.
#[derive(Debug, Clone, PartialEq, Eq)]
pub struct WhitelistMintSettings {
    pub mode: WhitelistMintMode,
    pub mint: String,
    pub presale: bool,
    pub discount_price: Option<u64>,
}

/// The hidden-settings mode: one shared name and link plus a digest of the
/// real item set; no per-item storage is allocated on chain.
#[derive(Debug, Clone, PartialEq, Eq)]
pub struct HiddenSettings {
    pub name: String,
    pub uri: String,
    pub hash: Vec<u8>,
}

/// A gatekeeper network screening minters; minting from here is disabled
/// when one is configured.
#[derive(Debug, Clone, PartialEq, Eq)]
pub struct Gatekeeper {
    pub gatekeeper_network: String,
    pub expire_on_use: bool,
}

/// The deployment configuration, as the operator wrote it.
#[derive(Debug, Clone, PartialEq, Eq)]
pub struct ConfigData {
    /// The price of one item, in whole tokens (or whole units of the
    /// treasury token).
    pub price: u64,
    /// The declared number of items.
    pub number: u64,
    pub symbol: String,
    pub seller_fee_basis_points: u16,
    pub is_mutable: bool,
    pub retain_authority: bool,
    /// The sale start, as an RFC 3339 date-and-time string.
    pub go_live_date: Option<String>,
    pub creators: Vec<Creator>,
    /// The mint address of the token accepted as payment, if not the
    /// native one.
    pub spl_token: Option<String>,
    /// The token account receiving the proceeds.
    pub spl_token_account: Option<String>,
    /// The native account receiving the proceeds.
    pub sol_treasury_account: Option<String>,
    pub end_settings: Option<EndSettings>,
    pub whitelist_mint_settings: Option<WhitelistMintSettings>,
    pub hidden_settings: Option<HiddenSettings>,
    pub gatekeeper: Option<Gatekeeper>,
}

/// The data record the remote program is initialized or updated with.
#[derive(Debug, Clone, PartialEq, Eq)]
pub struct TarsData {
    pub uuid: String,
    /// The price in base units.
    pub price: u64,
    pub symbol: String,
    pub seller_fee_basis_points: u16,
    pub max_supply: u64,
    pub is_mutable: bool,
    pub retain_authority: bool,
    /// The sale start as a timestamp, if one was set.
    pub go_live_date: Option<i64>,
    pub end_settings: Option<EndSettings>,
    pub creators: Vec<Creator>,
    pub whitelist_mint_settings: Option<WhitelistMintSettings>,
    pub hidden_settings: Option<HiddenSettings>,
    pub items_available: u64,
    pub gatekeeper: Option<Gatekeeper>,
}

/// The sum of the creators' shares.
pub open spec fn spec_share_sum(creators: Seq<Creator>) -> int
    decreases creators.len(),
{
    if creators.len() == 0 {
        0
    } else {
        spec_share_sum(creators.drop_last()) + creators.last().share
    }
}

/// Whether the creator list has an acceptable length: at least one, and at
/// most the program's limit less the reserved slot.
pub open spec fn spec_creator_count_ok(creators: Seq<Creator>) -> bool {
    1 <= creators.len() <= MAX_CREATOR_LIMIT - 1
}

/// What `create_tars_data` returns on success: every field carried over
/// from the configuration, the price and uuid as given, no supply cap, and
/// the sale start resolved to a timestamp.
pub open spec fn spec_tars_data(config: ConfigData, price: u64, uuid: String) -> TarsData {
    TarsData {
        uuid,
        price,
        symbol: config.symbol,
        seller_fee_basis_points: config.seller_fee_basis_points,
        max_supply: 0,
        is_mutable: config.is_mutable,
        retain_authority: config.retain_authority,
        go_live_date: match config.go_live_date {
            None => None,
            Some(s) => Some(go_live_timestamp(s@)->Some_0),
        },
        end_settings: config.end_settings,
        creators: config.creators,
        whitelist_mint_settings: config.whitelist_mint_settings,
        hidden_settings: config.hidden_settings,
        items_available: config.number,
        gatekeeper: config.gatekeeper,
    }
}

/// Builds the remote program's data record from the configuration, the
/// already-resolved price in base units, and the record identifier.
///
/// Rejects a creator list that is empty or over the program's limit, a
/// share split that does not add up to one hundred percent, and a sale
/// start date that does not parse.
pub fn create_tars_data(config: ConfigData, price: u64, uuid: String) -> (r: Result<
    TarsData,
    DeployError,
>)
    ensures
        r is Ok <==> {
            &&& spec_creator_count_ok(config.creators@)
            &&& spec_share_sum(config.creators@) == 100
            &&& (config.go_live_date matches Some(s) ==> go_live_timestamp(s@) is Some)
        },
        r matches Ok(d) ==> d == spec_tars_data(config, price, uuid),
        r matches Err(e) ==> {
            if !spec_creator_count_ok(config.creators@) {
                e == DeployError::CreatorCountInvalid(config.creators@.len() as u64)
            } else if spec_share_sum(config.creators@) != 100 {
                e == DeployError::ShareSumInvalid(spec_share_sum(config.creators@) as u32)
            } else {
                config.go_live_date matches Some(s) && e == DeployError::GoLiveDateInvalid(s)
            }
        },
{
    let creator_count = config.creators.len();
    if creator_count == 0 || creator_count > MAX_CREATOR_LIMIT - 1 {
        return Err(DeployError::CreatorCountInvalid(creator_count as u64));
    }
    let mut share: u32 = 0;
    let mut i: usize = 0;
    while i < creator_count
        invariant
            creator_count == config.creators@.len(),
            creator_count <= MAX_CREATOR_LIMIT - 1,
            0 <= i <= creator_count,
            share == spec_share_sum(config.creators@.take(i as int)),
            share <= i * 255,
        decreases creator_count - i,
    {
        proof {
            assert(config.creators@.take(i + 1).drop_last() =~= config.creators@.take(i as int));
            assert(config.creators@.take(i + 1).last() == config.creators@[i as int]);
        }
        share = share + config.creators[i].share as u32;
        i += 1;
    }
    proof {
        assert(config.creators@.take(creator_count as int) =~= config.creators@);
    }
    if share != 100 {
        return Err(DeployError::ShareSumInvalid(share));
    }
    let go_live_date: Option<i64> = match &config.go_live_date {
        None => None,
        Some(s) => match parse_go_live(s.as_str()) {
            Some(ts) => Some(ts),
            None => {
                return Err(DeployError::GoLiveDateInvalid(s.clone()));
            },
        },
    };
    Ok(
        TarsData {
            uuid,
            price,
            symbol: config.symbol,
            seller_fee_basis_points: config.seller_fee_basis_points,
            max_supply: 0,
            is_mutable: config.is_mutable,
            retain_authority: config.retain_authority,
            go_live_date,
            end_settings: config.end_settings,
            creators: config.creators,
            whitelist_mint_settings: config.whitelist_mint_settings,
            hidden_settings: config.hidden_settings,
            items_available: config.number,
            gatekeeper: config.gatekeeper,
        },
    )
}

/// Scales a whole-unit price into base units given the token's decimals:
/// the factor is ten to the `decimals`. Fails exactly when the product does
/// not fit the price field.
pub fn scale_price(price: u64, decimals: u32) -> (r: Result<u64, DeployError>)
    ensures
        r matches Ok(p) ==> p == price * spec_pow10(decimals as nat) && price * spec_pow10(
            decimals as nat,
        ) <= u64::MAX,
        r is Err ==> r == Err::<u64, DeployError>(DeployError::PriceOverflow) && (price * spec_pow10(
            decimals as nat,
        ) > u64::MAX || spec_pow10(decimals as nat) > u64::MAX),
{
    let factor = match checked_pow10(decimals) {
        Some(f) => f,
        None => {
            return Err(DeployError::PriceOverflow);
        },
    };
    match price.checked_mul(factor) {
        Some(p) => Ok(p),
        None => Err(DeployError::PriceOverflow),
    }
}

/// Ten to the `e`.
pub open spec fn spec_pow10(e: nat) -> int
    decreases e,
{
    if e == 0 {
        1
    } else {
        10 * spec_pow10((e - 1) as nat)
    }
}

/// Computes ten to the `e`, or nothing when the power does not fit.
fn checked_pow10(e: u32) -> (r: Option<u64>)
    ensures
        r matches Some(f) ==> f == spec_pow10(e as nat) && spec_pow10(e as nat) <= u64::MAX,
        r is None ==> spec_pow10(e as nat) > u64::MAX,
{
    let mut f: u64 = 1;
    let mut i: u32 = 0;
    while i < e
        invariant
            0 <= i <= e,
            f == spec_pow10(i as nat),
            f >= 1,
        decreases e - i,
    {
        match f.checked_mul(10) {
            Some(next) => {
                f = next;
            },
            None => {
                proof {
                    lemma_pow10_monotone(i as nat + 1, e as nat);
                }
                return None;
            },
        }
        i += 1;
    }
    Some(f)
}

/// Powers of ten grow with the exponent.
proof fn lemma_pow10_monotone(a: nat, b: nat)
    requires
        a <= b,
    ensures
        spec_pow10(a) <= spec_pow10(b),
        spec_pow10(a) >= 1,
    decreases b,
{
    if a < b {
        lemma_pow10_monotone(a, (b - 1) as nat);
        assert(spec_pow10(b) == 10 * spec_pow10((b - 1) as nat));
    } else {
        if a > 0 {
            lemma_pow10_monotone((a - 1) as nat, (b - 1) as nat);
        }
    }
}

} // verus!
