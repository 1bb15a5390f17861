//! Minting decisions: whether a mint may proceed at all, and the
//! eligibility gate a non-authority minter must pass.
//!
//! Every decision here is a function of the fetched remote state and the
//! current time, both passed in as plain values, so the rules can be
//! checked without a ledger.

use vstd::prelude::*;

use crate::config::{EndSettingType, EndSettings, WhitelistMintSettings};
use crate::errors::MintError;

verus! {

/// One item's confirmation state, as reported when the deployed set is
/// audited against the remote program.
#[derive(Debug)]
pub struct ConfigStatus {
    pub index: u32,
    pub on_chain: bool,
}

/// How many items are still available to mint.
pub fn items_available_to_mint(items_available: u64, items_redeemed: u64) -> (r: u64)
    ensures
        r == if items_redeemed <= items_available {
            items_available - items_redeemed
        } else {
            0
        },
{
    if items_redeemed <= items_available {
        items_available - items_redeemed
    } else {
        0
    }
}

/// Checks a bulk mint request against what is left: zero requests and
/// requests over the remainder are refused, naming both numbers.
pub fn check_mint_request(items_available: u64, items_redeemed: u64, requested: u64) -> (r: Result<
    (),
    MintError,
>)
    ensures
        r is Ok <==> {
            let available = if items_redeemed <= items_available {
                items_available - items_redeemed
            } else {
                0
            };
            requested != 0 && requested <= available
        },
        r matches Err(e) ==> e == MintError::NotEnoughItems(
            if items_redeemed <= items_available {
                (items_available - items_redeemed) as u64
            } else {
                0
            },
            requested,
        ),
{
    let available = items_available_to_mint(items_available, items_redeemed);
    if requested > available || requested == 0 {
        Err(MintError::NotEnoughItems(available, requested))
    } else {
        Ok(())
    }
}

/// The rules gating one mint, exactly as the decision tree reads them: the
/// gatekeeper disables command-line minting outright; an exhausted set
/// refuses; the authority itself skips the timing rules; everyone else
/// needs the sale to have started (or a presale allow-list), and the end
/// conditions must not have been reached.
pub open spec fn spec_mint_gate(
    is_authority: bool,
    gatekeeper_set: bool,
    go_live_date: Option<i64>,
    whitelist: Option<WhitelistMintSettings>,
    end_settings: Option<EndSettings>,
    items_redeemed: u64,
    items_available: u64,
    now: i64,
) -> Result<(), MintError> {
    if gatekeeper_set {
        Err(MintError::GatekeeperEnabled)
    } else if items_redeemed >= items_available {
        Err(MintError::Empty)
    } else if !is_authority {
        let live = go_live_date matches Some(date) && date < now;
        let enabled = if whitelist matches Some(wl) && wl.presale {
            true
        } else {
            live
        };
        if whitelist matches Some(wl) && !wl.presale && !live {
            Err(MintError::NotLive)
        } else if !enabled {
            Err(MintError::NotLive)
        } else {
            match end_settings {
                Some(es) => match es.end_setting_type {
                    EndSettingType::Date => if (es.number as i64) < now {
                        Err(MintError::NotLive)
                    } else {
                        Ok(())
                    },
                    EndSettingType::Amount => if items_redeemed >= es.number {
                        Err(MintError::EndAmountReached)
                    } else {
                        Ok(())
                    },
                },
                None => Ok(()),
            }
        }
    } else {
        Ok(())
    }
}

/// Decides whether one mint may proceed, given the fetched program state
/// and the current time.
pub fn mint_eligibility(
    is_authority: bool,
    gatekeeper_set: bool,
    go_live_date: Option<i64>,
    whitelist: &Option<WhitelistMintSettings>,
    end_settings: &Option<EndSettings>,
    items_redeemed: u64,
    items_available: u64,
    now: i64,
) -> (r: Result<(), MintError>)
    ensures
        r == spec_mint_gate(
            is_authority,
            gatekeeper_set,
            go_live_date,
            *whitelist,
            *end_settings,
            items_redeemed,
            items_available,
            now,
        ),
{
    if gatekeeper_set {
        return Err(MintError::GatekeeperEnabled);
    }
    if items_redeemed >= items_available {
        return Err(MintError::Empty);
    }
    if is_authority {
        return Ok(());
    }
    let live = match go_live_date {
        Some(date) => date < now,
        None => false,
    };
    let mut enabled = live;
    match whitelist {
        Some(wl) => {
            if wl.presale {
                enabled = true;
            } else if !live {
                return Err(MintError::NotLive);
            }
        },
        None => {},
    }
    if !enabled {
        return Err(MintError::NotLive);
    }
    match end_settings {
        Some(es) => match es.end_setting_type {
            EndSettingType::Date => {
                if (es.number as i64) < now {
                    Err(MintError::NotLive)
                } else {
                    Ok(())
                }
            },
            EndSettingType::Amount => {
                if items_redeemed >= es.number {
                    Err(MintError::EndAmountReached)
                } else {
                    Ok(())
                }
            },
        },
        None => Ok(()),
    }
}

/// Decides whether a sent mint actually took effect: the transaction can
/// land while the program keeps the fee and mints nothing, which shows as
/// a missing metadata account afterwards.
pub fn check_mint_confirmation(metadata_found: bool) -> (r: Result<(), MintError>)
    ensures
        r is Ok <==> metadata_found,
        r is Err ==> r == Err::<(), MintError>(MintError::BotTaxSuspected),
{
    if metadata_found {
        Ok(())
    } else {
        Err(MintError::BotTaxSuspected)
    }
}

/// Decides the burn-every-time allow-list check from the fetched token
/// account: an account that could not be fetched is reported as
/// uninitialized; an empty or zero-balance account means the minter holds
/// no allow-list token.
pub fn check_whitelist_token(fetch_ok: bool, account_empty: bool, amount: u64) -> (r: Result<
    (),
    MintError,
>)
    ensures
        r is Ok <==> (fetch_ok && !account_empty && amount > 0),
        r matches Err(e) ==> e == if !fetch_ok {
            MintError::UninitializedWhitelistAccount
        } else {
            MintError::NoWhitelistToken
        },
{
    if !fetch_ok {
        return Err(MintError::UninitializedWhitelistAccount);
    }
    if account_empty || amount == 0 {
        return Err(MintError::NoWhitelistToken);
    }
    Ok(())
}

} // verus!
