//! Trusted boundary to the outside crates the logic computes with.
//!
//! Each wrapper here makes exactly one outside computation on plain values;
//! its contract names the result, and everything downstream of that name is
//! verified. Nothing in this module performs input or output.

use vstd::prelude::*;

use std::str::FromStr;

verus! {

/// The timestamp an RFC 3339 date-and-time string denotes, if it parses.
/// Parsing depends on the characters alone.
pub uninterp spec fn go_live_timestamp(s: Seq<char>) -> Option<i64>;

/// Relies on chrono's `DateTime::parse_from_rfc3339` to read the sale
/// start date, and on `DateTime::timestamp` to turn the parsed value into
/// seconds since the epoch.
#[verifier::external_body]
pub fn parse_go_live(s: &str) -> (r: Option<i64>)
    ensures
        r == go_live_timestamp(s@),
{
    chrono::DateTime::parse_from_rfc3339(s).map(|dt| dt.timestamp()).ok()
}

/// Whether a string denotes a remote account address: valid base58 text
/// decoding to exactly thirty-two bytes. Validity depends on the
/// characters alone.
pub uninterp spec fn pubkey_str_valid(s: Seq<char>) -> bool;

/// Relies on `Pubkey::from_str` of solana-program, which succeeds exactly
/// on base58 strings of a thirty-two-byte key.
#[verifier::external_body]
pub fn check_pubkey(s: &str) -> (r: bool)
    ensures
        r == pubkey_str_valid(s@),
{
    solana_program::pubkey::Pubkey::from_str(s).is_ok()
}

} // verus!
