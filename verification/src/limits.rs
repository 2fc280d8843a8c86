//! Per-token mint/throughput limit resolution against module-wide defaults,
//! and the fixed-label keys holding parameters, limits, and per-epoch flow
//! measurements.

use vstd::prelude::*;

use crate::codec::ibc1_segs;
use crate::codec::ibc2_segs;
use crate::key::addr_chars;
use crate::key::addr_to_repr;
use crate::key::Address;
use crate::key::Key;

verus! {

/// Module-wide parameters, set at genesis or by parameter change; they are
/// the fallback when no per-token override is stored.
#[derive(Clone, Copy, Debug, PartialEq, Eq, Structural)]
pub struct IbcParameters {
    /// The default limit on minted value per token.
    pub default_mint_limit: u128,
    /// The default limit on value throughput per epoch per token.
    pub default_per_epoch_throughput_limit: u128,
}

/// Resolves the mint limit and the throughput limit for a token from the
/// optional stored overrides: each independently falls back to the module
/// default when absent.
pub fn get_limits(
    mint_limit: Option<u128>,
    throughput_limit: Option<u128>,
    params: &IbcParameters,
) -> (r: (u128, u128))
    ensures
        mint_limit matches Some(m) ==> r.0 == m,
        mint_limit is None ==> r.0 == params.default_mint_limit,
        throughput_limit matches Some(t) ==> r.1 == t,
        throughput_limit is None ==> r.1 == params.default_per_epoch_throughput_limit,
{
    let ml = match mint_limit {
        Some(m) => m,
        None => params.default_mint_limit,
    };
    let tl = match throughput_limit {
        Some(t) => t,
        None => params.default_per_epoch_throughput_limit,
    };
    (ml, tl)
}

/// Returns the key of the IBC parameters.
pub fn params_key() -> (k: Key)
    ensures
        k@ == ibc1_segs("params"@),
{
    let k = Key { segments: vec![crate::codec::ibc_seg(), crate::codec::seg("params")] };
    proof {
        assert(k@ =~= ibc1_segs("params"@));
    }
    k
}

/// Builds a per-token key under a fixed label; the token address is
/// rendered as a string so that foreign tokens can be named too.
fn token_label_key(label: &str, token: &Address) -> (k: Key)
    requires
        token.valid(),
    ensures
        k@ == ibc2_segs(label@, addr_chars(token@)),
{
    let addr = addr_to_repr(token);
    let k = Key {
        segments: vec![
            crate::codec::ibc_seg(),
            crate::codec::seg(label),
            crate::codec::seg_of(addr),
        ],
    };
    proof {
        assert(k@ =~= ibc2_segs(label@, addr_chars(token@)));
    }
    k
}

/// Returns the key of the mint limit for the token.
pub fn mint_limit_key(token: &Address) -> (k: Key)
    requires
        token.valid(),
    ensures
        k@ == ibc2_segs("mint_limit"@, addr_chars(token@)),
{
    token_label_key("mint_limit", token)
}

/// Returns the key of the per-epoch throughput limit for the token.
pub fn throughput_limit_key(token: &Address) -> (k: Key)
    requires
        token.valid(),
    ensures
        k@ == ibc2_segs("throughput_limit"@, addr_chars(token@)),
{
    token_label_key("throughput_limit", token)
}

/// Returns the key of the minted amount for the token.
pub fn mint_amount_key(token: &Address) -> (k: Key)
    requires
        token.valid(),
    ensures
        k@ == ibc2_segs("mint"@, addr_chars(token@)),
{
    token_label_key("mint", token)
}

/// Returns the prefix of the per-epoch deposits, for full-namespace scans.
pub fn deposit_prefix() -> (k: Key)
    ensures
        k@ == ibc1_segs("deposit"@),
{
    let k = Key { segments: vec![crate::codec::ibc_seg(), crate::codec::seg("deposit")] };
    proof {
        assert(k@ =~= ibc1_segs("deposit"@));
    }
    k
}

/// Returns the key of the per-epoch deposit for the token.
pub fn deposit_key(token: &Address) -> (k: Key)
    requires
        token.valid(),
    ensures
        k@ == ibc2_segs("deposit"@, addr_chars(token@)),
{
    token_label_key("deposit", token)
}

/// Returns the prefix of the per-epoch withdrawals, for full-namespace
/// scans.
pub fn withdraw_prefix() -> (k: Key)
    ensures
        k@ == ibc1_segs("withdraw"@),
{
    let k = Key { segments: vec![crate::codec::ibc_seg(), crate::codec::seg("withdraw")] };
    proof {
        assert(k@ =~= ibc1_segs("withdraw"@));
    }
    k
}

/// Returns the key of the per-epoch withdrawal for the token.
pub fn withdraw_key(token: &Address) -> (k: Key)
    requires
        token.valid(),
    ensures
        k@ == ibc2_segs("withdraw"@, addr_chars(token@)),
{
    token_label_key("withdraw", token)
}

} // verus!
