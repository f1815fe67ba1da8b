use vstd::prelude::*;
use crate::types::{Balance, Config};

verus! {

/// `x` clamped to the range of a `u64`.
pub open spec fn saturate(x: int) -> Balance {
    if x > u64::MAX {
        u64::MAX
    } else if x < 0 {
        0
    } else {
        x as Balance
    }
}

/// The deposit an asset class with `max_zombies` zombie slots requires:
/// `base + per_zombie * max_zombies`, each step saturating.
pub open spec fn asset_deposit_of(cfg: Config, max_zombies: u32) -> Balance {
    saturate(saturate(cfg.asset_deposit_per_zombie * max_zombies) + cfg.asset_deposit_base)
}

/// The deposit a metadata record of `bytes` name and symbol bytes requires:
/// `base + per_byte * bytes`, each step saturating.
pub open spec fn metadata_deposit_of(cfg: Config, bytes: nat) -> Balance {
    saturate(saturate(cfg.metadata_deposit_per_byte * bytes) + cfg.metadata_deposit_base)
}

/// `a * b`, or `u64::MAX` where the product does not fit.
pub fn saturating_mul(a: u64, b: u64) -> (r: u64)
    ensures
        r == saturate(a * b),
{
    assert((a as u128) * (b as u128) <= u64::MAX as u128 * u64::MAX as u128) by (nonlinear_arith);
    let p: u128 = (a as u128) * (b as u128);
    if p > u64::MAX as u128 {
        u64::MAX
    } else {
        p as u64
    }
}

/// The deposit that an asset class with `max_zombies` zombie slots requires.
pub fn asset_deposit(cfg: &Config, max_zombies: u32) -> (r: Balance)
    ensures
        r == asset_deposit_of(*cfg, max_zombies),
{
    saturating_mul(cfg.asset_deposit_per_zombie, max_zombies as u64).saturating_add(
        cfg.asset_deposit_base,
    )
}

/// The deposit that a metadata record with `bytes` bytes of name and symbol requires.
pub fn metadata_deposit(cfg: &Config, bytes: u64) -> (r: Balance)
    ensures
        r == metadata_deposit_of(*cfg, bytes as nat),
{
    saturating_mul(cfg.metadata_deposit_per_byte, bytes).saturating_add(cfg.metadata_deposit_base)
}

} // verus!
