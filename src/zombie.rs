use vstd::prelude::*;
use crate::types::{AccountId, AssetDetails, Effect, Error};

verus! {

/// The class record after a holder's balance goes from zero to non-zero, and
/// whether that holder is a zombie: a holder with a footprint in the host
/// registry is a real account, any other takes one of the class's zombie slots.
pub open spec fn new_account_of(d: AssetDetails, exists: bool) -> Result<(AssetDetails, bool), Error> {
    if d.accounts == u32::MAX {
        Err(Error::Overflow)
    } else if exists {
        Ok((AssetDetails { accounts: (d.accounts + 1) as u32, ..d }, false))
    } else if d.zombies >= d.max_zombies {
        Err(Error::TooManyZombies)
    } else {
        Ok((AssetDetails { accounts: (d.accounts + 1) as u32, zombies: (d.zombies + 1) as u32, ..d }, true))
    }
}

/// The effects of opening an account for `who`: a real account takes a
/// reference in the host registry.
pub open spec fn new_account_effects(who: AccountId, exists: bool) -> Seq<Effect> {
    if exists {
        seq![Effect::IncConsumers(who)]
    } else {
        seq![]
    }
}

/// The class record after a remaining holder is re-examined: a zombie that has
/// since gained a footprint in the host registry stops being a zombie.
pub open spec fn dezombify_of(d: AssetDetails, is_zombie: bool, exists: bool) -> (AssetDetails, bool) {
    if is_zombie && exists {
        (AssetDetails { zombies: if d.zombies == 0 { 0 } else { (d.zombies - 1) as u32 }, ..d }, false)
    } else {
        (d, is_zombie)
    }
}

pub open spec fn dezombify_effects(who: AccountId, is_zombie: bool, exists: bool) -> Seq<Effect> {
    if is_zombie && exists {
        seq![Effect::IncConsumers(who)]
    } else {
        seq![]
    }
}

/// The class record after a holder's balance returns to zero.
pub open spec fn dead_account_of(d: AssetDetails, is_zombie: bool) -> AssetDetails {
    AssetDetails {
        zombies: if is_zombie && d.zombies > 0 { (d.zombies - 1) as u32 } else { d.zombies },
        accounts: if d.accounts == 0 { 0 } else { (d.accounts - 1) as u32 },
        ..d
    }
}

pub open spec fn dead_account_effects(who: AccountId, is_zombie: bool) -> Seq<Effect> {
    if is_zombie {
        seq![]
    } else {
        seq![Effect::DecConsumers(who)]
    }
}

/// Opens an account for `who` in the class `d`; `exists` tells whether `who`
/// has a footprint in the host registry. Returns whether the account is a zombie.
pub fn new_account(who: AccountId, d: &mut AssetDetails, exists: bool, effects: &mut Vec<Effect>) -> (r: Result<bool, Error>)
    ensures
        match new_account_of(*old(d), exists) {
            Ok((nd, z)) => r == Ok::<bool, Error>(z) && *final(d) == nd
                && final(effects)@ == old(effects)@ + new_account_effects(who, exists),
            Err(e) => r == Err::<bool, Error>(e) && *final(d) == *old(d) && final(effects)@ == old(effects)@,
        },
{
    if d.accounts == u32::MAX {
        return Err(Error::Overflow);
    }
    let accounts: u32 = d.accounts + 1;
    if exists {
        effects.push(Effect::IncConsumers(who));
        d.accounts = accounts;
        assert(final(effects)@ =~= old(effects)@ + new_account_effects(who, exists));
        Ok(false)
    } else {
        if d.zombies >= d.max_zombies {
            return Err(Error::TooManyZombies);
        }
        d.zombies = d.zombies + 1;
        d.accounts = accounts;
        assert(final(effects)@ =~= old(effects)@ + new_account_effects(who, exists));
        Ok(true)
    }
}

/// Turns the zombie `who` into a real account where it has gained a footprint
/// in the host registry; otherwise changes nothing.
pub fn dezombify(who: AccountId, d: &mut AssetDetails, is_zombie: &mut bool, exists: bool, effects: &mut Vec<Effect>)
    ensures
        (*final(d), *final(is_zombie)) == dezombify_of(*old(d), *old(is_zombie), exists),
        final(effects)@ == old(effects)@ + dezombify_effects(who, *old(is_zombie), exists),
{
    if *is_zombie && exists {
        effects.push(Effect::IncConsumers(who));
        *is_zombie = false;
        d.zombies = d.zombies.saturating_sub(1);
    }
    assert(final(effects)@ =~= old(effects)@ + dezombify_effects(who, *old(is_zombie), exists));
}

/// Closes the account of `who`, whose balance has returned to zero.
pub fn dead_account(who: AccountId, d: &mut AssetDetails, is_zombie: bool, effects: &mut Vec<Effect>)
    ensures
        *final(d) == dead_account_of(*old(d), is_zombie),
        final(effects)@ == old(effects)@ + dead_account_effects(who, is_zombie),
{
    if is_zombie {
        d.zombies = d.zombies.saturating_sub(1);
    } else {
        effects.push(Effect::DecConsumers(who));
    }
    d.accounts = d.accounts.saturating_sub(1);
    assert(final(effects)@ =~= old(effects)@ + dead_account_effects(who, is_zombie));
}

} // verus!
