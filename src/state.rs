use vstd::prelude::*;
use crate::deposit::{asset_deposit_of, metadata_deposit_of, saturate};
use crate::feature::feature_of;
use crate::supply::sum_balances;
use crate::types::{
    AccountId, AssetBalance, AssetDetails, AssetFeature, AssetId, Balance, Config, Effect, Error,
    Event, MetadataView,
};
use crate::zombie::{
    dead_account_effects, dead_account_of, dezombify_effects, dezombify_of, new_account_effects,
    new_account_of,
};

verus! {

/// The holders of a class that occupy one of its zombie slots.
pub open spec fn zombie_set(m: Map<AccountId, AssetBalance>) -> Set<AccountId> {
    m.dom().filter(|w: AccountId| m[w].is_zombie)
}

/// The record a holder without an entry is read as: zero balance, not frozen,
/// not a zombie.
pub open spec fn empty_balance() -> AssetBalance {
    AssetBalance { balance: 0, is_frozen: false, is_zombie: false }
}

/// The record of a class that was just created.
pub open spec fn fresh_class(
    owner: AccountId,
    deposit: Balance,
    max_zombies: u32,
    min_balance: Balance,
) -> AssetDetails {
    AssetDetails {
        owner,
        supply: 0,
        deposit,
        max_zombies,
        min_balance,
        zombies: 0,
        accounts: 0,
        is_frozen: false,
        is_featured: true,
    }
}

pub open spec fn min(a: Balance, b: Balance) -> Balance {
    if a <= b {
        a
    } else {
        b
    }
}

/// The whole ledger as mathematical maps: class records, each class's holder
/// records, metadata records and features.
#[verifier::ext_equal]
pub struct LedgerState {
    pub config: Config,
    pub assets: Map<AssetId, AssetDetails>,
    pub accounts: Map<AssetId, Map<AccountId, AssetBalance>>,
    pub metadata: Map<AssetId, MetadataView>,
    pub features: Map<AssetId, AssetFeature>,
}

impl LedgerState {
    /// The holder records of class `id`.
    pub open spec fn holders(self, id: AssetId) -> Map<AccountId, AssetBalance> {
        if self.accounts.contains_key(id) {
            self.accounts[id]
        } else {
            Map::empty()
        }
    }

    pub open spec fn account(self, id: AssetId, who: AccountId) -> Option<AssetBalance> {
        if self.holders(id).contains_key(who) {
            Some(self.holders(id)[who])
        } else {
            None
        }
    }

    pub open spec fn account_or_empty(self, id: AssetId, who: AccountId) -> AssetBalance {
        if self.holders(id).contains_key(who) {
            self.holders(id)[who]
        } else {
            empty_balance()
        }
    }

    pub open spec fn metadata_deposit(self, id: AssetId) -> Balance {
        if self.metadata.contains_key(id) {
            self.metadata[id].deposit
        } else {
            0
        }
    }

    /// The counters and floor of class `id` agree with its holder records.
    pub open spec fn class_wf(self, id: AssetId) -> bool {
        let d = self.assets[id];
        let h = self.holders(id);
        &&& d.min_balance > 0
        &&& d.zombies <= d.max_zombies
        &&& d.accounts == h.dom().len()
        &&& d.zombies == zombie_set(h).len()
        &&& d.supply == sum_balances(h)
    }

    /// The ledger's invariant: every class is consistent with its holders,
    /// every holder record belongs to an existing class and holds at least its
    /// minimum balance, and metadata belongs to existing classes.
    pub open spec fn wf(self) -> bool {
        &&& self.metadata.dom().subset_of(self.assets.dom())
        &&& forall|id: AssetId| #[trigger] self.assets.contains_key(id) ==> self.class_wf(id)
        &&& forall|id: AssetId| #[trigger] self.holders(id).dom().finite()
        &&& forall|id: AssetId, who: AccountId| #[trigger]
            self.holders(id).contains_key(who) ==> {
                &&& self.assets.contains_key(id)
                &&& self.holders(id)[who].balance >= self.assets[id].min_balance
            }
    }

    pub open spec fn with_asset(self, id: AssetId, d: AssetDetails) -> LedgerState {
        LedgerState { assets: self.assets.insert(id, d), ..self }
    }

    pub open spec fn with_account(self, id: AssetId, who: AccountId, b: AssetBalance) -> LedgerState {
        LedgerState { accounts: self.accounts.insert(id, self.holders(id).insert(who, b)), ..self }
    }

    pub open spec fn without_account(self, id: AssetId, who: AccountId) -> LedgerState {
        LedgerState { accounts: self.accounts.insert(id, self.holders(id).remove(who)), ..self }
    }

    /// `create`: the caller founds class `id` and reserves its deposit out of
    /// `reservable`, the most the currency can reserve from the caller.
    pub open spec fn create(
        self,
        caller: AccountId,
        id: AssetId,
        max_zombies: u32,
        min_balance: Balance,
        feature_code: u32,
        reservable: Balance,
    ) -> Result<(LedgerState, Event, Seq<Effect>), Error> {
        let deposit = asset_deposit_of(self.config, max_zombies);
        if self.assets.contains_key(id) {
            Err(Error::InUse)
        } else if min_balance == 0 {
            Err(Error::MinBalanceZero)
        } else if feature_code == 0 {
            Err(Error::BadFeaturePoint)
        } else if deposit > reservable {
            Err(Error::InsufficientBalance)
        } else {
            Ok((
                LedgerState {
                    assets: self.assets.insert(id, fresh_class(caller, deposit, max_zombies, min_balance)),
                    features: self.features.insert(id, feature_of(feature_code)),
                    ..self
                },
                Event::Created(id, caller),
                seq![Effect::Reserve(caller, deposit)],
            ))
        }
    }

    /// `force_create`: class `id` is founded for `owner` without a deposit; its
    /// features come from `seed`.
    pub open spec fn force_create(
        self,
        id: AssetId,
        owner: AccountId,
        max_zombies: u32,
        min_balance: Balance,
        seed: u32,
    ) -> Result<(LedgerState, Event, Seq<Effect>), Error> {
        if self.assets.contains_key(id) {
            Err(Error::InUse)
        } else if min_balance == 0 {
            Err(Error::MinBalanceZero)
        } else {
            Ok((
                LedgerState {
                    assets: self.assets.insert(id, fresh_class(owner, 0, max_zombies, min_balance)),
                    features: self.features.insert(id, feature_of(seed)),
                    ..self
                },
                Event::ForceCreated(id, owner),
                seq![],
            ))
        }
    }

    /// The common part of `destroy` and `force_destroy` on an existing class.
    pub open spec fn remove_class(self, id: AssetId, zombies_witness: u32) -> Result<(LedgerState, Event, Seq<Effect>), Error> {
        let d = self.assets[id];
        if d.accounts != d.zombies {
            Err(Error::RefsLeft)
        } else if d.zombies > zombies_witness {
            Err(Error::BadWitness)
        } else {
            Ok((
                LedgerState {
                    assets: self.assets.remove(id),
                    accounts: self.accounts.remove(id),
                    metadata: self.metadata.remove(id),
                    ..self
                },
                Event::Destroyed(id),
                seq![Effect::Unreserve(d.owner, saturate(d.deposit + self.metadata_deposit(id)))],
            ))
        }
    }

    pub open spec fn destroy(self, caller: AccountId, id: AssetId, zombies_witness: u32) -> Result<(LedgerState, Event, Seq<Effect>), Error> {
        if !self.assets.contains_key(id) {
            Err(Error::Unknown)
        } else if self.assets[id].owner != caller {
            Err(Error::NoPermission)
        } else {
            self.remove_class(id, zombies_witness)
        }
    }

    pub open spec fn force_destroy(self, id: AssetId, zombies_witness: u32) -> Result<(LedgerState, Event, Seq<Effect>), Error> {
        if !self.assets.contains_key(id) {
            Err(Error::Unknown)
        } else {
            self.remove_class(id, zombies_witness)
        }
    }
}

/// Crediting `amount` to the holder record `a` of class `d`: the new balance
/// (saturating) must reach the minimum, and a holder without balance gets a
/// new account.
pub open spec fn credit_of(d: AssetDetails, a: AssetBalance, who: AccountId, amount: Balance, exists: bool)
    -> Result<(AssetDetails, AssetBalance, Seq<Effect>), Error>
{
    let nb = saturate(a.balance + amount);
    if nb < d.min_balance {
        Err(Error::BalanceLow)
    } else if a.balance == 0 {
        match new_account_of(d, exists) {
            Ok((d2, z)) => Ok((d2, AssetBalance { balance: nb, is_zombie: z, ..a }, new_account_effects(who, exists))),
            Err(e) => Err(e),
        }
    } else {
        Ok((d, AssetBalance { balance: nb, ..a }, seq![]))
    }
}

impl LedgerState {
    /// `mint`: `amount` new units of class `id` for `who`; `permitted` is the
    /// issuer check on the caller, `exists` whether `who` has a footprint in
    /// the host registry.
    pub open spec fn mint(self, permitted: bool, id: AssetId, who: AccountId, amount: Balance, exists: bool)
        -> Result<(LedgerState, Event, Seq<Effect>), Error>
    {
        let d = self.assets[id];
        if !self.assets.contains_key(id) {
            Err(Error::Unknown)
        } else if !permitted {
            Err(Error::NoPermission)
        } else if d.supply + amount > u64::MAX {
            Err(Error::Overflow)
        } else {
            let d1 = AssetDetails { supply: (d.supply + amount) as Balance, ..d };
            match credit_of(d1, self.account_or_empty(id, who), who, amount, exists) {
                Ok((d2, a2, effects)) => Ok((
                    self.with_asset(id, d2).with_account(id, who, a2),
                    Event::Issued(id, who, amount),
                    effects,
                )),
                Err(e) => Err(e),
            }
        }
    }

    /// `burn`: removes up to `amount` from the holder `who`; a remainder under
    /// the minimum balance is burned too and the holder's entry removed.
    pub open spec fn burn(self, permitted: bool, id: AssetId, who: AccountId, amount: Balance)
        -> Result<(LedgerState, Event, Seq<Effect>), Error>
    {
        let d = self.assets[id];
        let a = self.account_or_empty(id, who);
        let part = min(amount, a.balance);
        let rest = (a.balance - part) as Balance;
        if !self.assets.contains_key(id) {
            Err(Error::Unknown)
        } else if !permitted {
            Err(Error::NoPermission)
        } else if self.account(id, who) is None {
            Err(Error::BalanceZero)
        } else if rest < d.min_balance {
            let d2 = AssetDetails { supply: saturate(d.supply - a.balance), ..dead_account_of(d, a.is_zombie) };
            Ok((
                self.with_asset(id, d2).without_account(id, who),
                Event::Burned(id, who, a.balance),
                dead_account_effects(who, a.is_zombie),
            ))
        } else {
            Ok((
                self.with_asset(id, AssetDetails { supply: saturate(d.supply - part), ..d })
                    .with_account(id, who, AssetBalance { balance: rest, ..a }),
                Event::Burned(id, who, part),
                seq![],
            ))
        }
    }

    /// Moves `amount` of class `id` from `from`, whose record is `a`, to `to`
    /// (distinct accounts). A remainder under the minimum balance moves along and
    /// the sender's entry is removed; otherwise the sender is considered for
    /// dezombification. Returns the new state, the amount that moved, and the
    /// effects.
    pub open spec fn move_balance(
        self,
        id: AssetId,
        from: AccountId,
        to: AccountId,
        amount: Balance,
        from_exists: bool,
        to_exists: bool,
    ) -> Result<(LedgerState, Balance, Seq<Effect>), Error> {
        let d = self.assets[id];
        let a = self.account_or_empty(id, from);
        let rest = (a.balance - amount) as Balance;
        let swept = rest < d.min_balance;
        let moved = if swept { a.balance } else { amount };
        match credit_of(d, self.account_or_empty(id, to), to, moved, to_exists) {
            Err(e) => Err(e),
            Ok((d1, t, e1)) => if swept {
                Ok((
                    self.with_asset(id, dead_account_of(d1, a.is_zombie)).with_account(id, to, t)
                        .without_account(id, from),
                    moved,
                    e1 + dead_account_effects(from, a.is_zombie),
                ))
            } else {
                let (d2, z) = dezombify_of(d1, a.is_zombie, from_exists);
                Ok((
                    self.with_asset(id, d2).with_account(id, to, t).with_account(
                        id,
                        from,
                        AssetBalance { balance: rest, is_zombie: z, ..a },
                    ),
                    moved,
                    e1 + dezombify_effects(from, a.is_zombie, from_exists),
                ))
            },
        }
    }

    /// `transfer`: the caller sends `amount` of class `id` to `target`.
    pub open spec fn transfer(
        self,
        caller: AccountId,
        id: AssetId,
        target: AccountId,
        amount: Balance,
        caller_exists: bool,
        target_exists: bool,
    ) -> Result<(LedgerState, Event, Seq<Effect>), Error> {
        let a = self.account_or_empty(id, caller);
        if amount == 0 {
            Err(Error::AmountZero)
        } else if a.is_frozen {
            Err(Error::Frozen)
        } else if a.balance < amount {
            Err(Error::BalanceLow)
        } else if !self.assets.contains_key(id) {
            Err(Error::Unknown)
        } else if self.assets[id].is_frozen {
            Err(Error::Frozen)
        } else if target == caller {
            Ok((self, Event::Transferred(id, caller, caller, amount), seq![]))
        } else {
            match self.move_balance(id, caller, target, amount, caller_exists, target_exists) {
                Ok((s2, moved, effects)) => Ok((s2, Event::Transferred(id, caller, target, moved), effects)),
                Err(e) => Err(e),
            }
        }
    }

    /// `force_transfer`: an admin moves up to `amount` of class `id` from
    /// `source` to `dest`, regardless of freezing.
    pub open spec fn force_transfer(
        self,
        permitted: bool,
        id: AssetId,
        source: AccountId,
        dest: AccountId,
        amount: Balance,
        source_exists: bool,
        dest_exists: bool,
    ) -> Result<(LedgerState, Event, Seq<Effect>), Error> {
        let part = min(amount, self.account_or_empty(id, source).balance);
        if part == 0 {
            Err(Error::AmountZero)
        } else if !self.assets.contains_key(id) {
            Err(Error::Unknown)
        } else if !permitted {
            Err(Error::NoPermission)
        } else if dest == source {
            Ok((self, Event::ForceTransferred(id, source, dest, part), seq![]))
        } else {
            match self.move_balance(id, source, dest, part, source_exists, dest_exists) {
                Ok((s2, moved, effects)) => Ok((s2, Event::ForceTransferred(id, source, dest, moved), effects)),
                Err(e) => Err(e),
            }
        }
    }

    /// `freeze` (`frozen` true) or `thaw` (`frozen` false) of one holder's entry.
    pub open spec fn set_account_frozen(self, permitted: bool, id: AssetId, who: AccountId, frozen: bool)
        -> Result<(LedgerState, Seq<Effect>), Error>
    {
        if !permitted {
            Err(Error::NoPermission)
        } else if self.account(id, who) is None {
            Err(Error::BalanceZero)
        } else {
            Ok((self.with_account(id, who, AssetBalance { is_frozen: frozen, ..self.account_or_empty(id, who) }), seq![]))
        }
    }

    /// `freeze_asset` (`frozen` true) or `thaw_asset` (`frozen` false).
    pub open spec fn set_asset_frozen(self, permitted: bool, id: AssetId, frozen: bool) -> Result<(LedgerState, Seq<Effect>), Error> {
        if !self.assets.contains_key(id) {
            Err(Error::Unknown)
        } else if !permitted {
            Err(Error::NoPermission)
        } else {
            Ok((self.with_asset(id, AssetDetails { is_frozen: frozen, ..self.assets[id] }), seq![]))
        }
    }

    /// `transfer_ownership`: the owner hands class `id` and its deposit to
    /// `owner`; `repatriable` tells whether the currency can move the reserved
    /// deposit to `owner`.
    pub open spec fn transfer_ownership(self, caller: AccountId, id: AssetId, owner: AccountId, repatriable: bool)
        -> Result<(LedgerState, Seq<Effect>), Error>
    {
        let d = self.assets[id];
        if !self.assets.contains_key(id) {
            Err(Error::Unknown)
        } else if d.owner != caller {
            Err(Error::NoPermission)
        } else if owner == d.owner {
            Ok((self, seq![]))
        } else if !repatriable {
            Err(Error::DepositNotMoved)
        } else {
            Ok((
                self.with_asset(id, AssetDetails { owner, ..d }),
                seq![Effect::Repatriate(d.owner, owner, d.deposit)],
            ))
        }
    }

    /// `set_max_zombies`: the owner resizes the zombie capacity of class `id`,
    /// and the deposit with it.
    pub open spec fn set_max_zombies(self, caller: AccountId, id: AssetId, max_zombies: u32, reservable: Balance)
        -> Result<(LedgerState, Seq<Effect>), Error>
    {
        let d = self.assets[id];
        let deposit = asset_deposit_of(self.config, max_zombies);
        let next = self.with_asset(id, AssetDetails { max_zombies, deposit, ..d });
        if !self.assets.contains_key(id) {
            Err(Error::Unknown)
        } else if d.owner != caller {
            Err(Error::NoPermission)
        } else if max_zombies < d.zombies {
            Err(Error::TooManyZombies)
        } else if deposit > d.deposit {
            if deposit - d.deposit > reservable {
                Err(Error::InsufficientBalance)
            } else {
                Ok((next, seq![Effect::Reserve(caller, (deposit - d.deposit) as Balance)]))
            }
        } else {
            Ok((next, seq![Effect::Unreserve(caller, (d.deposit - deposit) as Balance)]))
        }
    }

    /// `set_metadata`: the owner sets, or with empty strings and no decimals
    /// clears, the metadata of class `id`, and adjusts its deposit.
    pub open spec fn set_metadata(
        self,
        caller: AccountId,
        id: AssetId,
        name: Seq<u8>,
        symbol: Seq<u8>,
        decimals: u8,
        reservable: Balance,
    ) -> Result<(LedgerState, Seq<Effect>), Error> {
        let old_deposit = self.metadata_deposit(id);
        let bytes = name.len() + symbol.len();
        let deposit = metadata_deposit_of(self.config, bytes);
        let next = LedgerState {
            metadata: self.metadata.insert(id, MetadataView { deposit, name, symbol, decimals }),
            ..self
        };
        if name.len() > self.config.string_limit || symbol.len() > self.config.string_limit {
            Err(Error::BadMetadata)
        } else if !self.assets.contains_key(id) {
            Err(Error::Unknown)
        } else if self.assets[id].owner != caller {
            Err(Error::NoPermission)
        } else if bytes == 0 && decimals == 0 {
            Ok((
                LedgerState { metadata: self.metadata.remove(id), ..self },
                seq![Effect::Unreserve(caller, old_deposit)],
            ))
        } else if deposit > old_deposit {
            if deposit - old_deposit > reservable {
                Err(Error::InsufficientBalance)
            } else {
                Ok((next, seq![Effect::Reserve(caller, (deposit - old_deposit) as Balance)]))
            }
        } else {
            Ok((next, seq![Effect::Unreserve(caller, (old_deposit - deposit) as Balance)]))
        }
    }
}

} // verus!
