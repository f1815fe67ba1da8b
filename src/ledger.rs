use vstd::prelude::*;
use std::collections::HashMap;
use crate::state::{credit_of, zombie_set, LedgerState};
use crate::types::{
    AccountId, AssetBalance, AssetDetails, AssetFeature, AssetId, AssetMetadata, Balance, Config,
    Effect, Error, Event, Receipt,
};
use crate::zombie::{dead_account, dezombify, new_account};
use crate::deposit::{asset_deposit, metadata_deposit};
use crate::feature::new_feature_detail;
use crate::supply::{lemma_sum_insert, lemma_sum_nonneg, lemma_sum_remove, lemma_sum_two};

verus! {

/// The asset ledger: class records, holder records, metadata and features.
pub struct Pallet {
    config: Config,
    assets: HashMap<AssetId, AssetDetails>,
    accounts: HashMap<AssetId, HashMap<AccountId, AssetBalance>>,
    metadata: HashMap<AssetId, AssetMetadata>,
    features: HashMap<AssetId, AssetFeature>,
}

impl View for Pallet {
    type V = LedgerState;

    closed spec fn view(&self) -> LedgerState {
        LedgerState {
            config: self.config,
            assets: self.assets@,
            accounts: Map::new(
                |id: AssetId| self.accounts@.contains_key(id),
                |id: AssetId| self.accounts@[id]@,
            ),
            metadata: self.metadata@.map_values(|m: AssetMetadata| m@),
            features: self.features@,
        }
    }
}

/// Inserting `v` at `k` changes the zombie count by what `v` and the record it
/// replaces contribute.
pub proof fn lemma_zombie_set_insert(m: Map<AccountId, AssetBalance>, k: AccountId, v: AssetBalance)
    requires
        m.dom().finite(),
    ensures
        zombie_set(m.insert(k, v)).finite(),
        zombie_set(m.insert(k, v)).len() + (if m.contains_key(k) && m[k].is_zombie { 1int } else { 0 })
            == zombie_set(m).len() + (if v.is_zombie { 1int } else { 0 }),
{
    let z = zombie_set(m);
    let z2 = zombie_set(m.insert(k, v));
    m.dom().lemma_len_filter(|w: AccountId| m[w].is_zombie);
    if v.is_zombie {
        assert(z2 =~= z.insert(k));
    } else {
        assert(z2 =~= z.remove(k));
    }
}

/// Removing `k` lowers the zombie count by one exactly where `k` was a zombie.
pub proof fn lemma_zombie_set_remove(m: Map<AccountId, AssetBalance>, k: AccountId)
    requires
        m.dom().finite(),
    ensures
        zombie_set(m.remove(k)).finite(),
        zombie_set(m.remove(k)).len() + (if m.contains_key(k) && m[k].is_zombie { 1int } else { 0 })
            == zombie_set(m).len(),
{
    let z = zombie_set(m);
    let z2 = zombie_set(m.remove(k));
    m.dom().lemma_len_filter(|w: AccountId| m[w].is_zombie);
    assert(z2 =~= z.remove(k));
}

/// There are no more zombies than holders.
pub proof fn lemma_zombie_set_bound(m: Map<AccountId, AssetBalance>)
    requires
        m.dom().finite(),
    ensures
        zombie_set(m).len() <= m.dom().len(),
{
    m.dom().lemma_len_filter(|w: AccountId| m[w].is_zombie);
}

/// `r`, with the state `after` that it left, is the outcome that `expected`
/// describes; a refused operation leaves the state as it was in `before`.
pub open spec fn receipt_matches(
    expected: Result<(LedgerState, Event, Seq<Effect>), Error>,
    r: Result<Receipt, Error>,
    before: LedgerState,
    after: LedgerState,
) -> bool {
    match (expected, r) {
        (Ok((s2, ev, effects)), Ok(rc)) => after == s2 && rc.event == ev && rc.effects@ == effects,
        (Err(e), Err(e2)) => e == e2 && after == before,
        _ => false,
    }
}

/// Like `receipt_matches`, for an operation whose notification does not
/// depend on the outcome: `r` carries `event`.
pub open spec fn change_matches(
    expected: Result<(LedgerState, Seq<Effect>), Error>,
    event: Event,
    r: Result<Receipt, Error>,
    before: LedgerState,
    after: LedgerState,
) -> bool {
    match expected {
        Ok((s2, effects)) => receipt_matches(Ok((s2, event, effects)), r, before, after),
        Err(e) => receipt_matches(Err(e), r, before, after),
    }
}

/// A state that differs from a well-formed one only in class `id`, and is
/// consistent there, is well-formed.
proof fn lemma_wf_local(s: LedgerState, s2: LedgerState, id: AssetId)
    requires
        s.wf(),
        s2.assets == s.assets.insert(id, s2.assets[id]),
        s2.metadata == s.metadata,
        forall|j: AssetId| j != id ==> #[trigger] s2.holders(j) == s.holders(j),
        s2.class_wf(id),
        s2.holders(id).dom().finite(),
        forall|who: AccountId| #[trigger]
            s2.holders(id).contains_key(who) ==> s2.holders(id)[who].balance >= s2.assets[id].min_balance,
    ensures
        s2.wf(),
{
    assert forall|j: AssetId| #[trigger] s2.assets.contains_key(j) implies s2.class_wf(j) by {
        if j != id {
            assert(s.assets.contains_key(j));
            assert(s2.holders(j) == s.holders(j));
        }
    }
    assert forall|j: AssetId| #[trigger] s2.holders(j).dom().finite() by {
        if j != id {
            assert(s2.holders(j) == s.holders(j));
        }
    }
    assert forall|j: AssetId, who: AccountId| #[trigger] s2.holders(j).contains_key(who) implies {
        &&& s2.assets.contains_key(j)
        &&& s2.holders(j)[who].balance >= s2.assets[j].min_balance
    } by {
        if j != id {
            assert(s2.holders(j) == s.holders(j));
            assert(s.holders(j).contains_key(who));
        }
    }
}

/// A one-element list of effects.
fn one_effect(e: Effect) -> (r: Vec<Effect>)
    ensures
        r@ == seq![e],
{
    let mut r: Vec<Effect> = Vec::new();
    r.push(e);
    r
}

/// Removing class `id` with its holders and metadata keeps a ledger well-formed.
proof fn lemma_wf_remove_class(s: LedgerState, id: AssetId)
    requires
        s.wf(),
    ensures
        (LedgerState {
            assets: s.assets.remove(id),
            accounts: s.accounts.remove(id),
            metadata: s.metadata.remove(id),
            ..s
        }).wf(),
{
    let s2 = LedgerState {
        assets: s.assets.remove(id),
        accounts: s.accounts.remove(id),
        metadata: s.metadata.remove(id),
        ..s
    };
    assert forall|j: AssetId| #[trigger] s2.assets.contains_key(j) implies s2.class_wf(j) by {
        assert(s.assets.contains_key(j));
        assert(s2.holders(j) == s.holders(j));
    }
    assert forall|j: AssetId| #[trigger] s2.holders(j).dom().finite() by {
        if j != id {
            assert(s2.holders(j) == s.holders(j));
        } else {
            assert(s2.holders(j) == Map::<AccountId, AssetBalance>::empty());
        }
    }
    assert forall|j: AssetId, who: AccountId| #[trigger] s2.holders(j).contains_key(who) implies {
        &&& s2.assets.contains_key(j)
        &&& s2.holders(j)[who].balance >= s2.assets[j].min_balance
    } by {
        assert(j != id);
        assert(s2.holders(j) == s.holders(j));
        assert(s.holders(j).contains_key(who));
    }
}

/// Well-formedness depends on the class and holder records alone.
proof fn lemma_wf_same_records(s: LedgerState, s2: LedgerState)
    requires
        s.wf(),
        s2.assets == s.assets,
        s2.accounts == s.accounts,
        s2.metadata.dom().subset_of(s2.assets.dom()),
    ensures
        s2.wf(),
{
    assert forall|j: AssetId| #[trigger] s2.assets.contains_key(j) implies s2.class_wf(j) by {
        assert(s.class_wf(j));
    }
    assert forall|j: AssetId| #[trigger] s2.holders(j).dom().finite() by {
        assert(s.holders(j).dom().finite());
    }
    assert forall|j: AssetId, who: AccountId| #[trigger] s2.holders(j).contains_key(who) implies {
        &&& s2.assets.contains_key(j)
        &&& s2.holders(j)[who].balance >= s2.assets[j].min_balance
    } by {
        assert(s.holders(j).contains_key(who));
    }
}

/// A class that does not exist has no holders.
proof fn lemma_absent_class_empty(s: LedgerState, id: AssetId)
    requires
        s.wf(),
        !s.assets.contains_key(id),
    ensures
        s.holders(id).dom() == Set::<AccountId>::empty(),
        zombie_set(s.holders(id)) == Set::<AccountId>::empty(),
        crate::supply::sum_balances(s.holders(id)) == 0,
{
    assert(s.holders(id).dom() =~= Set::<AccountId>::empty());
    assert(s.holders(id).dom().finite());
    assert(zombie_set(s.holders(id)) =~= Set::<AccountId>::empty());
}

/// Crediting `amount` to the record `a` of holder `who` in the class `d`.
fn credit(d: &mut AssetDetails, a: AssetBalance, who: AccountId, amount: Balance, exists: bool, effects: &mut Vec<Effect>)
    -> (r: Result<AssetBalance, Error>)
    ensures
        match credit_of(*old(d), a, who, amount, exists) {
            Ok((d2, a2, e)) => r == Ok::<AssetBalance, Error>(a2) && *final(d) == d2
                && final(effects)@ == old(effects)@ + e,
            Err(e) => r == Err::<AssetBalance, Error>(e) && *final(d) == *old(d)
                && final(effects)@ == old(effects)@,
        },
{
    let nb = a.balance.saturating_add(amount);
    if nb < d.min_balance {
        return Err(Error::BalanceLow);
    }
    let mut b = a;
    if a.balance == 0 {
        match new_account(who, d, exists, effects) {
            Ok(z) => {
                b.is_zombie = z;
            },
            Err(e) => {
                return Err(e);
            },
        }
    } else {
        assert(effects@ =~= old(effects)@ + seq![]);
    }
    b.balance = nb;
    Ok(b)
}

impl Pallet {
    pub open spec fn wf(&self) -> bool {
        self@.wf()
    }

    /// An empty ledger with the given parameters.
    pub fn new(config: Config) -> (r: Pallet)
        ensures
            r@.config == config,
            r@.assets == Map::<AssetId, AssetDetails>::empty(),
            forall|id: AssetId| #[trigger] r@.holders(id) == Map::<AccountId, AssetBalance>::empty(),
            r@.metadata == Map::<AssetId, crate::types::MetadataView>::empty(),
            r@.features == Map::<AssetId, AssetFeature>::empty(),
            r.wf(),
    {
        let r = Pallet {
            config,
            assets: HashMap::new(),
            accounts: HashMap::new(),
            metadata: HashMap::new(),
            features: HashMap::new(),
        };
        assert(r@.metadata =~= Map::<AssetId, crate::types::MetadataView>::empty());
        r
    }

    /// The ledger's parameters.
    pub fn config(&self) -> (r: Config)
        ensures
            r == self@.config,
    {
        self.config
    }

    /// The record of class `id`, if it exists.
    pub fn asset_details(&self, id: AssetId) -> (r: Option<AssetDetails>)
        ensures
            r == (if self@.assets.contains_key(id) { Some(self@.assets[id]) } else { None::<AssetDetails> }),
    {
        match self.assets.get(&id) {
            Some(d) => Some(*d),
            None => None,
        }
    }

    /// The record of holder `who` in class `id`, if it has one.
    pub fn account(&self, id: AssetId, who: AccountId) -> (r: Option<AssetBalance>)
        ensures
            r == self@.account(id, who),
    {
        match self.accounts.get(&id) {
            Some(inner) => match inner.get(&who) {
                Some(b) => Some(*b),
                None => None,
            },
            None => None,
        }
    }

    /// The record of holder `who` in class `id`, or the empty record.
    fn account_or_empty(&self, id: AssetId, who: AccountId) -> (r: AssetBalance)
        ensures
            r == self@.account_or_empty(id, who),
    {
        match self.account(id, who) {
            Some(b) => b,
            None => AssetBalance { balance: 0, is_frozen: false, is_zombie: false },
        }
    }

    /// The balance of `who` in class `id`; zero without an entry.
    pub fn balance(&self, id: AssetId, who: AccountId) -> (r: Balance)
        ensures
            r == self@.account_or_empty(id, who).balance,
    {
        self.account_or_empty(id, who).balance
    }

    /// The supply of class `id`; zero where it does not exist.
    pub fn total_supply(&self, id: AssetId) -> (r: Balance)
        ensures
            r == (if self@.assets.contains_key(id) { self@.assets[id].supply } else { 0 }),
    {
        match self.assets.get(&id) {
            Some(d) => d.supply,
            None => 0,
        }
    }

    /// How many more zombies class `id` can take; zero where it does not exist.
    pub fn zombie_allowance(&self, id: AssetId) -> (r: u32)
        requires
            self.wf(),
        ensures
            r == (if self@.assets.contains_key(id) {
                self@.assets[id].max_zombies - self@.assets[id].zombies
            } else {
                0
            }),
    {
        match self.assets.get(&id) {
            Some(d) => {
                assert(self@.class_wf(id));
                d.max_zombies - d.zombies
            },
            None => 0,
        }
    }

    /// The features of class `id`, if it was ever created.
    pub fn feature(&self, id: AssetId) -> (r: Option<AssetFeature>)
        ensures
            r == (if self@.features.contains_key(id) { Some(self@.features[id]) } else { None::<AssetFeature> }),
    {
        match self.features.get(&id) {
            Some(f) => Some(*f),
            None => None,
        }
    }

    fn put_asset(&mut self, id: AssetId, d: AssetDetails)
        ensures
            final(self)@ == old(self)@.with_asset(id, d),
    {
        self.assets.insert(id, d);
        assert(final(self)@ =~= old(self)@.with_asset(id, d));
    }

    fn put_account(&mut self, id: AssetId, who: AccountId, b: AssetBalance)
        ensures
            final(self)@ == old(self)@.with_account(id, who, b),
    {
        let mut inner = match self.accounts.remove(&id) {
            Some(m) => m,
            None => HashMap::new(),
        };
        inner.insert(who, b);
        self.accounts.insert(id, inner);
        assert(final(self)@.accounts =~= old(self)@.with_account(id, who, b).accounts);
        assert(final(self)@ =~= old(self)@.with_account(id, who, b));
    }

    fn remove_account(&mut self, id: AssetId, who: AccountId)
        ensures
            final(self)@ == old(self)@.without_account(id, who),
    {
        let mut inner = match self.accounts.remove(&id) {
            Some(m) => m,
            None => HashMap::new(),
        };
        inner.remove(&who);
        self.accounts.insert(id, inner);
        assert(final(self)@.accounts =~= old(self)@.without_account(id, who).accounts);
        assert(final(self)@ =~= old(self)@.without_account(id, who));
    }

    /// Moves `amount` of class `id` from `from` to `to`, sweeping a remainder
    /// under the minimum balance along; returns the amount moved and the effects.
    fn move_balance(
        &mut self,
        id: AssetId,
        from: AccountId,
        to: AccountId,
        amount: Balance,
        from_exists: bool,
        to_exists: bool,
    ) -> (r: Result<(Balance, Vec<Effect>), Error>)
        requires
            old(self).wf(),
            old(self)@.assets.contains_key(id),
            from != to,
            0 < amount <= old(self)@.account_or_empty(id, from).balance,
        ensures
            final(self).wf(),
            match old(self)@.move_balance(id, from, to, amount, from_exists, to_exists) {
                Ok((s2, moved, e)) => r matches Ok((m, effects)) && m == moved && effects@ == e
                    && final(self)@ == s2,
                Err(e) => r matches Err(e2) && e2 == e && final(self)@ == old(self)@,
            },
    {
        let ghost s0 = self@;
        let d0 = match self.assets.get(&id) {
            Some(d) => *d,
            None => {
                return Err(Error::Unknown);
            },
        };
        let mut d = d0;
        let a = self.account_or_empty(id, from);
        let ghost h0 = s0.holders(id);
        proof {
            assert(s0.class_wf(id));
            assert(h0.contains_key(from));
        }
        let mut rest: Balance = a.balance - amount;
        let mut moved: Balance = amount;
        if rest < d.min_balance {
            moved = amount + rest;
            rest = 0;
        }
        let mut effects: Vec<Effect> = Vec::new();
        let t = self.account_or_empty(id, to);
        proof {
            if !h0.contains_key(to) {
                assert(t.balance == 0);
            } else {
                assert(t.balance >= d0.min_balance);
            }
            lemma_sum_two(h0, from, to);
        }
        let t2 = match credit(&mut d, t, to, moved, to_exists, &mut effects) {
            Ok(b) => b,
            Err(e) => {
                return Err(e);
            },
        };
        let ghost d1 = d;
        let ghost h1 = h0.insert(to, t2);
        proof {
            lemma_zombie_set_insert(h0, to, t2);
            lemma_sum_insert(h0, to, t2);
            assert(d1.accounts == h1.dom().len());
            assert(d1.zombies == zombie_set(h1).len());
            assert(h1.contains_key(from) && h1[from] == a);
        }
        if rest == 0 {
            dead_account(from, &mut d, a.is_zombie, &mut effects);
            self.put_asset(id, d);
            self.put_account(id, to, t2);
            self.remove_account(id, from);
            proof {
                lemma_zombie_set_remove(h1, from);
                lemma_sum_remove(h1, from);
                assert(self@.holders(id) == h1.remove(from));
            }
        } else {
            let mut z = a.is_zombie;
            dezombify(from, &mut d, &mut z, from_exists, &mut effects);
            let b = AssetBalance { balance: rest, is_frozen: a.is_frozen, is_zombie: z };
            self.put_asset(id, d);
            self.put_account(id, to, t2);
            self.put_account(id, from, b);
            proof {
                lemma_zombie_set_insert(h1, from, b);
                lemma_sum_insert(h1, from, b);
                assert(self@.holders(id) == h1.insert(from, b));
            }
        }
        proof {
            lemma_wf_local(s0, self@, id);
        }
        Ok((moved, effects))
    }

    /// The caller sends `amount` of class `id` to `target`. `caller_exists` and
    /// `target_exists` tell whether each has a footprint in the host registry.
    pub fn transfer(
        &mut self,
        caller: AccountId,
        id: AssetId,
        target: AccountId,
        amount: Balance,
        caller_exists: bool,
        target_exists: bool,
    ) -> (r: Result<Receipt, Error>)
        requires
            old(self).wf(),
        ensures
            final(self).wf(),
            receipt_matches(
                old(self)@.transfer(caller, id, target, amount, caller_exists, target_exists),
                r,
                old(self)@,
                final(self)@,
            ),
    {
        if amount == 0 {
            return Err(Error::AmountZero);
        }
        let a = self.account_or_empty(id, caller);
        if a.is_frozen {
            return Err(Error::Frozen);
        }
        if a.balance < amount {
            return Err(Error::BalanceLow);
        }
        let d = match self.assets.get(&id) {
            Some(d) => *d,
            None => {
                return Err(Error::Unknown);
            },
        };
        if d.is_frozen {
            return Err(Error::Frozen);
        }
        if target == caller {
            return Ok(Receipt { event: Event::Transferred(id, caller, caller, amount), effects: Vec::new() });
        }
        match self.move_balance(id, caller, target, amount, caller_exists, target_exists) {
            Ok((moved, effects)) => Ok(Receipt { event: Event::Transferred(id, caller, target, moved), effects }),
            Err(e) => Err(e),
        }
    }

    /// An admin (`permitted`) moves up to `amount` of class `id` from `source`
    /// to `dest`, regardless of freezing.
    pub fn force_transfer(
        &mut self,
        permitted: bool,
        id: AssetId,
        source: AccountId,
        dest: AccountId,
        amount: Balance,
        source_exists: bool,
        dest_exists: bool,
    ) -> (r: Result<Receipt, Error>)
        requires
            old(self).wf(),
        ensures
            final(self).wf(),
            receipt_matches(
                old(self)@.force_transfer(permitted, id, source, dest, amount, source_exists, dest_exists),
                r,
                old(self)@,
                final(self)@,
            ),
    {
        let a = self.account_or_empty(id, source);
        let part = if amount <= a.balance { amount } else { a.balance };
        if part == 0 {
            return Err(Error::AmountZero);
        }
        if !self.assets.contains_key(&id) {
            return Err(Error::Unknown);
        }
        if !permitted {
            return Err(Error::NoPermission);
        }
        if dest == source {
            return Ok(Receipt { event: Event::ForceTransferred(id, source, dest, part), effects: Vec::new() });
        }
        match self.move_balance(id, source, dest, part, source_exists, dest_exists) {
            Ok((moved, effects)) => Ok(Receipt { event: Event::ForceTransferred(id, source, dest, moved), effects }),
            Err(e) => Err(e),
        }
    }

    fn put_feature(&mut self, id: AssetId, f: AssetFeature)
        ensures
            final(self)@ == (LedgerState { features: old(self)@.features.insert(id, f), ..old(self)@ }),
    {
        self.features.insert(id, f);
        assert(final(self)@ =~= (LedgerState { features: old(self)@.features.insert(id, f), ..old(self)@ }));
    }

    /// Inserts the record of a new class `id` with its features.
    fn found_class(&mut self, id: AssetId, d: AssetDetails, f: AssetFeature)
        requires
            old(self).wf(),
            !old(self)@.assets.contains_key(id),
            d.min_balance > 0,
            d.zombies == 0,
            d.accounts == 0,
            d.supply == 0,
        ensures
            final(self).wf(),
            final(self)@ == (LedgerState {
                assets: old(self)@.assets.insert(id, d),
                features: old(self)@.features.insert(id, f),
                ..old(self)@
            }),
    {
        let ghost s0 = self@;
        proof {
            lemma_absent_class_empty(s0, id);
        }
        self.put_asset(id, d);
        self.put_feature(id, f);
        proof {
            lemma_wf_local(s0, self@, id);
        }
        assert(final(self)@ =~= (LedgerState {
            assets: old(self)@.assets.insert(id, d),
            features: old(self)@.features.insert(id, f),
            ..old(self)@
        }));
    }

    /// The caller founds class `id`, reserving its deposit; `reservable` is the
    /// most the currency can reserve from the caller.
    pub fn create(
        &mut self,
        caller: AccountId,
        id: AssetId,
        max_zombies: u32,
        min_balance: Balance,
        feature_code: u32,
        reservable: Balance,
    ) -> (r: Result<Receipt, Error>)
        requires
            old(self).wf(),
        ensures
            final(self).wf(),
            receipt_matches(
                old(self)@.create(caller, id, max_zombies, min_balance, feature_code, reservable),
                r,
                old(self)@,
                final(self)@,
            ),
    {
        if self.assets.contains_key(&id) {
            return Err(Error::InUse);
        }
        if min_balance == 0 {
            return Err(Error::MinBalanceZero);
        }
        if feature_code == 0 {
            return Err(Error::BadFeaturePoint);
        }
        let deposit = asset_deposit(&self.config, max_zombies);
        if deposit > reservable {
            return Err(Error::InsufficientBalance);
        }
        let d = AssetDetails {
            owner: caller,
            supply: 0,
            deposit,
            max_zombies,
            min_balance,
            zombies: 0,
            accounts: 0,
            is_frozen: false,
            is_featured: true,
        };
        self.found_class(id, d, new_feature_detail(feature_code));
        Ok(Receipt { event: Event::Created(id, caller), effects: one_effect(Effect::Reserve(caller, deposit)) })
    }

    /// Founds class `id` for `owner` without a deposit; its features are drawn
    /// from `seed`, a random number.
    pub fn force_create(
        &mut self,
        id: AssetId,
        owner: AccountId,
        max_zombies: u32,
        min_balance: Balance,
        seed: u32,
    ) -> (r: Result<Receipt, Error>)
        requires
            old(self).wf(),
        ensures
            final(self).wf(),
            receipt_matches(
                old(self)@.force_create(id, owner, max_zombies, min_balance, seed),
                r,
                old(self)@,
                final(self)@,
            ),
    {
        if self.assets.contains_key(&id) {
            return Err(Error::InUse);
        }
        if min_balance == 0 {
            return Err(Error::MinBalanceZero);
        }
        let d = AssetDetails {
            owner,
            supply: 0,
            deposit: 0,
            max_zombies,
            min_balance,
            zombies: 0,
            accounts: 0,
            is_frozen: false,
            is_featured: true,
        };
        self.found_class(id, d, new_feature_detail(seed));
        Ok(Receipt { event: Event::ForceCreated(id, owner), effects: Vec::new() })
    }

    /// Removes the existing class `id`, where only zombies hold it and at most
    /// `zombies_witness` of them.
    fn remove_class(&mut self, id: AssetId, d: AssetDetails, zombies_witness: u32) -> (r: Result<Receipt, Error>)
        requires
            old(self).wf(),
            old(self)@.assets.contains_key(id),
            d == old(self)@.assets[id],
        ensures
            final(self).wf(),
            receipt_matches(old(self)@.remove_class(id, zombies_witness), r, old(self)@, final(self)@),
    {
        if d.accounts != d.zombies {
            return Err(Error::RefsLeft);
        }
        if d.zombies > zombies_witness {
            return Err(Error::BadWitness);
        }
        let ghost s0 = self@;
        let metadata_deposit = match self.metadata.remove(&id) {
            Some(m) => m.deposit,
            None => 0,
        };
        self.assets.remove(&id);
        self.accounts.remove(&id);
        proof {
            lemma_wf_remove_class(s0, id);
            assert(self@.accounts =~= s0.accounts.remove(id));
            assert(self@.metadata =~= s0.metadata.remove(id));
            assert(self@ =~= (LedgerState {
                assets: s0.assets.remove(id),
                accounts: s0.accounts.remove(id),
                metadata: s0.metadata.remove(id),
                ..s0
            }));
        }
        let refund = d.deposit.saturating_add(metadata_deposit);
        Ok(Receipt { event: Event::Destroyed(id), effects: one_effect(Effect::Unreserve(d.owner, refund)) })
    }

    /// The owner destroys class `id`, which only zombies hold, at most
    /// `zombies_witness` of them; its deposits return to the owner.
    pub fn destroy(&mut self, caller: AccountId, id: AssetId, zombies_witness: u32) -> (r: Result<Receipt, Error>)
        requires
            old(self).wf(),
        ensures
            final(self).wf(),
            receipt_matches(old(self)@.destroy(caller, id, zombies_witness), r, old(self)@, final(self)@),
    {
        let d = match self.assets.get(&id) {
            Some(d) => *d,
            None => {
                return Err(Error::Unknown);
            },
        };
        if d.owner != caller {
            return Err(Error::NoPermission);
        }
        self.remove_class(id, d, zombies_witness)
    }

    /// Destroys class `id` without an owner's consent; otherwise as `destroy`.
    pub fn force_destroy(&mut self, id: AssetId, zombies_witness: u32) -> (r: Result<Receipt, Error>)
        requires
            old(self).wf(),
        ensures
            final(self).wf(),
            receipt_matches(old(self)@.force_destroy(id, zombies_witness), r, old(self)@, final(self)@),
    {
        let d = match self.assets.get(&id) {
            Some(d) => *d,
            None => {
                return Err(Error::Unknown);
            },
        };
        self.remove_class(id, d, zombies_witness)
    }

    /// An issuer (`permitted`) creates `amount` new units of class `id` for
    /// `beneficiary`; `beneficiary_exists` tells whether it has a footprint in
    /// the host registry.
    pub fn mint(
        &mut self,
        permitted: bool,
        id: AssetId,
        beneficiary: AccountId,
        amount: Balance,
        beneficiary_exists: bool,
    ) -> (r: Result<Receipt, Error>)
        requires
            old(self).wf(),
        ensures
            final(self).wf(),
            receipt_matches(
                old(self)@.mint(permitted, id, beneficiary, amount, beneficiary_exists),
                r,
                old(self)@,
                final(self)@,
            ),
    {
        let ghost s0 = self@;
        let d0 = match self.assets.get(&id) {
            Some(d) => *d,
            None => {
                return Err(Error::Unknown);
            },
        };
        if !permitted {
            return Err(Error::NoPermission);
        }
        let supply = match d0.supply.checked_add(amount) {
            Some(x) => x,
            None => {
                return Err(Error::Overflow);
            },
        };
        let mut d = AssetDetails { supply, ..d0 };
        let t = self.account_or_empty(id, beneficiary);
        let ghost h0 = s0.holders(id);
        proof {
            assert(s0.class_wf(id));
            if h0.contains_key(beneficiary) {
                assert(t.balance >= d0.min_balance);
                lemma_sum_remove(h0, beneficiary);
                lemma_sum_nonneg(h0.remove(beneficiary));
            }
        }
        let mut effects: Vec<Effect> = Vec::new();
        let t2 = match credit(&mut d, t, beneficiary, amount, beneficiary_exists, &mut effects) {
            Ok(b) => b,
            Err(e) => {
                return Err(e);
            },
        };
        self.put_asset(id, d);
        self.put_account(id, beneficiary, t2);
        proof {
            lemma_zombie_set_insert(h0, beneficiary, t2);
            lemma_sum_insert(h0, beneficiary, t2);
            assert(self@.holders(id) == h0.insert(beneficiary, t2));
            lemma_wf_local(s0, self@, id);
        }
        Ok(Receipt { event: Event::Issued(id, beneficiary, amount), effects })
    }

    /// An admin (`permitted`) burns up to `amount` of the holder `who`'s
    /// balance in class `id`; a remainder under the minimum balance is burned
    /// too and the entry removed.
    pub fn burn(&mut self, permitted: bool, id: AssetId, who: AccountId, amount: Balance) -> (r: Result<Receipt, Error>)
        requires
            old(self).wf(),
        ensures
            final(self).wf(),
            receipt_matches(old(self)@.burn(permitted, id, who, amount), r, old(self)@, final(self)@),
    {
        let ghost s0 = self@;
        let d0 = match self.assets.get(&id) {
            Some(d) => *d,
            None => {
                return Err(Error::Unknown);
            },
        };
        if !permitted {
            return Err(Error::NoPermission);
        }
        let a = match self.account(id, who) {
            Some(a) => a,
            None => {
                return Err(Error::BalanceZero);
            },
        };
        let ghost h0 = s0.holders(id);
        proof {
            assert(s0.class_wf(id));
            assert(h0.contains_key(who));
            lemma_sum_remove(h0, who);
            lemma_sum_nonneg(h0.remove(who));
        }
        let part = if amount <= a.balance { amount } else { a.balance };
        let rest = a.balance - part;
        let mut d = d0;
        let mut effects: Vec<Effect> = Vec::new();
        if rest < d.min_balance {
            let burned = part + rest;
            dead_account(who, &mut d, a.is_zombie, &mut effects);
            d.supply = d.supply.saturating_sub(burned);
            self.put_asset(id, d);
            self.remove_account(id, who);
            proof {
                lemma_zombie_set_remove(h0, who);
                assert(self@.holders(id) == h0.remove(who));
                lemma_wf_local(s0, self@, id);
            }
            Ok(Receipt { event: Event::Burned(id, who, burned), effects })
        } else {
            d.supply = d.supply.saturating_sub(part);
            let b = AssetBalance { balance: rest, is_frozen: a.is_frozen, is_zombie: a.is_zombie };
            self.put_asset(id, d);
            self.put_account(id, who, b);
            proof {
                lemma_zombie_set_insert(h0, who, b);
                lemma_sum_insert(h0, who, b);
                assert(self@.holders(id) == h0.insert(who, b));
                lemma_wf_local(s0, self@, id);
            }
            Ok(Receipt { event: Event::Burned(id, who, part), effects })
        }
    }

    fn set_account_frozen(&mut self, permitted: bool, id: AssetId, who: AccountId, frozen: bool, event: Event)
        -> (r: Result<Receipt, Error>)
        requires
            old(self).wf(),
        ensures
            final(self).wf(),
            change_matches(old(self)@.set_account_frozen(permitted, id, who, frozen), event, r, old(self)@, final(self)@),
    {
        if !permitted {
            return Err(Error::NoPermission);
        }
        let a = match self.account(id, who) {
            Some(a) => a,
            None => {
                return Err(Error::BalanceZero);
            },
        };
        let ghost s0 = self@;
        let ghost h0 = s0.holders(id);
        let b = AssetBalance { balance: a.balance, is_frozen: frozen, is_zombie: a.is_zombie };
        self.put_account(id, who, b);
        proof {
            assert(h0.contains_key(who));
            assert(s0.assets.contains_key(id));
            assert(s0.class_wf(id));
            assert(s0.assets.insert(id, s0.assets[id]) =~= s0.assets);
            lemma_zombie_set_insert(h0, who, b);
            lemma_sum_insert(h0, who, b);
            assert(self@.holders(id) == h0.insert(who, b));
            lemma_wf_local(s0, self@, id);
        }
        Ok(Receipt { event, effects: Vec::new() })
    }

    /// A freezer (`permitted`) freezes the entry of `who` in class `id`.
    pub fn freeze(&mut self, permitted: bool, id: AssetId, who: AccountId) -> (r: Result<Receipt, Error>)
        requires
            old(self).wf(),
        ensures
            final(self).wf(),
            change_matches(
                old(self)@.set_account_frozen(permitted, id, who, true),
                Event::Frozen(id, who),
                r,
                old(self)@,
                final(self)@,
            ),
    {
        self.set_account_frozen(permitted, id, who, true, Event::Frozen(id, who))
    }

    /// An admin (`permitted`) thaws the entry of `who` in class `id`.
    pub fn thaw(&mut self, permitted: bool, id: AssetId, who: AccountId) -> (r: Result<Receipt, Error>)
        requires
            old(self).wf(),
        ensures
            final(self).wf(),
            change_matches(
                old(self)@.set_account_frozen(permitted, id, who, false),
                Event::Thawed(id, who),
                r,
                old(self)@,
                final(self)@,
            ),
    {
        self.set_account_frozen(permitted, id, who, false, Event::Thawed(id, who))
    }

    fn set_asset_frozen(&mut self, permitted: bool, id: AssetId, frozen: bool, event: Event) -> (r: Result<Receipt, Error>)
        requires
            old(self).wf(),
        ensures
            final(self).wf(),
            change_matches(old(self)@.set_asset_frozen(permitted, id, frozen), event, r, old(self)@, final(self)@),
    {
        let d = match self.assets.get(&id) {
            Some(d) => *d,
            None => {
                return Err(Error::Unknown);
            },
        };
        if !permitted {
            return Err(Error::NoPermission);
        }
        let ghost s0 = self@;
        self.put_asset(id, AssetDetails { is_frozen: frozen, ..d });
        proof {
            assert(s0.class_wf(id));
            lemma_wf_local(s0, self@, id);
        }
        Ok(Receipt { event, effects: Vec::new() })
    }

    /// A freezer (`permitted`) freezes class `id`: no holder can transfer.
    pub fn freeze_asset(&mut self, permitted: bool, id: AssetId) -> (r: Result<Receipt, Error>)
        requires
            old(self).wf(),
        ensures
            final(self).wf(),
            change_matches(
                old(self)@.set_asset_frozen(permitted, id, true),
                Event::AssetFrozen(id),
                r,
                old(self)@,
                final(self)@,
            ),
    {
        self.set_asset_frozen(permitted, id, true, Event::AssetFrozen(id))
    }

    /// An admin (`permitted`) thaws class `id`.
    pub fn thaw_asset(&mut self, permitted: bool, id: AssetId) -> (r: Result<Receipt, Error>)
        requires
            old(self).wf(),
        ensures
            final(self).wf(),
            change_matches(
                old(self)@.set_asset_frozen(permitted, id, false),
                Event::AssetThawed(id),
                r,
                old(self)@,
                final(self)@,
            ),
    {
        self.set_asset_frozen(permitted, id, false, Event::AssetThawed(id))
    }

    /// The owner of class `id` hands it, with its reserved deposit, to `owner`;
    /// `repatriable` tells whether the currency can move the reserved deposit
    /// to `owner`.
    pub fn transfer_ownership(&mut self, caller: AccountId, id: AssetId, owner: AccountId, repatriable: bool)
        -> (r: Result<Receipt, Error>)
        requires
            old(self).wf(),
        ensures
            final(self).wf(),
            change_matches(
                old(self)@.transfer_ownership(caller, id, owner, repatriable),
                Event::OwnerChanged(id, owner),
                r,
                old(self)@,
                final(self)@,
            ),
    {
        let d = match self.assets.get(&id) {
            Some(d) => *d,
            None => {
                return Err(Error::Unknown);
            },
        };
        if d.owner != caller {
            return Err(Error::NoPermission);
        }
        if d.owner == owner {
            return Ok(Receipt { event: Event::OwnerChanged(id, owner), effects: Vec::new() });
        }
        if !repatriable {
            return Err(Error::DepositNotMoved);
        }
        let ghost s0 = self@;
        self.put_asset(id, AssetDetails { owner, ..d });
        proof {
            assert(s0.class_wf(id));
            lemma_wf_local(s0, self@, id);
        }
        Ok(Receipt {
            event: Event::OwnerChanged(id, owner),
            effects: one_effect(Effect::Repatriate(d.owner, owner, d.deposit)),
        })
    }

    /// The owner of class `id` sets its zombie capacity to `max_zombies`,
    /// reserving or releasing the difference in deposit; `reservable` is the
    /// most the currency can reserve from the caller.
    pub fn set_max_zombies(&mut self, caller: AccountId, id: AssetId, max_zombies: u32, reservable: Balance)
        -> (r: Result<Receipt, Error>)
        requires
            old(self).wf(),
        ensures
            final(self).wf(),
            change_matches(
                old(self)@.set_max_zombies(caller, id, max_zombies, reservable),
                Event::MaxZombiesChanged(id, max_zombies),
                r,
                old(self)@,
                final(self)@,
            ),
    {
        let d = match self.assets.get(&id) {
            Some(d) => *d,
            None => {
                return Err(Error::Unknown);
            },
        };
        if d.owner != caller {
            return Err(Error::NoPermission);
        }
        if max_zombies < d.zombies {
            return Err(Error::TooManyZombies);
        }
        let deposit = asset_deposit(&self.config, max_zombies);
        let effect = if deposit > d.deposit {
            if deposit - d.deposit > reservable {
                return Err(Error::InsufficientBalance);
            }
            Effect::Reserve(caller, deposit - d.deposit)
        } else {
            Effect::Unreserve(caller, d.deposit - deposit)
        };
        let ghost s0 = self@;
        self.put_asset(id, AssetDetails { max_zombies, deposit, ..d });
        proof {
            assert(s0.class_wf(id));
            lemma_wf_local(s0, self@, id);
        }
        Ok(Receipt { event: Event::MaxZombiesChanged(id, max_zombies), effects: one_effect(effect) })
    }

    /// The owner of class `id` sets its metadata, or clears it by giving empty
    /// strings and no decimals, reserving or releasing the difference in
    /// deposit; `reservable` is the most the currency can reserve from the caller.
    pub fn set_metadata(
        &mut self,
        caller: AccountId,
        id: AssetId,
        name: Vec<u8>,
        symbol: Vec<u8>,
        decimals: u8,
        reservable: Balance,
    ) -> (r: Result<Receipt, Error>)
        requires
            old(self).wf(),
        ensures
            final(self).wf(),
            match (old(self)@.set_metadata(caller, id, name@, symbol@, decimals, reservable), r) {
                (Ok((s2, effects)), Ok(rc)) => {
                    &&& final(self)@ == s2
                    &&& rc.effects@ == effects
                    &&& rc.event matches Event::MetadataSet(i, n, sy, dc)
                    &&& i == id && n@ == name@ && sy@ == symbol@ && dc == decimals
                },
                (Err(e), Err(e2)) => e == e2 && final(self)@ == old(self)@,
                _ => false,
            },
    {
        let limit = self.config.string_limit as usize;
        if name.len() > limit || symbol.len() > limit {
            return Err(Error::BadMetadata);
        }
        let d = match self.assets.get(&id) {
            Some(d) => *d,
            None => {
                return Err(Error::Unknown);
            },
        };
        if d.owner != caller {
            return Err(Error::NoPermission);
        }
        let old_deposit = match self.metadata.get(&id) {
            Some(m) => m.deposit,
            None => 0,
        };
        let ghost s0 = self@;
        let bytes: u64 = name.len() as u64 + symbol.len() as u64;
        let effect = if bytes == 0 && decimals == 0 {
            self.metadata.remove(&id);
            assert(self@ =~= (LedgerState { metadata: s0.metadata.remove(id), ..s0 }));
            Effect::Unreserve(caller, old_deposit)
        } else {
            let deposit = metadata_deposit(&self.config, bytes);
            let effect = if deposit > old_deposit {
                if deposit - old_deposit > reservable {
                    return Err(Error::InsufficientBalance);
                }
                Effect::Reserve(caller, deposit - old_deposit)
            } else {
                Effect::Unreserve(caller, old_deposit - deposit)
            };
            let m = AssetMetadata { deposit, name: name.clone(), symbol: symbol.clone(), decimals };
            assert(m.name@ =~= name@);
            assert(m.symbol@ =~= symbol@);
            self.metadata.insert(id, m);
            assert(self@ =~= (LedgerState {
                metadata: s0.metadata.insert(id, crate::types::MetadataView { deposit, name: name@, symbol: symbol@, decimals }),
                ..s0
            }));
            effect
        };
        proof {
            lemma_wf_same_records(s0, self@);
        }
        Ok(Receipt { event: Event::MetadataSet(id, name, symbol, decimals), effects: one_effect(effect) })
    }
}

} // verus!
