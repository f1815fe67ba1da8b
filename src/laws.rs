use vstd::prelude::*;
use crate::deposit::asset_deposit_of;
use crate::ledger::lemma_zombie_set_bound;
use crate::state::{min, zombie_set, LedgerState};
use crate::supply::{lemma_sum_nonneg, lemma_sum_remove, lemma_sum_two, sum_balances};
use crate::types::{AccountId, AssetId, Balance, Effect, Event};

verus! {

/// In a well-formed ledger every class has no more zombies than zombie slots,
/// and no more zombies than holders. Every operation keeps the ledger
/// well-formed, so this holds after every operation.
pub proof fn lemma_class_counters(s: LedgerState, id: AssetId)
    requires
        s.wf(),
        s.assets.contains_key(id),
    ensures
        s.assets[id].zombies <= s.assets[id].max_zombies,
        s.assets[id].zombies <= s.assets[id].accounts,
{
    assert(s.class_wf(id));
    lemma_zombie_set_bound(s.holders(id));
}

/// In a well-formed ledger no holder entry has a zero balance.
pub proof fn lemma_no_empty_entries(s: LedgerState, id: AssetId, who: AccountId)
    requires
        s.wf(),
        s.account(id, who) is Some,
    ensures
        s.account(id, who)->0.balance > 0,
{
    assert(s.holders(id).contains_key(who));
    assert(s.class_wf(id));
}

/// In a well-formed ledger every holder entry belongs to an existing class and
/// holds at least that class's minimum balance.
pub proof fn lemma_entries_reach_minimum(s: LedgerState, id: AssetId, who: AccountId)
    requires
        s.wf(),
        s.account(id, who) is Some,
    ensures
        s.assets.contains_key(id),
        s.account(id, who)->0.balance >= s.assets[id].min_balance,
{
    assert(s.holders(id).contains_key(who));
}

/// Creating a class and destroying it straight away succeeds, hands back
/// exactly the deposit that creation reserved, and leaves the classes, holders
/// and metadata as they were.
pub proof fn lemma_create_destroy_round_trip(
    s: LedgerState,
    caller: AccountId,
    id: AssetId,
    max_zombies: u32,
    min_balance: Balance,
    feature_code: u32,
    reservable: Balance,
    zombies_witness: u32,
)
    requires
        s.wf(),
        s.create(caller, id, max_zombies, min_balance, feature_code, reservable) is Ok,
    ensures
        ({
            let (s1, _, reserved) = s.create(caller, id, max_zombies, min_balance, feature_code, reservable)->Ok_0;
            let deposit = asset_deposit_of(s.config, max_zombies);
            &&& reserved == seq![Effect::Reserve(caller, deposit)]
            &&& s1.destroy(caller, id, zombies_witness) is Ok
            &&& {
                let (s2, event, released) = s1.destroy(caller, id, zombies_witness)->Ok_0;
                &&& released == seq![Effect::Unreserve(caller, deposit)]
                &&& event == Event::Destroyed(id)
                &&& !s2.assets.contains_key(id)
                &&& s2.assets == s.assets
                &&& s2.metadata == s.metadata
                &&& forall|j: AssetId| #[trigger] s2.holders(j) == s.holders(j)
            }
        }),
{
    let (s1, _, _) = s.create(caller, id, max_zombies, min_balance, feature_code, reservable)->Ok_0;
    let (s2, _, _) = s1.destroy(caller, id, zombies_witness)->Ok_0;
    assert(!s.metadata.contains_key(id));
    assert(s2.assets =~= s.assets);
    assert(s2.metadata =~= s.metadata);
    assert forall|j: AssetId| #[trigger] s2.holders(j) == s.holders(j) by {
        if j == id {
            assert(s.holders(id).dom() =~= Set::<AccountId>::empty());
            assert(s.holders(id) =~= Map::empty());
        }
    }
}

/// A transfer to oneself, when it succeeds, changes nothing and asks for no
/// effects.
pub proof fn lemma_self_transfer_no_op(
    s: LedgerState,
    caller: AccountId,
    id: AssetId,
    amount: Balance,
    caller_exists: bool,
    target_exists: bool,
)
    requires
        s.transfer(caller, id, caller, amount, caller_exists, target_exists) is Ok,
    ensures
        s.transfer(caller, id, caller, amount, caller_exists, target_exists)->Ok_0.0 == s,
        s.transfer(caller, id, caller, amount, caller_exists, target_exists)->Ok_0.2 == Seq::<Effect>::empty(),
{
}

/// A forced transfer from an account to itself, when it succeeds, changes
/// nothing and asks for no effects.
pub proof fn lemma_self_force_transfer_no_op(
    s: LedgerState,
    permitted: bool,
    id: AssetId,
    source: AccountId,
    amount: Balance,
    source_exists: bool,
    dest_exists: bool,
)
    requires
        s.force_transfer(permitted, id, source, source, amount, source_exists, dest_exists) is Ok,
    ensures
        s.force_transfer(permitted, id, source, source, amount, source_exists, dest_exists)->Ok_0.0 == s,
        s.force_transfer(permitted, id, source, source, amount, source_exists, dest_exists)->Ok_0.2
            == Seq::<Effect>::empty(),
{
}

/// Handing a class to its current owner, when it succeeds, changes nothing and
/// moves no deposit.
pub proof fn lemma_same_owner_no_op(
    s: LedgerState,
    caller: AccountId,
    id: AssetId,
    owner: AccountId,
    repatriable: bool,
)
    requires
        s.transfer_ownership(caller, id, owner, repatriable) is Ok,
        s.assets.contains_key(id),
        owner == s.assets[id].owner,
    ensures
        s.transfer_ownership(caller, id, owner, repatriable)->Ok_0 == (s, Seq::<Effect>::empty()),
{
}

/// A burn that would leave less than the minimum balance burns the whole
/// balance, removes the entry, and releases its holder slot (and its zombie
/// slot, for a zombie).
pub proof fn lemma_burn_sweeps_dust(s: LedgerState, permitted: bool, id: AssetId, who: AccountId, amount: Balance)
    requires
        s.wf(),
        s.burn(permitted, id, who, amount) is Ok,
        s.account(id, who) is Some,
        s.account(id, who)->0.balance - amount < s.assets[id].min_balance,
    ensures
        ({
            let a = s.account(id, who)->0;
            let d = s.assets[id];
            let (s2, event, _) = s.burn(permitted, id, who, amount)->Ok_0;
            &&& s2.account(id, who) is None
            &&& event == Event::Burned(id, who, a.balance)
            &&& s2.assets[id].accounts == d.accounts - 1
            &&& s2.assets[id].zombies == d.zombies - (if a.is_zombie { 1int } else { 0 })
            &&& s2.assets[id].supply == d.supply - a.balance
        }),
{
    let h = s.holders(id);
    assert(s.class_wf(id));
    assert(h.dom().contains(who));
    lemma_sum_remove(h, who);
    lemma_sum_nonneg(h.remove(who));
    if s.account(id, who)->0.is_zombie {
        assert(zombie_set(h).contains(who));
        crate::ledger::lemma_zombie_set_bound(h);
    }
}

/// A transfer that would leave the sender with less than the minimum balance
/// moves the sender's whole balance, removes the sender's entry, and releases
/// its holder slot (and its zombie slot, for a zombie).
pub proof fn lemma_transfer_sweeps_dust(
    s: LedgerState,
    caller: AccountId,
    id: AssetId,
    target: AccountId,
    amount: Balance,
    caller_exists: bool,
    target_exists: bool,
)
    requires
        s.wf(),
        s.transfer(caller, id, target, amount, caller_exists, target_exists) is Ok,
        target != caller,
        s.account_or_empty(id, caller).balance - amount < s.assets[id].min_balance,
    ensures
        ({
            let a = s.account_or_empty(id, caller);
            let t = s.account_or_empty(id, target);
            let d = s.assets[id];
            let fresh = s.account(id, target) is None;
            let (s2, event, _) = s.transfer(caller, id, target, amount, caller_exists, target_exists)->Ok_0;
            &&& s2.account(id, caller) is None
            &&& event == Event::Transferred(id, caller, target, a.balance)
            &&& s2.account(id, target) is Some
            &&& s2.account(id, target)->0.balance == t.balance + a.balance
            &&& s2.assets[id].accounts == d.accounts + (if fresh { 1int } else { 0 }) - 1
            &&& s2.assets[id].zombies == d.zombies + (if fresh && !target_exists { 1int } else { 0 })
                - (if a.is_zombie { 1int } else { 0 })
        }),
{
    let h = s.holders(id);
    assert(s.class_wf(id));
    assert(h.dom().contains(caller));
    if h.contains_key(target) {
        assert(s.account_or_empty(id, target).balance >= s.assets[id].min_balance);
    }
    lemma_sum_two(h, caller, target);
    if s.account_or_empty(id, caller).is_zombie {
        assert(zombie_set(h).contains(caller));
    }
}

/// A forced transfer that would leave the source with less than the minimum
/// balance moves the source's whole balance, removes the source's entry, and
/// releases its holder slot (and its zombie slot, for a zombie).
pub proof fn lemma_force_transfer_sweeps_dust(
    s: LedgerState,
    permitted: bool,
    id: AssetId,
    source: AccountId,
    dest: AccountId,
    amount: Balance,
    source_exists: bool,
    dest_exists: bool,
)
    requires
        s.wf(),
        s.force_transfer(permitted, id, source, dest, amount, source_exists, dest_exists) is Ok,
        dest != source,
        s.account_or_empty(id, source).balance - min(amount, s.account_or_empty(id, source).balance)
            < s.assets[id].min_balance,
    ensures
        ({
            let a = s.account_or_empty(id, source);
            let t = s.account_or_empty(id, dest);
            let d = s.assets[id];
            let fresh = s.account(id, dest) is None;
            let (s2, event, _) = s.force_transfer(permitted, id, source, dest, amount, source_exists, dest_exists)->Ok_0;
            &&& s2.account(id, source) is None
            &&& event == Event::ForceTransferred(id, source, dest, a.balance)
            &&& s2.account(id, dest) is Some
            &&& s2.account(id, dest)->0.balance == t.balance + a.balance
            &&& s2.assets[id].accounts == d.accounts + (if fresh { 1int } else { 0 }) - 1
            &&& s2.assets[id].zombies == d.zombies + (if fresh && !dest_exists { 1int } else { 0 })
                - (if a.is_zombie { 1int } else { 0 })
        }),
{
    let h = s.holders(id);
    assert(s.class_wf(id));
    assert(h.dom().contains(source));
    if h.contains_key(dest) {
        assert(s.account_or_empty(id, dest).balance >= s.assets[id].min_balance);
    }
    lemma_sum_two(h, source, dest);
    if s.account_or_empty(id, source).is_zombie {
        assert(zombie_set(h).contains(source));
    }
}

/// In a well-formed ledger the supply of every class is exactly the sum of its
/// holders' balances.
pub proof fn lemma_supply_is_total(s: LedgerState, id: AssetId)
    requires
        s.wf(),
        s.assets.contains_key(id),
    ensures
        s.assets[id].supply == sum_balances(s.holders(id)),
{
    assert(s.class_wf(id));
}

} // verus!
