use vstd::prelude::*;
use crate::types::{AccountId, AssetBalance};

verus! {

/// The sum of the balances of all holder records in `m`.
pub open spec fn sum_balances(m: Map<AccountId, AssetBalance>) -> int
    decreases m.dom().len(),
    when m.dom().finite()
{
    if m.dom().len() == 0 {
        0
    } else {
        let k = m.dom().choose();
        m[k].balance + sum_balances(m.remove(k))
    }
}

/// The sum is never negative.
pub proof fn lemma_sum_nonneg(m: Map<AccountId, AssetBalance>)
    requires
        m.dom().finite(),
    ensures
        sum_balances(m) >= 0,
    decreases m.dom().len(),
{
    if m.dom().len() != 0 {
        let k = m.dom().choose();
        lemma_sum_nonneg(m.remove(k));
    }
}

/// The sum splits into any one record and the rest.
pub proof fn lemma_sum_remove(m: Map<AccountId, AssetBalance>, k: AccountId)
    requires
        m.dom().finite(),
        m.contains_key(k),
    ensures
        sum_balances(m) == m[k].balance + sum_balances(m.remove(k)),
    decreases m.dom().len(),
{
    let c = m.dom().choose();
    if c != k {
        lemma_sum_remove(m.remove(c), k);
        lemma_sum_remove(m.remove(k), c);
        assert(m.remove(c).remove(k) =~= m.remove(k).remove(c));
    }
}

/// Inserting a record replaces the contribution of the record it overwrites.
pub proof fn lemma_sum_insert(m: Map<AccountId, AssetBalance>, k: AccountId, v: AssetBalance)
    requires
        m.dom().finite(),
    ensures
        sum_balances(m.insert(k, v)) == sum_balances(m) - (if m.contains_key(k) { m[k].balance as int } else { 0 })
            + v.balance,
{
    lemma_sum_remove(m.insert(k, v), k);
    assert(m.insert(k, v).remove(k) =~= m.remove(k));
    if m.contains_key(k) {
        lemma_sum_remove(m, k);
    } else {
        assert(m.remove(k) =~= m);
    }
}

/// Two distinct records together hold no more than the sum.
pub proof fn lemma_sum_two(m: Map<AccountId, AssetBalance>, k1: AccountId, k2: AccountId)
    requires
        m.dom().finite(),
        m.contains_key(k1),
        k1 != k2,
    ensures
        m[k1].balance + (if m.contains_key(k2) { m[k2].balance as int } else { 0 }) <= sum_balances(m),
{
    lemma_sum_remove(m, k1);
    let r = m.remove(k1);
    if m.contains_key(k2) {
        lemma_sum_remove(r, k2);
        lemma_sum_nonneg(r.remove(k2));
    } else {
        lemma_sum_nonneg(r);
    }
}

} // verus!
