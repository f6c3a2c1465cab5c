use vstd::prelude::*;

use crate::block::{txs_view, BlockProposal, Transaction};
use crate::bytes::bytes_eq;

verus! {

/// `pool` without the first occurrence of `t`, if any.
pub open spec fn without(pool: Seq<Seq<u8>>, t: Seq<u8>) -> Seq<Seq<u8>>
    decreases pool.len(),
{
    if pool.len() == 0 {
        pool
    } else if pool[0] == t {
        pool.drop_first()
    } else {
        seq![pool[0]] + without(pool.drop_first(), t)
    }
}

/// `pool` after removing, in order, the first occurrence of each of `ts`.
pub open spec fn without_all(pool: Seq<Seq<u8>>, ts: Seq<Seq<u8>>) -> Seq<Seq<u8>>
    decreases ts.len(),
{
    if ts.len() == 0 {
        pool
    } else {
        without(without_all(pool, ts.drop_last()), ts.last())
    }
}

/// `pool` after removing the transactions of each proposal of `ps`, in order.
pub open spec fn without_chain(pool: Seq<Seq<u8>>, ps: Seq<BlockProposal>) -> Seq<Seq<u8>>
    decreases ps.len(),
{
    if ps.len() == 0 {
        pool
    } else {
        without_all(without_chain(pool, ps.drop_last()), txs_view(ps.last().txs@))
    }
}

proof fn lemma_without_at(pool: Seq<Seq<u8>>, t: Seq<u8>, k: int)
    requires
        0 <= k <= pool.len(),
        forall|j: int| 0 <= j < k ==> pool[j] != t,
    ensures
        k < pool.len() && pool[k] == t ==> without(pool, t) == pool.remove(k),
        k == pool.len() ==> without(pool, t) == pool,
    decreases k,
{
    if k > 0 {
        lemma_without_at(pool.drop_first(), t, k - 1);
        if k < pool.len() && pool[k] == t {
            assert(without(pool, t) =~= pool.remove(k));
        }
        if k == pool.len() {
            assert(without(pool, t) =~= pool);
        }
    }
}

/// Removes the first occurrence of `t` from `pool`, if any.
pub fn remove_tx(pool: &mut Vec<Transaction>, t: &Transaction)
    ensures
        txs_view(final(pool)@) == without(txs_view(old(pool)@), t@),
{
    let ghost v = txs_view(pool@);
    let mut k: usize = 0;
    while k < pool.len()
        invariant
            k <= pool@.len(),
            v == txs_view(pool@),
            v == txs_view(old(pool)@),
            forall|j: int| 0 <= j < k ==> v[j] != t@,
        decreases pool@.len() - k,
    {
        if bytes_eq(pool[k].bytes.as_slice(), t.bytes.as_slice()) {
            assert(v[k as int] == t@);
            proof {
                lemma_without_at(v, t@, k as int);
            }
            pool.remove(k);
            assert(txs_view(pool@) =~= v.remove(k as int));
            return;
        }
        k = k + 1;
    }
    proof {
        lemma_without_at(v, t@, k as int);
    }
}

/// Removes from `pool`, in order, the first occurrence of each of `ts`.
pub fn remove_all(pool: &mut Vec<Transaction>, ts: &Vec<Transaction>)
    ensures
        txs_view(final(pool)@) == without_all(txs_view(old(pool)@), txs_view(ts@)),
{
    let ghost start = txs_view(pool@);
    let mut i: usize = 0;
    while i < ts.len()
        invariant
            i <= ts@.len(),
            txs_view(pool@) == without_all(start, txs_view(ts@).take(i as int)),
        decreases ts@.len() - i,
    {
        remove_tx(pool, &ts[i]);
        i = i + 1;
        assert(txs_view(ts@).take(i as int).drop_last() =~= txs_view(ts@).take(i - 1));
    }
    assert(txs_view(ts@).take(i as int) =~= txs_view(ts@));
}

} // verus!
