//! Laws of the full maintenance pass, stated over the queue model and proved
//! from the maintainers' contracts: what a pass prunes, what a pass revives,
//! and that repeating a pass changes nothing.

use vstd::prelude::*;

use crate::chain::spec_block_by_hash;
use crate::maintainer::{full_maintain_spec, retracted_signed, signed_of, signed_only};
use crate::queue::{
    hashes_of, kept, model_has_hash, model_insert, model_insert_all, model_is_empty, model_prune,
    model_revalidate, seq_has_hash, QueueModel,
};
use crate::types::{Block, Transaction};

verus! {

broadcast use vstd::seq_lib::group_filter_ensures;

/// A sequence whose elements all satisfy `pred` is its own filtering.
proof fn lemma_filter_of_satisfying<A>(s: Seq<A>, pred: spec_fn(A) -> bool)
    requires
        forall|i: int| 0 <= i < s.len() ==> pred(#[trigger] s[i]),
    ensures
        s.filter(pred) == s,
    decreases s.len(),
{
    reveal(Seq::filter);
    if s.len() != 0 {
        let d = s.drop_last();
        assert(forall|i: int| 0 <= i < d.len() ==> #[trigger] d[i] == s[i]);
        lemma_filter_of_satisfying(d, pred);
        assert(d.push(s.last()) =~= s);
    }
}

/// Filtering twice with one predicate is filtering once.
proof fn lemma_filter_idempotent<A>(s: Seq<A>, pred: spec_fn(A) -> bool)
    ensures
        s.filter(pred).filter(pred) == s.filter(pred),
{
    lemma_filter_of_satisfying(s.filter(pred), pred);
}

/// Filtering with two predicates is the same in either order.
proof fn lemma_filter_commutes<A>(s: Seq<A>, p: spec_fn(A) -> bool, q: spec_fn(A) -> bool)
    ensures
        s.filter(p).filter(q) == s.filter(q).filter(p),
    decreases s.len(),
{
    reveal(Seq::filter);
    if s.len() != 0 {
        let d = s.drop_last();
        let x = s.last();
        lemma_filter_commutes(d, p, q);
        if p(x) {
            assert(d.filter(p).push(x).drop_last() =~= d.filter(p));
        }
        if q(x) {
            assert(d.filter(q).push(x).drop_last() =~= d.filter(q));
        }
    }
}

/// Within one light maintenance pass, pruning and revalidation commute: the
/// queue the pass leaves does not depend on the order in which the two
/// concurrent steps applied their effects.
pub proof fn lemma_prune_revalidate_commute(m: QueueModel, hs: Seq<u64>)
    ensures
        model_revalidate(model_prune(m, hs)) == model_prune(model_revalidate(m), hs),
{
    lemma_filter_commutes(m.ready, kept(hs), kept(m.invalid));
}

/// Pruning with one hash set twice is pruning with it once.
proof fn lemma_prune_idempotent(m: QueueModel, hs: Seq<u64>)
    ensures
        model_prune(model_prune(m, hs), hs) == model_prune(m, hs),
{
    lemma_filter_idempotent(m.ready, kept(hs));
    lemma_filter_idempotent(m.future, kept(hs));
}

/// Inserting a transaction keeps every hash the queue knew, and makes the
/// inserted hash known.
proof fn lemma_insert_has_hash(m: QueueModel, tx: Transaction, h: u64)
    ensures
        model_has_hash(model_insert(m, tx), h) == (model_has_hash(m, h) || tx.hash == h),
{
    let m2 = model_insert(m, tx);
    if !model_has_hash(m, tx.hash) {
        assert(forall|i: int| 0 <= i < m.ready.len() ==> #[trigger] m2.ready[i] == m.ready[i]);
        assert(m2.ready[m.ready.len() as int] == tx);
        if seq_has_hash(m.ready, h) {
            let i = choose|i: int| 0 <= i < m.ready.len() && (#[trigger] m.ready[i]).hash == h;
            assert(m2.ready[i].hash == h);
            assert(seq_has_hash(m2.ready, h));
        }
    }
}

/// After a batch insertion, a hash is known exactly when the queue knew it
/// or the batch carries it.
proof fn lemma_insert_all_has_hash(m: QueueModel, txs: Seq<Transaction>, h: u64)
    ensures
        model_has_hash(model_insert_all(m, txs), h) == (model_has_hash(m, h) || seq_has_hash(
            txs,
            h,
        )),
    decreases txs.len(),
{
    if txs.len() != 0 {
        let d = txs.drop_last();
        lemma_insert_all_has_hash(m, d, h);
        lemma_insert_has_hash(model_insert_all(m, d), txs.last(), h);
        assert(forall|i: int| 0 <= i < d.len() ==> #[trigger] d[i] == txs[i]);
        if seq_has_hash(txs, h) && txs.last().hash != h {
            let i = choose|i: int| 0 <= i < txs.len() && (#[trigger] txs[i]).hash == h;
            assert(d[i] == txs[i]);
            assert(seq_has_hash(d, h));
        }
        if seq_has_hash(d, h) {
            assert(seq_has_hash(txs, h));
        }
    }
}

/// A user-signed transaction of a retracted block's locally available body
/// appears in the resubmission batch.
proof fn lemma_retracted_signed_includes(
    chain: Seq<Block>,
    retracted: Seq<u64>,
    k: int,
    tx: Transaction,
)
    requires
        0 <= k < retracted.len(),
        signed_of(chain, retracted[k]).contains(tx),
    ensures
        retracted_signed(chain, retracted).contains(tx),
    decreases retracted.len(),
{
    let d = retracted.drop_last();
    let whole = retracted_signed(chain, retracted);
    if k == retracted.len() - 1 {
        let part = signed_of(chain, retracted[k]);
        let i = choose|i: int| 0 <= i < part.len() && part[i] == tx;
        assert(whole[retracted_signed(chain, d).len() + i] == tx);
    } else {
        assert(d[k] == retracted[k]);
        lemma_retracted_signed_includes(chain, d, k, tx);
        let part = retracted_signed(chain, d);
        let i = choose|i: int| 0 <= i < part.len() && part[i] == tx;
        assert(whole[i] == tx);
    }
}

/// On the import of a block whose body is locally available, with an empty
/// retracted set, a full maintenance pass leaves the queue with none of the
/// transactions of that block's body, and with every previously queued
/// transaction outside that body unchanged, in order, in its lane.
pub proof fn lemma_new_block_pruned(chain: Seq<Block>, id: u64, q: QueueModel)
    requires
        spec_block_by_hash(chain, id) is Some,
    ensures
        ({
            let b = spec_block_by_hash(chain, id).unwrap();
            let hs = hashes_of(b.extrinsics@);
            let after = full_maintain_spec(chain, id, Seq::<u64>::empty(), q);
            &&& forall|i: int|
                0 <= i < b.extrinsics@.len() ==> !model_has_hash(
                    after,
                    (#[trigger] b.extrinsics@[i]).hash,
                )
            &&& after.ready == q.ready.filter(kept(hs))
            &&& after.future == q.future.filter(kept(hs))
        }),
{
    let b = spec_block_by_hash(chain, id).unwrap();
    let hs = hashes_of(b.extrinsics@);
    let after = full_maintain_spec(chain, id, Seq::<u64>::empty(), q);
    assert(retracted_signed(chain, Seq::<u64>::empty()) =~= Seq::<Transaction>::empty());
    assert(model_insert_all(q, Seq::<Transaction>::empty()) == q);
    if model_is_empty(q) {
        assert(q.ready.filter(kept(hs)) =~= q.ready);
        assert(q.future.filter(kept(hs)) =~= q.future);
    } else {
        assert(after == model_prune(q, hs));
    }
    assert forall|i: int|
        0 <= i < b.extrinsics@.len() implies !model_has_hash(
        after,
        (#[trigger] b.extrinsics@[i]).hash,
    ) by {
        let h = b.extrinsics@[i].hash;
        assert(hs[i] == h);
        assert(hs.contains(h));
        if seq_has_hash(after.ready, h) {
            let j = choose|j: int| 0 <= j < after.ready.len() && (#[trigger] after.ready[j]).hash
                == h;
            assert(kept(hs)(after.ready[j]));
        }
        if seq_has_hash(after.future, h) {
            let j = choose|j: int| 0 <= j < after.future.len() && (#[trigger] after.future[j]).hash
                == h;
            assert(kept(hs)(after.future[j]));
        }
    }
}

/// Whether the newly imported block's locally available body carries a
/// transaction with hash `h`.
pub open spec fn in_new_block(chain: Seq<Block>, id: u64, h: u64) -> bool {
    match spec_block_by_hash(chain, id) {
        Some(b) => hashes_of(b.extrinsics@).contains(h),
        None => false,
    }
}

/// On a reorganization, a user-signed transaction of a retracted block's
/// locally available body that the newly imported block does not also carry
/// is present in the queue after a full maintenance pass.
pub proof fn lemma_retracted_signed_resubmitted(
    chain: Seq<Block>,
    id: u64,
    retracted: Seq<u64>,
    q: QueueModel,
    k: int,
    tx: Transaction,
)
    requires
        0 <= k < retracted.len(),
        spec_block_by_hash(chain, retracted[k]) is Some,
        spec_block_by_hash(chain, retracted[k]).unwrap().extrinsics@.contains(tx),
        tx.is_signed,
        !in_new_block(chain, id, tx.hash),
    ensures
        model_has_hash(full_maintain_spec(chain, id, retracted, q), tx.hash),
{
    let b = spec_block_by_hash(chain, retracted[k]).unwrap();
    let i = choose|i: int| 0 <= i < b.extrinsics@.len() && b.extrinsics@[i] == tx;
    assert(signed_only()(tx));
    assert(b.extrinsics@.filter(signed_only()).contains(tx));
    lemma_retracted_signed_includes(chain, retracted, k, tx);
    let batch = retracted_signed(chain, retracted);
    let j = choose|j: int| 0 <= j < batch.len() && batch[j] == tx;
    assert(seq_has_hash(batch, tx.hash));
    let resubmitted = model_insert_all(q, batch);
    lemma_insert_all_has_hash(q, batch, tx.hash);
    let after = full_maintain_spec(chain, id, retracted, q);
    if !model_is_empty(q) && spec_block_by_hash(chain, id) is Some {
        let nb = spec_block_by_hash(chain, id).unwrap();
        let hs = hashes_of(nb.extrinsics@);
        assert(!hs.contains(tx.hash));
        if seq_has_hash(resubmitted.ready, tx.hash) {
            let r = choose|r: int|
                0 <= r < resubmitted.ready.len() && (#[trigger] resubmitted.ready[r]).hash
                    == tx.hash;
            assert(kept(hs)(resubmitted.ready[r]));
            assert(resubmitted.ready.contains(resubmitted.ready[r]));
            assert(after.ready.contains(resubmitted.ready[r]));
            let w = choose|w: int| 0 <= w < after.ready.len() && after.ready[w]
                == resubmitted.ready[r];
            assert(seq_has_hash(after.ready, tx.hash));
        } else {
            let r = choose|r: int|
                0 <= r < resubmitted.future.len() && (#[trigger] resubmitted.future[r]).hash
                    == tx.hash;
            assert(kept(hs)(resubmitted.future[r]));
            assert(resubmitted.future.contains(resubmitted.future[r]));
            assert(after.future.contains(resubmitted.future[r]));
            let w = choose|w: int| 0 <= w < after.future.len() && after.future[w]
                == resubmitted.future[r];
            assert(seq_has_hash(after.future, tx.hash));
        }
    }
}

/// A full maintenance pass is idempotent: running it again for the same new
/// block, with an empty retracted set, leaves the queue exactly as the first
/// pass left it.
pub proof fn lemma_maintain_idempotent(chain: Seq<Block>, id: u64, q: QueueModel)
    ensures
        ({
            let once = full_maintain_spec(chain, id, Seq::<u64>::empty(), q);
            full_maintain_spec(chain, id, Seq::<u64>::empty(), once) == once
        }),
{
    assert(retracted_signed(chain, Seq::<u64>::empty()) =~= Seq::<Transaction>::empty());
    let once = full_maintain_spec(chain, id, Seq::<u64>::empty(), q);
    assert(model_insert_all(q, Seq::<Transaction>::empty()) == q);
    assert(model_insert_all(once, Seq::<Transaction>::empty()) == once);
    if !model_is_empty(q) && !model_is_empty(once) {
        match spec_block_by_hash(chain, id) {
            Some(b) => {
                lemma_prune_idempotent(q, hashes_of(b.extrinsics@));
            },
            None => {},
        }
    }
}

} // verus!
