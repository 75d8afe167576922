//! The collaborator queue, as the maintainers see it.
//!
//! The real pending-transaction store (priority ordering, dependency
//! tracking, validity checking against chain state) is outside this engine's
//! scope. What the maintainers rely on is captured here as a data-backed
//! queue with an exact contract for each operation: transactions keyed by
//! their queue-assigned hash, a ready lane and a future lane, insertion that
//! ignores already-known hashes, pruning by hash, and a revalidation pass
//! that drops the ready transactions currently recorded as invalid against
//! chain state (the validity verdicts themselves come from outside).

use vstd::prelude::*;

use crate::types::{Status, Transaction};

verus! {

/// The mathematical content of a [`Queue`].
pub struct QueueModel {
    /// The ready lane, in insertion order.
    pub ready: Seq<Transaction>,
    /// The future lane, in insertion order.
    pub future: Seq<Transaction>,
    /// Hashes a revalidation pass would find invalid against current chain
    /// state.
    pub invalid: Seq<u64>,
}

/// Whether some transaction in `s` carries hash `h`.
pub open spec fn seq_has_hash(s: Seq<Transaction>, h: u64) -> bool {
    exists|i: int| 0 <= i < s.len() && (#[trigger] s[i]).hash == h
}

/// Whether the queue knows hash `h`, in either lane.
pub open spec fn model_has_hash(m: QueueModel, h: u64) -> bool {
    seq_has_hash(m.ready, h) || seq_has_hash(m.future, h)
}

/// Both lanes are empty.
pub open spec fn model_is_empty(m: QueueModel) -> bool {
    m.ready.len() == 0 && m.future.len() == 0
}

/// One insertion: a transaction whose hash the queue already knows is
/// dropped; a fresh one joins the ready lane.
pub open spec fn model_insert(m: QueueModel, tx: Transaction) -> QueueModel {
    if model_has_hash(m, tx.hash) {
        m
    } else {
        QueueModel { ready: m.ready.push(tx), ..m }
    }
}

/// Insertion of a batch, left to right.
pub open spec fn model_insert_all(m: QueueModel, txs: Seq<Transaction>) -> QueueModel
    decreases txs.len(),
{
    if txs.len() == 0 {
        m
    } else {
        model_insert(model_insert_all(m, txs.drop_last()), txs.last())
    }
}

/// The hashes of a batch of transactions, in order.
pub open spec fn hashes_of(s: Seq<Transaction>) -> Seq<u64> {
    Seq::new(s.len(), |i: int| s[i].hash)
}

/// The transactions kept by a pruning with hash set `hs`: those whose hash
/// is not in it.
pub open spec fn kept(hs: Seq<u64>) -> spec_fn(Transaction) -> bool {
    |tx: Transaction| !hs.contains(tx.hash)
}

/// Pruning removes from both lanes every transaction whose hash is listed.
pub open spec fn model_prune(m: QueueModel, hs: Seq<u64>) -> QueueModel {
    QueueModel { ready: m.ready.filter(kept(hs)), future: m.future.filter(kept(hs)), ..m }
}

/// A revalidation pass drops from the ready lane the transactions currently
/// recorded as invalid. The future lane and the verdicts are untouched.
pub open spec fn model_revalidate(m: QueueModel) -> QueueModel {
    QueueModel { ready: m.ready.filter(kept(m.invalid)), ..m }
}

/// No two transactions in `s` share a hash.
pub open spec fn distinct_hashes(s: Seq<Transaction>) -> bool {
    forall|i: int, j: int|
        0 <= i < j < s.len() ==> (#[trigger] s[i]).hash != (#[trigger] s[j]).hash
}

/// The queue's invariant: hashes are unique within each lane and across the
/// two lanes, as in a store keyed by transaction hash.
pub open spec fn model_wf(m: QueueModel) -> bool {
    &&& distinct_hashes(m.ready)
    &&& distinct_hashes(m.future)
    &&& forall|h: u64| seq_has_hash(m.ready, h) ==> !seq_has_hash(m.future, h)
}

/// The collaborator queue: a hash-keyed pending-transaction store.
pub struct Queue {
    ready: Vec<Transaction>,
    future: Vec<Transaction>,
    invalid: Vec<u64>,
}

impl View for Queue {
    type V = QueueModel;

    closed spec fn view(&self) -> QueueModel {
        QueueModel { ready: self.ready@, future: self.future@, invalid: self.invalid@ }
    }
}

/// Filtering keeps hash-distinctness and introduces no new hash.
proof fn lemma_filter_keeps_distinct(s: Seq<Transaction>, pred: spec_fn(Transaction) -> bool)
    requires
        distinct_hashes(s),
    ensures
        distinct_hashes(s.filter(pred)),
        forall|h: u64| #[trigger] seq_has_hash(s.filter(pred), h) ==> seq_has_hash(s, h),
    decreases s.len(),
{
    reveal(Seq::filter);
    if s.len() != 0 {
        let d = s.drop_last();
        assert(distinct_hashes(d)) by {
            assert(forall|i: int, j: int|
                0 <= i < j < d.len() ==> (#[trigger] d[i]).hash != (#[trigger] d[j]).hash) by {
                assert(forall|i: int| 0 <= i < d.len() ==> d[i] == s[i]);
            }
        }
        lemma_filter_keeps_distinct(d, pred);
        assert(forall|h: u64| seq_has_hash(d, h) ==> seq_has_hash(s, h)) by {
            assert(forall|i: int| 0 <= i < d.len() ==> d[i] == s[i]);
        }
        if pred(s.last()) {
            let f = d.filter(pred).push(s.last());
            assert(s.filter(pred) == f);
            assert(distinct_hashes(f)) by {
                assert forall|i: int, j: int| 0 <= i < j < f.len() implies (#[trigger] f[i]).hash
                    != (#[trigger] f[j]).hash by {
                    if j < f.len() - 1 {
                        assert(f[i] == d.filter(pred)[i] && f[j] == d.filter(pred)[j]);
                    } else {
                        assert(f[j] == s.last());
                        assert(f[i] == d.filter(pred)[i]);
                        if f[i].hash == s.last().hash {
                            assert(seq_has_hash(d.filter(pred), f[i].hash));
                            assert(seq_has_hash(d, f[i].hash));
                            let k = choose|k: int|
                                0 <= k < d.len() && (#[trigger] d[k]).hash == f[i].hash;
                            assert(s[k].hash == s[s.len() - 1].hash);
                        }
                    }
                }
            }
            assert forall|h: u64| seq_has_hash(f, h) implies seq_has_hash(s, h) by {
                let i = choose|i: int| 0 <= i < f.len() && (#[trigger] f[i]).hash == h;
                if i < f.len() - 1 {
                    assert(f[i] == d.filter(pred)[i]);
                    assert(seq_has_hash(d.filter(pred), h));
                } else {
                    assert(f[i] == s.last());
                    assert((s[s.len() - 1]).hash == h);
                }
            }
        }
    }
}

/// Whether `v` holds the value `h`.
fn vec_contains_u64(v: &Vec<u64>, h: u64) -> (r: bool)
    ensures
        r == v@.contains(h),
{
    let mut i: usize = 0;
    while i < v.len()
        invariant
            i <= v@.len(),
            forall|j: int| 0 <= j < i ==> v@[j] != h,
        decreases v@.len() - i,
    {
        if v[i] == h {
            return true;
        }
        i = i + 1;
    }
    false
}

/// The transactions of `v` whose hash is not listed in `hs`, in order.
fn retain_unlisted(v: &Vec<Transaction>, hs: &Vec<u64>) -> (out: Vec<Transaction>)
    ensures
        out@ == v@.filter(kept(hs@)),
{
    let mut out: Vec<Transaction> = Vec::new();
    let mut i: usize = 0;
    proof {
        assert(v@.subrange(0, 0) =~= Seq::<Transaction>::empty());
        reveal(Seq::filter);
    }
    while i < v.len()
        invariant
            i <= v@.len(),
            out@ == v@.subrange(0, i as int).filter(kept(hs@)),
        decreases v@.len() - i,
    {
        let listed = vec_contains_u64(hs, v[i].hash);
        proof {
            let pre = v@.subrange(0, i as int);
            assert(v@.subrange(0, i + 1) =~= pre.push(v@[i as int]));
            reveal(Seq::filter);
            assert(pre.push(v@[i as int]).drop_last() =~= pre);
            assert(pre.push(v@[i as int]).last() == v@[i as int]);
        }
        if !listed {
            out.push(v[i]);
        }
        i = i + 1;
    }
    proof {
        assert(v@.subrange(0, v@.len() as int) =~= v@);
    }
    out
}

impl Queue {
    /// A fresh, empty queue with no invalidity verdicts recorded.
    pub fn new() -> (q: Queue)
        ensures
            q@ == (QueueModel {
                ready: Seq::<Transaction>::empty(),
                future: Seq::<Transaction>::empty(),
                invalid: Seq::<u64>::empty(),
            }),
            q.wf(),
    {
        let q = Queue { ready: Vec::new(), future: Vec::new(), invalid: Vec::new() };
        proof {
            assert(q@.ready =~= Seq::<Transaction>::empty());
            assert(q@.future =~= Seq::<Transaction>::empty());
            assert(q@.invalid =~= Seq::<u64>::empty());
        }
        q
    }

    /// The queue's invariant; established by [`Queue::new`] and preserved by
    /// every operation.
    pub open spec fn wf(&self) -> bool {
        model_wf(self@)
    }

    /// How many transactions each lane holds.
    pub fn status(&self) -> (s: Status)
        ensures
            s.ready == self@.ready.len(),
            s.future == self@.future.len(),
    {
        Status { ready: self.ready.len(), future: self.future.len() }
    }

    /// The hash the queue assigns to a transaction.
    pub fn hash_of(&self, tx: &Transaction) -> (h: u64)
        ensures
            h == tx.hash,
    {
        tx.hash
    }

    /// Whether the queue knows hash `h`, in either lane.
    pub fn has_hash(&self, h: u64) -> (r: bool)
        ensures
            r == model_has_hash(self@, h),
    {
        let mut i: usize = 0;
        while i < self.ready.len()
            invariant
                i <= self.ready@.len(),
                forall|j: int| 0 <= j < i ==> (#[trigger] self.ready@[j]).hash != h,
            decreases self.ready@.len() - i,
        {
            if self.ready[i].hash == h {
                return true;
            }
            i = i + 1;
        }
        let mut i: usize = 0;
        while i < self.future.len()
            invariant
                i <= self.future@.len(),
                forall|j: int| 0 <= j < i ==> (#[trigger] self.future@[j]).hash != h,
                !seq_has_hash(self.ready@, h),
            decreases self.future@.len() - i,
        {
            if self.future[i].hash == h {
                return true;
            }
            i = i + 1;
        }
        false
    }

    /// Submits one transaction at block `at`: a hash the queue already knows
    /// is ignored, a fresh transaction joins the ready lane.
    pub fn submit_one(&mut self, at: u64, tx: Transaction)
        requires
            old(self).wf(),
        ensures
            final(self)@ == model_insert(old(self)@, tx),
            final(self).wf(),
    {
        let known = self.has_hash(tx.hash);
        if !known {
            self.ready.push(tx);
            proof {
                let m = old(self)@;
                assert(distinct_hashes(m.ready.push(tx))) by {
                    assert(forall|i: int|
                        0 <= i < m.ready.len() ==> m.ready.push(tx)[i] == m.ready[i]);
                    assert(m.ready.push(tx)[m.ready.len() as int] == tx);
                }
                assert(forall|h: u64|
                    seq_has_hash(m.ready.push(tx), h) ==> seq_has_hash(m.ready, h) || h
                        == tx.hash) by {
                    assert(forall|i: int|
                        0 <= i < m.ready.len() ==> m.ready.push(tx)[i] == m.ready[i]);
                }
            }
        }
    }

    /// Submits a batch of transactions at block `at`, left to right, each as
    /// [`Queue::submit_one`] does. `resubmitted` marks the batch as
    /// previously seen (re-insertions after a retraction rather than fresh
    /// first-seen entries); priority treatment is the store's own concern
    /// and outside this model.
    pub fn submit_at(&mut self, at: u64, txs: &Vec<Transaction>, resubmitted: bool)
        requires
            old(self).wf(),
        ensures
            final(self)@ == model_insert_all(old(self)@, txs@),
            final(self).wf(),
    {
        let mut i: usize = 0;
        proof {
            assert(txs@.subrange(0, 0) =~= Seq::<Transaction>::empty());
        }
        while i < txs.len()
            invariant
                i <= txs@.len(),
                self@ == model_insert_all(old(self)@, txs@.subrange(0, i as int)),
                self.wf(),
            decreases txs@.len() - i,
        {
            let ghost pre = txs@.subrange(0, i as int);
            self.submit_one(at, txs[i]);
            proof {
                assert(txs@.subrange(0, i + 1) =~= pre.push(txs@[i as int]));
                assert(pre.push(txs@[i as int]).drop_last() =~= pre);
            }
            i = i + 1;
        }
        proof {
            assert(txs@.subrange(0, txs@.len() as int) =~= txs@);
        }
    }

    /// Prunes by known hash: removes from both lanes every transaction whose
    /// hash is in `hs`. `at` names the block whose import prompted the
    /// pruning.
    pub fn prune_known(&mut self, at: u64, hs: &Vec<u64>)
        requires
            old(self).wf(),
        ensures
            final(self)@ == model_prune(old(self)@, hs@),
            final(self).wf(),
    {
        self.ready = retain_unlisted(&self.ready, hs);
        self.future = retain_unlisted(&self.future, hs);
        proof {
            let m = old(self)@;
            lemma_filter_keeps_distinct(m.ready, kept(hs@));
            lemma_filter_keeps_distinct(m.future, kept(hs@));
        }
    }

    /// Prunes by block content: removes from both lanes every transaction
    /// whose hash matches one of the block's extrinsics. `at` is the newly
    /// imported block, `parent` its parent.
    pub fn prune(&mut self, at: u64, parent: u64, extrinsics: &Vec<Transaction>)
        requires
            old(self).wf(),
        ensures
            final(self)@ == model_prune(old(self)@, hashes_of(extrinsics@)),
            final(self).wf(),
    {
        let mut hs: Vec<u64> = Vec::new();
        let mut i: usize = 0;
        while i < extrinsics.len()
            invariant
                i <= extrinsics@.len(),
                hs@.len() == i,
                forall|j: int| 0 <= j < i ==> hs@[j] == (#[trigger] extrinsics@[j]).hash,
            decreases extrinsics@.len() - i,
        {
            hs.push(extrinsics[i].hash);
            i = i + 1;
        }
        proof {
            assert(hs@ =~= hashes_of(extrinsics@));
        }
        self.prune_known(at, &hs);
    }

    /// Performs a revalidation pass over the ready lane at block `at`: the
    /// transactions currently recorded as invalid are removed.
    pub fn revalidate_ready(&mut self, at: u64)
        requires
            old(self).wf(),
        ensures
            final(self)@ == model_revalidate(old(self)@),
            final(self).wf(),
    {
        self.ready = retain_unlisted(&self.ready, &self.invalid);
        proof {
            lemma_filter_keeps_distinct(old(self)@.ready, kept(old(self)@.invalid));
        }
    }

    /// Records that, against current chain state, the transaction with hash
    /// `h` would fail a validity re-check. The verdict itself is chain
    /// state's, not this engine's; this only stores it.
    pub fn mark_invalid(&mut self, h: u64)
        requires
            old(self).wf(),
        ensures
            final(self)@ == (QueueModel { invalid: old(self)@.invalid.push(h), ..old(self)@ }),
            final(self).wf(),
    {
        self.invalid.push(h);
    }
}

} // verus!
