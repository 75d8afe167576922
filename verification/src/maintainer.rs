//! The maintenance engine: keeps the pending-transaction queue consistent
//! with the canonical chain as new best blocks arrive, including across
//! chain reorganizations.
//!
//! In brief, a maintainer's task is to:
//! 1) return to the queue every transaction that sat only in retracted
//!    blocks,
//! 2) prune from the queue the transactions included in the newly canonical
//!    block, and
//! 3) periodically re-check that still-queued transactions remain valid,
//!    without paying that cost on every block.
//!
//! No collaborator failure is surfaced to the caller: a missed lookup or a
//! failed fetch only short-circuits the branch it affects, and the next
//! notification reconciles what this one left behind. One entry point is
//! called per new best block; serializing notifications is the caller's
//! responsibility.

use vstd::prelude::*;

use crate::chain::{spec_block_by_hash, ChainClient, Fetcher};
use crate::queue::{
    hashes_of, model_insert_all, model_is_empty, model_prune, model_revalidate, Queue, QueueModel,
};
use crate::scheduler::{step_returns, step_state, TxPoolRevalidationStatus};
use crate::types::{Block, Transaction};

verus! {

/// The user-signed transactions, as a batch keeps them on resubmission.
pub open spec fn signed_only() -> spec_fn(Transaction) -> bool {
    |tx: Transaction| tx.is_signed
}

/// The user-signed transactions of the locally available body of block `h`;
/// nothing where the body cannot be read (a failed body fetch is non-fatal
/// and skips only that block).
pub open spec fn signed_of(chain: Seq<Block>, h: u64) -> Seq<Transaction> {
    match spec_block_by_hash(chain, h) {
        Some(b) => b.extrinsics@.filter(signed_only()),
        None => Seq::<Transaction>::empty(),
    }
}

/// All user-signed transactions of the retracted blocks, in notification
/// order.
pub open spec fn retracted_signed(chain: Seq<Block>, retracted: Seq<u64>) -> Seq<Transaction>
    decreases retracted.len(),
{
    if retracted.len() == 0 {
        Seq::<Transaction>::empty()
    } else {
        retracted_signed(chain, retracted.drop_last()) + signed_of(chain, retracted.last())
    }
}

/// What one full-maintainer pass leaves of the queue: the retracted blocks'
/// user-signed transactions are resubmitted; then, unless the queue was
/// empty before the pass (the short-circuit that skips the pruning
/// round-trip, read before resubmission applies), the new block's
/// extrinsics are pruned — where its body is locally available at all.
pub open spec fn full_maintain_spec(
    chain: Seq<Block>,
    id: u64,
    retracted: Seq<u64>,
    q: QueueModel,
) -> QueueModel {
    let resubmitted = model_insert_all(q, retracted_signed(chain, retracted));
    if model_is_empty(q) {
        resubmitted
    } else {
        match spec_block_by_hash(chain, id) {
            Some(b) => model_prune(resubmitted, hashes_of(b.extrinsics@)),
            None => resubmitted,
        }
    }
}

/// What one light-maintainer pass leaves of the queue and of the
/// revalidation status. An empty queue only clears the schedule; a header
/// lookup miss leaves everything untouched; otherwise the remotely fetched
/// body (if the fetch succeeded) is pruned, and a due schedule triggers a
/// revalidation pass and returns to idle. Prune and revalidate are
/// independent: a failed fetch does not gate revalidation.
pub open spec fn light_maintain_spec(
    chain: Seq<Block>,
    fetched: Option<Seq<Transaction>>,
    st: TxPoolRevalidationStatus,
    time_period: Option<u64>,
    block_period: Option<u64>,
    id: u64,
    q: QueueModel,
    now: u64,
) -> (QueueModel, TxPoolRevalidationStatus) {
    if model_is_empty(q) {
        (q, TxPoolRevalidationStatus::NotScheduled)
    } else {
        match spec_block_by_hash(chain, id) {
            None => (q, st),
            Some(header) => {
                let pruned = match fetched {
                    Some(body) => model_prune(q, hashes_of(body)),
                    None => q,
                };
                if step_returns(st, header.number, time_period, block_period, now) {
                    (model_revalidate(pruned), TxPoolRevalidationStatus::NotScheduled)
                } else {
                    (pruned, step_state(st, header.number, time_period, block_period, now))
                }
            },
        }
    }
}

/// Transaction pool maintainer.
///
/// Extracted from the queue itself so that the maintenance algorithm can be
/// customized — full (local chain data) or light (remote data source) —
/// without touching the queue's own code; whoever wires the system together
/// picks the implementation.
pub trait TransactionPoolMaintainer {
    /// Maintains the queue on the notification of new best block `id`, with
    /// `retracted` the blocks no longer canonical, at current time `now`
    /// (ms). All derived work has completed on return, and no collaborator
    /// failure is surfaced.
    fn maintain(&mut self, id: u64, retracted: &[u64], pool: &mut Queue, now: u64)
        requires
            old(pool).wf(),
        ensures
            final(pool).wf(),
    ;
}

/// Default transaction pool maintainer for full clients: resubmits from
/// retracted blocks and prunes the new block's body, all against locally
/// available chain data.
pub struct DefaultFullTransactionPoolMaintainer {
    /// Handle on the locally available chain data.
    pub client: ChainClient,
}

impl DefaultFullTransactionPoolMaintainer {
    /// Create new default full pool maintainer.
    pub fn new(client: ChainClient) -> (m: Self)
        ensures
            m.client == client,
    {
        DefaultFullTransactionPoolMaintainer { client }
    }
}

impl TransactionPoolMaintainer for DefaultFullTransactionPoolMaintainer {
    fn maintain(&mut self, id: u64, retracted: &[u64], pool: &mut Queue, now: u64)
        ensures
            *final(self) == *old(self),
            final(pool)@ == full_maintain_spec(old(self).client@, id, retracted@, old(pool)@),
    {
        let client = &self.client;
        // Put the user-signed transactions from retracted blocks back into
        // the queue; a block whose body cannot be read locally is skipped.
        let mut resubmit: Vec<Transaction> = Vec::new();
        let mut i: usize = 0;
        proof {
            assert(retracted@.subrange(0, 0) =~= Seq::<u64>::empty());
        }
        while i < retracted.len()
            invariant
                i <= retracted@.len(),
                resubmit@ == retracted_signed(client@, retracted@.subrange(0, i as int)),
            decreases retracted@.len() - i,
        {
            let ghost pre = retracted@.subrange(0, i as int);
            match client.block(retracted[i]) {
                Some(b) => {
                    let mut j: usize = 0;
                    proof {
                        assert(b.extrinsics@.subrange(0, 0) =~= Seq::<Transaction>::empty());
                        reveal(Seq::filter);
                    }
                    while j < b.extrinsics.len()
                        invariant
                            j <= b.extrinsics@.len(),
                            resubmit@ == retracted_signed(client@, pre) + b.extrinsics@.subrange(
                                0,
                                j as int,
                            ).filter(signed_only()),
                        decreases b.extrinsics@.len() - j,
                    {
                        proof {
                            let sub = b.extrinsics@.subrange(0, j as int);
                            assert(b.extrinsics@.subrange(0, j + 1) =~= sub.push(
                                b.extrinsics@[j as int],
                            ));
                            reveal(Seq::filter);
                            assert(sub.push(b.extrinsics@[j as int]).drop_last() =~= sub);
                        }
                        if b.extrinsics[j].is_signed {
                            resubmit.push(b.extrinsics[j]);
                        }
                        j = j + 1;
                    }
                    proof {
                        assert(b.extrinsics@.subrange(0, b.extrinsics@.len() as int)
                            =~= b.extrinsics@);
                    }
                },
                None => {},
            }
            proof {
                assert(retracted@.subrange(0, i + 1) =~= pre.push(retracted@[i as int]));
                assert(pre.push(retracted@[i as int]).drop_last() =~= pre);
                assert(retracted_signed(client@, pre) + Seq::<Transaction>::empty()
                    =~= retracted_signed(client@, pre));
            }
            i = i + 1;
        }
        proof {
            assert(retracted@.subrange(0, retracted@.len() as int) =~= retracted@);
        }

        // The short-circuit is read before resubmission applies: pruning is
        // skipped when there was nothing to prune, but resubmission always
        // runs, even where it re-populates an otherwise empty queue.
        let was_empty = pool.status().is_empty();

        pool.submit_at(id, &resubmit, true);

        if !was_empty {
            // Prune the new block's transactions; an unreadable block skips
            // pruning only, it does not undo the resubmission.
            match client.block(id) {
                Some(b) => {
                    let parent = b.parent_hash;
                    pool.prune(id, parent, &b.extrinsics);
                },
                None => {},
            }
        }
    }
}

/// Default transaction pool maintainer for light clients: prunes via a
/// remote fetch of the new block's body, and runs scheduled revalidation
/// passes; owns one revalidation schedule for its lifetime.
pub struct DefaultLightTransactionPoolMaintainer {
    /// Handle on the locally available chain data (headers).
    pub client: ChainClient,
    /// Handle on the remote source of block bodies.
    pub fetcher: Fetcher,
    /// Wall-time revalidation period (ms), if any.
    pub revalidate_time_period: Option<u64>,
    /// Block-count revalidation period, if any.
    pub revalidate_block_period: Option<u64>,
    /// The shared revalidation schedule; read and possibly advanced once per
    /// maintenance call.
    pub revalidation_status: TxPoolRevalidationStatus,
}

impl DefaultLightTransactionPoolMaintainer {
    /// Create light pool maintainer with default constants.
    ///
    /// Default constants are: revalidate every 60 seconds or every 20 blocks
    /// (whatever happens first).
    pub fn with_defaults(client: ChainClient, fetcher: Fetcher) -> (m: Self)
        ensures
            m.client == client,
            m.fetcher == fetcher,
            m.revalidate_time_period == Some(60_000u64),
            m.revalidate_block_period == Some(20u64),
            m.revalidation_status is NotScheduled,
    {
        Self::new(client, fetcher, Some(60_000), Some(20))
    }

    /// Create light pool maintainer with passed constants.
    pub fn new(
        client: ChainClient,
        fetcher: Fetcher,
        revalidate_time_period: Option<u64>,
        revalidate_block_period: Option<u64>,
    ) -> (m: Self)
        ensures
            m.client == client,
            m.fetcher == fetcher,
            m.revalidate_time_period == revalidate_time_period,
            m.revalidate_block_period == revalidate_block_period,
            m.revalidation_status is NotScheduled,
    {
        DefaultLightTransactionPoolMaintainer {
            client,
            fetcher,
            revalidate_time_period,
            revalidate_block_period,
            revalidation_status: TxPoolRevalidationStatus::NotScheduled,
        }
    }

    /// Prunes the new block's transactions from the queue: the block body
    /// named by `header` is fetched from the remote source, and the queue's
    /// prune-by-known-hash operation is called with the fetched transactions'
    /// queue-assigned hashes. A failed fetch leaves the queue untouched.
    fn prune(&self, id: u64, header: &Block, pool: &mut Queue)
        requires
            old(pool).wf(),
        ensures
            final(pool)@ == (match self.fetcher@ {
                Some(body) => model_prune(old(pool)@, hashes_of(body)),
                None => old(pool)@,
            }),
            final(pool).wf(),
    {
        match self.fetcher.remote_body(header, None) {
            Some(body) => {
                let mut hs: Vec<u64> = Vec::new();
                let mut j: usize = 0;
                while j < body.len()
                    invariant
                        j <= body@.len(),
                        hs@.len() == j,
                        forall|k: int| 0 <= k < j ==> hs@[k] == (#[trigger] body@[k]).hash,
                    decreases body@.len() - j,
                {
                    let h = pool.hash_of(&body[j]);
                    hs.push(h);
                    j = j + 1;
                }
                proof {
                    assert(hs@ =~= hashes_of(body@));
                }
                pool.prune_known(id, &hs);
            },
            None => {},
        }
    }

    /// Performs the in-queue transaction revalidation, if required: asks the
    /// schedule whether a pass is due at block height `number` and, when it
    /// is, runs the queue's revalidation pass and returns the schedule to
    /// idle unconditionally.
    fn revalidate(&mut self, id: u64, number: u64, pool: &mut Queue, now: u64)
        requires
            old(pool).wf(),
        ensures
            ({
                let st = old(self).revalidation_status;
                let tp = old(self).revalidate_time_period;
                let bp = old(self).revalidate_block_period;
                if step_returns(st, number, tp, bp, now) {
                    final(pool)@ == model_revalidate(old(pool)@)
                        && final(self).revalidation_status is NotScheduled
                } else {
                    final(pool)@ == old(pool)@ && final(self).revalidation_status == step_state(
                        st,
                        number,
                        tp,
                        bp,
                        now,
                    )
                }
            }),
            final(pool).wf(),
            final(self).client == old(self).client,
            final(self).fetcher == old(self).fetcher,
            final(self).revalidate_time_period == old(self).revalidate_time_period,
            final(self).revalidate_block_period == old(self).revalidate_block_period,
    {
        let required = self.revalidation_status.is_required(
            number,
            self.revalidate_time_period,
            self.revalidate_block_period,
            now,
        );
        if required {
            pool.revalidate_ready(id);
            self.revalidation_status.clear();
        }
    }
}

impl TransactionPoolMaintainer for DefaultLightTransactionPoolMaintainer {
    fn maintain(&mut self, id: u64, _retracted: &[u64], pool: &mut Queue, now: u64)
        ensures
            ({
                let (q2, st2) = light_maintain_spec(
                    old(self).client@,
                    old(self).fetcher@,
                    old(self).revalidation_status,
                    old(self).revalidate_time_period,
                    old(self).revalidate_block_period,
                    id,
                    old(pool)@,
                    now,
                );
                final(pool)@ == q2 && final(self).revalidation_status == st2
            }),
            final(self).client == old(self).client,
            final(self).fetcher == old(self).fetcher,
            final(self).revalidate_time_period == old(self).revalidate_time_period,
            final(self).revalidate_block_period == old(self).revalidate_block_period,
    {
        // Do nothing if the queue is empty: any scheduled pass is moot.
        if pool.status().is_empty() {
            self.revalidation_status.clear();
            return ;
        }
        // Resolve the new block's header; on a miss, leave everything as it
        // is — the next notification reconciles.
        let header = match self.client.block(id) {
            Some(header) => header,
            None => {
                return ;
            },
        };
        let number = header.number;

        // Prune the block's transactions from the queue, and then
        // (optionally) revalidate the in-queue transactions. The two are
        // independent best-effort steps: a failed fetch skips pruning only
        // and never gates revalidation.
        self.prune(id, header, pool);
        self.revalidate(id, number, pool, now);
    }
}

} // verus!
