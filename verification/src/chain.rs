//! Chain data collaborators: locally available blocks, and a remote source
//! of block bodies.
//!
//! Block, header and body retrieval is outside this engine's scope; the
//! maintainers only consume the results. The client is modelled as the
//! record of locally available blocks (a lookup misses when a block is not
//! among them, the benign case the maintainers must absorb), and the remote
//! fetcher as the outcome one fetch would deliver: a body, or a failure.

use vstd::prelude::*;

use crate::types::{Block, Transaction};

verus! {

/// The first block of `chain` carrying hash `h`, if any is available.
pub open spec fn spec_block_by_hash(chain: Seq<Block>, h: u64) -> Option<Block>
    decreases chain.len(),
{
    if chain.len() == 0 {
        None
    } else if chain[0].hash == h {
        Some(chain[0])
    } else {
        spec_block_by_hash(chain.drop_first(), h)
    }
}

/// Handle on locally available chain data, modelled as the blocks a lookup
/// can return.
pub struct ChainClient {
    blocks: Vec<Block>,
}

impl View for ChainClient {
    type V = Seq<Block>;

    closed spec fn view(&self) -> Seq<Block> {
        self.blocks@
    }
}

impl ChainClient {
    /// A client over the given locally available blocks.
    pub fn new(blocks: Vec<Block>) -> (c: ChainClient)
        ensures
            c@ == blocks@,
    {
        ChainClient { blocks }
    }

    /// Looks a block up by hash: its header and body where available,
    /// nothing where the chain data does not hold it.
    pub fn block(&self, h: u64) -> (r: Option<&Block>)
        ensures
            match r {
                Some(b) => spec_block_by_hash(self@, h) == Some(*b),
                None => spec_block_by_hash(self@, h) is None,
            },
    {
        let mut i: usize = 0;
        proof {
            assert(self.blocks@.subrange(0, self.blocks@.len() as int) =~= self.blocks@);
        }
        while i < self.blocks.len()
            invariant
                i <= self.blocks@.len(),
                spec_block_by_hash(self@, h) == spec_block_by_hash(
                    self.blocks@.subrange(i as int, self.blocks@.len() as int),
                    h,
                ),
            decreases self.blocks@.len() - i,
        {
            let ghost rest = self.blocks@.subrange(i as int, self.blocks@.len() as int);
            proof {
                assert(rest[0] == self.blocks@[i as int]);
                assert(rest.drop_first() =~= self.blocks@.subrange(
                    i + 1,
                    self.blocks@.len() as int,
                ));
            }
            if self.blocks[i].hash == h {
                return Some(&self.blocks[i]);
            }
            i = i + 1;
        }
        proof {
            assert(self.blocks@.subrange(
                self.blocks@.len() as int,
                self.blocks@.len() as int,
            ) =~= Seq::<Block>::empty());
        }
        None
    }
}

/// Handle on a remote source of block bodies, modelled as the outcome one
/// fetch would deliver: the body's transactions, or a failure.
pub struct Fetcher {
    response: Option<Vec<Transaction>>,
}

impl View for Fetcher {
    type V = Option<Seq<Transaction>>;

    closed spec fn view(&self) -> Option<Seq<Transaction>> {
        match self.response {
            Some(body) => Some(body@),
            None => None,
        }
    }
}

impl Fetcher {
    /// A fetcher whose next fetch delivers `response` (`None`: the fetch
    /// fails).
    pub fn new(response: Option<Vec<Transaction>>) -> (f: Fetcher)
        ensures
            f@ == (match response {
                Some(body) => Some(body@),
                None => None::<Seq<Transaction>>,
            }),
    {
        Fetcher { response }
    }

    /// Requests the body of the block `header` names from the remote source,
    /// under the source's default retry policy when `retry_count` is `None`.
    /// `None` is a failed fetch.
    pub fn remote_body(&self, header: &Block, retry_count: Option<u32>) -> (r: Option<
        &Vec<Transaction>,
    >)
        ensures
            match r {
                Some(body) => self@ == Some(body@),
                None => self@ is None,
            },
    {
        match &self.response {
            Some(body) => Some(body),
            None => None,
        }
    }
}

} // verus!
