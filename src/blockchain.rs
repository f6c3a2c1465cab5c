use vstd::prelude::*;

use crate::block::{blake3_of, digest_of, spec_header_hash, BlockInfo, Header, Transaction};
use crate::bytes::digest_eq;

verus! {

/// What the canonical chain keeps of a finalized block.
#[derive(Clone, Copy, Debug)]
pub struct CanonicalBlock {
    /// Slot of the block
    pub slot: u64,
    /// Hash of the block's header
    pub hash: [u8; 32],
    /// Hash of the block's leader proof
    pub proof_hash: [u8; 32],
}

/// Error of the canonical chain store.
#[derive(Clone, Copy, Debug, PartialEq, Eq, Structural)]
pub enum GatewayError {
    /// The blocks do not extend the canonical tip
    BrokenLinkage,
}

/// Whether the `k`th of headers `hs`, appended after a tip at `tip_slot` with hash
/// `tip_hash`, names the hash of the header before it (the tip for the first) and
/// comes in a later slot.
pub open spec fn link_ok(tip_slot: u64, tip_hash: Seq<u8>, hs: Seq<Header>, k: int) -> bool {
    if k == 0 {
        hs[0].previous@ == tip_hash && hs[0].slot > tip_slot
    } else {
        hs[k].previous@ == spec_header_hash(hs[k - 1]) && hs[k].slot > hs[k - 1].slot
    }
}

/// Whether headers `hs` can be appended, in order, after a tip at `tip_slot` with hash
/// `tip_hash`.
pub open spec fn chains_onto(tip_slot: u64, tip_hash: Seq<u8>, hs: Seq<Header>) -> bool {
    forall|k: int| 0 <= k < hs.len() ==> #[trigger] link_ok(tip_slot, tip_hash, hs, k)
}

/// The canonical (finalized) chain: its blocks, oldest first, and the hashes of the
/// transactions they hold.
pub struct Blockchain {
    pub blocks: Vec<CanonicalBlock>,
    pub tx_hashes: Vec<[u8; 32]>,
}

impl Blockchain {
    pub open spec fn wf(&self) -> bool {
        self.blocks@.len() > 0
    }

    /// The canonical tip.
    pub open spec fn tip(&self) -> CanonicalBlock {
        self.blocks@.last()
    }

    /// A chain holding only the genesis block, a block at slot zero whose header names
    /// `genesis_data` as its previous hash.
    pub fn new(genesis_ts: i64, genesis_data: [u8; 32]) -> (r: Blockchain)
        ensures
            r.wf(),
            r.blocks@.len() == 1,
            r.tip().slot == 0,
            exists|h: Header|
                is_genesis_header(h, genesis_ts, genesis_data) && r.tip().hash@ == spec_header_hash(h),
            r.tip().proof_hash@ == blake3_of(Seq::empty()),
            r.tx_hashes@.len() == 0,
    {
        let header = genesis_header(genesis_ts, genesis_data);
        let empty: Vec<u8> = Vec::new();
        let genesis = CanonicalBlock {
            slot: 0,
            hash: header.headerhash(),
            proof_hash: digest_of(&empty),
        };
        let mut blocks: Vec<CanonicalBlock> = Vec::new();
        blocks.push(genesis);
        Blockchain { blocks, tx_hashes: Vec::new() }
    }

    /// Slot and hash of the canonical tip.
    pub fn last(&self) -> (r: (u64, [u8; 32]))
        requires
            self.wf(),
        ensures
            r.0 == self.tip().slot,
            r.1 == self.tip().hash,
    {
        let b = self.blocks[self.blocks.len() - 1];
        (b.slot, b.hash)
    }

    /// Hash of the canonical tip's leader proof.
    pub fn get_last_proof_hash(&self) -> (r: [u8; 32])
        requires
            self.wf(),
        ensures
            r == self.tip().proof_hash,
    {
        self.blocks[self.blocks.len() - 1].proof_hash
    }

    /// Whether a block with the given header hash is in the chain.
    pub fn has_block(&self, hash: &[u8; 32]) -> (r: bool)
        ensures
            r == exists|i: int| 0 <= i < self.blocks@.len() && (#[trigger] self.blocks@[i]).hash@ == hash@,
    {
        let mut i: usize = 0;
        while i < self.blocks.len()
            invariant
                i <= self.blocks@.len(),
                forall|j: int| 0 <= j < i ==> (#[trigger] self.blocks@[j]).hash@ != hash@,
            decreases self.blocks@.len() - i,
        {
            if digest_eq(&self.blocks[i].hash, hash) {
                return true;
            }
            i = i + 1;
        }
        false
    }

    /// Whether a transaction with the given hash was finalized.
    pub fn contains_tx(&self, tx_hash: &[u8; 32]) -> (r: bool)
        ensures
            r == exists|i: int| 0 <= i < self.tx_hashes@.len() && (#[trigger] self.tx_hashes@[i])@ == tx_hash@,
    {
        let mut i: usize = 0;
        while i < self.tx_hashes.len()
            invariant
                i <= self.tx_hashes@.len(),
                forall|j: int| 0 <= j < i ==> (#[trigger] self.tx_hashes@[j])@ != tx_hash@,
            decreases self.tx_hashes@.len() - i,
        {
            if digest_eq(&self.tx_hashes[i], tx_hash) {
                return true;
            }
            i = i + 1;
        }
        false
    }

    /// Whether headers `hs` can be appended after the tip.
    pub fn can_append(&self, hs: &Vec<Header>) -> (r: bool)
        requires
            self.wf(),
        ensures
            r == chains_onto(self.tip().slot, self.tip().hash@, hs@),
    {
        let (mut slot, mut hash) = self.last();
        let mut k: usize = 0;
        while k < hs.len()
            invariant
                self.wf(),
                k <= hs@.len(),
                forall|j: int| 0 <= j < k ==> #[trigger] link_ok(self.tip().slot, self.tip().hash@, hs@, j),
                slot == (if k == 0 { self.tip().slot } else { hs@[k - 1].slot }),
                hash@ == (if k == 0 { self.tip().hash@ } else { spec_header_hash(hs@[k - 1]) }),
            decreases hs@.len() - k,
        {
            if !digest_eq(&hs[k].previous, &hash) || hs[k].slot <= slot {
                assert(!link_ok(self.tip().slot, self.tip().hash@, hs@, k as int));
                return false;
            }
            slot = hs[k].slot;
            hash = hs[k].headerhash();
            k = k + 1;
        }
        true
    }
}

/// Contents of a list of digests.
pub open spec fn hash_views(hs: Seq<[u8; 32]>) -> Seq<Seq<u8>> {
    hs.map_values(|h: [u8; 32]| h@)
}

/// Hashes of a list of transactions.
pub open spec fn tx_hashes_of(txs: Seq<Transaction>) -> Seq<Seq<u8>> {
    txs.map_values(|t: Transaction| blake3_of(t@))
}

/// Hashes of the transactions of a list of blocks, block by block.
pub open spec fn block_tx_hashes(bs: Seq<BlockInfo>) -> Seq<Seq<u8>>
    decreases bs.len(),
{
    if bs.len() == 0 {
        Seq::empty()
    } else {
        block_tx_hashes(bs.drop_last()) + tx_hashes_of(bs.last().txs@)
    }
}

/// Whether `c` is what the canonical chain keeps of block `b`.
pub open spec fn keeps(c: CanonicalBlock, b: BlockInfo) -> bool {
    &&& c.slot == b.header.slot
    &&& c.hash@ == spec_header_hash(b.header)
    &&& c.proof_hash@ == blake3_of(b.metadata.proof@)
}

/// Headers of a sequence of blocks.
pub open spec fn block_headers(bs: Seq<BlockInfo>) -> Seq<Header> {
    bs.map_values(|b: BlockInfo| b.header)
}

impl Blockchain {
    /// Appends blocks that chain onto the tip, with the hashes of their transactions.
    pub fn append(&mut self, blocks: &Vec<BlockInfo>) -> (r: Vec<[u8; 32]>)
        requires
            old(self).wf(),
            chains_onto(old(self).tip().slot, old(self).tip().hash@, block_headers(blocks@)),
        ensures
            final(self).wf(),
            final(self).blocks@.len() == old(self).blocks@.len() + blocks@.len(),
            forall|i: int| 0 <= i < old(self).blocks@.len() ==> final(self).blocks@[i] == old(self).blocks@[i],
            forall|k: int|
                0 <= k < blocks@.len() ==> keeps(
                    #[trigger] final(self).blocks@[old(self).blocks@.len() + k],
                    blocks@[k],
                ),
            hash_views(final(self).tx_hashes@) == hash_views(old(self).tx_hashes@) + block_tx_hashes(blocks@),
            r@.len() == blocks@.len(),
            forall|k: int| 0 <= k < blocks@.len() ==> (#[trigger] r@[k])@ == spec_header_hash(blocks@[k].header),
    {
        let ghost start = self.blocks@;
        let ghost start_txs = self.tx_hashes@;
        let mut hashes: Vec<[u8; 32]> = Vec::new();
        let mut k: usize = 0;
        while k < blocks.len()
            invariant
                self.wf(),
                k <= blocks@.len(),
                self.blocks@.len() == start.len() + k,
                start.len() > 0,
                forall|i: int| 0 <= i < start.len() ==> self.blocks@[i] == start[i],
                forall|j: int| 0 <= j < k ==> keeps(#[trigger] self.blocks@[start.len() + j], blocks@[j]),
                hash_views(self.tx_hashes@) == hash_views(start_txs) + block_tx_hashes(blocks@.take(k as int)),
                hashes@.len() == k,
                forall|j: int| 0 <= j < k ==> (#[trigger] hashes@[j])@ == spec_header_hash(blocks@[j].header),
            decreases blocks@.len() - k,
        {
            let b = &blocks[k];
            let hash = b.header.headerhash();
            let proof_hash = digest_of(&b.metadata.proof);
            self.blocks.push(CanonicalBlock { slot: b.header.slot, hash, proof_hash });
            hashes.push(hash);
            let ghost blocks_now = self.blocks@;
            let ghost before = hash_views(start_txs) + block_tx_hashes(blocks@.take(k as int));
            let mut t: usize = 0;
            while t < b.txs.len()
                invariant
                    t <= b.txs@.len(),
                    self.blocks@ == blocks_now,
                    hash_views(self.tx_hashes@) == before + tx_hashes_of(b.txs@.take(t as int)),
                decreases b.txs@.len() - t,
            {
                let h = b.txs[t].hash();
                let ghost prev = self.tx_hashes@;
                self.tx_hashes.push(h);
                assert(hash_views(self.tx_hashes@) =~= hash_views(prev).push(h@));
                assert(tx_hashes_of(b.txs@.take(t + 1)) =~= tx_hashes_of(b.txs@.take(t as int)).push(blake3_of(b.txs@[t as int]@)));
                t = t + 1;
                assert(hash_views(self.tx_hashes@) =~= before + tx_hashes_of(b.txs@.take(t as int)));
            }
            assert(b.txs@.take(t as int) =~= b.txs@);
            k = k + 1;
            assert(blocks@.take(k as int).drop_last() =~= blocks@.take(k - 1));
            assert(hash_views(self.tx_hashes@) =~= hash_views(start_txs) + block_tx_hashes(blocks@.take(k as int)));
        }
        assert(blocks@.take(k as int) =~= blocks@);
        hashes
    }

    /// Appends blocks after the tip; fails, changing nothing, when they do not chain
    /// onto it.
    pub fn add(&mut self, blocks: &Vec<BlockInfo>) -> (r: Result<Vec<[u8; 32]>, GatewayError>)
        requires
            old(self).wf(),
        ensures
            final(self).wf(),
            r.is_ok() == chains_onto(old(self).tip().slot, old(self).tip().hash@, block_headers(blocks@)),
            r.is_err() ==> *final(self) == *old(self),
            r.is_ok() ==> {
                &&& final(self).blocks@.len() == old(self).blocks@.len() + blocks@.len()
                &&& forall|i: int| 0 <= i < old(self).blocks@.len() ==> final(self).blocks@[i] == old(self).blocks@[i]
                &&& forall|k: int|
                    0 <= k < blocks@.len() ==> keeps(
                        #[trigger] final(self).blocks@[old(self).blocks@.len() + k],
                        blocks@[k],
                    )
                &&& hash_views(final(self).tx_hashes@) == hash_views(old(self).tx_hashes@) + block_tx_hashes(blocks@)
            },
    {
        let mut headers: Vec<Header> = Vec::new();
        let mut k: usize = 0;
        while k < blocks.len()
            invariant
                k <= blocks@.len(),
                headers@ == block_headers(blocks@).take(k as int),
            decreases blocks@.len() - k,
        {
            headers.push(blocks[k].header);
            k = k + 1;
            assert(headers@ =~= block_headers(blocks@).take(k as int));
        }
        assert(headers@ =~= block_headers(blocks@));
        if !self.can_append(&headers) {
            return Err(GatewayError::BrokenLinkage);
        }
        Ok(self.append(blocks))
    }
}

/// Whether `h` is the header of the genesis block of a chain started at `genesis_ts`
/// with `genesis_data`: slot and epoch zero, `genesis_data` as previous hash and an
/// all-zero root.
pub open spec fn is_genesis_header(h: Header, genesis_ts: i64, genesis_data: [u8; 32]) -> bool {
    &&& h.previous == genesis_data
    &&& h.epoch == 0
    &&& h.slot == 0
    &&& h.timestamp == genesis_ts
    &&& h.root@ == Seq::new(32, |i: int| 0u8)
}

/// Header of the genesis block.
pub fn genesis_header(genesis_ts: i64, genesis_data: [u8; 32]) -> (r: Header)
    ensures
        is_genesis_header(r, genesis_ts, genesis_data),
{
    let root: [u8; 32] = [0u8; 32];
    assert(root@ =~= Seq::new(32, |i: int| 0u8));
    Header { previous: genesis_data, epoch: 0, slot: 0, timestamp: genesis_ts, root }
}

} // verus!
