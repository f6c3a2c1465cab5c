use vstd::prelude::*;

use crate::block::{
    copy_participants, copy_txs, participants_view, spec_header_hash, txs_view, BlockInfo,
    BlockProposal, Header, Metadata, Participant, Transaction,
};
use crate::blockchain::{
    block_headers, block_tx_hashes, chains_onto, genesis_header, hash_views, is_genesis_header, keeps,
    Blockchain, GatewayError,
};
use crate::bytes::{bytes_eq, copy_bytes};
use crate::constants::EPOCH_LENGTH;
use crate::field::{field_from_u64, le_value};
use crate::forks::first_longest;
use crate::lottery::{best_winner, create_coins, epoch_coins_wf, leader_verdict, LeadCoin};
use crate::mempool::{remove_all, without_all, without_chain};
use crate::receive::{received, ProposalChecks};
use crate::time::{relative_slot, slot_epoch, spec_relative_slot, spec_slot_epoch};
use crate::txverify::{batch_outcome, report_outcome, verify_report, verify_reports, TxError, TxReport};
use crate::validator::{hash_slot_number, ConsensusError, ConsensusState, ValidatorState};

verus! {

/// Lottery randomness derived from a proof hash: the hash with its two top bytes
/// cleared, read as a field element.
pub open spec fn eta_of(h: Seq<u8>) -> Seq<u8> {
    h.update(30, 0u8).update(31, 0u8)
}

/// Whether the canonical chain holds a block with header `h`.
pub open spec fn held(bc: Blockchain, h: Header) -> bool {
    exists|i: int| 0 <= i < bc.blocks@.len() && (#[trigger] bc.blocks@[i]).hash@ == spec_header_hash(h)
}

/// What holds after a node at `pre`, at slot `current`, checked for a new epoch with
/// coins `minted`, ending at `post` with result `r`.
pub open spec fn epoch_change_post(pre: ValidatorState, current: u64, minted: Seq<LeadCoin>, post: ValidatorState, r: bool) -> bool {
    &&& r == (spec_slot_epoch(current) > pre.consensus.epoch)
    &&& !r ==> post == pre
    &&& r ==> {
        &&& post.consensus.epoch as int == spec_slot_epoch(current)
        &&& post.consensus.epoch_eta@ == eta_of(pre.blockchain.tip().proof_hash@)
        &&& epoch_coins_wf(post.consensus.coins@)
        &&& forall|s: int| 0 <= s < EPOCH_LENGTH ==> (#[trigger] post.consensus.coins@[s])@ == seq![minted[s]]
        &&& post.consensus.proposals == pre.consensus.proposals
        &&& post.consensus.participants == pre.consensus.participants
        &&& post.blockchain == pre.blockchain
        &&& post.unconfirmed_txs == pre.unconfirmed_txs
        &&& post.participating == pre.participating
    }
}

/// The participant at the position that slot hash `h` selects.
pub open spec fn leader_of(ps: Seq<Participant>, h: u64) -> Participant {
    ps[(h as int) % (ps.len() as int)]
}

/// The blocks of `bs` that the canonical chain `bc` does not hold, in order.
pub open spec fn unheld(bc: Blockchain, bs: Seq<BlockInfo>) -> Seq<BlockInfo>
    decreases bs.len(),
{
    if bs.len() == 0 {
        bs
    } else if held(bc, bs.last().header) {
        unheld(bc, bs.drop_last())
    } else {
        unheld(bc, bs.drop_last()).push(bs.last())
    }
}

/// What holds after a node at `pre` verified `blocks`, from the runtime's `reports` on
/// their transactions, and appended them to the canonical chain, ending at `post` with
/// result `r`.
pub open spec fn blocks_received(
    pre: ValidatorState,
    blocks: Seq<BlockInfo>,
    reports: Seq<TxReport>,
    post: ValidatorState,
    r: Result<(), ConsensusError>,
) -> bool {
    let tip = pre.blockchain.tip();
    &&& post.blockchain.wf()
    &&& post.consensus == pre.consensus
    &&& post.unconfirmed_txs == pre.unconfirmed_txs
    &&& post.participating == pre.participating
    &&& post.public_key == pre.public_key
    &&& if batch_outcome(reports) is Err {
        r == Err::<(), ConsensusError>(ConsensusError::Transaction(batch_outcome(reports)->Err_0))
            && post.blockchain == pre.blockchain
    } else if !chains_onto(tip.slot, tip.hash@, block_headers(blocks)) {
        r == Err::<(), ConsensusError>(ConsensusError::Gateway(GatewayError::BrokenLinkage))
            && post.blockchain == pre.blockchain
    } else {
        &&& r is Ok
        &&& post.blockchain.blocks@.len() == pre.blockchain.blocks@.len() + blocks.len()
        &&& forall|i: int| 0 <= i < pre.blockchain.blocks@.len() ==> post.blockchain.blocks@[i] == pre.blockchain.blocks@[i]
        &&& forall|k: int|
            0 <= k < blocks.len() ==> keeps(#[trigger] post.blockchain.blocks@[pre.blockchain.blocks@.len() + k], blocks[k])
        &&& hash_views(post.blockchain.tx_hashes@) == hash_views(pre.blockchain.tx_hashes@) + block_tx_hashes(blocks)
    }
}

/// A result with its success value dropped.
pub open spec fn unit_result(r: Result<bool, ConsensusError>) -> Result<(), ConsensusError> {
    match r {
        Ok(_) => Ok(()),
        Err(e) => Err(e),
    }
}

impl ConsensusState {
    /// Consensus data of a chain started at `genesis_ts` with `genesis_data`: no
    /// proposals, no participants, epoch zero and randomness one.
    pub fn new(genesis_ts: i64, genesis_data: [u8; 32]) -> (r: ConsensusState)
        ensures
            r.genesis_ts == genesis_ts,
            exists|h: Header|
                is_genesis_header(h, genesis_ts, genesis_data) && r.genesis_block@ == spec_header_hash(h),
            r.proposals@.len() == 0,
            r.participants@.len() == 0,
            r.refreshed == 0,
            r.epoch == 0,
            le_value(r.epoch_eta@) == 1,
            r.coins@.len() == 0,
    {
        let header = genesis_header(genesis_ts, genesis_data);
        ConsensusState {
            genesis_ts,
            genesis_block: header.headerhash(),
            proposals: Vec::new(),
            participants: Vec::new(),
            refreshed: 0,
            epoch: 0,
            epoch_eta: field_from_u64(1),
            coins: Vec::new(),
        }
    }
}

impl ValidatorState {
    /// A validator holding public key `public_key`, on a chain started at `genesis_ts`
    /// with `genesis_data`, not yet participating.
    pub fn new(public_key: [u8; 32], genesis_ts: i64, genesis_data: [u8; 32]) -> (r: ValidatorState)
        ensures
            r.wf(),
            r.public_key == public_key,
            r.consensus.genesis_ts == genesis_ts,
            r.consensus.genesis_block@ == r.blockchain.tip().hash@,
            r.blockchain.blocks@.len() == 1,
            r.blockchain.tip().slot == 0,
            r.consensus.proposals@.len() == 0,
            r.consensus.participants@.len() == 0,
            r.consensus.epoch == 0,
            r.unconfirmed_txs@.len() == 0,
            r.participating is None,
    {
        let consensus = ConsensusState::new(genesis_ts, genesis_data);
        let blockchain = Blockchain::new(genesis_ts, genesis_data);
        proof {
            let h1 = choose|h: Header|
                is_genesis_header(h, genesis_ts, genesis_data) && consensus.genesis_block@ == spec_header_hash(h);
            let h2 = choose|h: Header|
                is_genesis_header(h, genesis_ts, genesis_data) && blockchain.tip().hash@ == spec_header_hash(h);
            assert(h1.root@ == h2.root@);
            assert(h1 == h2);
        }
        ValidatorState {
            public_key,
            consensus,
            blockchain,
            unconfirmed_txs: Vec::new(),
            participating: None,
        }
    }

    /// Lottery randomness of a new epoch, from the canonical tip's leader proof hash.
    pub fn get_eta(&self) -> (r: [u8; 32])
        requires
            self.blockchain.wf(),
        ensures
            r@ == eta_of(self.blockchain.tip().proof_hash@),
    {
        let mut bytes = self.blockchain.get_last_proof_hash();
        bytes[30] = 0;
        bytes[31] = 0;
        assert(bytes@ =~= eta_of(self.blockchain.tip().proof_hash@));
        bytes
    }

    /// At slot `current`, starts a new epoch if one has begun since the last: the coins
    /// `minted` for it become the epoch's competing coins, one per slot, and the lottery
    /// randomness is taken from the canonical tip. Returns whether the epoch changed.
    pub fn epoch_changed_at(&mut self, current: u64, minted: Vec<LeadCoin>) -> (r: bool)
        requires
            minted@.len() == EPOCH_LENGTH,
            forall|j: int| 0 <= j < minted@.len() ==> (#[trigger] minted@[j]).wf(),
            old(self).blockchain.wf(),
        ensures
            epoch_change_post(*old(self), current, minted@, *final(self), r),
    {
        let epoch = slot_epoch(current);
        if epoch <= self.consensus.epoch {
            return false;
        }
        let eta = self.get_eta();
        self.consensus.coins = create_coins(minted);
        self.consensus.epoch = epoch;
        self.consensus.epoch_eta = eta;
        true
    }

    /// Runs the lottery of slot `current` over the node's coins for it: whether one wins,
    /// and the index of the winner of highest value, the first among equals.
    pub fn is_slot_leader_at(&self, current: u64) -> (r: (bool, usize))
        requires
            epoch_coins_wf(self.consensus.coins@),
        ensures
            leader_verdict(self.consensus.coins@[spec_relative_slot(current)]@, r.0, r.1 as int),
    {
        let slot = relative_slot(current) as usize;
        let row = &self.consensus.coins[slot];
        assert(forall|j: int| 0 <= j < row@.len() ==> (#[trigger] row@[j]).wf()) by {
            assert forall|j: int| 0 <= j < row@.len() implies (#[trigger] row@[j]).wf() by {
                assert(self.consensus.coins@[slot as int]@[j].wf());
            }
        }
        best_winner(row)
    }

    /// Runs the lottery of the slot running at `now`.
    pub fn is_slot_leader(&self, now: i64) -> (r: (bool, usize))
        requires
            epoch_coins_wf(self.consensus.coins@),
        ensures
            leader_verdict(self.consensus.coins@[spec_relative_slot(self.slot_now(now) as u64)]@, r.0, r.1 as int),
    {
        let current = self.current_slot(now);
        self.is_slot_leader_at(current)
    }

    /// The participant at the position that slot hash `h` selects.
    pub fn leader_at(&self, h: u64) -> (r: &Participant)
        requires
            self.consensus.participants@.len() > 0,
        ensures
            *r == leader_of(self.consensus.participants@, h),
    {
        let n = self.consensus.participants.len();
        let pos = (h % (n as u64)) as usize;
        &self.consensus.participants[pos]
    }

    /// The participant that leads the slot running at `now`, by the hash of the slot's
    /// number.
    pub fn slot_leader(&self, now: i64) -> (r: &Participant)
        requires
            self.consensus.participants@.len() > 0,
        ensures
            exists|h: u64| *r == #[trigger] leader_of(self.consensus.participants@, h),
    {
        let slot = self.current_slot(now);
        let h = hash_slot_number(slot);
        self.leader_at(h)
    }

    /// Pending transactions not yet in fork chain `index`; all of them for -1, the
    /// canonical tip.
    pub fn unproposed_txs(&self, index: i64) -> (r: Vec<Transaction>)
        requires
            self.wf(),
            index == -1 || 0 <= index < self.consensus.proposals@.len(),
        ensures
            index == -1 ==> txs_view(r@) == txs_view(self.unconfirmed_txs@),
            index != -1 ==> txs_view(r@) == without_chain(
                txs_view(self.unconfirmed_txs@),
                self.consensus.proposals@[index as int].proposals@,
            ),
    {
        let mut pool = copy_txs(&self.unconfirmed_txs);
        if index == -1 {
            return pool;
        }
        let n = self.consensus.proposals.len();
        assert(index < n);
        let chain = &self.consensus.proposals[index as usize];
        let ghost start = txs_view(self.unconfirmed_txs@);
        let mut i: usize = 0;
        while i < chain.proposals.len()
            invariant
                i <= chain.proposals@.len(),
                txs_view(pool@) == without_chain(start, chain.proposals@.take(i as int)),
            decreases chain.proposals@.len() - i,
        {
            remove_all(&mut pool, &chain.proposals[i].txs);
            i = i + 1;
            assert(chain.proposals@.take(i as int).drop_last() =~= chain.proposals@.take(i - 1));
        }
        assert(chain.proposals@.take(i as int) =~= chain.proposals@);
        pool
    }

    /// Removes the given transactions from the pending ones, the first occurrence of each.
    pub fn remove_txs(&mut self, transactions: &Vec<Transaction>)
        ensures
            txs_view(final(self).unconfirmed_txs@) == without_all(txs_view(old(self).unconfirmed_txs@), txs_view(transactions@)),
            final(self).consensus == old(self).consensus,
            final(self).blockchain == old(self).blockchain,
            final(self).participating == old(self).participating,
            final(self).public_key == old(self).public_key,
    {
        remove_all(&mut self.unconfirmed_txs, transactions);
    }

    /// Header of a proposal for slot `current`, extending the longest fork chain or the
    /// canonical tip.
    pub fn proposal_header(&self, current: u64, timestamp: i64, root: [u8; 32]) -> (r: Header)
        requires
            self.wf(),
        ensures
            r.slot == current,
            r.epoch as int == spec_slot_epoch(current),
            r.timestamp == timestamp,
            r.root == root,
            self.consensus.proposals@.len() == 0 ==> r.previous == self.blockchain.tip().hash,
            self.consensus.proposals@.len() > 0 ==> exists|i: int|
                first_longest(self.consensus.proposals@, i)
                    && r.previous == self.consensus.proposals@[i].proposals@.last().header_hash,
    {
        let (prev, _) = self.longest_chain_last_hash();
        Header::new(prev, slot_epoch(current), current, timestamp, root)
    }

    /// Assembles the node's proposal for slot `current`, won with coin `idx` of that
    /// slot: its header extends the longest fork chain, or the canonical tip when there is
    /// none, and it carries the pending transactions not yet in that chain, the signature
    /// of the header hash (made over `proposal_header`'s result for the same arguments)
    /// and the leader proof.
    pub fn propose(
        &self,
        current: u64,
        timestamp: i64,
        root: [u8; 32],
        idx: usize,
        signature: Vec<u8>,
        proof: Vec<u8>,
    ) -> (r: BlockProposal)
        requires
            self.wf(),
            epoch_coins_wf(self.consensus.coins@),
            idx < self.consensus.coins@[spec_relative_slot(current)]@.len(),
        ensures
            r.header.slot == current,
            r.header.epoch as int == spec_slot_epoch(current),
            r.header.timestamp == timestamp,
            r.header.root == root,
            r.header_hash@ == spec_header_hash(r.header),
            self.consensus.proposals@.len() == 0 ==> {
                &&& r.header.previous == self.blockchain.tip().hash
                &&& txs_view(r.txs@) == txs_view(self.unconfirmed_txs@)
            },
            self.consensus.proposals@.len() > 0 ==> exists|i: int|
                #[trigger] first_longest(self.consensus.proposals@, i)
                    && r.header.previous == self.consensus.proposals@[i].proposals@.last().header_hash
                    && txs_view(r.txs@) == without_chain(
                    txs_view(self.unconfirmed_txs@),
                    self.consensus.proposals@[i].proposals@,
                ),
            r.metadata.public_key == self.public_key,
            r.metadata.winning_index == idx,
            r.metadata.signature@ == signature@,
            r.metadata.proof@ == proof@,
            r.metadata.eta == self.consensus.epoch_eta,
            r.metadata.public_inputs@ == self.consensus.coins@[spec_relative_slot(current)]@[idx as int].public_inputs@,
            r.metadata.new_public_inputs@ == r.metadata.public_inputs@,
            r.metadata.serial == self.consensus.coins@[spec_relative_slot(current)]@[idx as int].serial,
            participants_view(r.metadata.participants@) == participants_view(self.consensus.participants@),
    {
        let (prev, index) = self.longest_chain_last_hash();
        let header = Header::new(prev, slot_epoch(current), current, timestamp, root);
        let txs = self.unproposed_txs(index);
        let rel = relative_slot(current) as usize;
        let coin = &self.consensus.coins[rel][idx];
        let metadata = Metadata {
            signature,
            public_key: self.public_key,
            public_inputs: copy_bytes(&coin.public_inputs),
            new_public_inputs: copy_bytes(&coin.public_inputs),
            winning_index: idx,
            serial: coin.serial,
            eta: self.consensus.epoch_eta,
            proof,
            participants: copy_participants(&self.consensus.participants),
        };
        BlockProposal::new(header, txs, metadata)
    }

    /// Verdict on a batch of transactions from what the runtime reported on each.
    pub fn verify_transactions(&self, reports: &Vec<TxReport>) -> (r: Result<(), TxError>)
        ensures
            r == batch_outcome(reports@),
    {
        verify_reports(reports)
    }

    /// Whether `tx` is pending.
    pub fn is_pending(&self, tx: &Transaction) -> (r: bool)
        ensures
            r == txs_view(self.unconfirmed_txs@).contains(tx@),
    {
        let mut i: usize = 0;
        while i < self.unconfirmed_txs.len()
            invariant
                i <= self.unconfirmed_txs@.len(),
                forall|j: int| 0 <= j < i ==> (#[trigger] self.unconfirmed_txs@[j])@ != tx@,
            decreases self.unconfirmed_txs@.len() - i,
        {
            if bytes_eq(self.unconfirmed_txs[i].bytes.as_slice(), tx.bytes.as_slice()) {
                assert(txs_view(self.unconfirmed_txs@)[i as int] == tx@);
                return true;
            }
            i = i + 1;
        }
        assert forall|j: int| 0 <= j < txs_view(self.unconfirmed_txs@).len() implies txs_view(self.unconfirmed_txs@)[j] != tx@ by {
            assert(self.unconfirmed_txs@[j]@ != tx@);
        }
        false
    }

    /// Adds a transaction to the pending ones unless it is pending or finalized already,
    /// or the runtime's report on it is a failure. Returns whether it was added.
    pub fn append_tx(&mut self, tx: Transaction, report: &TxReport) -> (r: bool)
        ensures
            r == (!old(self).blockchain.tx_hashes@.map_values(|h: [u8; 32]| h@).contains(crate::block::blake3_of(tx@))
                && !txs_view(old(self).unconfirmed_txs@).contains(tx@)
                && report_outcome(*report) is Ok),
            r ==> txs_view(final(self).unconfirmed_txs@) == txs_view(old(self).unconfirmed_txs@).push(tx@),
            !r ==> *final(self) == *old(self),
            final(self).consensus == old(self).consensus,
            final(self).blockchain == old(self).blockchain,
    {
        let h = tx.hash();
        let known = self.blockchain.contains_tx(&h);
        proof {
            let hs = self.blockchain.tx_hashes@.map_values(|x: [u8; 32]| x@);
            if known {
                let i = choose|i: int| 0 <= i < self.blockchain.tx_hashes@.len() && (#[trigger] self.blockchain.tx_hashes@[i])@ == h@;
                assert(hs[i] == h@);
            } else {
                assert forall|i: int| 0 <= i < hs.len() implies hs[i] != h@ by {
                    assert(self.blockchain.tx_hashes@[i]@ != h@);
                }
            }
        }
        if known || self.is_pending(&tx) {
            return false;
        }
        if verify_report(report).is_err() {
            return false;
        }
        self.unconfirmed_txs.push(tx);
        assert(txs_view(self.unconfirmed_txs@) =~= txs_view(old(self).unconfirmed_txs@).push(tx@));
        true
    }

    /// Verifies the transactions of `blocks` from the runtime's `reports` on them and
    /// appends the blocks to the canonical chain.
    pub fn receive_blocks(&mut self, blocks: &Vec<BlockInfo>, reports: &Vec<TxReport>) -> (r: Result<(), ConsensusError>)
        requires
            old(self).blockchain.wf(),
        ensures
            blocks_received(*old(self), blocks@, reports@, *final(self), r),
    {
        if let Err(e) = verify_reports(reports) {
            return Err(ConsensusError::Transaction(e));
        }
        match self.blockchain.add(blocks) {
            Ok(_) => Ok(()),
            Err(e) => Err(ConsensusError::Gateway(e)),
        }
    }

    /// Handles a finalized block: ignored, with false, when already held; otherwise
    /// verified, from the runtime's `reports` on its transactions, and appended, and its
    /// transactions leave the pending ones.
    pub fn receive_finalized_block(&mut self, block: BlockInfo, reports: &Vec<TxReport>) -> (r: Result<bool, ConsensusError>)
        requires
            old(self).blockchain.wf(),
        ensures
            final(self).blockchain.wf(),
            final(self).consensus == old(self).consensus,
            held(old(self).blockchain, block.header) ==> r == Ok::<bool, ConsensusError>(false) && *final(self) == *old(self),
            !held(old(self).blockchain, block.header) ==> {
                &&& r is Err ==> *final(self) == *old(self)
                &&& (r is Err || r == Ok::<bool, ConsensusError>(true))
                &&& exists|mid: ValidatorState|
                    #[trigger] blocks_received(*old(self), seq![block], reports@, mid, unit_result(r))
                        && mid.blockchain == final(self).blockchain
                &&& r == Ok::<bool, ConsensusError>(true) ==> txs_view(final(self).unconfirmed_txs@) == without_all(
                    txs_view(old(self).unconfirmed_txs@),
                    txs_view(block.txs@),
                )
            },
    {
        let hash = block.header.headerhash();
        if self.blockchain.has_block(&hash) {
            return Ok(false);
        }
        let txs = copy_txs(&block.txs);
        let ghost b = block;
        let mut blocks: Vec<BlockInfo> = Vec::new();
        blocks.push(block);
        assert(blocks@ =~= seq![b]);
        match self.receive_blocks(&blocks, reports) {
            Ok(()) => {},
            Err(e) => {
                assert(blocks_received(*old(self), seq![b], reports@, *self, Err(e)));
                return Err(e);
            },
        }
        let ghost mid = *self;
        self.remove_txs(&txs);
        assert(blocks_received(*old(self), seq![b], reports@, mid, Ok(())) && mid.blockchain == self.blockchain);
        Ok(true)
    }

    /// Handles blocks from the sync task: those already held are skipped, the others
    /// verified, from the runtime's `reports` on their transactions, and appended.
    pub fn receive_sync_blocks(&mut self, blocks: Vec<BlockInfo>, reports: &Vec<TxReport>) -> (r: Result<(), ConsensusError>)
        requires
            old(self).blockchain.wf(),
        ensures
            unheld(old(self).blockchain, blocks@).len() == 0 ==> r is Ok && *final(self) == *old(self),
            unheld(old(self).blockchain, blocks@).len() > 0 ==> blocks_received(
                *old(self),
                unheld(old(self).blockchain, blocks@),
                reports@,
                *final(self),
                r,
            ),
            final(self).blockchain.wf(),
    {
        let ghost all = blocks@;
        let total = blocks.len();
        let mut rest = blocks;
        let mut fresh: Vec<BlockInfo> = Vec::new();
        let mut m: usize = 0;
        while rest.len() > 0
            invariant
                self.blockchain.wf(),
                *self == *old(self),
                m + rest@.len() == all.len(),
                all.len() == total,
                rest@ == all.subrange(m as int, all.len() as int),
                fresh@ == unheld(self.blockchain, all.take(m as int)),
            decreases rest@.len(),
        {
            let b = rest.remove(0);
            assert(b == all[m as int]);
            let hash = b.header.headerhash();
            let known = self.blockchain.has_block(&hash);
            assert(known == held(self.blockchain, all[m as int].header));
            if !known {
                fresh.push(b);
            }
            m = m + 1;
            assert(all.take(m as int).drop_last() =~= all.take(m - 1));
            assert(rest@ =~= all.subrange(m as int, all.len() as int));
        }
        assert(all.take(m as int) =~= all);
        if fresh.len() == 0 {
            return Ok(());
        }
        self.receive_blocks(&fresh, reports)
    }

    /// Handles a proposal received at time `now`.
    pub fn receive_proposal(&mut self, now: i64, proposal: BlockProposal, checks: &ProposalChecks) -> (r: Result<Option<Vec<BlockInfo>>, ConsensusError>)
        requires
            old(self).wf(),
            old(self).consensus.proposals@.len() + 2 < i64::MAX,
        ensures
            received(*old(self), old(self).slot_now(now) as u64, proposal, *checks, *final(self), r),
    {
        let current = self.current_slot(now);
        self.receive_proposal_at(current, proposal, checks)
    }

    /// At the slot running at `now`, starts a new epoch if one has begun since the last.
    pub fn epoch_changed(&mut self, now: i64, minted: Vec<LeadCoin>) -> (r: bool)
        requires
            minted@.len() == EPOCH_LENGTH,
            forall|j: int| 0 <= j < minted@.len() ==> (#[trigger] minted@[j]).wf(),
            old(self).blockchain.wf(),
        ensures
            epoch_change_post(*old(self), old(self).slot_now(now) as u64, minted@, *final(self), r),
    {
        let current = self.current_slot(now);
        self.epoch_changed_at(current, minted)
    }
}

} // verus!
