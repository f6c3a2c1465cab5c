use vstd::prelude::*;

use std::collections::hash_map::DefaultHasher;
use std::hash::{Hash, Hasher};

use crate::block::{BlockProposal, Participant, Transaction};
use crate::blockchain::{Blockchain, GatewayError};
use crate::chain::ProposalChain;
use crate::constants::EPOCH_LENGTH;
use crate::lottery::LeadCoin;
use crate::time::{
    next_n_slot_start_at, relative_slot, slot_at, slot_epoch, slots_to_next_n_epoch_at,
    spec_relative_slot, spec_seconds_until_slot, spec_slot_at, spec_slot_epoch,
    spec_slots_to_next_n_epoch,
};
use crate::txverify::TxError;

verus! {

/// Relies on std's DefaultHasher: a hash of the slot number.
#[verifier::external_body]
pub(crate) fn hash_slot_number(slot: u64) -> (r: u64) {
    let mut hasher = DefaultHasher::new();
    slot.hash(&mut hasher);
    hasher.finish()
}

/// Error raised while handling a proposal or a block.
#[derive(Clone, Copy, Debug, PartialEq, Eq, Structural)]
pub enum ConsensusError {
    /// The proposer is not a known participant
    UnknownNode,
    /// The proposal's header hash differs from its header's hash
    HeaderMismatch,
    /// The winning coin's public inputs differ from the known ones
    InvalidPublicInputs,
    /// The leader proof does not verify
    LeaderProofFailure,
    /// The proposal's signature does not verify
    InvalidSignature,
    /// The proposal extends no known chain
    UnknownExtension,
    /// A transaction was rejected
    Transaction(TxError),
    /// The canonical chain refused blocks
    Gateway(GatewayError),
}

/// Data used by the consensus algorithm.
pub struct ConsensusState {
    /// Genesis block creation timestamp
    pub genesis_ts: i64,
    /// Genesis block hash
    pub genesis_block: [u8; 32],
    /// Fork chains containing block proposals
    pub proposals: Vec<ProposalChain>,
    /// Validators currently participating in the consensus, ordered by public key
    pub participants: Vec<Participant>,
    /// Last slot participants were refreshed
    pub refreshed: u64,
    /// Current epoch
    pub epoch: u64,
    /// Current epoch's lottery randomness, as a field element's encoding
    pub epoch_eta: [u8; 32],
    /// Current epoch's competing coins, one row per slot
    pub coins: Vec<Vec<LeadCoin>>,
}

/// Every fork chain is well formed.
pub open spec fn chains_wf(chains: Seq<ProposalChain>) -> bool {
    forall|i: int| 0 <= i < chains.len() ==> (#[trigger] chains[i]).wf()
}

/// Auxiliary structure used for consensus syncing: the requester's public key.
pub struct ConsensusRequest {
    pub public_key: [u8; 32],
}

/// Auxiliary structure used for consensus syncing: the live consensus data.
pub struct ConsensusResponse {
    pub proposals: Vec<ProposalChain>,
    pub participants: Vec<Participant>,
}

/// State of a validator node.
pub struct ValidatorState {
    /// Node's public key
    pub public_key: [u8; 32],
    /// Live data used by the consensus algorithm
    pub consensus: ConsensusState,
    /// Canonical (finalized) blockchain
    pub blockchain: Blockchain,
    /// Pending transactions
    pub unconfirmed_txs: Vec<Transaction>,
    /// Slot the node starts participating at
    pub participating: Option<u64>,
}

impl ValidatorState {
    pub open spec fn wf(&self) -> bool {
        &&& chains_wf(self.consensus.proposals@)
        &&& self.consensus.proposals@.len() < i64::MAX
        &&& self.blockchain.wf()
    }

    /// The node's slot at time `now`.
    pub open spec fn slot_now(&self, now: i64) -> int {
        spec_slot_at(self.consensus.genesis_ts, now)
    }

    /// Slot running at time `now`, from the time elapsed since genesis.
    pub fn current_slot(&self, now: i64) -> (r: u64)
        ensures
            r as int == self.slot_now(now),
            r < u64::MAX,
    {
        slot_at(self.consensus.genesis_ts, now)
    }

    /// Epoch running at time `now`.
    pub fn current_epoch(&self, now: i64) -> (r: u64)
        ensures
            r as int == spec_slot_epoch(self.slot_now(now) as u64),
    {
        let slot = self.current_slot(now);
        self.slot_epoch(slot)
    }

    /// Epoch of the provided slot.
    pub fn slot_epoch(&self, slot: u64) -> (r: u64)
        ensures
            r as int == spec_slot_epoch(slot),
            r as int == slot as int / EPOCH_LENGTH as int,
    {
        slot_epoch(slot)
    }

    /// Position of the provided slot inside its epoch.
    pub fn relative_slot(&self, slot: u64) -> (r: u64)
        ensures
            r as int == spec_relative_slot(slot),
            r < EPOCH_LENGTH,
    {
        relative_slot(slot)
    }

    /// Seconds from `now` until slot `current_slot + n` starts, zero when it has started.
    pub fn next_n_slot_start(&self, now: i64, n: u64) -> (r: u128)
        requires
            n > 0,
        ensures
            r as int == spec_seconds_until_slot(self.consensus.genesis_ts, now, self.slot_now(now) + n),
    {
        let slot = slot_at(self.consensus.genesis_ts, now);
        next_n_slot_start_at(self.consensus.genesis_ts, now, slot, n)
    }

    /// Slots from the one running at `now` until the `n`th next epoch starts.
    pub fn slots_to_next_n_epoch(&self, now: i64, n: u64) -> (r: u64)
        requires
            n > 0,
            (n - 1) * EPOCH_LENGTH + EPOCH_LENGTH <= u64::MAX,
        ensures
            r as int == spec_slots_to_next_n_epoch(self.slot_now(now) as u64, n),
            r > 0,
    {
        let slot = self.current_slot(now);
        slots_to_next_n_epoch_at(slot, n)
    }

    /// Seconds from `now` until the `n`th next epoch starts, zero when it has started.
    pub fn next_n_epoch_start(&self, now: i64, n: u64) -> (r: u128)
        requires
            n > 0,
            (n - 1) * EPOCH_LENGTH + EPOCH_LENGTH <= u64::MAX,
        ensures
            r as int == spec_seconds_until_slot(
                self.consensus.genesis_ts,
                now,
                self.slot_now(now) + spec_slots_to_next_n_epoch(self.slot_now(now) as u64, n),
            ),
    {
        let slots = self.slots_to_next_n_epoch(now, n);
        self.next_n_slot_start(now, slots)
    }

    /// Sets the participating slot to the one after `current_slot`.
    pub fn set_participating_at(&mut self, current_slot: u64)
        requires
            current_slot < u64::MAX,
        ensures
            final(self).participating == Some((current_slot + 1) as u64),
            final(self).consensus == old(self).consensus,
            final(self).blockchain == old(self).blockchain,
            final(self).unconfirmed_txs == old(self).unconfirmed_txs,
            final(self).public_key == old(self).public_key,
    {
        self.participating = Some(current_slot + 1);
    }

    /// Sets the participating slot to the one after the slot running at `now`.
    pub fn set_participating(&mut self, now: i64)
        ensures
            final(self).participating == Some((old(self).slot_now(now) + 1) as u64),
            final(self).consensus == old(self).consensus,
            final(self).blockchain == old(self).blockchain,
            final(self).unconfirmed_txs == old(self).unconfirmed_txs,
            final(self).public_key == old(self).public_key,
    {
        let slot = self.current_slot(now);
        self.set_participating_at(slot);
    }

    /// Highest slot among the proposals held, or the canonical tip's slot when none is
    /// above zero.
    pub fn last_slot(&self) -> (r: u64)
        requires
            self.blockchain.wf(),
        ensures
            r == (if max_proposal_slot(self.consensus.proposals@) > 0 {
                max_proposal_slot(self.consensus.proposals@) as u64
            } else {
                self.blockchain.tip().slot
            }),
    {
        let mut slot: u64 = 0;
        let mut i: usize = 0;
        while i < self.consensus.proposals.len()
            invariant
                i <= self.consensus.proposals@.len(),
                slot as int == max_proposal_slot(self.consensus.proposals@.take(i as int)),
            decreases self.consensus.proposals@.len() - i,
        {
            let chain = &self.consensus.proposals[i];
            let mut j: usize = 0;
            while j < chain.proposals.len()
                invariant
                    j <= chain.proposals@.len(),
                    slot as int == max_of(max_proposal_slot(self.consensus.proposals@.take(i as int)), max_slot(chain.proposals@.take(j as int))),
                decreases chain.proposals@.len() - j,
            {
                if chain.proposals[j].header.slot > slot {
                    slot = chain.proposals[j].header.slot;
                }
                j = j + 1;
                assert(chain.proposals@.take(j as int).drop_last() =~= chain.proposals@.take(j - 1));
            }
            assert(chain.proposals@.take(j as int) =~= chain.proposals@);
            i = i + 1;
            assert(self.consensus.proposals@.take(i as int).drop_last() =~= self.consensus.proposals@.take(i - 1));
        }
        assert(self.consensus.proposals@.take(i as int) =~= self.consensus.proposals@);
        if slot > 0 {
            return slot;
        }
        let (last, _) = self.blockchain.last();
        last
    }
}

pub open spec fn max_of(a: int, b: int) -> int {
    if a >= b { a } else { b }
}

/// Highest slot among a sequence of proposals, zero when empty.
pub open spec fn max_slot(ps: Seq<BlockProposal>) -> int
    decreases ps.len(),
{
    if ps.len() == 0 {
        0
    } else {
        max_of(max_slot(ps.drop_last()), ps.last().header.slot as int)
    }
}

/// Highest slot among the proposals of a sequence of chains, zero when there is none.
pub open spec fn max_proposal_slot(cs: Seq<ProposalChain>) -> int
    decreases cs.len(),
{
    if cs.len() == 0 {
        0
    } else {
        max_of(max_proposal_slot(cs.drop_last()), max_slot(cs.last().proposals@))
    }
}

} // verus!
