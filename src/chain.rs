use vstd::prelude::*;

use crate::block::BlockProposal;

verus! {

/// Whether proposal `b` directly extends proposal `a`: it names `a`'s hash as its
/// previous block and comes in a later slot.
pub open spec fn extends(a: BlockProposal, b: BlockProposal) -> bool {
    &&& b.header.previous@ == a.header_hash@
    &&& b.header.slot > a.header.slot
}

/// A non-empty sequence of proposals, each extending the one before it.
pub open spec fn linked(ps: Seq<BlockProposal>) -> bool {
    &&& ps.len() > 0
    &&& forall|i: int| 0 < i < ps.len() ==> extends(#[trigger] ps[i - 1], ps[i])
}

/// A fork chain of unfinalized block proposals.
#[derive(Clone, Debug)]
pub struct ProposalChain {
    /// Hash of the genesis block the chain descends from
    pub genesis_block: [u8; 32],
    /// The chain's proposals, oldest first
    pub proposals: Vec<BlockProposal>,
}

impl ProposalChain {
    pub open spec fn wf(&self) -> bool {
        linked(self.proposals@)
    }

    /// The newest proposal of the chain.
    pub open spec fn spec_last(&self) -> BlockProposal {
        self.proposals@.last()
    }

    /// A chain holding one proposal.
    pub fn new(genesis_block: [u8; 32], proposal: BlockProposal) -> (r: ProposalChain)
        ensures
            r.wf(),
            r.genesis_block == genesis_block,
            r.proposals@ == seq![proposal],
    {
        let mut proposals: Vec<BlockProposal> = Vec::new();
        proposals.push(proposal);
        ProposalChain { genesis_block, proposals }
    }

    /// Appends a proposal that extends the chain's newest one.
    pub fn add(&mut self, proposal: BlockProposal)
        requires
            old(self).wf(),
            extends(old(self).spec_last(), proposal),
        ensures
            final(self).wf(),
            final(self).genesis_block == old(self).genesis_block,
            final(self).proposals@ == old(self).proposals@.push(proposal),
    {
        self.proposals.push(proposal);
        assert forall|i: int| 0 < i < self.proposals@.len() implies extends(
            #[trigger] self.proposals@[i - 1],
            self.proposals@[i],
        ) by {
            if i < self.proposals@.len() - 1 {
                assert(extends(old(self).proposals@[i - 1], old(self).proposals@[i]));
            }
        }
    }

    /// Newest proposal of the chain.
    pub fn last(&self) -> (r: &BlockProposal)
        requires
            self.wf(),
        ensures
            *r == self.spec_last(),
    {
        &self.proposals[self.proposals.len() - 1]
    }
}

/// Slots strictly increase along every well-formed fork chain.
pub proof fn lemma_chain_slots_increase(c: ProposalChain, i: int, j: int)
    requires
        c.wf(),
        0 <= i < j < c.proposals@.len(),
    ensures
        c.proposals@[i].header.slot < c.proposals@[j].header.slot,
    decreases j - i,
{
    assert(extends(c.proposals@[j - 1], c.proposals@[j]));
    if i < j - 1 {
        lemma_chain_slots_increase(c, i, j - 1);
    }
}

} // verus!
