use vstd::prelude::*;

use crate::block::{copy_txs, same_metadata, txs_view, BlockProposal};
use crate::bytes::digest_eq;
use crate::chain::{extends, linked, ProposalChain};
use crate::block::{spec_header_hash, BlockInfo, Header};
use crate::blockchain::{block_headers, chains_onto, keeps, GatewayError};
use crate::constants::FINALIZATION_DEPTH;
use crate::txverify::{batch_outcome, verify_reports, TxReport};
use crate::validator::{chains_wf, ConsensusError, ValidatorState};

verus! {

/// Whether `a` and `b` agree on header, header hash, transactions and metadata.
pub open spec fn same_proposal(a: BlockProposal, b: BlockProposal) -> bool {
    &&& a.header == b.header
    &&& a.header_hash@ == b.header_hash@
    &&& txs_view(a.txs@) == txs_view(b.txs@)
    &&& same_metadata(a.metadata, b.metadata)
}

/// Whether two sequences of proposals agree proposal by proposal.
pub open spec fn same_proposals(a: Seq<BlockProposal>, b: Seq<BlockProposal>) -> bool {
    &&& a.len() == b.len()
    &&& forall|i: int| 0 <= i < a.len() ==> same_proposal(#[trigger] a[i], b[i])
}

impl BlockProposal {
    /// A copy of the proposal.
    pub fn duplicate(&self) -> (r: BlockProposal)
        ensures
            same_proposal(r, *self),
    {
        BlockProposal {
            header: self.header,
            txs: copy_txs(&self.txs),
            metadata: self.metadata.duplicate(),
            header_hash: self.header_hash,
        }
    }
}

/// Whether proposal `p` extends the newest proposal of chain `c`.
pub open spec fn extends_chain(c: ProposalChain, p: BlockProposal) -> bool {
    extends(c.proposals@.last(), p)
}

/// Whether proposal `p` is a sibling of chain `c`'s newest proposal: same previous block,
/// later slot.
pub open spec fn forks_chain(c: ProposalChain, p: BlockProposal) -> bool {
    &&& p.header.previous@ == c.proposals@.last().header.previous@
    &&& p.header.slot > c.proposals@.last().header.slot
}

/// Whether proposal `p` relates to chain `c`, by extending it or forking its newest
/// proposal.
pub open spec fn touches(c: ProposalChain, p: BlockProposal) -> bool {
    extends_chain(c, p) || forks_chain(c, p)
}

/// Whether `k` is the first chain of `cs` that `p` relates to.
pub open spec fn first_touch(cs: Seq<ProposalChain>, p: BlockProposal, k: int) -> bool {
    &&& 0 <= k < cs.len()
    &&& touches(cs[k], p)
    &&& forall|j: int| 0 <= j < k ==> !#[trigger] touches(cs[j], p)
}

/// Whether `i` is the first of the longest chains of `cs`.
pub open spec fn first_longest(cs: Seq<ProposalChain>, i: int) -> bool {
    &&& 0 <= i < cs.len()
    &&& forall|j: int| 0 <= j < cs.len() ==> (#[trigger] cs[j]).proposals@.len() <= cs[i].proposals@.len()
    &&& forall|j: int| 0 <= j < i ==> (#[trigger] cs[j]).proposals@.len() < cs[i].proposals@.len()
}

/// A chain holding the proposals of `c` but its newest.
fn chain_without_last(c: &ProposalChain) -> (r: ProposalChain)
    requires
        c.wf(),
    ensures
        r.genesis_block == c.genesis_block,
        same_proposals(r.proposals@, c.proposals@.drop_last()),
{
    let mut proposals: Vec<BlockProposal> = Vec::new();
    let mut i: usize = 0;
    while i < c.proposals.len() - 1
        invariant
            c.wf(),
            i + 1 <= c.proposals@.len(),
            proposals@.len() == i,
            forall|j: int| 0 <= j < i ==> same_proposal(#[trigger] proposals@[j], c.proposals@[j]),
        decreases c.proposals@.len() - i,
    {
        proposals.push(c.proposals[i].duplicate());
        i = i + 1;
    }
    ProposalChain { genesis_block: c.genesis_block, proposals }
}

impl ValidatorState {
    /// Hash of the newest proposal of the first longest fork chain and that chain's
    /// index, or the canonical tip's hash and -1 when there is no chain.
    pub fn longest_chain_last_hash(&self) -> (r: ([u8; 32], i64))
        requires
            self.wf(),
        ensures
            self.consensus.proposals@.len() == 0 ==> r.1 == -1 && r.0 == self.blockchain.tip().hash,
            self.consensus.proposals@.len() > 0 ==> {
                &&& first_longest(self.consensus.proposals@, r.1 as int)
                &&& r.0 == self.consensus.proposals@[r.1 as int].proposals@.last().header_hash
            },
    {
        let chains = &self.consensus.proposals;
        if chains.len() == 0 {
            let (_, hash) = self.blockchain.last();
            return (hash, -1);
        }
        let mut best: usize = 0;
        let mut i: usize = 1;
        while i < chains.len()
            invariant
                1 <= i <= chains@.len(),
                chains@.len() < i64::MAX,
                best < i,
                forall|j: int| 0 <= j < i ==> (#[trigger] chains@[j]).proposals@.len() <= chains@[best as int].proposals@.len(),
                forall|j: int| 0 <= j < best ==> (#[trigger] chains@[j]).proposals@.len() < chains@[best as int].proposals@.len(),
            decreases chains@.len() - i,
        {
            if chains[i].proposals.len() > chains[best].proposals.len() {
                best = i;
            }
            i = i + 1;
        }
        let last = chains[best].last();
        (last.header_hash, best as i64)
    }

    /// Whether a proposal with the given header hash is held in a fork chain.
    pub fn proposal_exists(&self, hash: &[u8; 32]) -> (r: bool)
        ensures
            r == exists|i: int, j: int|
                0 <= i < self.consensus.proposals@.len() && 0 <= j < self.consensus.proposals@[i].proposals@.len()
                    && (#[trigger] self.consensus.proposals@[i].proposals@[j]).header_hash@ == hash@,
    {
        let chains = &self.consensus.proposals;
        let mut i: usize = 0;
        while i < chains.len()
            invariant
                i <= chains@.len(),
                chains@ == self.consensus.proposals@,
                forall|a: int, b: int|
                    0 <= a < i && 0 <= b < chains@[a].proposals@.len() ==> (#[trigger] chains@[a].proposals@[b]).header_hash@ != hash@,
            decreases chains@.len() - i,
        {
            let ps = &chains[i].proposals;
            let mut j: usize = 0;
            while j < ps.len()
                invariant
                    i < chains@.len(),
                    chains@ == self.consensus.proposals@,
                    *ps == chains@[i as int].proposals,
                    j <= ps@.len(),
                    forall|a: int, b: int|
                        0 <= a < i && 0 <= b < chains@[a].proposals@.len() ==> (#[trigger] chains@[a].proposals@[b]).header_hash@ != hash@,
                    forall|b: int| 0 <= b < j ==> (#[trigger] ps@[b]).header_hash@ != hash@,
                decreases ps@.len() - j,
            {
                if digest_eq(&ps[j].header_hash, hash) {
                    let ghost (a, b) = (i as int, j as int);
                    assert(ps@[b] == self.consensus.proposals@[a].proposals@[b]);
                    assert(self.consensus.proposals@[a].proposals@[b].header_hash@ == hash@);
                    return true;
                }
                j = j + 1;
            }
            i = i + 1;
        }
        false
    }
}

proof fn lemma_first_touch_unique(cs: Seq<ProposalChain>, p: BlockProposal, a: int)
    requires
        first_touch(cs, p, a),
    ensures
        forall|b: int| #[trigger] first_touch(cs, p, b) ==> b == a,
{
    assert forall|b: int| #[trigger] first_touch(cs, p, b) implies b == a by {
        if b < a {
            assert(!touches(cs[b], p));
        } else if b > a {
            assert(!touches(cs[a], p));
        }
    }
}

proof fn lemma_same_linked(a: Seq<BlockProposal>, b: Seq<BlockProposal>)
    requires
        same_proposals(a, b),
        linked(b),
    ensures
        linked(a),
{
    assert forall|i: int| 0 < i < a.len() implies extends(#[trigger] a[i - 1], a[i]) by {
        assert(extends(b[i - 1], b[i]));
        assert(same_proposal(a[i - 1], b[i - 1]));
        assert(same_proposal(a[i], b[i]));
    }
}

impl ValidatorState {
    /// Finds the fork chain that proposal `p` extends. Chains are scanned in order and the
    /// first one that `p` relates to decides: if `p` extends its newest proposal, its index
    /// is returned; if `p` is a sibling of its newest proposal, a copy of the chain without
    /// that proposal is appended as a new fork and its index returned (unless the copy
    /// would be empty). Otherwise -1 is returned when `p` extends the canonical tip, and
    /// -2 when it extends nothing known.
    pub fn find_extended_chain_index(&mut self, p: &BlockProposal) -> (r: i64)
        requires
            old(self).wf(),
            old(self).consensus.proposals@.len() + 1 < i64::MAX,
        ensures
            final(self).wf(),
            final(self).blockchain == old(self).blockchain,
            final(self).unconfirmed_txs == old(self).unconfirmed_txs,
            final(self).participating == old(self).participating,
            final(self).public_key == old(self).public_key,
            final(self).consensus.participants == old(self).consensus.participants,
            final(self).consensus.genesis_block == old(self).consensus.genesis_block,
            final(self).consensus.genesis_ts == old(self).consensus.genesis_ts,
            final(self).consensus.epoch == old(self).consensus.epoch,
            final(self).consensus.epoch_eta == old(self).consensus.epoch_eta,
            final(self).consensus.coins == old(self).consensus.coins,
            forall|k: int|
                first_touch(old(self).consensus.proposals@, *p, k) && extends_chain(
                    #[trigger] old(self).consensus.proposals@[k],
                    *p,
                ) ==> r == k && final(self).consensus.proposals == old(self).consensus.proposals,
            forall|k: int|
                first_touch(old(self).consensus.proposals@, *p, k) && !extends_chain(
                    #[trigger] old(self).consensus.proposals@[k],
                    *p,
                ) && old(self).consensus.proposals@[k].proposals@.len() > 1 ==> {
                    let old_cs = old(self).consensus.proposals@;
                    let cs = final(self).consensus.proposals@;
                    &&& r == old_cs.len()
                    &&& cs.len() == old_cs.len() + 1
                    &&& forall|i: int| 0 <= i < old_cs.len() ==> cs[i] == old_cs[i]
                    &&& cs[r as int].genesis_block == old_cs[k].genesis_block
                    &&& same_proposals(cs[r as int].proposals@, old_cs[k].proposals@.drop_last())
                },
            (forall|k: int|
                first_touch(old(self).consensus.proposals@, *p, k) ==> !extends_chain(
                    #[trigger] old(self).consensus.proposals@[k],
                    *p,
                ) && old(self).consensus.proposals@[k].proposals@.len() == 1) ==> {
                &&& final(self).consensus.proposals == old(self).consensus.proposals
                &&& r == (if p.header.previous@ == old(self).blockchain.tip().hash@
                    && p.header.slot > old(self).blockchain.tip().slot {
                    -1int
                } else {
                    -2int
                })
            },
            r >= 0 ==> r < final(self).consensus.proposals@.len() && extends_chain(
                final(self).consensus.proposals@[r as int],
                *p,
            ),
            r >= -2,
            r < 0 ==> final(self).consensus.proposals == old(self).consensus.proposals,
            final(self).consensus.refreshed == old(self).consensus.refreshed,
    {
        let e = self.locate_extension(p);
        proof {
            lemma_extension_unique(self.consensus.proposals@, *p, self.blockchain.tip().slot, self.blockchain.tip().hash@, e);
        }
        match e {
            Extension::Chain(k) => k as i64,
            Extension::Fork(k) => {
                let chain = self.fork_chain(k, p);
                self.consensus.proposals.push(chain);
                (self.consensus.proposals.len() - 1) as i64
            },
            Extension::Tip => -1,
            Extension::Unknown => -2,
        }
    }

    /// Where proposal `p` would attach: the chain it extends, the chain whose newest
    /// proposal it is a sibling of, the canonical tip, or nothing known.
    pub fn locate_extension(&self, p: &BlockProposal) -> (e: Extension)
        requires
            self.wf(),
        ensures
            extension_is(self.consensus.proposals@, *p, self.blockchain.tip().slot, self.blockchain.tip().hash@, e),
    {
        let ghost old_cs = self.consensus.proposals@;
        let mut fork: Option<usize> = None;
        let mut i: usize = 0;
        while i < self.consensus.proposals.len() && fork.is_none()
            invariant
                self.wf(),
                self.consensus.proposals@ == old_cs,
                i <= old_cs.len(),
                fork.is_none() ==> forall|j: int| 0 <= j < i ==> !#[trigger] touches(old_cs[j], *p),
                forall|k: usize|
                    fork == Some(k) ==> first_touch(old_cs, *p, k as int) && !extends_chain(
                        old_cs[k as int],
                        *p,
                    ),
            decreases old_cs.len() - i + (if fork.is_none() { 1int } else { 0int }),
        {
            assert(old_cs[i as int].wf());
            let last = self.consensus.proposals[i].last();
            if digest_eq(&p.header.previous, &last.header_hash) && p.header.slot > last.header.slot {
                return Extension::Chain(i);
            }
            if digest_eq(&p.header.previous, &last.header.previous) && p.header.slot > last.header.slot {
                fork = Some(i);
            } else {
                i = i + 1;
            }
        }
        if fork.is_none() {
            assert(forall|k: int| !#[trigger] first_touch(old_cs, *p, k));
        }
        if let Some(k) = fork {
            assert(first_touch(old_cs, *p, k as int));
            proof {
                lemma_first_touch_unique(old_cs, *p, k as int);
            }
            if self.consensus.proposals[k].proposals.len() > 1 {
                return Extension::Fork(k);
            }
        }
        let (last_slot, last_block) = self.blockchain.last();
        if !digest_eq(&p.header.previous, &last_block) || p.header.slot <= last_slot {
            return Extension::Unknown;
        }
        Extension::Tip
    }

    /// A new fork for proposal `p`: a copy of chain `k` without its newest proposal, of
    /// which `p` is a sibling.
    pub fn fork_chain(&self, k: usize, p: &BlockProposal) -> (r: ProposalChain)
        requires
            self.wf(),
            k < self.consensus.proposals@.len(),
            forks_chain(self.consensus.proposals@[k as int], *p),
            self.consensus.proposals@[k as int].proposals@.len() > 1,
        ensures
            r.wf(),
            r.genesis_block == self.consensus.proposals@[k as int].genesis_block,
            same_proposals(r.proposals@, self.consensus.proposals@[k as int].proposals@.drop_last()),
            extends_chain(r, *p),
    {
        let ghost old_cs = self.consensus.proposals@;
        assert(old_cs[k as int].wf());
        let chain = chain_without_last(&self.consensus.proposals[k]);
        proof {
            let ps = old_cs[k as int].proposals@;
            assert(linked(ps));
            assert(linked(ps.drop_last())) by {
                assert forall|m: int| 0 < m < ps.drop_last().len() implies extends(
                    #[trigger] ps.drop_last()[m - 1],
                    ps.drop_last()[m],
                ) by {
                    assert(extends(ps[m - 1], ps[m]));
                }
            }
            lemma_same_linked(chain.proposals@, ps.drop_last());
            let n = ps.len() - 1;
            assert(extends(ps[n - 1], ps[n]));
            assert(same_proposal(chain.proposals@[n - 1], ps[n - 1]));
        }
        chain
    }
}

/// Where a proposal attaches among fork chains and the canonical tip.
#[derive(Clone, Copy, Debug, PartialEq, Eq, Structural)]
pub enum Extension {
    /// It extends the newest proposal of this chain
    Chain(usize),
    /// It is a sibling of this chain's newest proposal, which has a predecessor
    Fork(usize),
    /// It extends the canonical tip
    Tip,
    /// It extends nothing known
    Unknown,
}

/// Whether no chain gives `p` an index: the first chain it relates to, if any, holds a
/// single proposal of which `p` is a sibling.
pub open spec fn no_chain_index(cs: Seq<ProposalChain>, p: BlockProposal) -> bool {
    forall|k: int| #[trigger] first_touch(cs, p, k) ==> !extends_chain(cs[k], p) && cs[k].proposals@.len() == 1
}

/// Whether `e` is where proposal `p` attaches among chains `cs` and a canonical tip at
/// `tip_slot` with hash `tip_hash`.
pub open spec fn extension_is(cs: Seq<ProposalChain>, p: BlockProposal, tip_slot: u64, tip_hash: Seq<u8>, e: Extension) -> bool {
    match e {
        Extension::Chain(k) => first_touch(cs, p, k as int) && extends_chain(cs[k as int], p),
        Extension::Fork(k) => first_touch(cs, p, k as int) && !extends_chain(cs[k as int], p)
            && cs[k as int].proposals@.len() > 1,
        Extension::Tip => no_chain_index(cs, p) && p.header.previous@ == tip_hash && p.header.slot > tip_slot,
        Extension::Unknown => no_chain_index(cs, p) && !(p.header.previous@ == tip_hash && p.header.slot > tip_slot),
    }
}

/// The place a proposal attaches is unique.
pub proof fn lemma_extension_unique(cs: Seq<ProposalChain>, p: BlockProposal, tip_slot: u64, tip_hash: Seq<u8>, e: Extension)
    requires
        extension_is(cs, p, tip_slot, tip_hash, e),
    ensures
        forall|f: Extension| #[trigger] extension_is(cs, p, tip_slot, tip_hash, f) ==> f == e,
{
    match e {
        Extension::Chain(k) => lemma_first_touch_unique(cs, p, k as int),
        Extension::Fork(k) => lemma_first_touch_unique(cs, p, k as int),
        _ => {},
    }
    assert forall|f: Extension| #[trigger] extension_is(cs, p, tip_slot, tip_hash, f) implies f == e by {
        match f {
            Extension::Chain(j) => lemma_first_touch_unique(cs, p, j as int),
            Extension::Fork(j) => lemma_first_touch_unique(cs, p, j as int),
            _ => {},
        }
    }
}

/// Proposals of each chain.
pub open spec fn chains_view(cs: Seq<ProposalChain>) -> Seq<Seq<BlockProposal>> {
    cs.map_values(|c: ProposalChain| c.proposals@)
}

/// Whether a chain whose proposals are `ps` still descends from a canonical tip at
/// `tip_slot` with hash `tip_hash`: its first proposal names the tip and comes later.
pub open spec fn survives(ps: Seq<BlockProposal>, tip_slot: u64, tip_hash: Seq<u8>) -> bool {
    ps.len() > 0 && ps[0].header.previous@ == tip_hash && ps[0].header.slot > tip_slot
}

/// The chains of `cs` that survive a new canonical tip, in order.
pub open spec fn prune(cs: Seq<Seq<BlockProposal>>, tip_slot: u64, tip_hash: Seq<u8>) -> Seq<Seq<BlockProposal>>
    decreases cs.len(),
{
    if cs.len() == 0 {
        cs
    } else {
        let rest = prune(cs.drop_last(), tip_slot, tip_hash);
        if survives(cs.last(), tip_slot, tip_hash) {
            rest.push(cs.last())
        } else {
            rest
        }
    }
}

/// Whether chain `i` of `cs` may be finalized: it holds at least the finalization depth
/// of proposals and is strictly longer than every other chain.
pub open spec fn finalizable(cs: Seq<ProposalChain>, i: int) -> bool {
    &&& cs[i].proposals@.len() >= FINALIZATION_DEPTH
    &&& forall|j: int| 0 <= j < cs.len() && j != i ==> (#[trigger] cs[j]).proposals@.len() < cs[i].proposals@.len()
}

/// Every chain that pruning keeps descends from the new canonical tip.
pub proof fn lemma_pruned_chains_extend_tip(cs: Seq<Seq<BlockProposal>>, tip_slot: u64, tip_hash: Seq<u8>)
    ensures
        forall|i: int|
            0 <= i < prune(cs, tip_slot, tip_hash).len() ==> survives(
                #[trigger] prune(cs, tip_slot, tip_hash)[i],
                tip_slot,
                tip_hash,
            ),
    decreases cs.len(),
{
    if cs.len() > 0 {
        lemma_pruned_chains_extend_tip(cs.drop_last(), tip_slot, tip_hash);
        let rest = prune(cs.drop_last(), tip_slot, tip_hash);
        assert forall|i: int| 0 <= i < prune(cs, tip_slot, tip_hash).len() implies survives(
            #[trigger] prune(cs, tip_slot, tip_hash)[i],
            tip_slot,
            tip_hash,
        ) by {
            if i < rest.len() {
                assert(survives(rest[i], tip_slot, tip_hash));
            }
        }
    }
}

fn proposals_to_blocks(ps: Vec<BlockProposal>) -> (r: Vec<BlockInfo>)
    ensures
        r@.len() == ps@.len(),
        forall|k: int|
            0 <= k < ps@.len() ==> (#[trigger] r@[k]).header == ps@[k].header && r@[k].txs@ == ps@[k].txs@
                && r@[k].metadata == ps@[k].metadata,
{
    let ghost all = ps@;
    let mut rest = ps;
    let mut out: Vec<BlockInfo> = Vec::new();
    while rest.len() > 0
        invariant
            out@.len() + rest@.len() == all.len(),
            rest@ == all.subrange(out@.len() as int, all.len() as int),
            forall|k: int|
                0 <= k < out@.len() ==> (#[trigger] out@[k]).header == all[k].header && out@[k].txs@ == all[k].txs@
                    && out@[k].metadata == all[k].metadata,
        decreases rest@.len(),
    {
        let p = rest.remove(0);
        out.push(BlockInfo::from_proposal(p));
        assert(rest@ =~= all.subrange(out@.len() as int, all.len() as int));
    }
    out
}

/// What holds after chain `index` of a node at `pre` went through finalization, with
/// the runtime's `reports` on the transactions of the blocks it would finalize, ending
/// at `post` with result `r`.
pub open spec fn finalization_post(
    pre: ValidatorState,
    index: int,
    reports: Seq<TxReport>,
    post: ValidatorState,
    r: Result<Vec<BlockInfo>, ConsensusError>,
) -> bool {
    &&& post.unconfirmed_txs == pre.unconfirmed_txs
    &&& post.participating == pre.participating
    &&& post.public_key == pre.public_key
    &&& post.consensus.participants == pre.consensus.participants
    &&& post.consensus.genesis_block == pre.consensus.genesis_block
    &&& post.consensus.genesis_ts == pre.consensus.genesis_ts
    &&& post.consensus.epoch == pre.consensus.epoch
    &&& post.consensus.epoch_eta == pre.consensus.epoch_eta
    &&& post.consensus.coins == pre.consensus.coins
    &&& post.consensus.refreshed == pre.consensus.refreshed
    &&& !finalizable(pre.consensus.proposals@, index) ==> {
        &&& r == Ok::<Vec<BlockInfo>, ConsensusError>(r->Ok_0)
        &&& r->Ok_0@.len() == 0
        &&& post.consensus.proposals == pre.consensus.proposals
        &&& post.blockchain == pre.blockchain
    }
    &&& finalizable(pre.consensus.proposals@, index) ==> {
        let chain = pre.consensus.proposals@[index].proposals@;
        let prefix = chain.drop_last();
        let tip = pre.blockchain.tip();
        if !chains_onto(tip.slot, tip.hash@, headers_of_proposals(prefix)) {
            &&& r == Err::<Vec<BlockInfo>, ConsensusError>(ConsensusError::Gateway(GatewayError::BrokenLinkage))
            &&& post.consensus.proposals == pre.consensus.proposals
            &&& post.blockchain == pre.blockchain
        } else if batch_outcome(reports) is Err {
            &&& r == Err::<Vec<BlockInfo>, ConsensusError>(ConsensusError::Transaction(batch_outcome(reports)->Err_0))
            &&& post.consensus.proposals == pre.consensus.proposals
            &&& post.blockchain == pre.blockchain
        } else {
            let blocks = r->Ok_0@;
            let new_tip = post.blockchain.tip();
            &&& r is Ok
            &&& blocks.len() == prefix.len()
            &&& forall|k: int|
                0 <= k < prefix.len() ==> (#[trigger] blocks[k]).header == prefix[k].header
                    && blocks[k].txs@ == prefix[k].txs@ && blocks[k].metadata == prefix[k].metadata
            &&& post.blockchain.blocks@.len() == pre.blockchain.blocks@.len() + blocks.len()
            &&& forall|i: int| 0 <= i < pre.blockchain.blocks@.len() ==> post.blockchain.blocks@[i] == pre.blockchain.blocks@[i]
            &&& forall|k: int|
                0 <= k < blocks.len() ==> keeps(
                    #[trigger] post.blockchain.blocks@[pre.blockchain.blocks@.len() + k],
                    blocks[k],
                )
            &&& new_tip.slot == blocks.last().header.slot
            &&& new_tip.hash@ == spec_header_hash(blocks.last().header)
            &&& chains_view(post.consensus.proposals@) == prune(
                chains_view(pre.consensus.proposals@).update(index, seq![chain.last()]),
                new_tip.slot,
                new_tip.hash@,
            )
            &&& forall|i: int|
                0 <= i < post.consensus.proposals@.len() ==> survives(
                    #[trigger] post.consensus.proposals@[i].proposals@,
                    new_tip.slot,
                    new_tip.hash@,
                )
        }
    }
}

impl ValidatorState {
    /// Finalizes chain `index` if it may be: all its proposals but the newest move to the
    /// canonical chain, and every chain that no longer descends from the new canonical tip
    /// is dropped. Returns the finalized blocks, none when the chain may not be finalized.
    /// Fails, changing nothing, when the canonical chain refuses the blocks or when the
    /// runtime's `reports` on their transactions hold a failure.
    pub fn chain_finalization(&mut self, index: usize, reports: &Vec<TxReport>) -> (r: Result<Vec<BlockInfo>, ConsensusError>)
        requires
            old(self).wf(),
            index < old(self).consensus.proposals@.len(),
        ensures
            final(self).wf(),
            finalization_post(*old(self), index as int, reports@, *final(self), r),
    {
        let length = self.consensus.proposals[index].proposals.len();
        if length < FINALIZATION_DEPTH {
            return Ok(Vec::new());
        }
        let mut j: usize = 0;
        while j < self.consensus.proposals.len()
            invariant
                self.wf(),
                j <= self.consensus.proposals@.len(),
                index < self.consensus.proposals@.len(),
                length == self.consensus.proposals@[index as int].proposals@.len(),
                forall|m: int| 0 <= m < j && m != index ==> (#[trigger] self.consensus.proposals@[m]).proposals@.len() < length,
            decreases self.consensus.proposals@.len() - j,
        {
            if j != index && self.consensus.proposals[j].proposals.len() >= length {
                return Ok(Vec::new());
            }
            j = j + 1;
        }
        let bound = length - 1;
        let ghost old_cs = self.consensus.proposals@;
        let ghost chain = old_cs[index as int].proposals@;
        let mut headers: Vec<Header> = Vec::new();
        let mut k: usize = 0;
        while k < bound
            invariant
                self.consensus.proposals@ == old_cs,
                chain == old_cs[index as int].proposals@,
                index < old_cs.len(),
                bound + 1 == chain.len(),
                k <= bound,
                headers@ == headers_of_proposals(chain.drop_last()).take(k as int),
            decreases bound - k,
        {
            headers.push(self.consensus.proposals[index].proposals[k].header);
            k = k + 1;
            assert(headers@ =~= headers_of_proposals(chain.drop_last()).take(k as int));
        }
        assert(headers@ =~= headers_of_proposals(chain.drop_last()));
        if !self.blockchain.can_append(&headers) {
            return Err(ConsensusError::Gateway(GatewayError::BrokenLinkage));
        }
        if let Err(e) = verify_reports(reports) {
            return Err(ConsensusError::Transaction(e));
        }
        let tip_slot = headers[bound - 1].slot;
        let tip_hash = headers[bound - 1].headerhash();
        let ghost mid = chains_view(old_cs).update(index as int, seq![chain.last()]);

        let mut rest: Vec<ProposalChain> = Vec::new();
        std::mem::swap(&mut rest, &mut self.consensus.proposals);
        let mut kept: Vec<ProposalChain> = Vec::new();
        let mut finalized: Vec<BlockInfo> = Vec::new();
        let mut m: usize = 0;
        while rest.len() > 0
            invariant
                m + rest@.len() == old_cs.len(),
                old_cs.len() <= usize::MAX,
                rest@ == old_cs.subrange(m as int, old_cs.len() as int),
                chains_wf(old_cs),
                index < old_cs.len(),
                chain == old_cs[index as int].proposals@,
                bound + 1 == chain.len(),
                mid == chains_view(old_cs).update(index as int, seq![chain.last()]),
                chains_view(kept@) == prune(mid.take(m as int), tip_slot, tip_hash@),
                chains_wf(kept@),
                kept@.len() <= m,
                m <= index ==> finalized@.len() == 0,
                m > index ==> {
                    &&& finalized@.len() == bound
                    &&& forall|q: int|
                        0 <= q < bound ==> (#[trigger] finalized@[q]).header == chain[q].header
                            && finalized@[q].txs@ == chain[q].txs@ && finalized@[q].metadata == chain[q].metadata
                },
            decreases rest@.len(),
        {
            let mut c = rest.remove(0);
            proof {
                assert(old_cs[m as int] == c);
                assert(c.wf());
            }
            if m == index {
                let mut prefix = c.proposals.split_off(bound);
                std::mem::swap(&mut prefix, &mut c.proposals);
                finalized = proposals_to_blocks(prefix);
                assert(c.proposals@ =~= seq![chain.last()]);
            }
            assert(c.proposals@ == mid[m as int]);
            assert(mid.take(m + 1).drop_last() =~= mid.take(m as int));
            if c.proposals.len() > 0 && digest_eq(&c.proposals[0].header.previous, &tip_hash)
                && c.proposals[0].header.slot > tip_slot {
                kept.push(c);
                assert(chains_view(kept@) =~= chains_view(kept@.drop_last()).push(mid[m as int]));
            }
            m = m + 1;
            assert(rest@ =~= old_cs.subrange(m as int, old_cs.len() as int));
        }
        assert(mid.take(m as int) =~= mid);
        self.consensus.proposals = kept;
        assert(block_headers(finalized@) =~= headers@);
        let ghost old_chain = self.blockchain;
        self.blockchain.append(&finalized);
        assert(keeps(self.blockchain.blocks@[old_chain.blocks@.len() + (bound - 1)], finalized@[bound - 1]));
        assert(self.blockchain.blocks@.len() == old_chain.blocks@.len() + bound);
        assert(finalized@[bound - 1].header == headers@[bound - 1]);
        assert(self.blockchain.tip().slot == tip_slot);
        assert(self.blockchain.tip().hash@ == tip_hash@);
        assert(chains_view(self.consensus.proposals@) == prune(mid, tip_slot, tip_hash@));
        assert(chains_wf(self.consensus.proposals@));
        proof {
            lemma_pruned_chains_extend_tip(mid, tip_slot, tip_hash@);
            assert forall|i: int| 0 <= i < self.consensus.proposals@.len() implies survives(
                #[trigger] self.consensus.proposals@[i].proposals@,
                tip_slot,
                tip_hash@,
            ) by {
                assert(chains_view(self.consensus.proposals@)[i] == self.consensus.proposals@[i].proposals@);
            }
        }
        Ok(finalized)
    }
}

/// Headers of a sequence of proposals.
pub open spec fn headers_of_proposals(ps: Seq<BlockProposal>) -> Seq<Header> {
    ps.map_values(|p: BlockProposal| p.header)
}

} // verus!
