use vstd::prelude::*;

use crate::block::{spec_header_hash, BlockInfo, BlockProposal, Participant};
use crate::bytes::{bytes_eq, copy_bytes, digest_eq};
use crate::chain::ProposalChain;
use crate::constants::EPOCH_LENGTH;
use crate::forks::{
    chains_view, extension_is, finalization_post, lemma_extension_unique, same_proposal, same_proposals,
    Extension,
};
use crate::block::{coins_view, participants_view};
use crate::participants::{key_index, same_participant};
use crate::time::relative_slot;
use crate::txverify::{batch_outcome, verify_reports, TxReport};
use crate::validator::{ConsensusError, ValidatorState};

verus! {

/// What the outside verifiers found on a received proposal.
pub struct ProposalChecks {
    /// Whether the leader proof verifies against the winning coin's public inputs
    pub leader_proof_valid: bool,
    /// Whether the signature of the header hash verifies against the proposer's key
    pub signature_valid: bool,
    /// What the runtime reported on each of the proposal's transactions
    pub txs: Vec<TxReport>,
    /// What the runtime reported on each transaction of the blocks that accepting the
    /// proposal would finalize
    pub finalized_txs: Vec<TxReport>,
}

/// Whether the node takes part in consensus at `current`.
pub open spec fn is_participating(participating: Option<u64>, current: u64) -> bool {
    match participating {
        Some(start) => current >= start,
        None => false,
    }
}

/// Whether `inputs` are the public inputs known for coin `idx` of slot `rel` of a
/// participant.
pub open spec fn known_inputs(leader: Participant, rel: int, idx: int, inputs: Seq<u8>) -> bool {
    &&& 0 <= rel < leader.coins@.len()
    &&& 0 <= idx < leader.coins@[rel]@.len()
    &&& leader.coins@[rel]@[idx]@ == inputs
}

/// The first of the checks on a proposal that fails before the fork chains are consulted:
/// the proposer is known, the header hash is the header's, the winning coin's public
/// inputs are the known ones, the leader proof and the signature verify.
pub open spec fn rejection(
    participants: Seq<Participant>,
    current: u64,
    p: BlockProposal,
    proof_valid: bool,
    signature_valid: bool,
) -> Option<ConsensusError> {
    let md = p.metadata;
    if !exists|i: int| key_index(participants, md.public_key@, i) {
        Some(ConsensusError::UnknownNode)
    } else if p.header_hash@ != spec_header_hash(p.header) {
        Some(ConsensusError::HeaderMismatch)
    } else if !known_inputs(
        participants[choose|i: int| key_index(participants, md.public_key@, i)],
        current as int % EPOCH_LENGTH as int,
        md.winning_index as int,
        md.public_inputs@,
    ) {
        Some(ConsensusError::InvalidPublicInputs)
    } else if !proof_valid {
        Some(ConsensusError::LeaderProofFailure)
    } else if !signature_valid {
        Some(ConsensusError::InvalidSignature)
    } else {
        None
    }
}

/// The coin public inputs `coins` with entry `j` of slot `s` replaced by `v`.
fn replace_input(coins: &Vec<Vec<Vec<u8>>>, s: usize, j: usize, v: &Vec<u8>) -> (r: Vec<Vec<Vec<u8>>>)
    requires
        s < coins@.len(),
        j < coins@[s as int]@.len(),
    ensures
        coins_view(r@) == coins_view(coins@).update(
            s as int,
            coins_view(coins@)[s as int].update(j as int, v@),
        ),
{
    let ghost target = coins_view(coins@).update(s as int, coins_view(coins@)[s as int].update(j as int, v@));
    let mut out: Vec<Vec<Vec<u8>>> = Vec::new();
    let mut a: usize = 0;
    while a < coins.len()
        invariant
            a <= coins@.len(),
            s < coins@.len(),
            j < coins@[s as int]@.len(),
            target == coins_view(coins@).update(s as int, coins_view(coins@)[s as int].update(j as int, v@)),
            out@.len() == a,
            forall|m: int| 0 <= m < a ==> (#[trigger] out@[m])@.map_values(|x: Vec<u8>| x@) == target[m],
        decreases coins@.len() - a,
    {
        let row = &coins[a];
        let mut new_row: Vec<Vec<u8>> = Vec::new();
        let mut b: usize = 0;
        while b < row.len()
            invariant
                b <= row@.len(),
                a < coins@.len(),
                *row == coins@[a as int],
                s < coins@.len(),
                j < coins@[s as int]@.len(),
                target == coins_view(coins@).update(s as int, coins_view(coins@)[s as int].update(j as int, v@)),
                new_row@.len() == b,
                forall|m: int| 0 <= m < b ==> (#[trigger] new_row@[m])@ == target[a as int][m],
            decreases row@.len() - b,
        {
            if a == s && b == j {
                new_row.push(copy_bytes(v));
            } else {
                new_row.push(copy_bytes(&row[b]));
            }
            b = b + 1;
        }
        out.push(new_row);
        proof {
            assert(new_row@.map_values(|x: Vec<u8>| x@) =~= target[a as int]);
        }
        a = a + 1;
    }
    assert(coins_view(out@) =~= target);
    out
}

/// Whether `a` and `b` agree on everything but their fork chains and participants.
pub open spec fn same_but_chains(a: ValidatorState, b: ValidatorState) -> bool {
    &&& a.public_key == b.public_key
    &&& a.blockchain == b.blockchain
    &&& a.unconfirmed_txs == b.unconfirmed_txs
    &&& a.participating == b.participating
    &&& a.consensus.genesis_ts == b.consensus.genesis_ts
    &&& a.consensus.genesis_block == b.consensus.genesis_block
    &&& a.consensus.refreshed == b.consensus.refreshed
    &&& a.consensus.epoch == b.consensus.epoch
    &&& a.consensus.epoch_eta == b.consensus.epoch_eta
    &&& a.consensus.coins == b.consensus.coins
}

/// Whether `post` holds the participants `pre` with the proposer's record changed only in
/// coin `idx` of slot `rel`, whose public inputs become `inputs`.
pub open spec fn leader_updated(pre: Seq<Participant>, post: Seq<Participant>, key: Seq<u8>, rel: int, idx: int, inputs: Seq<u8>) -> bool {
    exists|i: int| #[trigger] key_index(pre, key, i) && participants_view(post) == participants_view(pre).update(
        i,
        (key, coins_view(pre[i].coins@).update(rel, coins_view(pre[i].coins@)[rel].update(idx, inputs))),
    )
}

/// Whether `post` is `pre` again after an accepted proposal was taken back: the same
/// fork chains and participants, everything else equal.
pub open spec fn rolled_back(pre: ValidatorState, post: ValidatorState) -> bool {
    &&& same_but_chains(pre, post)
    &&& chains_view(post.consensus.proposals@) == chains_view(pre.consensus.proposals@)
    &&& forall|i: int| 0 <= i < post.consensus.proposals@.len() ==>
        (#[trigger] post.consensus.proposals@[i]).genesis_block == pre.consensus.proposals@[i].genesis_block
    &&& participants_view(post.consensus.participants@) == participants_view(pre.consensus.participants@)
}

/// The result of a proposal's handling from that of the finalization it ends with.
pub open spec fn lift(fr: Result<Vec<BlockInfo>, ConsensusError>) -> Result<Option<Vec<BlockInfo>>, ConsensusError> {
    match fr {
        Ok(blocks) => Ok(Some(blocks)),
        Err(e) => Err(e),
    }
}

/// What holds after a node at `pre` handled proposal `p` at slot `current`, with the
/// outside verifiers' findings `checks`, ending at `post` with result `r`.
pub open spec fn received(
    pre: ValidatorState,
    current: u64,
    p: BlockProposal,
    checks: ProposalChecks,
    post: ValidatorState,
    r: Result<Option<Vec<BlockInfo>>, ConsensusError>,
) -> bool {
    let cs = pre.consensus.proposals@;
    let tip = pre.blockchain.tip();
    let rej = rejection(pre.consensus.participants@, current, p, checks.leader_proof_valid, checks.signature_valid);
    let e = choose|e: Extension| extension_is(cs, p, tip.slot, tip.hash@, e);
    let md = p.metadata;
    &&& post.wf()
    &&& if !is_participating(pre.participating, current) {
        r == Ok::<Option<Vec<BlockInfo>>, ConsensusError>(None) && post == pre
    } else if rej is Some {
        r == Err::<Option<Vec<BlockInfo>>, ConsensusError>(rej->Some_0) && post == pre
    } else if e == Extension::Unknown {
        r == Err::<Option<Vec<BlockInfo>>, ConsensusError>(ConsensusError::UnknownExtension) && post == pre
    } else if batch_outcome(checks.txs@) is Err {
        r == Err::<Option<Vec<BlockInfo>>, ConsensusError>(ConsensusError::Transaction(batch_outcome(checks.txs@)->Err_0))
            && post == pre
    } else {
        &&& r is Ok ==> leader_updated(
            pre.consensus.participants@,
            post.consensus.participants@,
            md.public_key@,
            current as int % EPOCH_LENGTH as int,
            md.winning_index as int,
            md.new_public_inputs@,
        )
        &&& match e {
            Extension::Tip => {
                &&& r is Ok && r->Ok_0 is Some && r->Ok_0->Some_0@.len() == 0
                &&& same_but_chains(pre, post)
                &&& chains_view(post.consensus.proposals@) == chains_view(cs).push(seq![p])
                &&& post.consensus.proposals@.last().genesis_block == pre.consensus.genesis_block
            },
            Extension::Chain(k) => exists|mid: ValidatorState, fin: ValidatorState, fr: Result<Vec<BlockInfo>, ConsensusError>|
                {
                    &&& same_but_chains(mid, pre)
                    &&& mid.consensus.proposals@.len() == cs.len()
                    &&& forall|i: int| 0 <= i < cs.len() && i != k ==> mid.consensus.proposals@[i] == cs[i]
                    &&& leader_updated(pre.consensus.participants@, mid.consensus.participants@, md.public_key@, current as int % EPOCH_LENGTH as int, md.winning_index as int, md.new_public_inputs@)
                    &&& mid.consensus.proposals@[k as int].genesis_block == cs[k as int].genesis_block
                    &&& mid.consensus.proposals@[k as int].proposals@ == cs[k as int].proposals@.push(p)
                    &&& #[trigger] finalization_post(mid, k as int, checks.finalized_txs@, fin, fr)
                    &&& r == lift(fr)
                    &&& fr is Ok ==> post == fin
                    &&& fr is Err ==> rolled_back(pre, post)
                },
            Extension::Fork(k) => exists|mid: ValidatorState, fin: ValidatorState, fr: Result<Vec<BlockInfo>, ConsensusError>|
                {
                    &&& same_but_chains(mid, pre)
                    &&& mid.consensus.proposals@.len() == cs.len() + 1
                    &&& forall|i: int| 0 <= i < cs.len() ==> mid.consensus.proposals@[i] == cs[i]
                    &&& leader_updated(pre.consensus.participants@, mid.consensus.participants@, md.public_key@, current as int % EPOCH_LENGTH as int, md.winning_index as int, md.new_public_inputs@)
                    &&& mid.consensus.proposals@[cs.len() as int].genesis_block == cs[k as int].genesis_block
                    &&& same_proposals(
                        mid.consensus.proposals@[cs.len() as int].proposals@,
                        cs[k as int].proposals@.drop_last().push(p),
                    )
                    &&& #[trigger] finalization_post(mid, cs.len() as int, checks.finalized_txs@, fin, fr)
                    &&& r == lift(fr)
                    &&& fr is Ok ==> post == fin
                    &&& fr is Err ==> rolled_back(pre, post)
                },
            Extension::Unknown => false,
        }
    }
}

impl ValidatorState {
    /// Handles a proposal received at slot `current`. Nothing is done before the node
    /// participates. The proposal is rejected by the first failing check among: proposer
    /// known, header hash, winning coin's public inputs, leader proof, signature, an
    /// extended chain, its transactions; a rejection changes nothing. An accepted proposal
    /// updates the proposer's coin public inputs; it starts a new fork chain when it
    /// extends the canonical tip, and otherwise joins its chain (a new fork for a sibling
    /// of a chain's newest proposal), which then goes through finalization. Returns the
    /// finalized blocks. When finalization fails, the proposal and the update of the
    /// proposer's record are taken back.
    pub fn receive_proposal_at(&mut self, current: u64, proposal: BlockProposal, checks: &ProposalChecks) -> (r: Result<Option<Vec<BlockInfo>>, ConsensusError>)
        requires
            old(self).wf(),
            old(self).consensus.proposals@.len() + 2 < i64::MAX,
        ensures
            received(*old(self), current, proposal, *checks, *final(self), r),
    {
        let ghost pre = *self;
        match self.participating {
            Some(start) => {
                if current < start {
                    return Ok(None);
                }
            },
            None => return Ok(None),
        }
        let ghost ps = self.consensus.participants@;
        let ghost key = proposal.metadata.public_key@;
        let mut li: usize = 0;
        let mut found = false;
        while li < self.consensus.participants.len() && !found
            invariant
                ps == self.consensus.participants@,
                key == proposal.metadata.public_key@,
                li <= ps.len(),
                found ==> key_index(ps, key, li as int),
                !found ==> forall|j: int| 0 <= j < li ==> (#[trigger] ps[j]).public_key@ != key,
            decreases ps.len() - li + (if found { 0int } else { 1int }),
        {
            if digest_eq(&self.consensus.participants[li].public_key, &proposal.metadata.public_key) {
                found = true;
            } else {
                li = li + 1;
            }
        }
        if !found {
            return Err(ConsensusError::UnknownNode);
        }
        proof {
            assert forall|m: int| key_index(ps, key, m) implies m == li by {
                if m < li {
                    assert(ps[m].public_key@ != key);
                } else if m > li {
                    assert(ps[li as int].public_key@ == key);
                }
            }
        }
        let computed = proposal.header.headerhash();
        if !digest_eq(&proposal.header_hash, &computed) {
            return Err(ConsensusError::HeaderMismatch);
        }
        let rel = relative_slot(current) as usize;
        let idx = proposal.metadata.winning_index;
        let leader = &self.consensus.participants[li];
        if rel >= leader.coins.len() || idx >= leader.coins[rel].len()
            || !bytes_eq(leader.coins[rel][idx].as_slice(), proposal.metadata.public_inputs.as_slice()) {
            return Err(ConsensusError::InvalidPublicInputs);
        }
        if !checks.leader_proof_valid {
            return Err(ConsensusError::LeaderProofFailure);
        }
        if !checks.signature_valid {
            return Err(ConsensusError::InvalidSignature);
        }
        let e = self.locate_extension(&proposal);
        proof {
            lemma_extension_unique(pre.consensus.proposals@, proposal, pre.blockchain.tip().slot, pre.blockchain.tip().hash@, e);
        }
        if e == Extension::Unknown {
            return Err(ConsensusError::UnknownExtension);
        }
        let verdict = verify_reports(&checks.txs);
        if let Err(err) = verdict {
            return Err(ConsensusError::Transaction(err));
        }
        let leader = &self.consensus.participants[li];
        let saved = leader.duplicate();
        let new_coins = replace_input(&leader.coins, rel, idx, &proposal.metadata.new_public_inputs);
        let updated = Participant { public_key: leader.public_key, coins: new_coins };
        proof {
            assert(key_index(ps, updated.public_key@, li as int));
        }
        self.append_participant(updated);
        proof {
            let fps = self.consensus.participants@;
            let target = participants_view(ps).update(
                li as int,
                (key, coins_view(ps[li as int].coins@).update(rel as int, coins_view(ps[li as int].coins@)[rel as int].update(idx as int, proposal.metadata.new_public_inputs@))),
            );
            if exists|i: int| key_index(ps, key, i) && same_participant(ps[i], updated) {
                assert(fps == ps);
                assert(participants_view(fps) =~= target);
            } else {
                assert(fps == ps.update(li as int, updated));
                assert(participants_view(fps) =~= target);
            }
            assert(key_index(ps, key, li as int));
            assert(participants_view(fps) == target);
        }
        assert(leader_updated(
            pre.consensus.participants@,
            self.consensus.participants@,
            proposal.metadata.public_key@,
            current as int % EPOCH_LENGTH as int,
            proposal.metadata.winning_index as int,
            proposal.metadata.new_public_inputs@,
        ));
        match e {
            Extension::Tip => {
                let ghost before = self.consensus.proposals@;
                let chain = ProposalChain::new(self.consensus.genesis_block, proposal);
                self.consensus.proposals.push(chain);
                assert(chains_view(self.consensus.proposals@) =~= chains_view(before).push(seq![proposal]));
                Ok(Some(Vec::new()))
            },
            Extension::Chain(k) => {
                let mut chains: Vec<ProposalChain> = Vec::new();
                std::mem::swap(&mut chains, &mut self.consensus.proposals);
                let ghost before = chains@;
                let mut chain = chains.remove(k);
                assert(chain == before[k as int]);
                assert(chain.wf());
                chain.add(proposal);
                chains.insert(k, chain);
                assert(chains@ =~= before.update(k as int, chain));
                assert forall|m: int| 0 <= m < chains@.len() implies (#[trigger] chains@[m]).wf() by {
                    if m != k {
                        assert(before[m].wf());
                    }
                }
                self.consensus.proposals = chains;
                let ghost mid = *self;
                let fr = self.chain_finalization(k, &checks.finalized_txs);
                let ghost fin = *self;
                assert(finalization_post(mid, k as int, checks.finalized_txs@, fin, fr));
                match fr {
                    Ok(blocks) => Ok(Some(blocks)),
                    Err(err) => {
                        let mut chains: Vec<ProposalChain> = Vec::new();
                        std::mem::swap(&mut chains, &mut self.consensus.proposals);
                        let ghost now_cs = chains@;
                        let mut chain = chains.remove(k);
                        assert(chain == now_cs[k as int]);
                        chain.proposals.pop();
                        assert(chain.proposals@ =~= pre.consensus.proposals@[k as int].proposals@);
                        assert(pre.consensus.proposals@[k as int].wf());
                        chains.insert(k, chain);
                        assert(chains@ =~= now_cs.update(k as int, chain));
                        assert(chains_view(chains@) =~= chains_view(pre.consensus.proposals@));
                        assert forall|m: int| 0 <= m < chains@.len() implies (#[trigger] chains@[m]).wf() by {
                            if m != k {
                                assert(pre.consensus.proposals@[m].wf());
                            }
                        }
                        self.consensus.proposals = chains;
                        self.restore_leader(li, saved, Ghost(pre.consensus.participants@));
                        assert(rolled_back(pre, *self));
                        Err(err)
                    },
                }
            },
            Extension::Fork(k) => {
                let mut chain = self.fork_chain(k, &proposal);
                let ghost copy = chain.proposals@;
                chain.add(proposal);
                proof {
                    let want = pre.consensus.proposals@[k as int].proposals@.drop_last().push(proposal);
                    assert(chain.proposals@ == copy.push(proposal));
                    assert forall|i: int| 0 <= i < want.len() implies same_proposal(#[trigger] chain.proposals@[i], want[i]) by {
                        if i < copy.len() {
                            assert(same_proposal(copy[i], pre.consensus.proposals@[k as int].proposals@.drop_last()[i]));
                        }
                    }
                }
                self.consensus.proposals.push(chain);
                let n = self.consensus.proposals.len() - 1;
                let ghost mid = *self;
                let fr = self.chain_finalization(n, &checks.finalized_txs);
                let ghost fin = *self;
                assert(finalization_post(mid, n as int, checks.finalized_txs@, fin, fr));
                match fr {
                    Ok(blocks) => Ok(Some(blocks)),
                    Err(err) => {
                        self.consensus.proposals.pop();
                        assert(self.consensus.proposals@ =~= pre.consensus.proposals@);
                        self.restore_leader(li, saved, Ghost(pre.consensus.participants@));
                        assert(rolled_back(pre, *self));
                        Err(err)
                    },
                }
            },
            Extension::Unknown => Err(ConsensusError::UnknownExtension),
        }
    }
}

impl ValidatorState {
    /// Puts back participant record `saved`, found at index `li` of `ps`, after the
    /// record at that index was updated.
    fn restore_leader(&mut self, li: usize, saved: Participant, ps: Ghost<Seq<Participant>>)
        requires
            key_index(ps@, saved.public_key@, li as int),
            saved.public_key == ps@[li as int].public_key,
            coins_view(saved.coins@) == coins_view(ps@[li as int].coins@),
            participants_view(old(self).consensus.participants@).len() == participants_view(ps@).len(),
            forall|j: int| 0 <= j < ps@.len() && j != li ==> participants_view(old(self).consensus.participants@)[j] == participants_view(ps@)[j],
            old(self).consensus.participants@[li as int].public_key@ == saved.public_key@,
        ensures
            participants_view(final(self).consensus.participants@) == participants_view(ps@),
            final(self).consensus.proposals == old(self).consensus.proposals,
            final(self).blockchain == old(self).blockchain,
            final(self).unconfirmed_txs == old(self).unconfirmed_txs,
            final(self).participating == old(self).participating,
            final(self).public_key == old(self).public_key,
            final(self).consensus.coins == old(self).consensus.coins,
            final(self).consensus.epoch == old(self).consensus.epoch,
            final(self).consensus.epoch_eta == old(self).consensus.epoch_eta,
            final(self).consensus.genesis_block == old(self).consensus.genesis_block,
            final(self).consensus.genesis_ts == old(self).consensus.genesis_ts,
            final(self).consensus.refreshed == old(self).consensus.refreshed,
    {
        let ghost cur = self.consensus.participants@;
        let ghost key = saved.public_key@;
        let ghost sv = saved;
        proof {
            assert forall|j: int| 0 <= j < li implies (#[trigger] cur[j]).public_key@ != key by {
                assert(participants_view(cur)[j] == participants_view(ps@)[j]);
                assert(ps@[j].public_key@ != key);
            }
            assert(key_index(cur, key, li as int));
            assert forall|m: int| key_index(cur, key, m) implies m == li by {
                if m > li {
                    assert(cur[li as int].public_key@ == key);
                }
            }
        }
        self.append_participant(saved);
        proof {
            let fps = self.consensus.participants@;
            if exists|i: int| key_index(cur, key, i) && same_participant(cur[i], sv) {
                assert(fps == cur);
                assert(participants_view(fps) =~= participants_view(ps@));
            } else {
                assert(fps == cur.update(li as int, sv));
                assert(participants_view(fps) =~= participants_view(ps@));
            }
        }
    }
}

} // verus!
