use consensus_core::block::{digest_of, BlockInfo, BlockProposal, Header, Metadata, Participant, Transaction};
use consensus_core::chain::ProposalChain;
use consensus_core::constants::EPOCH_LENGTH;
use consensus_core::lottery::{best_winner, coin_target, create_coins, LeadCoin};
use consensus_core::receive::ProposalChecks;
use consensus_core::time::{next_n_slot_start_at, relative_slot, slot_at, slot_epoch, slots_to_next_n_epoch_at};
use consensus_core::txverify::{verify_reports, CallOutcome, TxError, TxReport};
use consensus_core::validator::{ConsensusError, ValidatorState};

const ME: [u8; 32] = [7u8; 32];

fn field(v: u64) -> [u8; 32] {
    let mut b = [0u8; 32];
    b[..8].copy_from_slice(&v.to_le_bytes());
    b
}

fn coin(value: u64, y: u64, sigma1: u64, sigma2: u64) -> LeadCoin {
    LeadCoin {
        value,
        nonce: 0,
        y: field(y),
        sigma1: field(sigma1),
        sigma2: field(sigma2),
        public_inputs: vec![1, 2, 3],
        serial: [9u8; 32],
    }
}

fn good_report() -> TxReport {
    TxReport { calls: vec![CallOutcome::Executed], signatures_valid: true, proofs_valid: true, applied: true }
}

fn passing() -> ProposalChecks {
    ProposalChecks { leader_proof_valid: true, signature_valid: true, txs: vec![], finalized_txs: vec![] }
}

fn metadata(key: [u8; 32]) -> Metadata {
    Metadata {
        signature: vec![],
        public_key: key,
        public_inputs: vec![1, 2, 3],
        new_public_inputs: vec![1, 2, 3],
        winning_index: 0,
        serial: [0u8; 32],
        eta: [0u8; 32],
        proof: vec![5],
        participants: vec![],
    }
}

fn proposal(previous: [u8; 32], slot: u64, key: [u8; 32]) -> BlockProposal {
    let header = Header::new(previous, slot_epoch(slot), slot, 1000 + slot as i64, [0u8; 32]);
    BlockProposal::new(header, vec![], metadata(key))
}

fn participant(key: [u8; 32]) -> Participant {
    let coins = (0..EPOCH_LENGTH).map(|_| vec![vec![1u8, 2, 3]]).collect();
    Participant { public_key: key, coins }
}

fn node() -> ValidatorState {
    let mut v = ValidatorState::new(ME, 0, [1u8; 32]);
    v.append_participant(participant(ME));
    v.set_participating_at(0);
    v
}

#[test]
fn slot_epoch_and_relative_slot() {
    for slot in [0u64, 1, 9, 10, 11, 25, u64::MAX] {
        assert_eq!(slot_epoch(slot), slot / EPOCH_LENGTH);
        assert!(relative_slot(slot) < EPOCH_LENGTH);
    }
    assert_eq!(slot_epoch(25), 2);
    assert_eq!(relative_slot(25), 5);
}

#[test]
fn time_model_values() {
    assert_eq!(slot_at(100, 100), 0);
    assert_eq!(slot_at(100, 139), 0);
    assert_eq!(slot_at(100, 140), 1);
    assert_eq!(slot_at(100, 50), 0);
    assert_eq!(slots_to_next_n_epoch_at(3, 1), 7);
    assert_eq!(slots_to_next_n_epoch_at(13, 2), 17);
    assert_eq!(next_n_slot_start_at(0, 50, 1, 1), 30);
    assert_eq!(next_n_slot_start_at(0, 500, 1, 1), 0);
}

#[test]
fn blake3_digest_of_empty_input() {
    let d = digest_of(&vec![]);
    let expected: [u8; 32] = [
        0xaf, 0x13, 0x49, 0xb9, 0xf5, 0xf9, 0xa1, 0xa6, 0xa0, 0x40, 0x4d, 0xea, 0x36, 0xdc, 0xc9, 0x49,
        0x9b, 0xcb, 0x25, 0xc9, 0xad, 0xc1, 0x12, 0xb7, 0xcc, 0x9a, 0x93, 0xca, 0xe4, 0x1f, 0x32, 0x62,
    ];
    assert_eq!(d, expected);
}

#[test]
fn header_hash_binds_every_field() {
    let h = Header::new([1u8; 32], 0, 3, 10, [0u8; 32]);
    let mut g = h;
    g.slot = 4;
    assert_ne!(h.headerhash(), g.headerhash());
    assert_eq!(h.encode().len(), 88);
    assert_eq!(h.headerhash(), digest_of(&h.encode()));
}

#[test]
fn lottery_target_formula() {
    // 2 * 4 + 3 * 4 * 4 = 56
    assert_eq!(coin_target(&coin(4, 0, 2, 3)), field(56));
    // (p - 1) * 2 = p - 2 in the field
    let p: [u64; 4] = [0x992d30ed00000001, 0x224698fc094cf91b, 0, 0x4000000000000000];
    let encode = |low: u64| {
        let mut out = [0u8; 32];
        let limbs = [low, p[1], p[2], p[3]];
        for i in 0..4 {
            out[i * 8..i * 8 + 8].copy_from_slice(&limbs[i].to_le_bytes());
        }
        out
    };
    let p_minus_1 = encode(p[0] - 1);
    let p_minus_2 = encode(p[0] - 2);
    let mut c = coin(2, 0, 0, 0);
    c.sigma1 = p_minus_1;
    assert_eq!(coin_target(&c), p_minus_2);
}

#[test]
fn lottery_picks_highest_winning_value() {
    let coins = vec![coin(1, 100, 5, 0), coin(3, 1, 5, 0), coin(5, 1, 5, 0), coin(5, 2, 5, 0), coin(9, 1000, 5, 0)];
    assert_eq!(best_winner(&coins), (true, 2));
    let losers = vec![coin(1, 100, 5, 0), coin(2, 100, 5, 0)];
    assert_eq!(best_winner(&losers), (false, 0));
    assert_eq!(best_winner(&vec![]), (false, 0));
}

#[test]
fn epoch_coins_one_per_slot() {
    let minted: Vec<LeadCoin> = (0..EPOCH_LENGTH).map(|i| coin(i + 1, 1, 5, 0)).collect();
    let rows = create_coins(minted);
    assert_eq!(rows.len() as u64, EPOCH_LENGTH);
    for (i, row) in rows.iter().enumerate() {
        assert_eq!(row.len(), 1);
        assert_eq!(row[0].value, i as u64 + 1);
    }
}

#[test]
fn epoch_change_fills_coins() {
    let mut v = node();
    let minted: Vec<LeadCoin> = (0..EPOCH_LENGTH).map(|_| coin(1, 1, 5, 0)).collect();
    assert!(!v.epoch_changed_at(1, minted.clone()));
    assert!(v.consensus.coins.is_empty());
    assert!(v.epoch_changed_at(EPOCH_LENGTH + 1, minted.clone()));
    assert_eq!(v.consensus.epoch, 1);
    assert_eq!(v.consensus.coins.len() as u64, EPOCH_LENGTH);
    assert!(v.consensus.coins.iter().all(|row| !row.is_empty()));
    let mut eta = v.blockchain.get_last_proof_hash();
    eta[30] = 0;
    eta[31] = 0;
    assert_eq!(v.consensus.epoch_eta, eta);
    assert!(!v.epoch_changed_at(EPOCH_LENGTH + 2, minted));
}

#[test]
fn single_node_genesis_proposal() {
    let mut v = node();
    let slot = EPOCH_LENGTH + 1;
    let minted: Vec<LeadCoin> = (0..EPOCH_LENGTH).map(|_| coin(1, 1, 5, 0)).collect();
    assert!(v.epoch_changed_at(slot, minted));
    let first = v.is_slot_leader_at(slot);
    assert_eq!(first, v.is_slot_leader_at(slot));
    assert_eq!(first, (true, 0));
    let header = v.proposal_header(slot, 1234, [0u8; 32]);
    assert_eq!(header.previous, v.consensus.genesis_block);
    assert_eq!(header.previous, v.blockchain.last().1);
    let p = v.propose(slot, 1234, [0u8; 32], first.1, vec![1], vec![2]);
    assert_eq!(p.header.previous, v.consensus.genesis_block);
    assert_eq!(p.header_hash, header.headerhash());
    assert_eq!(p.metadata.public_key, ME);
    assert_eq!(p.metadata.public_inputs, vec![1, 2, 3]);
}

fn outcome(r: Result<Option<Vec<BlockInfo>>, ConsensusError>) -> Result<Option<Vec<u64>>, ConsensusError> {
    r.map(|o| o.map(|blocks| blocks.iter().map(|b| b.header.slot).collect()))
}

#[test]
fn fork_creation_from_canonical_tip() {
    let mut v = node();
    let tip = v.blockchain.last().1;
    let p = proposal(tip, 1, ME);
    assert_eq!(v.find_extended_chain_index(&p), -1);
    assert_eq!(v.consensus.proposals.len(), 0);
    assert_eq!(outcome(v.receive_proposal_at(1, p, &passing())), Ok(Some(vec![])));
    assert_eq!(v.consensus.proposals.len(), 1);
    assert_eq!(v.consensus.proposals[0].proposals.len(), 1);
    assert!(v.proposal_exists(&v.consensus.proposals[0].proposals[0].header_hash.clone()));
}

#[test]
fn longest_chain_finalization() {
    let mut v = node();
    let tip = v.blockchain.last().1;
    let b1 = proposal(tip, 1, ME);
    let b2 = proposal(b1.header_hash, 2, ME);
    let b3 = proposal(b2.header_hash, 3, ME);
    let (h1, h2, h3) = (b1.header_hash, b2.header_hash, b3.header_hash);
    assert_eq!(outcome(v.receive_proposal_at(1, b1, &passing())), Ok(Some(vec![])));
    assert_eq!(outcome(v.receive_proposal_at(2, b2, &passing())), Ok(Some(vec![])));
    assert_eq!(outcome(v.receive_proposal_at(3, b3, &passing())), Ok(Some(vec![1, 2])));
    assert_eq!(v.consensus.proposals.len(), 1);
    assert_eq!(v.consensus.proposals[0].proposals.len(), 1);
    assert_eq!(v.consensus.proposals[0].proposals[0].header_hash, h3);
    assert_eq!(v.blockchain.last(), (2, h2));
    assert!(v.blockchain.has_block(&h1));
    assert_eq!(v.last_slot(), 3);
}

fn chain_of(start: [u8; 32], slots: &[u64], key: [u8; 32]) -> ProposalChain {
    let mut prev = start;
    let mut ps = vec![];
    for &s in slots {
        let p = proposal(prev, s, key);
        prev = p.header_hash;
        ps.push(p);
    }
    ProposalChain { genesis_block: start, proposals: ps }
}

fn finalized_slots(r: Result<Vec<BlockInfo>, ConsensusError>) -> Result<Vec<u64>, ConsensusError> {
    r.map(|blocks| blocks.iter().map(|b| b.header.slot).collect())
}

#[test]
fn finalization_blocked_by_equal_fork() {
    let mut v = node();
    let tip = v.blockchain.last().1;
    let a = chain_of(tip, &[1, 2, 3], ME);
    let b = chain_of(tip, &[4, 5, 6], ME);
    v.consensus.proposals = vec![a.clone(), b.clone()];
    assert_eq!(finalized_slots(v.chain_finalization(0, &vec![])), Ok(vec![]));
    assert_eq!(v.consensus.proposals.len(), 2);

    // a fourth proposal on chain A: B is now shorter, so A's prefix is finalized
    let a4 = proposal(a.proposals[2].header_hash, 7, ME);
    assert_eq!(outcome(v.receive_proposal_at(7, a4, &passing())), Ok(Some(vec![1, 2, 3])));
    assert_eq!(v.consensus.proposals.len(), 1);
    assert_eq!(v.consensus.proposals[0].proposals.len(), 1);
    assert_eq!(v.blockchain.last().0, 3);

    // with B as long as A after the fourth proposal, nothing is finalized
    let mut w = node();
    let b4 = chain_of(tip, &[4, 5, 6, 8], ME);
    w.consensus.proposals = vec![a.clone(), b4];
    let a4 = proposal(a.proposals[2].header_hash, 7, ME);
    assert_eq!(outcome(w.receive_proposal_at(7, a4, &passing())), Ok(Some(vec![])));
    assert_eq!(w.consensus.proposals.len(), 2);
    assert_eq!(w.consensus.proposals[0].proposals.len(), 4);
}

#[test]
fn chain_too_short_is_not_finalized() {
    let mut v = node();
    let tip = v.blockchain.last().1;
    v.consensus.proposals = vec![chain_of(tip, &[1, 2], ME)];
    assert_eq!(finalized_slots(v.chain_finalization(0, &vec![])), Ok(vec![]));
    assert_eq!(v.consensus.proposals[0].proposals.len(), 2);
}

#[test]
fn finalization_refused_by_broken_linkage() {
    let mut v = node();
    v.consensus.proposals = vec![chain_of([3u8; 32], &[1, 2, 3], ME)];
    assert_eq!(
        finalized_slots(v.chain_finalization(0, &vec![])),
        Err(ConsensusError::Gateway(consensus_core::blockchain::GatewayError::BrokenLinkage))
    );
    assert_eq!(v.consensus.proposals[0].proposals.len(), 3);
    assert_eq!(v.blockchain.blocks.len(), 1);
}

#[test]
fn finalization_prunes_stale_forks() {
    let mut v = node();
    let tip = v.blockchain.last().1;
    let a = chain_of(tip, &[1, 2, 3], ME);
    let stale = chain_of(tip, &[4], ME);
    v.consensus.proposals = vec![a, stale];
    assert_eq!(finalized_slots(v.chain_finalization(0, &vec![])), Ok(vec![1, 2]));
    assert_eq!(v.consensus.proposals.len(), 1);
    assert_eq!(v.consensus.proposals[0].proposals[0].header.slot, 3);
}

#[test]
fn sibling_proposal_creates_fork() {
    let mut v = node();
    let tip = v.blockchain.last().1;
    let c = chain_of(tip, &[1, 2], ME);
    v.consensus.proposals = vec![c.clone()];
    let sibling = proposal(c.proposals[0].header_hash, 3, ME);
    assert_eq!(v.find_extended_chain_index(&sibling), 1);
    assert_eq!(v.consensus.proposals.len(), 2);
    assert_eq!(v.consensus.proposals[1].proposals.len(), 1);
    assert_eq!(v.consensus.proposals[1].proposals[0].header_hash, c.proposals[0].header_hash);
    let unrelated = proposal([4u8; 32], 9, ME);
    assert_eq!(v.find_extended_chain_index(&unrelated), -2);
}

#[test]
fn longest_chain_prefers_first_of_longest() {
    let mut v = node();
    let tip = v.blockchain.last().1;
    assert_eq!(v.longest_chain_last_hash(), (tip, -1));
    let a = chain_of(tip, &[1, 2], ME);
    let b = chain_of(tip, &[3, 4], ME);
    let c = chain_of(tip, &[5], ME);
    let a_last = a.proposals[1].header_hash;
    v.consensus.proposals = vec![c, a, b];
    assert_eq!(v.longest_chain_last_hash(), (a_last, 1));
}

#[test]
fn header_tampering_is_rejected() {
    let mut v = node();
    let tip = v.blockchain.last().1;
    let mut p = proposal(tip, 1, ME);
    p.header_hash[0] ^= 1;
    assert_eq!(outcome(v.receive_proposal_at(1, p, &passing())), Err(ConsensusError::HeaderMismatch));
    assert!(v.consensus.proposals.is_empty());
}

#[test]
fn stranger_proposer_is_rejected() {
    let mut v = node();
    let tip = v.blockchain.last().1;
    let p = proposal(tip, 1, [8u8; 32]);
    assert_eq!(outcome(v.receive_proposal_at(1, p, &passing())), Err(ConsensusError::UnknownNode));
}

#[test]
fn proposal_ignored_before_participating() {
    let mut v = ValidatorState::new(ME, 0, [1u8; 32]);
    v.append_participant(participant(ME));
    let tip = v.blockchain.last().1;
    assert_eq!(outcome(v.receive_proposal_at(1, proposal(tip, 1, ME), &passing())), Ok(None));
    v.set_participating_at(4);
    assert_eq!(outcome(v.receive_proposal_at(4, proposal(tip, 4, ME), &passing())), Ok(None));
    assert_eq!(outcome(v.receive_proposal_at(5, proposal(tip, 5, ME), &passing())), Ok(Some(vec![])));
}

#[test]
fn proposal_rejections_in_order() {
    let tip = ValidatorState::new(ME, 0, [1u8; 32]).blockchain.last().1;

    let mut v = node();
    let mut p = proposal(tip, 1, ME);
    p.metadata.public_inputs = vec![4];
    assert_eq!(outcome(v.receive_proposal_at(1, p, &passing())), Err(ConsensusError::InvalidPublicInputs));

    let mut p = proposal(tip, 1, ME);
    p.metadata.winning_index = 3;
    assert_eq!(outcome(v.receive_proposal_at(1, p, &passing())), Err(ConsensusError::InvalidPublicInputs));

    let bad_proof = ProposalChecks { leader_proof_valid: false, signature_valid: false, txs: vec![], finalized_txs: vec![] };
    assert_eq!(outcome(v.receive_proposal_at(1, proposal(tip, 1, ME), &bad_proof)), Err(ConsensusError::LeaderProofFailure));

    let bad_sig = ProposalChecks { leader_proof_valid: true, signature_valid: false, txs: vec![], finalized_txs: vec![] };
    assert_eq!(outcome(v.receive_proposal_at(1, proposal(tip, 1, ME), &bad_sig)), Err(ConsensusError::InvalidSignature));

    assert_eq!(
        outcome(v.receive_proposal_at(1, proposal([5u8; 32], 1, ME), &passing())),
        Err(ConsensusError::UnknownExtension)
    );

    let mut report = good_report();
    report.signatures_valid = false;
    let bad_tx = ProposalChecks { leader_proof_valid: true, signature_valid: true, txs: vec![good_report(), report], finalized_txs: vec![] };
    assert_eq!(
        outcome(v.receive_proposal_at(1, proposal(tip, 1, ME), &bad_tx)),
        Err(ConsensusError::Transaction(TxError::BadSig))
    );
    assert!(v.consensus.proposals.is_empty());
}

#[test]
fn accepted_proposal_updates_leader_inputs() {
    let mut v = node();
    let tip = v.blockchain.last().1;
    let mut p = proposal(tip, 2, ME);
    p.metadata.new_public_inputs = vec![6, 6];
    assert_eq!(outcome(v.receive_proposal_at(2, p, &passing())), Ok(Some(vec![])));
    assert_eq!(v.consensus.participants[0].coins[2][0], vec![6, 6]);
    assert_eq!(v.consensus.participants[0].coins[1][0], vec![1, 2, 3]);
}

#[test]
fn transaction_verdicts() {
    assert_eq!(verify_reports(&vec![]), Ok(()));
    assert_eq!(verify_reports(&vec![good_report(), good_report()]), Ok(()));
    let missing = TxReport { calls: vec![CallOutcome::Executed, CallOutcome::MissingContract, CallOutcome::RuntimeFailure], signatures_valid: false, proofs_valid: false, applied: false };
    assert_eq!(verify_reports(&vec![missing]), Err(TxError::MissingContract));
    let runtime = TxReport { calls: vec![CallOutcome::RuntimeFailure], signatures_valid: true, proofs_valid: true, applied: true };
    assert_eq!(verify_reports(&vec![runtime]), Err(TxError::RuntimeFailure));
    let zk = TxReport { calls: vec![], signatures_valid: true, proofs_valid: false, applied: false };
    assert_eq!(verify_reports(&vec![good_report(), zk.clone()]), Err(TxError::BadZkp));
    assert_eq!(verify_reports(&vec![zk.clone()]), verify_reports(&vec![zk]));
    let apply = TxReport { calls: vec![CallOutcome::Executed], signatures_valid: true, proofs_valid: true, applied: false };
    assert_eq!(verify_reports(&vec![apply]), Err(TxError::StateApplyFailure));
}

#[test]
fn mempool_operations() {
    let mut v = node();
    let t1 = Transaction::new(vec![1]);
    let t2 = Transaction::new(vec![2]);
    let t3 = Transaction::new(vec![3]);
    assert!(v.append_tx(t1.clone(), &good_report()));
    assert!(!v.append_tx(t1.clone(), &good_report()));
    let mut bad = good_report();
    bad.applied = false;
    assert!(!v.append_tx(t2.clone(), &bad));
    assert!(v.append_tx(t2.clone(), &good_report()));
    assert!(v.append_tx(t3.clone(), &good_report()));
    assert_eq!(v.unproposed_txs(-1).len(), 3);

    let tip = v.blockchain.last().1;
    let header = Header::new(tip, 0, 1, 0, [0u8; 32]);
    let p = BlockProposal::new(header, vec![t2.clone()], metadata(ME));
    v.consensus.proposals = vec![ProposalChain::new(tip, p)];
    let left: Vec<Vec<u8>> = v.unproposed_txs(0).into_iter().map(|t| t.bytes).collect();
    assert_eq!(left, vec![vec![1], vec![3]]);

    v.remove_txs(&vec![t3.clone(), t1.clone()]);
    let left: Vec<Vec<u8>> = v.unconfirmed_txs.iter().map(|t| t.bytes.clone()).collect();
    assert_eq!(left, vec![vec![2]]);
}

#[test]
fn finalized_block_reception() {
    let mut v = node();
    let t1 = Transaction::new(vec![1]);
    assert!(v.append_tx(t1.clone(), &good_report()));
    let tip = v.blockchain.last().1;
    let header = Header::new(tip, 0, 1, 0, [0u8; 32]);
    let block = BlockInfo { header, txs: vec![t1.clone()], metadata: metadata(ME) };
    assert_eq!(v.receive_finalized_block(block.clone(), &vec![good_report()]), Ok(true));
    assert!(v.unconfirmed_txs.is_empty());
    assert_eq!(v.blockchain.last(), (1, header.headerhash()));
    assert!(v.blockchain.contains_tx(&t1.hash()));
    assert_eq!(v.receive_finalized_block(block.clone(), &vec![good_report()]), Ok(false));
    // a finalized transaction is not pending again
    assert!(!v.append_tx(t1, &good_report()));

    let next = BlockInfo { header: Header::new(header.headerhash(), 0, 2, 0, [0u8; 32]), txs: vec![], metadata: metadata(ME) };
    assert_eq!(v.receive_sync_blocks(vec![block, next], &vec![]), Ok(()));
    assert_eq!(v.blockchain.last().0, 2);
    let stray = BlockInfo { header: Header::new([2u8; 32], 0, 5, 0, [0u8; 32]), txs: vec![], metadata: metadata(ME) };
    assert_eq!(
        v.receive_blocks(&vec![stray], &vec![]),
        Err(ConsensusError::Gateway(consensus_core::blockchain::GatewayError::BrokenLinkage))
    );
}

#[test]
fn participants_stay_ordered() {
    let mut v = ValidatorState::new(ME, 0, [1u8; 32]);
    assert!(v.append_participant(participant([5u8; 32])));
    assert!(v.append_participant(participant([2u8; 32])));
    assert!(v.append_participant(participant([9u8; 32])));
    assert!(!v.append_participant(participant([2u8; 32])));
    let mut changed = participant([2u8; 32]);
    changed.coins[0][0] = vec![0];
    assert!(v.append_participant(changed));
    let keys: Vec<u8> = v.consensus.participants.iter().map(|p| p.public_key[0]).collect();
    assert_eq!(keys, vec![2, 5, 9]);
    assert_eq!(v.consensus.participants[0].coins[0][0], vec![0]);
}

#[test]
fn time_driven_slot_methods() {
    let now = 1_700_000_000i64;
    let v = ValidatorState::new(ME, now + 1_000_000_000, [1u8; 32]);
    assert_eq!(v.current_slot(now), 0);
    assert_eq!(v.current_epoch(now), 0);
    assert_eq!(v.slots_to_next_n_epoch(now, 1), EPOCH_LENGTH);
    let w = ValidatorState::new(ME, 1000, [1u8; 32]);
    assert_eq!(w.current_slot(1000 + 40 * 23 + 5), 23);
    assert_eq!(w.current_epoch(1000 + 40 * 23 + 5), 2);
    assert_eq!(w.slots_to_next_n_epoch(1000 + 40 * 23, 2), 17);
    assert_eq!(w.next_n_slot_start(1000 + 40 * 23 + 5, 1), 35);
    assert_eq!(w.next_n_epoch_start(1000 + 40 * 23 + 5, 1), 35 + 40 * 6);
}

#[test]
fn slot_leader_is_a_participant() {
    let mut v = ValidatorState::new(ME, 0, [1u8; 32]);
    v.append_participant(participant([3u8; 32]));
    v.append_participant(participant([6u8; 32]));
    let leader = v.slot_leader(12345).public_key;
    let n = v.consensus.participants.len() as u64;
    assert_eq!(v.leader_at(7).public_key, v.consensus.participants[(7 % n) as usize].public_key);
    assert!(leader == [3u8; 32] || leader == [6u8; 32]);
}

#[test]
fn chain_slots_strictly_increase() {
    let c = chain_of([0u8; 32], &[2, 5, 9], ME);
    for w in c.proposals.windows(2) {
        assert!(w[0].header.slot < w[1].header.slot);
        assert_eq!(w[1].header.previous, w[0].header_hash);
    }
}

#[test]
fn finalization_refused_by_failing_transactions() {
    let mut v = node();
    let tip = v.blockchain.last().1;
    v.consensus.proposals = vec![chain_of(tip, &[1, 2, 3], ME)];
    let mut bad = good_report();
    bad.proofs_valid = false;
    assert_eq!(finalized_slots(v.chain_finalization(0, &vec![bad])), Err(ConsensusError::Transaction(TxError::BadZkp)));
    assert_eq!(v.consensus.proposals[0].proposals.len(), 3);
    assert_eq!(v.blockchain.blocks.len(), 1);
}

#[test]
fn clock_read_proposal_and_epoch() {
    let mut v = node();
    v.set_participating(0);
    assert_eq!(v.participating, Some(1));
    let tip = v.blockchain.last().1;
    assert_eq!(outcome(v.receive_proposal(45, proposal(tip, 1, ME), &passing())), Ok(Some(vec![])));
    let minted: Vec<LeadCoin> = (0..EPOCH_LENGTH).map(|_| coin(1, 1, 5, 0)).collect();
    assert!(!v.epoch_changed(45, minted.clone()));
    assert!(v.epoch_changed(40 * 11, minted));
    assert_eq!(v.consensus.epoch, 1);
    assert_eq!(v.is_slot_leader(40 * 11), (true, 0));
}

#[test]
fn sibling_of_single_proposal_is_unknown_extension() {
    let mut v = node();
    let tip = v.blockchain.last().1;
    let c = chain_of([3u8; 32], &[1], ME);
    v.consensus.proposals = vec![c];
    let p = proposal([3u8; 32], 2, ME);
    assert_ne!(tip, [3u8; 32]);
    assert_eq!(outcome(v.receive_proposal_at(2, p, &passing())), Err(ConsensusError::UnknownExtension));
    assert_eq!(v.consensus.proposals.len(), 1);
}

#[test]
fn transaction_failure_keeps_forks_unchanged() {
    let mut v = node();
    let tip = v.blockchain.last().1;
    let c = chain_of(tip, &[1, 2], ME);
    v.consensus.proposals = vec![c.clone()];
    let sibling = proposal(c.proposals[0].header_hash, 3, ME);
    let mut report = good_report();
    report.applied = false;
    let checks = ProposalChecks { leader_proof_valid: true, signature_valid: true, txs: vec![report], finalized_txs: vec![] };
    assert_eq!(outcome(v.receive_proposal_at(3, sibling, &checks)), Err(ConsensusError::Transaction(TxError::StateApplyFailure)));
    assert_eq!(v.consensus.proposals.len(), 1);
    assert_eq!(v.consensus.proposals[0].proposals.len(), 2);
}

#[test]
fn sibling_proposal_received_on_new_fork() {
    let mut v = node();
    let tip = v.blockchain.last().1;
    let c = chain_of(tip, &[1, 2], ME);
    v.consensus.proposals = vec![c.clone()];
    let sibling = proposal(c.proposals[0].header_hash, 3, ME);
    assert_eq!(outcome(v.receive_proposal_at(3, sibling, &passing())), Ok(Some(vec![])));
    assert_eq!(v.consensus.proposals.len(), 2);
    assert_eq!(v.consensus.proposals[1].proposals.len(), 2);
    assert_eq!(v.consensus.proposals[1].proposals[1].header.slot, 3);
}

#[test]
fn failed_finalization_takes_proposal_back() {
    let mut v = node();
    let tip = v.blockchain.last().1;
    let c = chain_of(tip, &[1, 2], ME);
    v.consensus.proposals = vec![c.clone()];
    let mut p = proposal(c.proposals[1].header_hash, 3, ME);
    p.metadata.new_public_inputs = vec![8];
    let mut bad = good_report();
    bad.proofs_valid = false;
    let checks = ProposalChecks { leader_proof_valid: true, signature_valid: true, txs: vec![], finalized_txs: vec![bad] };
    assert_eq!(outcome(v.receive_proposal_at(3, p, &checks)), Err(ConsensusError::Transaction(TxError::BadZkp)));
    assert_eq!(v.consensus.proposals.len(), 1);
    assert_eq!(v.consensus.proposals[0].proposals.len(), 2);
    assert_eq!(v.consensus.participants[0].coins[3][0], vec![1, 2, 3]);
    assert_eq!(v.blockchain.blocks.len(), 1);
}
