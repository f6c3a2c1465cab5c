use vstd::prelude::*;

use crate::bytes::{copy_bytes, le_bytes, push_all, push_u64_le};

verus! {

/// What BLAKE3 returns for the given input.
pub uninterp spec fn blake3_of(data: Seq<u8>) -> Seq<u8>;

/// Relies on blake3::hash: the 32-byte BLAKE3 digest of the input, a function of
/// the input alone.
#[verifier::external_body]
fn blake3_digest(data: &[u8]) -> (r: [u8; 32])
    ensures
        r@ == blake3_of(data@),
{
    *blake3::hash(data).as_bytes()
}

/// Digest of an arbitrary byte string.
pub fn digest_of(data: &Vec<u8>) -> (r: [u8; 32])
    ensures
        r@ == blake3_of(data@),
{
    blake3_digest(data.as_slice())
}

/// Header of a block: what its hash binds.
#[derive(Clone, Copy, Debug)]
pub struct Header {
    /// Hash of the block this one extends
    pub previous: [u8; 32],
    /// Epoch the block was produced in
    pub epoch: u64,
    /// Slot the block was produced in
    pub slot: u64,
    /// Creation time, in seconds
    pub timestamp: i64,
    /// Merkle root of the block's transaction outputs
    pub root: [u8; 32],
}

/// Byte encoding of a header, the input of its hash.
pub open spec fn header_bytes(h: Header) -> Seq<u8> {
    h.previous@ + le_bytes(h.epoch) + le_bytes(h.slot) + le_bytes(h.timestamp as u64) + h.root@
}

/// Hash of a header.
pub open spec fn spec_header_hash(h: Header) -> Seq<u8> {
    blake3_of(header_bytes(h))
}

impl Header {
    pub fn new(previous: [u8; 32], epoch: u64, slot: u64, timestamp: i64, root: [u8; 32]) -> (r:
        Header)
        ensures
            r == (Header { previous, epoch, slot, timestamp, root }),
    {
        Header { previous, epoch, slot, timestamp, root }
    }

    /// Byte encoding of the header.
    pub fn encode(&self) -> (r: Vec<u8>)
        ensures
            r@ == header_bytes(*self),
    {
        let mut out: Vec<u8> = Vec::new();
        push_all(&mut out, self.previous.as_slice());
        push_u64_le(&mut out, self.epoch);
        push_u64_le(&mut out, self.slot);
        push_u64_le(&mut out, self.timestamp as u64);
        push_all(&mut out, self.root.as_slice());
        out
    }

    /// Hash of the header.
    pub fn headerhash(&self) -> (r: [u8; 32])
        ensures
            r@ == spec_header_hash(*self),
    {
        let bytes = self.encode();
        digest_of(&bytes)
    }
}

/// A transaction, held in its encoded form.
#[derive(Clone, Debug)]
pub struct Transaction {
    pub bytes: Vec<u8>,
}

impl View for Transaction {
    type V = Seq<u8>;

    open spec fn view(&self) -> Seq<u8> {
        self.bytes@
    }
}

impl Transaction {
    pub fn new(bytes: Vec<u8>) -> (r: Transaction)
        ensures
            r@ == bytes@,
    {
        Transaction { bytes }
    }

    /// A copy of the transaction.
    pub fn duplicate(&self) -> (r: Transaction)
        ensures
            r@ == self@,
    {
        Transaction { bytes: copy_bytes(&self.bytes) }
    }

    /// Hash of the transaction.
    pub fn hash(&self) -> (r: [u8; 32])
        ensures
            r@ == blake3_of(self@),
    {
        digest_of(&self.bytes)
    }
}

/// Contents of a list of transactions.
pub open spec fn txs_view(txs: Seq<Transaction>) -> Seq<Seq<u8>> {
    txs.map_values(|t: Transaction| t@)
}

/// A copy of a list of transactions.
pub fn copy_txs(txs: &Vec<Transaction>) -> (r: Vec<Transaction>)
    ensures
        txs_view(r@) == txs_view(txs@),
{
    let mut out: Vec<Transaction> = Vec::new();
    let mut i: usize = 0;
    while i < txs.len()
        invariant
            i <= txs@.len(),
            out@.len() == i,
            forall|j: int| 0 <= j < i ==> (#[trigger] out@[j])@ == txs@[j]@,
        decreases txs@.len() - i,
    {
        out.push(txs[i].duplicate());
        i = i + 1;
    }
    assert(txs_view(out@) =~= txs_view(txs@));
    out
}

/// A consensus participant: its public key and, for each slot of the epoch, the public
/// inputs of each of its competing coins.
#[derive(Clone, Debug)]
pub struct Participant {
    pub public_key: [u8; 32],
    pub coins: Vec<Vec<Vec<u8>>>,
}

/// Public inputs of a participant's coins, slot by slot.
pub open spec fn coins_view(coins: Seq<Vec<Vec<u8>>>) -> Seq<Seq<Seq<u8>>> {
    coins.map_values(|row: Vec<Vec<u8>>| row@.map_values(|x: Vec<u8>| x@))
}

/// Key and coin public inputs of each participant.
pub open spec fn participants_view(ps: Seq<Participant>) -> Seq<(Seq<u8>, Seq<Seq<Seq<u8>>>)> {
    ps.map_values(|p: Participant| (p.public_key@, coins_view(p.coins@)))
}

fn copy_row(row: &Vec<Vec<u8>>) -> (r: Vec<Vec<u8>>)
    ensures
        r@.map_values(|x: Vec<u8>| x@) == row@.map_values(|x: Vec<u8>| x@),
{
    let mut out: Vec<Vec<u8>> = Vec::new();
    let mut b: usize = 0;
    while b < row.len()
        invariant
            b <= row@.len(),
            out@.len() == b,
            forall|m: int| 0 <= m < b ==> (#[trigger] out@[m])@ == row@[m]@,
        decreases row@.len() - b,
    {
        out.push(copy_bytes(&row[b]));
        b = b + 1;
    }
    assert(out@.map_values(|x: Vec<u8>| x@) =~= row@.map_values(|x: Vec<u8>| x@));
    out
}

impl Participant {
    /// A copy of the participant.
    pub fn duplicate(&self) -> (r: Participant)
        ensures
            r.public_key == self.public_key,
            coins_view(r.coins@) == coins_view(self.coins@),
    {
        let mut out: Vec<Vec<Vec<u8>>> = Vec::new();
        let mut a: usize = 0;
        while a < self.coins.len()
            invariant
                a <= self.coins@.len(),
                out@.len() == a,
                forall|m: int| 0 <= m < a ==> (#[trigger] out@[m])@.map_values(|x: Vec<u8>| x@) == self.coins@[m]@.map_values(|x: Vec<u8>| x@),
            decreases self.coins@.len() - a,
        {
            out.push(copy_row(&self.coins[a]));
            a = a + 1;
        }
        assert(coins_view(out@) =~= coins_view(self.coins@));
        Participant { public_key: self.public_key, coins: out }
    }
}

/// A copy of a list of participants.
pub fn copy_participants(ps: &Vec<Participant>) -> (r: Vec<Participant>)
    ensures
        participants_view(r@) == participants_view(ps@),
{
    let mut out: Vec<Participant> = Vec::new();
    let mut i: usize = 0;
    while i < ps.len()
        invariant
            i <= ps@.len(),
            out@.len() == i,
            forall|j: int| 0 <= j < i ==> (#[trigger] out@[j]).public_key == ps@[j].public_key
                && coins_view(out@[j].coins@) == coins_view(ps@[j].coins@),
        decreases ps@.len() - i,
    {
        out.push(ps[i].duplicate());
        i = i + 1;
    }
    assert(participants_view(out@) =~= participants_view(ps@));
    out
}

/// Data that proves a proposal's leadership.
#[derive(Clone, Debug)]
pub struct Metadata {
    /// Signature of the header hash
    pub signature: Vec<u8>,
    /// Proposer's public key
    pub public_key: [u8; 32],
    /// Public inputs of the winning coin
    pub public_inputs: Vec<u8>,
    /// Public inputs of the coin that replaces the winning one
    pub new_public_inputs: Vec<u8>,
    /// Index of the winning coin among the slot's competing coins
    pub winning_index: usize,
    /// Serial number of the winning coin
    pub serial: [u8; 32],
    /// Encoding of the epoch's lottery randomness
    pub eta: [u8; 32],
    /// Leader proof
    pub proof: Vec<u8>,
    /// Participants known to the proposer
    pub participants: Vec<Participant>,
}

/// Whether two metadata records agree field by field.
pub open spec fn same_metadata(a: Metadata, b: Metadata) -> bool {
    &&& a.signature@ == b.signature@
    &&& a.public_key == b.public_key
    &&& a.public_inputs@ == b.public_inputs@
    &&& a.new_public_inputs@ == b.new_public_inputs@
    &&& a.winning_index == b.winning_index
    &&& a.serial == b.serial
    &&& a.eta == b.eta
    &&& a.proof@ == b.proof@
    &&& participants_view(a.participants@) == participants_view(b.participants@)
}

impl Metadata {
    /// A copy of the metadata.
    pub fn duplicate(&self) -> (r: Metadata)
        ensures
            same_metadata(r, *self),
    {
        Metadata {
            signature: copy_bytes(&self.signature),
            public_key: self.public_key,
            public_inputs: copy_bytes(&self.public_inputs),
            new_public_inputs: copy_bytes(&self.new_public_inputs),
            winning_index: self.winning_index,
            serial: self.serial,
            eta: self.eta,
            proof: copy_bytes(&self.proof),
            participants: copy_participants(&self.participants),
        }
    }
}

/// A block proposal: a header, its transactions, leadership data and the header's hash.
#[derive(Clone, Debug)]
pub struct BlockProposal {
    pub header: Header,
    pub txs: Vec<Transaction>,
    pub metadata: Metadata,
    pub header_hash: [u8; 32],
}

impl BlockProposal {
    /// Builds a proposal, hashing its header.
    pub fn new(header: Header, txs: Vec<Transaction>, metadata: Metadata) -> (r: BlockProposal)
        ensures
            r.header == header,
            r.header_hash@ == spec_header_hash(header),
            r.txs@ == txs@,
            r.metadata == metadata,
    {
        let header_hash = header.headerhash();
        BlockProposal { header, txs, metadata, header_hash }
    }
}

/// A finalized block.
#[derive(Clone, Debug)]
pub struct BlockInfo {
    pub header: Header,
    pub txs: Vec<Transaction>,
    pub metadata: Metadata,
}

impl BlockInfo {
    /// The block a proposal becomes once finalized.
    pub fn from_proposal(p: BlockProposal) -> (r: BlockInfo)
        ensures
            r.header == p.header,
            r.txs@ == p.txs@,
            r.metadata == p.metadata,
    {
        BlockInfo { header: p.header, txs: p.txs, metadata: p.metadata }
    }
}

} // verus!
