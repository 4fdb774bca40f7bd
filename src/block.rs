//! Blocks: header, payload and signatures; the merkle root over transaction
//! hashes; the hashes of a block and of its payload; and the validation of a
//! decoded block candidate.
use vstd::prelude::*;
use vstd::utf8::encode_utf8;
use crate::codec::{
    all_prefixable, enc_bytes, enc_bytes_all, enc_opt_bytes, enc_opt_hash, enc_text, enc_u64, opt_hash_view,
    push_all, put_bytes, put_bytes_list, put_opt_bytes, put_opt_hash, put_text, put_u64,
};
use crate::crypto::{blake2b_of, compact_of, ed25519_sign, ed25519_sign_of, encode_compact, hash_bytes, Digest};
use crate::topology::PeerId;
use crate::tx::{enc_payload, payload_encodable, payload_hash, Signature, Transaction};

verus! {

/// Header of a block.
pub struct BlockHeader {
    /// Number of blocks in the chain including this one.
    pub height: u64,
    /// Hash of the previous block; absent only in the genesis block.
    pub previous_block_hash: Option<Digest>,
    /// Merkle root of the transactions' hashes; absent when there are none.
    pub transactions_hash: Option<Digest>,
    /// Creation time, in milliseconds since the Unix epoch.
    pub timestamp_ms: u64,
    /// View-change index at which the block was produced.
    pub view_change_index: u64,
    /// Estimated duration of consensus, in milliseconds.
    pub consensus_estimation_ms: u64,
}

impl BlockHeader {
    /// Whether this is the header of the genesis block.
    pub fn is_genesis(&self) -> (r: bool)
        ensures
            r == (self.height == 1),
    {
        self.height == 1
    }

    /// Creation time, in milliseconds since the Unix epoch.
    pub fn timestamp(&self) -> (r: u64)
        ensures
            r == self.timestamp_ms,
    {
        self.timestamp_ms
    }
}

/// What the peers of a block sign.
pub struct BlockPayload {
    pub header: BlockHeader,
    /// Topology of the network when the block was committed.
    pub commit_topology: Vec<PeerId>,
    /// Transactions, in order.
    pub transactions: Vec<Transaction>,
    /// Recommended events, each in its canonical encoding.
    pub event_recommendations: Vec<Vec<u8>>,
}

/// A signature of a block payload by the peer at a topology position.
pub struct BlockSignature(pub u64, pub Vec<u8>);

/// A block with its signatures.
pub struct SignedBlockV1 {
    /// Signatures of the peers that approved the block.
    pub signatures: Vec<BlockSignature>,
    pub payload: BlockPayload,
}

/// A block in a versioned envelope.
pub enum SignedBlock {
    V1(SignedBlockV1),
}

/// Canonical encoding of a block header.
pub open spec fn enc_header(h: BlockHeader) -> Seq<u8> {
    enc_u64(h.height) + enc_opt_hash(opt_hash_view(h.previous_block_hash)) + enc_opt_hash(
        opt_hash_view(h.transactions_hash),
    ) + enc_u64(h.timestamp_ms) + enc_u64(h.view_change_index) + enc_u64(h.consensus_estimation_ms)
}

/// Canonical encoding of a peer identity.
pub open spec fn enc_peer(p: PeerId) -> Seq<u8> {
    enc_text(p.address@) + enc_opt_bytes(p.key())
}

/// Encodings of peer identities, one after another.
pub open spec fn enc_peers(s: Seq<PeerId>) -> Seq<u8>
    decreases s.len(),
{
    if s.len() == 0 {
        Seq::empty()
    } else {
        enc_peers(s.drop_last()) + enc_peer(s.last())
    }
}

/// Canonical encoding of a transaction signature.
pub open spec fn enc_tx_sig(s: Signature) -> Seq<u8> {
    enc_bytes(s.public_key@) + enc_bytes(s.signature@)
}

/// Encodings of transaction signatures, one after another.
pub open spec fn enc_tx_sigs(s: Seq<Signature>) -> Seq<u8>
    decreases s.len(),
{
    if s.len() == 0 {
        Seq::empty()
    } else {
        enc_tx_sigs(s.drop_last()) + enc_tx_sig(s.last())
    }
}

/// Canonical encoding of a signed transaction.
pub open spec fn enc_tx(t: Transaction) -> Seq<u8> {
    enc_payload(t.payload) + compact_of(t.signatures@.len() as u32) + enc_tx_sigs(t.signatures@)
}

/// Encodings of transactions, one after another.
pub open spec fn enc_txs(s: Seq<Transaction>) -> Seq<u8>
    decreases s.len(),
{
    if s.len() == 0 {
        Seq::empty()
    } else {
        enc_txs(s.drop_last()) + enc_tx(s.last())
    }
}

/// Canonical encoding of a block payload.
pub open spec fn enc_block_payload(p: BlockPayload) -> Seq<u8> {
    enc_header(p.header) + compact_of(p.commit_topology@.len() as u32) + enc_peers(p.commit_topology@) + compact_of(
        p.transactions@.len() as u32,
    ) + enc_txs(p.transactions@) + compact_of(p.event_recommendations@.len() as u32) + enc_bytes_all(
        p.event_recommendations@,
    )
}

/// Encodings of block signatures, one after another.
pub open spec fn enc_block_sigs(s: Seq<BlockSignature>) -> Seq<u8>
    decreases s.len(),
{
    if s.len() == 0 {
        Seq::empty()
    } else {
        enc_block_sigs(s.drop_last()) + enc_u64(s.last().0) + enc_bytes(s.last().1@)
    }
}

/// Canonical encoding of a signed block: version tag, signatures, payload.
pub open spec fn enc_signed_block(b: SignedBlockV1) -> Seq<u8> {
    seq![1u8] + compact_of(b.signatures@.len() as u32) + enc_block_sigs(b.signatures@) + enc_block_payload(b.payload)
}

/// Whether a peer identity can be encoded.
pub open spec fn peer_encodable(p: PeerId) -> bool {
    &&& encode_utf8(p.address@).len() <= u32::MAX
    &&& p.public_key is Some ==> p.public_key->0@.len() <= u32::MAX
}

/// Whether a signed transaction can be encoded.
pub open spec fn tx_encodable(t: Transaction) -> bool {
    &&& payload_encodable(t.payload)
    &&& t.signatures@.len() <= u32::MAX
    &&& forall|i: int| 0 <= i < t.signatures@.len() ==> t.signatures@[i].public_key@.len() <= u32::MAX
        && t.signatures@[i].signature@.len() <= u32::MAX
}

/// Whether a block payload can be encoded: every length fits a 32-bit prefix.
pub open spec fn block_payload_encodable(p: BlockPayload) -> bool {
    &&& p.commit_topology@.len() <= u32::MAX
    &&& forall|i: int| 0 <= i < p.commit_topology@.len() ==> peer_encodable(p.commit_topology@[i])
    &&& p.transactions@.len() <= u32::MAX
    &&& forall|i: int| 0 <= i < p.transactions@.len() ==> tx_encodable(p.transactions@[i])
    &&& p.event_recommendations@.len() <= u32::MAX
    &&& all_prefixable(p.event_recommendations@)
}

/// Whether a signed block can be encoded.
pub open spec fn block_encodable(b: SignedBlockV1) -> bool {
    &&& block_payload_encodable(b.payload)
    &&& b.signatures@.len() <= u32::MAX
    &&& forall|i: int| 0 <= i < b.signatures@.len() ==> b.signatures@[i].1@.len() <= u32::MAX
}

/// The hashes of a block's transactions, in order.
pub open spec fn tx_leaves(txs: Seq<Transaction>) -> Seq<Seq<u8>> {
    Seq::new(txs.len(), |i: int| payload_hash(txs[i].payload))
}

/// Node `i` of the level above `s`: the digest of nodes `2i` and `2i + 1`, the
/// last node standing in for its missing sibling.
pub open spec fn merkle_node(s: Seq<Seq<u8>>, i: int) -> Seq<u8> {
    let right = if 2 * i + 1 < s.len() { s[2 * i + 1] } else { s[2 * i] };
    blake2b_of(s[2 * i] + right)
}

/// The level above `s` in the merkle tree.
pub open spec fn merkle_level(s: Seq<Seq<u8>>) -> Seq<Seq<u8>> {
    Seq::new(((s.len() + 1) / 2) as nat, |i: int| merkle_node(s, i))
}

/// The merkle root of `leaves`; absent when there are none.
pub open spec fn merkle_root(leaves: Seq<Seq<u8>>) -> Option<Seq<u8>>
    decreases leaves.len(),
{
    if leaves.len() == 0 {
        None
    } else if leaves.len() == 1 {
        Some(leaves[0])
    } else {
        merkle_root(merkle_level(leaves))
    }
}

/// The values of a list of digests.
pub open spec fn digests_view(s: Seq<Digest>) -> Seq<Seq<u8>> {
    s.map_values(|d: Digest| d@)
}

/// Appends `a` then `b`.
fn concat(a: &Digest, b: &Digest) -> (r: Vec<u8>)
    ensures
        r@ == a@ + b@,
{
    let mut out: Vec<u8> = Vec::new();
    push_all(&mut out, a.bytes.as_slice());
    push_all(&mut out, b.bytes.as_slice());
    out
}

/// The level above `level` in the merkle tree.
fn next_level(level: &Vec<Digest>) -> (r: Vec<Digest>)
    ensures
        digests_view(r@) == merkle_level(digests_view(level@)),
{
    let ghost s = digests_view(level@);
    let n = level.len();
    let half = n / 2 + n % 2;
    let mut out: Vec<Digest> = Vec::new();
    let mut i: usize = 0;
    while i < half
        invariant
            n == level@.len(),
            s == digests_view(level@),
            half == (n + 1) / 2,
            i <= half,
            out@.len() == i,
            forall|j: int| 0 <= j < i ==> out@[j]@ == merkle_node(s, j),
        decreases half - i,
    {
        let left = &level[2 * i];
        let node = if 2 * i + 1 < n {
            hash_bytes(concat(left, &level[2 * i + 1]).as_slice())
        } else {
            hash_bytes(concat(left, left).as_slice())
        };
        out.push(node);
        i += 1;
    }
    assert(digests_view(out@) =~= merkle_level(s));
    out
}

/// The merkle root of `leaves`; absent when there are none.
pub fn merkle_root_of(leaves: Vec<Digest>) -> (r: Option<Digest>)
    ensures
        opt_hash_view(r) == merkle_root(digests_view(leaves@)),
{
    if leaves.len() == 0 {
        return None;
    }
    let mut level = leaves;
    while level.len() > 1
        invariant
            level@.len() >= 1,
            merkle_root(digests_view(level@)) == merkle_root(digests_view(leaves@)),
        decreases level@.len(),
    {
        level = next_level(&level);
    }
    assert(digests_view(level@)[0] == level@[0]@);
    Some(level[0].clone())
}

/// Appends the encoding of a block header.
fn put_header(out: &mut Vec<u8>, h: &BlockHeader)
    ensures
        final(out)@ == old(out)@ + enc_header(*h),
{
    put_u64(out, h.height);
    put_opt_hash(out, &h.previous_block_hash);
    put_opt_hash(out, &h.transactions_hash);
    put_u64(out, h.timestamp_ms);
    put_u64(out, h.view_change_index);
    put_u64(out, h.consensus_estimation_ms);
    assert(out@ =~= old(out)@ + enc_header(*h));
}

/// Appends the encoding of a list of peer identities.
fn put_peers(out: &mut Vec<u8>, peers: &Vec<PeerId>)
    requires
        peers@.len() <= u32::MAX,
        forall|i: int| 0 <= i < peers@.len() ==> peer_encodable(peers@[i]),
    ensures
        final(out)@ == old(out)@ + compact_of(peers@.len() as u32) + enc_peers(peers@),
{
    let prefix = encode_compact(peers.len() as u32);
    push_all(out, prefix.as_slice());
    let ghost start = out@;
    let mut i: usize = 0;
    while i < peers.len()
        invariant
            i <= peers@.len(),
            forall|j: int| 0 <= j < peers@.len() ==> peer_encodable(peers@[j]),
            out@ == start + enc_peers(peers@.subrange(0, i as int)),
        decreases peers@.len() - i,
    {
        assert(peers@.subrange(0, i + 1).drop_last() =~= peers@.subrange(0, i as int));
        let p = &peers[i];
        put_text(out, &p.address);
        put_opt_bytes(out, &p.public_key);
        i += 1;
        assert(out@ =~= start + enc_peers(peers@.subrange(0, i as int)));
    }
    assert(peers@.subrange(0, peers@.len() as int) =~= peers@);
    assert(out@ =~= old(out)@ + compact_of(peers@.len() as u32) + enc_peers(peers@));
}

/// Appends the encoding of a signed transaction.
fn put_tx(out: &mut Vec<u8>, t: &Transaction)
    requires
        tx_encodable(*t),
    ensures
        final(out)@ == old(out)@ + enc_tx(*t),
{
    let p = &t.payload;
    put_text(out, &p.account_id.name);
    put_text(out, &p.account_id.domain_name);
    put_bytes_list(out, &p.instructions);
    put_u64(out, p.creation_time);
    put_u64(out, p.time_to_live_ms);
    let ghost mid = out@;
    assert(mid =~= old(out)@ + enc_payload(*p));
    let prefix = encode_compact(t.signatures.len() as u32);
    push_all(out, prefix.as_slice());
    let ghost start = out@;
    let mut i: usize = 0;
    while i < t.signatures.len()
        invariant
            i <= t.signatures@.len(),
            tx_encodable(*t),
            out@ == start + enc_tx_sigs(t.signatures@.subrange(0, i as int)),
        decreases t.signatures@.len() - i,
    {
        assert(t.signatures@.subrange(0, i + 1).drop_last() =~= t.signatures@.subrange(0, i as int));
        let s = &t.signatures[i];
        put_bytes(out, s.public_key.as_slice());
        put_bytes(out, s.signature.as_slice());
        i += 1;
        assert(out@ =~= start + enc_tx_sigs(t.signatures@.subrange(0, i as int)));
    }
    assert(t.signatures@.subrange(0, t.signatures@.len() as int) =~= t.signatures@);
    assert(out@ =~= old(out)@ + enc_tx(*t));
}

/// Appends the encoding of a list of signed transactions.
fn put_txs(out: &mut Vec<u8>, txs: &Vec<Transaction>)
    requires
        txs@.len() <= u32::MAX,
        forall|i: int| 0 <= i < txs@.len() ==> tx_encodable(txs@[i]),
    ensures
        final(out)@ == old(out)@ + compact_of(txs@.len() as u32) + enc_txs(txs@),
{
    let prefix = encode_compact(txs.len() as u32);
    push_all(out, prefix.as_slice());
    let ghost start = out@;
    let mut i: usize = 0;
    while i < txs.len()
        invariant
            i <= txs@.len(),
            forall|j: int| 0 <= j < txs@.len() ==> tx_encodable(txs@[j]),
            out@ == start + enc_txs(txs@.subrange(0, i as int)),
        decreases txs@.len() - i,
    {
        assert(txs@.subrange(0, i + 1).drop_last() =~= txs@.subrange(0, i as int));
        put_tx(out, &txs[i]);
        i += 1;
        assert(out@ =~= start + enc_txs(txs@.subrange(0, i as int)));
    }
    assert(txs@.subrange(0, txs@.len() as int) =~= txs@);
    assert(out@ =~= old(out)@ + compact_of(txs@.len() as u32) + enc_txs(txs@));
}

/// Appends the encoding of a block payload.
fn put_block_payload(out: &mut Vec<u8>, p: &BlockPayload)
    requires
        block_payload_encodable(*p),
    ensures
        final(out)@ == old(out)@ + enc_block_payload(*p),
{
    put_header(out, &p.header);
    put_peers(out, &p.commit_topology);
    put_txs(out, &p.transactions);
    put_bytes_list(out, &p.event_recommendations);
    assert(out@ =~= old(out)@ + enc_block_payload(*p));
}

/// The encoding of a block payload.
fn encode_block_payload(p: &BlockPayload) -> (r: Vec<u8>)
    requires
        block_payload_encodable(*p),
    ensures
        r@ == enc_block_payload(*p),
{
    let mut out: Vec<u8> = Vec::new();
    put_block_payload(&mut out, p);
    assert(out@ =~= enc_block_payload(*p));
    out
}

/// The encoding of a signed block.
fn encode_signed_block(b: &SignedBlockV1) -> (r: Vec<u8>)
    requires
        block_encodable(*b),
    ensures
        r@ == enc_signed_block(*b),
{
    let mut out: Vec<u8> = Vec::new();
    out.push(1u8);
    let prefix = encode_compact(b.signatures.len() as u32);
    push_all(&mut out, prefix.as_slice());
    let ghost start = out@;
    let mut i: usize = 0;
    while i < b.signatures.len()
        invariant
            i <= b.signatures@.len(),
            block_encodable(*b),
            out@ == start + enc_block_sigs(b.signatures@.subrange(0, i as int)),
        decreases b.signatures@.len() - i,
    {
        assert(b.signatures@.subrange(0, i + 1).drop_last() =~= b.signatures@.subrange(0, i as int));
        let s = &b.signatures[i];
        put_u64(&mut out, s.0);
        put_bytes(&mut out, s.1.as_slice());
        i += 1;
        assert(out@ =~= start + enc_block_sigs(b.signatures@.subrange(0, i as int)));
    }
    assert(b.signatures@.subrange(0, b.signatures@.len() as int) =~= b.signatures@);
    put_block_payload(&mut out, &b.payload);
    assert(out@ =~= enc_signed_block(*b));
    out
}

/// Why a decoded block candidate was refused.
#[derive(Clone, Copy, Debug, PartialEq, Eq, Structural)]
pub enum CandidateError {
    /// The block holds no transaction.
    EmptyBlock,
    /// The header's transactions hash is not the merkle root of the transactions.
    TransactionsHashIncorrect,
}

impl CandidateError {
    /// A description of the error.
    pub fn message(&self) -> (r: &'static str)
        ensures
            *self == CandidateError::EmptyBlock ==> r@ == "Block is empty"@,
            *self == CandidateError::TransactionsHashIncorrect ==> r@ == "Transactions' hash incorrect"@,
    {
        match self {
            CandidateError::EmptyBlock => "Block is empty",
            CandidateError::TransactionsHashIncorrect => "Transactions' hash incorrect",
        }
    }
}

/// Whether a decoded payload may stand in a block: it has transactions, and the
/// header's transactions hash is their merkle root.
pub open spec fn candidate_valid(p: BlockPayload) -> bool {
    p.transactions@.len() > 0 && merkle_root(tx_leaves(p.transactions@)) == opt_hash_view(p.header.transactions_hash)
}

/// A block as decoded from the wire, before its structure is checked.
pub struct SignedBlockCandidate {
    pub signatures: Vec<BlockSignature>,
    pub payload: BlockPayload,
}

/// The hashes of `txs`, in order.
fn transaction_hashes(txs: &Vec<Transaction>) -> (r: Vec<Digest>)
    requires
        forall|i: int| 0 <= i < txs@.len() ==> tx_encodable(txs@[i]),
    ensures
        digests_view(r@) == tx_leaves(txs@),
{
    let mut out: Vec<Digest> = Vec::new();
    let mut i: usize = 0;
    while i < txs.len()
        invariant
            i <= txs@.len(),
            forall|j: int| 0 <= j < txs@.len() ==> tx_encodable(txs@[j]),
            out@.len() == i,
            forall|j: int| 0 <= j < i ==> out@[j]@ == payload_hash(txs@[j].payload),
        decreases txs@.len() - i,
    {
        out.push(txs[i].hash());
        i += 1;
    }
    assert(digests_view(out@) =~= tx_leaves(txs@));
    out
}

impl SignedBlockCandidate {
    /// Checks that the header's transactions hash is the merkle root of the
    /// transactions' hashes.
    fn validate_header(&self) -> (r: Result<(), CandidateError>)
        requires
            block_payload_encodable(self.payload),
        ensures
            r is Ok <==> merkle_root(tx_leaves(self.payload.transactions@)) == opt_hash_view(self.payload.header.transactions_hash),
            r is Err ==> r == Err::<(), CandidateError>(CandidateError::TransactionsHashIncorrect),
    {
        let actual = &self.payload.header.transactions_hash;
        let expected = merkle_root_of(transaction_hashes(&self.payload.transactions));
        if !crate::codec::same_hash(&expected, actual) {
            return Err(CandidateError::TransactionsHashIncorrect);
        }
        Ok(())
    }

    /// Turns the candidate into a block: refused when it has no transaction,
    /// then when the header's transactions hash is not their merkle root.
    /// Signatures are not checked here.
    pub fn validate(self) -> (r: Result<SignedBlockV1, CandidateError>)
        requires
            block_payload_encodable(self.payload),
        ensures
            self.payload.transactions@.len() == 0 ==> r == Err::<SignedBlockV1, CandidateError>(CandidateError::EmptyBlock),
            self.payload.transactions@.len() > 0 && !candidate_valid(self.payload)
                ==> r == Err::<SignedBlockV1, CandidateError>(CandidateError::TransactionsHashIncorrect),
            r is Ok <==> candidate_valid(self.payload),
            r matches Ok(b) ==> b.payload == self.payload && b.signatures == self.signatures,
    {
        if self.payload.transactions.len() == 0 {
            return Err(CandidateError::EmptyBlock);
        }
        self.validate_header()?;
        Ok(SignedBlockV1 { payload: self.payload, signatures: self.signatures })
    }
}

impl SignedBlock {
    /// The block inside the envelope.
    pub open spec fn v1(&self) -> SignedBlockV1 {
        match self {
            SignedBlock::V1(b) => *b,
        }
    }

    /// A block from a decoded candidate, refused as [`SignedBlockCandidate::validate`] refuses.
    pub fn from_candidate(candidate: SignedBlockCandidate) -> (r: Result<SignedBlock, CandidateError>)
        requires
            block_payload_encodable(candidate.payload),
        ensures
            candidate.payload.transactions@.len() == 0 ==> r == Err::<SignedBlock, CandidateError>(CandidateError::EmptyBlock),
            candidate.payload.transactions@.len() > 0 && !candidate_valid(candidate.payload)
                ==> r == Err::<SignedBlock, CandidateError>(CandidateError::TransactionsHashIncorrect),
            r is Ok <==> candidate_valid(candidate.payload),
            r matches Ok(b) ==> b.v1().payload == candidate.payload && b.v1().signatures == candidate.signatures,
    {
        match candidate.validate() {
            Ok(b) => Ok(SignedBlock::V1(b)),
            Err(e) => Err(e),
        }
    }

    /// Header of the block.
    pub fn header(&self) -> (r: &BlockHeader)
        ensures
            *r == self.v1().payload.header,
    {
        let SignedBlock::V1(block) = self;
        &block.payload.header
    }

    /// Transactions of the block.
    pub fn transactions(&self) -> (r: &Vec<Transaction>)
        ensures
            *r == self.v1().payload.transactions,
    {
        let SignedBlock::V1(block) = self;
        &block.payload.transactions
    }

    /// Topology of the network when the block was committed.
    pub fn commit_topology(&self) -> (r: &Vec<PeerId>)
        ensures
            *r == self.v1().payload.commit_topology,
    {
        let SignedBlock::V1(block) = self;
        &block.payload.commit_topology
    }

    /// Signatures of the peers that approved the block.
    pub fn signatures(&self) -> (r: &Vec<BlockSignature>)
        ensures
            *r == self.v1().signatures,
    {
        let SignedBlock::V1(block) = self;
        &block.signatures
    }

    /// Hash of the whole block, signatures included.
    pub fn hash(&self) -> (r: Digest)
        requires
            block_encodable(self.v1()),
        ensures
            r@ == blake2b_of(enc_signed_block(self.v1())),
    {
        let SignedBlock::V1(block) = self;
        hash_bytes(encode_signed_block(block).as_slice())
    }

    /// Hash of the payload, which is what peers sign; adding signatures does
    /// not change it.
    pub fn hash_of_payload(&self) -> (r: Digest)
        requires
            block_payload_encodable(self.v1().payload),
        ensures
            r@ == blake2b_of(enc_block_payload(self.v1().payload)),
    {
        let SignedBlock::V1(block) = self;
        hash_bytes(encode_block_payload(&block.payload).as_slice())
    }

    /// Adds the signature of the payload hash by `private_key`, as the peer at
    /// `node_pos`; `None` when the key is not an Ed25519 key pair.
    pub fn sign(self, private_key: &Vec<u8>, node_pos: usize) -> (r: Option<SignedBlock>)
        requires
            block_payload_encodable(self.v1().payload),
        ensures
            r is Some <==> ed25519_sign_of(private_key@, blake2b_of(enc_block_payload(self.v1().payload))) is Some,
            r matches Some(b) ==> b.v1().payload == self.v1().payload
                && b.v1().signatures@.len() == self.v1().signatures@.len() + 1
                && b.v1().signatures@.subrange(0, self.v1().signatures@.len() as int) == self.v1().signatures@
                && b.v1().signatures@.last().0 == node_pos
                && b.v1().signatures@.last().1@ == ed25519_sign_of(private_key@, blake2b_of(enc_block_payload(self.v1().payload)))->0,
    {
        let h = self.hash_of_payload();
        let SignedBlock::V1(mut block) = self;
        match ed25519_sign(private_key, h.bytes.as_slice()) {
            Some(signature) => {
                let ghost before = block.signatures@;
                block.signatures.push(BlockSignature(node_pos as u64, signature));
                assert(block.signatures@.subrange(0, before.len() as int) =~= before);
                Some(SignedBlock::V1(block))
            },
            None => None,
        }
    }
}

/// Request to stream blocks from a given height on.
pub struct BlockSubscriptionRequest(pub u64);

impl BlockSubscriptionRequest {
    /// A request from `height` on; heights start at one, so zero is refused.
    pub fn new(height: u64) -> (r: Option<BlockSubscriptionRequest>)
        ensures
            r is Some <==> height != 0,
            r matches Some(q) ==> q.0 == height,
    {
        if height == 0 {
            None
        } else {
            Some(BlockSubscriptionRequest(height))
        }
    }
}

/// A block sent to a stream subscriber.
pub struct BlockMessage(pub SignedBlock);

impl From<BlockMessage> for SignedBlock {
    fn from(source: BlockMessage) -> SignedBlock {
        source.0
    }
}

impl vstd::std_specs::convert::FromSpecImpl<BlockMessage> for SignedBlock {
    open spec fn obeys_from_spec() -> bool {
        true
    }

    open spec fn from_spec(source: BlockMessage) -> SignedBlock {
        source.0
    }
}

/// Why a block was rejected.
#[derive(Clone, Copy, Debug, PartialEq, Eq, Structural)]
pub enum BlockRejectionReason {
    /// The block did not reach the commit quorum.
    ConsensusBlockRejection,
}

impl BlockRejectionReason {
    /// A description of the reason.
    pub fn message(&self) -> (r: &'static str)
        ensures
            r@ == "Block was rejected during consensus"@,
    {
        match self {
            BlockRejectionReason::ConsensusBlockRejection => "Block was rejected during consensus",
        }
    }
}

} // verus!
