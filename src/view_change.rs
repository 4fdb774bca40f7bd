//! View-change proofs: a payload naming the chain tip and the view-change
//! index, co-signed by peers, and the chain of such proofs kept for one height.
use vstd::prelude::*;
use crate::codec::{clone_opt_hash, enc_opt_hash, enc_u64, opt_hash_view, put_opt_hash, put_u64, same_hash};
use crate::crypto::{blake2b_of, ed25519_sign, ed25519_sign_of, ed25519_valid, ed25519_verify, hash_bytes, Digest};
use crate::topology::Topology;

verus! {

/// Why a proof could not be taken into a proof chain.
#[derive(Clone, Copy, Debug, PartialEq, Eq, Structural)]
pub enum Error {
    /// The proof refers to another chain tip than the local one.
    BlockHashMismatch,
    /// The proof is not for the view change that is currently being decided.
    ViewChangeNotFound,
}

/// What the peers of a view-change proof sign.
pub struct ProofPayload {
    /// Hash of the latest committed block.
    pub latest_block_hash: Option<Digest>,
    /// Index, within the current height, of the view change this proof is for.
    pub view_change_index: u64,
}

/// Mathematical value of a [`ProofPayload`].
pub struct ProofPayloadView {
    pub latest_block_hash: Option<Seq<u8>>,
    pub view_change_index: u64,
}

impl View for ProofPayload {
    type V = ProofPayloadView;

    open spec fn view(&self) -> ProofPayloadView {
        ProofPayloadView {
            latest_block_hash: opt_hash_view(self.latest_block_hash),
            view_change_index: self.view_change_index,
        }
    }
}

/// A signature of a proof payload by the peer at a topology position.
pub type ProofSignature = (u64, Vec<u8>);

/// A proof of a view change, with the signatures gathered so far.
pub struct SignedProof {
    /// Signatures of the payload, each with the position of its signer.
    pub signatures: Vec<ProofSignature>,
    /// The signed statement.
    pub payload: ProofPayload,
}

/// Mathematical value of a [`SignedProof`].
pub struct SignedProofView {
    pub payload: ProofPayloadView,
    pub signatures: Seq<(u64, Seq<u8>)>,
}

/// The values of a list of signatures.
pub open spec fn sigs_view(s: Seq<ProofSignature>) -> Seq<(u64, Seq<u8>)> {
    s.map_values(|p: ProofSignature| (p.0, p.1@))
}

impl View for SignedProof {
    type V = SignedProofView;

    open spec fn view(&self) -> SignedProofView {
        SignedProofView { payload: self.payload@, signatures: sigs_view(self.signatures@) }
    }
}

/// Canonical encoding of a proof payload.
pub open spec fn enc_proof_payload(p: ProofPayloadView) -> Seq<u8> {
    enc_opt_hash(p.latest_block_hash) + enc_u64(p.view_change_index)
}

/// The bytes that a peer signs for a payload: the digest of its encoding.
pub open spec fn payload_message(p: ProofPayloadView) -> Seq<u8> {
    blake2b_of(enc_proof_payload(p))
}

/// Whether a signature is valid for `msg`: its position is in the topology, the
/// peer there has a key, and the signature verifies under that key.
pub open spec fn sig_ok(topology: Topology, msg: Seq<u8>, s: (u64, Seq<u8>)) -> bool {
    &&& topology.key_at(s.0 as int) is Some
    &&& ed25519_valid(topology.key_at(s.0 as int)->0, msg, s.1)
}

/// The distinct positions that carry at least one valid signature.
pub open spec fn valid_positions(topology: Topology, msg: Seq<u8>, sigs: Seq<(u64, Seq<u8>)>) -> Set<u64>
    decreases sigs.len(),
{
    if sigs.len() == 0 {
        Set::empty()
    } else {
        let rest = valid_positions(topology, msg, sigs.drop_last());
        if sig_ok(topology, msg, sigs.last()) {
            rest.insert(sigs.last().0)
        } else {
            rest
        }
    }
}

/// The valid signatures among `sigs`, in their order.
pub open spec fn accepted_sigs(topology: Topology, msg: Seq<u8>, sigs: Seq<(u64, Seq<u8>)>) -> Seq<(u64, Seq<u8>)>
    decreases sigs.len(),
{
    if sigs.len() == 0 {
        Seq::empty()
    } else {
        let rest = accepted_sigs(topology, msg, sigs.drop_last());
        if sig_ok(topology, msg, sigs.last()) {
            rest.push(sigs.last())
        } else {
            rest
        }
    }
}

/// Whether a proof carries valid signatures from at least `f + 1` distinct positions.
pub open spec fn proof_valid(p: SignedProofView, topology: Topology) -> bool {
    valid_positions(topology, payload_message(p.payload), p.signatures).len() >= topology.faults() + 1
}

/// `p` with the valid signatures among `sigs` appended.
pub open spec fn with_merged(p: SignedProofView, sigs: Seq<(u64, Seq<u8>)>, topology: Topology) -> SignedProofView {
    SignedProofView {
        payload: p.payload,
        signatures: p.signatures + accepted_sigs(topology, payload_message(p.payload), sigs),
    }
}

/// Whether a proof stands at slot `i` of a chain on tip `h`: it names `h` and index `i`.
pub open spec fn linked(p: SignedProofView, i: int, h: Option<Seq<u8>>) -> bool {
    p.payload.latest_block_hash == h && p.payload.view_change_index == i
}

/// Whether a proof at slot `i` of a chain on tip `h` counts: it is linked and valid.
pub open spec fn entry_ok(p: SignedProofView, i: int, topology: Topology, h: Option<Seq<u8>>) -> bool {
    linked(p, i, h) && proof_valid(p, topology)
}

/// Length of the longest run of counting proofs that starts at slot `i`, plus `i`.
pub open spec fn verified_from(chain: Seq<SignedProofView>, topology: Topology, h: Option<Seq<u8>>, i: nat) -> nat
    decreases chain.len() - i,
{
    if i < chain.len() && entry_ok(chain[i as int], i as int, topology, h) {
        verified_from(chain, topology, h, i + 1)
    } else {
        i
    }
}

/// Length of the longest prefix of counting proofs.
pub open spec fn verified_len(chain: Seq<SignedProofView>, topology: Topology, h: Option<Seq<u8>>) -> nat {
    verified_from(chain, topology, h, 0)
}

/// Length of the longest run of linked proofs that starts at slot `i`, plus `i`.
pub open spec fn linked_from(chain: Seq<SignedProofView>, h: Option<Seq<u8>>, i: nat) -> nat
    decreases chain.len() - i,
{
    if i < chain.len() && linked(chain[i as int], i as int, h) {
        linked_from(chain, h, i + 1)
    } else {
        i
    }
}

/// Length of the longest prefix of linked proofs.
pub open spec fn linked_len(chain: Seq<SignedProofView>, h: Option<Seq<u8>>) -> nat {
    linked_from(chain, h, 0)
}

/// `chain` cut down to its longest prefix of linked proofs.
pub open spec fn pruned(chain: Seq<SignedProofView>, h: Option<Seq<u8>>) -> Seq<SignedProofView> {
    chain.subrange(0, linked_len(chain, h) as int)
}

/// What inserting `p` does to `chain`, when it is accepted.
pub open spec fn inserted(chain: Seq<SignedProofView>, p: SignedProofView, topology: Topology, h: Option<Seq<u8>>) -> Seq<SignedProofView> {
    let k = verified_len(chain, topology, h) as int;
    if p.payload.latest_block_hash != h || p.payload.view_change_index != k {
        chain
    } else if k < chain.len() {
        chain.update(k, with_merged(chain[k], p.signatures, topology))
    } else {
        chain.push(p)
    }
}

/// What merging `other` into `chain` does, when it is accepted.
pub open spec fn merged(chain: Seq<SignedProofView>, other: Seq<SignedProofView>, topology: Topology, h: Option<Seq<u8>>) -> Seq<SignedProofView> {
    let o = pruned(other, h);
    let k = verified_len(chain, topology, h) as int;
    if o.len() == 0 {
        chain
    } else if k < chain.len() && k < o.len() {
        chain.update(k, with_merged(chain[k], o[k].signatures, topology))
    } else if k >= chain.len() && k < o.len() {
        chain.push(o[k])
    } else {
        chain
    }
}

/// The outcome of merging `other` into `chain`.
pub open spec fn merge_outcome(chain: Seq<SignedProofView>, other: Seq<SignedProofView>, topology: Topology, h: Option<Seq<u8>>) -> Result<(), Error> {
    let o = pruned(other, h);
    let k = verified_len(chain, topology, h) as int;
    if o.len() == 0 {
        Err(Error::BlockHashMismatch)
    } else if k < chain.len() && k >= o.len() {
        Err(Error::ViewChangeNotFound)
    } else {
        Ok(())
    }
}

/// The outcome of inserting `p` into `chain`.
pub open spec fn insert_outcome(chain: Seq<SignedProofView>, p: SignedProofView, topology: Topology, h: Option<Seq<u8>>) -> Result<(), Error> {
    if p.payload.latest_block_hash != h {
        Err(Error::BlockHashMismatch)
    } else if p.payload.view_change_index != verified_len(chain, topology, h) {
        Err(Error::ViewChangeNotFound)
    } else {
        Ok(())
    }
}

impl ProofPayload {
    /// The bytes that peers sign for this payload.
    pub fn message(&self) -> (r: Vec<u8>)
        ensures
            r@ == payload_message(self@),
    {
        let mut out: Vec<u8> = Vec::new();
        put_opt_hash(&mut out, &self.latest_block_hash);
        put_u64(&mut out, self.view_change_index);
        assert(out@ =~= enc_proof_payload(self@));
        hash_bytes(out.as_slice()).bytes
    }
}

/// Builder of a view-change proof.
pub struct ProofBuilder(SignedProof);

impl View for ProofBuilder {
    type V = SignedProofView;

    closed spec fn view(&self) -> SignedProofView {
        self.0@
    }
}

impl ProofBuilder {
    /// A proof for the given chain tip and view-change index, with no signature yet.
    pub fn new(latest_block_hash: Option<Digest>, view_change_index: u64) -> (r: Self)
        ensures
            r@.payload.latest_block_hash == opt_hash_view(latest_block_hash),
            r@.payload.view_change_index == view_change_index,
            r@.signatures.len() == 0,
    {
        let proof = SignedProof {
            payload: ProofPayload { latest_block_hash, view_change_index },
            signatures: Vec::new(),
        };
        assert(proof@.signatures =~= Seq::empty());
        ProofBuilder(proof)
    }

    /// Signs the proof with `private_key` as the peer at `node_pos`; `None` when the
    /// key is not an Ed25519 key pair.
    pub fn sign(self, node_pos: u64, private_key: &Vec<u8>) -> (r: Option<SignedProof>)
        ensures
            r is Some <==> ed25519_sign_of(private_key@, payload_message(self@.payload)) is Some,
            r is Some ==> r->0@ == (SignedProofView {
                payload: self@.payload,
                signatures: self@.signatures.push(
                    (node_pos, ed25519_sign_of(private_key@, payload_message(self@.payload))->0),
                ),
            }),
    {
        let mut proof = self.0;
        let msg = proof.payload.message();
        match ed25519_sign(private_key, msg.as_slice()) {
            Some(signature) => {
                let ghost before = proof.signatures@;
                proof.signatures.push((node_pos, signature));
                assert(sigs_view(proof.signatures@) =~= sigs_view(before).push((node_pos, signature@)));
                Some(proof)
            },
            None => None,
        }
    }
}

/// Whether `pos` is among `seen`.
fn contains_pos(seen: &Vec<u64>, pos: u64) -> (r: bool)
    ensures
        r == seen@.contains(pos),
{
    let mut i: usize = 0;
    while i < seen.len()
        invariant
            i <= seen@.len(),
            forall|j: int| 0 <= j < i ==> seen@[j] != pos,
        decreases seen@.len() - i,
    {
        if seen[i] == pos {
            return true;
        }
        i += 1;
    }
    false
}

/// Whether the signature `sig` by position `pos` is valid for `msg`.
fn check_signature(topology: &Topology, msg: &Vec<u8>, pos: u64, sig: &Vec<u8>) -> (r: bool)
    ensures
        r == sig_ok(*topology, msg@, (pos, sig@)),
{
    match topology.public_key_at(pos) {
        Some(pk) => ed25519_verify(pk, msg.as_slice(), sig),
        None => false,
    }
}

impl SignedProof {
    /// Verifies the signatures of `other` against this proof's payload and
    /// appends those that are valid, in order.
    pub fn merge_signatures(&mut self, other: Vec<ProofSignature>, topology: &Topology)
        ensures
            final(self)@ == with_merged(old(self)@, sigs_view(other@), *topology),
    {
        let msg = self.payload.message();
        let ghost m = payload_message(self@.payload);
        let mut i: usize = 0;
        while i < other.len()
            invariant
                i <= other@.len(),
                msg@ == m,
                m == payload_message(old(self)@.payload),
                self@.payload == old(self)@.payload,
                self@.signatures == old(self)@.signatures + accepted_sigs(*topology, m, sigs_view(other@).subrange(0, i as int)),
            decreases other@.len() - i,
        {
            let ghost pre = sigs_view(other@).subrange(0, i as int);
            let ghost next = sigs_view(other@).subrange(0, i + 1);
            assert(next.drop_last() =~= pre);
            let pos = other[i].0;
            let sig = &other[i].1;
            if check_signature(topology, &msg, pos, sig) {
                let ghost before = self.signatures@;
                self.signatures.push((pos, sig.clone()));
                assert(sigs_view(self.signatures@) =~= sigs_view(before).push((pos, sig@)));
            }
            i += 1;
        }
        assert(sigs_view(other@).subrange(0, other@.len() as int) =~= sigs_view(other@));
    }

    /// Whether at least `f + 1` distinct positions of `topology` signed this
    /// proof validly; each position counts once however often it signed.
    pub fn verify(&self, topology: &Topology) -> (r: bool)
        ensures
            r == proof_valid(self@, *topology),
    {
        let msg = self.payload.message();
        let ghost m = msg@;
        let ghost sigs = sigs_view(self.signatures@);
        let mut seen: Vec<u64> = Vec::new();
        let mut i: usize = 0;
        while i < self.signatures.len()
            invariant
                i <= self.signatures@.len(),
                msg@ == m,
                sigs == sigs_view(self.signatures@),
                seen@.no_duplicates(),
                seen@.len() <= i,
                forall|p: u64| seen@.contains(p) <==> valid_positions(*topology, m, sigs.subrange(0, i as int)).contains(p),
            decreases self.signatures@.len() - i,
        {
            let ghost pre = sigs.subrange(0, i as int);
            let ghost next = sigs.subrange(0, i + 1);
            let ghost old_seen = seen@;
            assert(next.drop_last() =~= pre);
            let pos = self.signatures[i].0;
            assert(next.last() == (pos, self.signatures@[i as int].1@));
            assert(valid_positions(*topology, m, next) == if sig_ok(*topology, m, next.last()) {
                valid_positions(*topology, m, pre).insert(pos)
            } else {
                valid_positions(*topology, m, pre)
            });
            let already = contains_pos(&seen, pos);
            if !already {
                let ok = check_signature(topology, &msg, pos, &self.signatures[i].1);
                if ok {
                    seen.push(pos);
                    proof {
                        assert(seen@ == old_seen.push(pos));
                        assert forall|a: int, b: int| 0 <= a < b < seen@.len() implies seen@[a] != seen@[b] by {
                            if b == old_seen.len() {
                                assert(old_seen.contains(old_seen[a]));
                            }
                        }
                        assert forall|p: u64| seen@.contains(p) <==> valid_positions(*topology, m, next).contains(p) by {
                            if seen@.contains(p) && p != pos {
                                let j = choose|j: int| 0 <= j < seen@.len() && seen@[j] == p;
                                assert(old_seen[j] == p);
                            }
                            if old_seen.contains(p) {
                                let j = choose|j: int| 0 <= j < old_seen.len() && old_seen[j] == p;
                                assert(seen@[j] == p);
                            }
                            assert(seen@[old_seen.len() as int] == pos);
                        }
                    }
                }
            } else {
                proof {
                    assert(valid_positions(*topology, m, pre).insert(pos) =~= valid_positions(*topology, m, pre));
                }
            }
            i += 1;
        }
        assert(sigs.subrange(0, self.signatures@.len() as int) =~= sigs);
        assert(seen@.to_set() =~= valid_positions(*topology, m, sigs));
        proof {
            seen@.unique_seq_to_set();
        }
        let f = topology.max_faults();
        let n = topology.len();
        assert(f <= usize::MAX / 3) by {
            assert(n <= usize::MAX);
        }
        seen.len() >= f + 1
    }
}

/// The view-change proofs of one block height, in view-change order.
pub struct ProofChain(pub Vec<SignedProof>);

impl View for ProofChain {
    type V = Seq<SignedProofView>;

    open spec fn view(&self) -> Seq<SignedProofView> {
        self.0@.map_values(|p: SignedProof| p@)
    }
}

impl Default for ProofChain {
    fn default() -> (r: Self)
        ensures
            r@.len() == 0,
    {
        ProofChain::new()
    }
}

impl ProofChain {
    /// An empty chain.
    pub fn new() -> (r: ProofChain)
        ensures
            r@.len() == 0,
    {
        let r = ProofChain(Vec::new());
        assert(r@ =~= Seq::empty());
        r
    }

    /// Number of proofs held, counting or not.
    pub fn len(&self) -> (r: usize)
        ensures
            r == self@.len(),
    {
        self.0.len()
    }

    /// Whether the proof at slot `i` counts on tip `latest_block_hash`.
    fn entry_holds(&self, i: usize, topology: &Topology, latest_block_hash: &Option<Digest>) -> (r: bool)
        requires
            i < self@.len(),
        ensures
            r == entry_ok(self@[i as int], i as int, *topology, opt_hash_view(*latest_block_hash)),
    {
        let p = &self.0[i];
        same_hash(&p.payload.latest_block_hash, latest_block_hash) && p.payload.view_change_index == i as u64
            && p.verify(topology)
    }

    /// Whether the proof at slot `i` is linked to tip `latest_block_hash`.
    fn entry_linked(&self, i: usize, latest_block_hash: &Option<Digest>) -> (r: bool)
        requires
            i < self@.len(),
        ensures
            r == linked(self@[i as int], i as int, opt_hash_view(*latest_block_hash)),
    {
        let p = &self.0[i];
        same_hash(&p.payload.latest_block_hash, latest_block_hash) && p.payload.view_change_index == i as u64
    }

    /// Number of view changes agreed on: the length of the longest prefix whose
    /// proofs name `latest_block_hash`, carry their own slot as index, and are
    /// signed by a quorum of `topology`.
    pub fn verify_with_state(&self, topology: &Topology, latest_block_hash: Option<Digest>) -> (r: usize)
        ensures
            r == verified_len(self@, *topology, opt_hash_view(latest_block_hash)),
    {
        let ghost h = opt_hash_view(latest_block_hash);
        let mut i: usize = 0;
        let mut stopped = false;
        while !stopped && i < self.0.len()
            invariant
                i <= self@.len(),
                h == opt_hash_view(latest_block_hash),
                verified_len(self@, *topology, h) == verified_from(self@, *topology, h, i as nat),
                stopped ==> verified_from(self@, *topology, h, i as nat) == i,
            decreases self@.len() - i + (if stopped { 0int } else { 1int }),
        {
            if self.entry_holds(i, topology, &latest_block_hash) {
                i += 1;
            } else {
                stopped = true;
            }
        }
        i
    }

    /// Drops every proof after the longest prefix whose proofs name
    /// `latest_block_hash` and carry their own slot as index; signatures are not
    /// checked.
    pub fn prune(&mut self, latest_block_hash: Option<Digest>)
        ensures
            final(self)@ == pruned(old(self)@, opt_hash_view(latest_block_hash)),
    {
        let ghost h = opt_hash_view(latest_block_hash);
        let mut i: usize = 0;
        let mut stopped = false;
        while !stopped && i < self.0.len()
            invariant
                i <= self@.len(),
                self@ == old(self)@,
                h == opt_hash_view(latest_block_hash),
                linked_len(self@, h) == linked_from(self@, h, i as nat),
                stopped ==> linked_from(self@, h, i as nat) == i,
            decreases self@.len() - i + (if stopped { 0int } else { 1int }),
        {
            if self.entry_linked(i, &latest_block_hash) {
                i += 1;
            } else {
                stopped = true;
            }
        }
        let ghost before = self.0@;
        self.0.truncate(i);
        assert(self@ =~= pruned(old(self)@, h));
    }

    /// Takes `new_proof` into the chain: its signatures are merged into the first
    /// proof that does not count yet, or it is appended when all proofs count.
    pub fn insert_proof(&mut self, new_proof: SignedProof, topology: &Topology, latest_block_hash: Option<Digest>) -> (r: Result<(), Error>)
        ensures
            r == insert_outcome(old(self)@, new_proof@, *topology, opt_hash_view(latest_block_hash)),
            final(self)@ == inserted(old(self)@, new_proof@, *topology, opt_hash_view(latest_block_hash)),
    {
        if !same_hash(&new_proof.payload.latest_block_hash, &latest_block_hash) {
            return Err(Error::BlockHashMismatch);
        }
        let next_unfinished = self.verify_with_state(topology, latest_block_hash);
        if new_proof.payload.view_change_index != next_unfinished as u64 {
            return Err(Error::ViewChangeNotFound);
        }
        if next_unfinished < self.0.len() {
            let ghost before = self.0@;
            let mut target = self.0.remove(next_unfinished);
            target.merge_signatures(new_proof.signatures, topology);
            self.0.insert(next_unfinished, target);
            assert(self.0@ == before.update(next_unfinished as int, target));
            assert(self@ =~= old(self)@.update(next_unfinished as int, target@));
        } else {
            self.0.push(new_proof);
            assert(self@ =~= old(self)@.push(new_proof@));
        }
        Ok(())
    }

    /// Takes the proof for the current view change from `other`, a chain sent by
    /// another peer, after pruning `other` against `latest_block_hash`.
    pub fn merge(&mut self, other: ProofChain, topology: &Topology, latest_block_hash: Option<Digest>) -> (r: Result<(), Error>)
        ensures
            r == merge_outcome(old(self)@, other@, *topology, opt_hash_view(latest_block_hash)),
            final(self)@ == merged(old(self)@, other@, *topology, opt_hash_view(latest_block_hash)),
    {
        let mut other = other;
        other.prune(clone_opt_hash(&latest_block_hash));
        if other.0.len() == 0 {
            return Err(Error::BlockHashMismatch);
        }
        let next_unfinished = self.verify_with_state(topology, latest_block_hash);
        let incomplete = next_unfinished < self.0.len();
        let other_has_more = next_unfinished < other.0.len();
        if incomplete && other_has_more {
            let ghost before = self.0@;
            let ghost other_view = other@;
            let new_proof = other.0.remove(next_unfinished);
            assert(new_proof@ == other_view[next_unfinished as int]);
            let mut target = self.0.remove(next_unfinished);
            target.merge_signatures(new_proof.signatures, topology);
            self.0.insert(next_unfinished, target);
            assert(self.0@ == before.update(next_unfinished as int, target));
            assert(self@ =~= old(self)@.update(next_unfinished as int, target@));
            Ok(())
        } else if other_has_more {
            let ghost other_view = other@;
            let new_proof = other.0.remove(next_unfinished);
            assert(new_proof@ == other_view[next_unfinished as int]);
            self.0.push(new_proof);
            assert(self@ =~= old(self)@.push(new_proof@));
            Ok(())
        } else if incomplete {
            Err(Error::ViewChangeNotFound)
        } else {
            Ok(())
        }
    }
}

/// The run of counting proofs from slot `i` ends at the first proof that does
/// not count, or at the end of the chain.
proof fn lemma_verified_from(chain: Seq<SignedProofView>, topology: Topology, h: Option<Seq<u8>>, i: nat)
    requires
        i <= chain.len(),
    ensures
        i <= verified_from(chain, topology, h, i) <= chain.len(),
        forall|j: int| i <= j < verified_from(chain, topology, h, i) ==> entry_ok(chain[j], j, topology, h),
        verified_from(chain, topology, h, i) < chain.len() ==> !entry_ok(
            chain[verified_from(chain, topology, h, i) as int],
            verified_from(chain, topology, h, i) as int,
            topology,
            h,
        ),
    decreases chain.len() - i,
{
    if i < chain.len() && entry_ok(chain[i as int], i as int, topology, h) {
        lemma_verified_from(chain, topology, h, i + 1);
    }
}

/// The run of linked proofs from slot `i` ends at the first proof that is not
/// linked, or at the end of the chain.
proof fn lemma_linked_from(chain: Seq<SignedProofView>, h: Option<Seq<u8>>, i: nat)
    requires
        i <= chain.len(),
    ensures
        i <= linked_from(chain, h, i) <= chain.len(),
        forall|j: int| i <= j < linked_from(chain, h, i) ==> linked(chain[j], j, h),
        linked_from(chain, h, i) < chain.len() ==> !linked(
            chain[linked_from(chain, h, i) as int],
            linked_from(chain, h, i) as int,
            h,
        ),
    decreases chain.len() - i,
{
    if i < chain.len() && linked(chain[i as int], i as int, h) {
        lemma_linked_from(chain, h, i + 1);
    }
}

/// The number of agreed view changes is the length of the longest prefix of
/// the chain whose proofs all name the tip, carry their slot as index and are
/// signed by a quorum: every proof before it counts and the one at it does not.
/// This holds of every chain, so of every chain that any sequence of
/// insertions, merges and prunes can produce.
pub proof fn lemma_verified_len_is_longest_prefix(chain: Seq<SignedProofView>, topology: Topology, h: Option<Seq<u8>>)
    ensures
        verified_len(chain, topology, h) <= chain.len(),
        forall|i: int| 0 <= i < verified_len(chain, topology, h) ==> entry_ok(chain[i], i, topology, h),
        verified_len(chain, topology, h) < chain.len() ==> !entry_ok(
            chain[verified_len(chain, topology, h) as int],
            verified_len(chain, topology, h) as int,
            topology,
            h,
        ),
{
    lemma_verified_from(chain, topology, h, 0);
}

/// Pruning keeps exactly the longest prefix of proofs that name the tip and carry
/// their slot as index.
pub proof fn lemma_pruned_is_longest_linked_prefix(chain: Seq<SignedProofView>, h: Option<Seq<u8>>)
    ensures
        pruned(chain, h).len() <= chain.len(),
        forall|i: int| 0 <= i < pruned(chain, h).len() ==> pruned(chain, h)[i] == chain[i] && linked(chain[i], i, h),
        pruned(chain, h).len() < chain.len() ==> !linked(chain[pruned(chain, h).len() as int], pruned(chain, h).len() as int, h),
{
    lemma_linked_from(chain, h, 0);
}

/// A chain whose first `k` proofs all count has at least `k` agreed view changes.
proof fn lemma_verified_len_at_least(chain: Seq<SignedProofView>, topology: Topology, h: Option<Seq<u8>>, k: nat)
    requires
        k <= chain.len(),
        forall|i: int| 0 <= i < k ==> entry_ok(chain[i], i, topology, h),
    ensures
        verified_len(chain, topology, h) >= k,
{
    lemma_verified_len_is_longest_prefix(chain, topology, h);
}

/// Inserting a proof never lowers the number of agreed view changes.
pub proof fn lemma_insert_never_decreases(chain: Seq<SignedProofView>, p: SignedProofView, topology: Topology, h: Option<Seq<u8>>)
    ensures
        verified_len(inserted(chain, p, topology, h), topology, h) >= verified_len(chain, topology, h),
{
    let k = verified_len(chain, topology, h);
    let after = inserted(chain, p, topology, h);
    lemma_verified_len_is_longest_prefix(chain, topology, h);
    assert forall|i: int| 0 <= i < k implies entry_ok(after[i], i, topology, h) by {
        assert(after[i] == chain[i]);
    }
    lemma_verified_len_at_least(after, topology, h, k);
}

/// Merging a chain from another peer never lowers the number of agreed view changes.
pub proof fn lemma_merge_never_decreases(chain: Seq<SignedProofView>, other: Seq<SignedProofView>, topology: Topology, h: Option<Seq<u8>>)
    ensures
        verified_len(merged(chain, other, topology, h), topology, h) >= verified_len(chain, topology, h),
{
    let k = verified_len(chain, topology, h);
    let after = merged(chain, other, topology, h);
    lemma_verified_len_is_longest_prefix(chain, topology, h);
    assert forall|i: int| 0 <= i < k implies entry_ok(after[i], i, topology, h) by {
        assert(after[i] == chain[i]);
    }
    lemma_verified_len_at_least(after, topology, h, k);
}

/// The valid positions are finite, and a position is among them exactly when
/// some signature at that position is valid.
proof fn lemma_valid_positions(topology: Topology, msg: Seq<u8>, sigs: Seq<(u64, Seq<u8>)>)
    ensures
        valid_positions(topology, msg, sigs).finite(),
        forall|pos: u64| #[trigger] valid_positions(topology, msg, sigs).contains(pos) <==> exists|i: int|
            0 <= i < sigs.len() && sigs[i].0 == pos && sig_ok(topology, msg, sigs[i]),
    decreases sigs.len(),
{
    if sigs.len() > 0 {
        let rest = sigs.drop_last();
        lemma_valid_positions(topology, msg, rest);
        assert forall|pos: u64| #[trigger] valid_positions(topology, msg, sigs).contains(pos) <==> exists|i: int|
            0 <= i < sigs.len() && sigs[i].0 == pos && sig_ok(topology, msg, sigs[i]) by {
            if valid_positions(topology, msg, rest).contains(pos) {
                let i = choose|i: int| 0 <= i < rest.len() && rest[i].0 == pos && sig_ok(topology, msg, rest[i]);
                assert(sigs[i] == rest[i]);
            }
            if exists|i: int| 0 <= i < sigs.len() && sigs[i].0 == pos && sig_ok(topology, msg, sigs[i]) {
                let i = choose|i: int| 0 <= i < sigs.len() && sigs[i].0 == pos && sig_ok(topology, msg, sigs[i]);
                if i < rest.len() {
                    assert(rest[i] == sigs[i]);
                }
            }
        }
    }
}

/// A proof is valid exactly when at least `f + 1` distinct positions each carry
/// a signature that verifies under the key of the peer at that position; a
/// position that signs more than once still counts once.
pub proof fn lemma_quorum_counts_distinct_signers(p: SignedProofView, topology: Topology)
    ensures
        proof_valid(p, topology) <==> valid_positions(topology, payload_message(p.payload), p.signatures).len()
            >= topology.faults() + 1,
        valid_positions(topology, payload_message(p.payload), p.signatures).finite(),
        forall|pos: u64| #[trigger] valid_positions(topology, payload_message(p.payload), p.signatures).contains(pos)
            <==> exists|i: int| 0 <= i < p.signatures.len() && p.signatures[i].0 == pos
                && topology.key_at(pos as int) is Some
                && ed25519_valid(topology.key_at(pos as int)->0, payload_message(p.payload), p.signatures[i].1),
{
    lemma_valid_positions(topology, payload_message(p.payload), p.signatures);
}

} // verus!
