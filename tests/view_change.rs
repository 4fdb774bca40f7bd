use iroha_consensus::crypto::Digest;
use iroha_consensus::topology::{PeerId, QuorumKind, Topology};
use iroha_consensus::view_change::{Error, ProofBuilder, ProofChain, SignedProof};
use ursa::signatures::ed25519::Ed25519Sha512;
use ursa::signatures::SignatureScheme;

struct Keys {
    public: Vec<Vec<u8>>,
    private: Vec<Vec<u8>>,
}

fn keys(n: usize) -> Keys {
    let mut public = Vec::new();
    let mut private = Vec::new();
    for _ in 0..n {
        let (pk, sk) = Ed25519Sha512::new().keypair(None).unwrap();
        public.push(pk.0.clone());
        private.push(sk.0.clone());
    }
    Keys { public, private }
}

fn topology(k: &Keys) -> Topology {
    let peers = k
        .public
        .iter()
        .enumerate()
        .map(|(i, pk)| PeerId::new(format!("127.0.0.1:{}", 1337 + i), Some(pk.clone())))
        .collect();
    Topology::new(peers)
}

fn tip(b: u8) -> Option<Digest> {
    Some(Digest { bytes: vec![b; 32] })
}

fn signed_proof(k: &Keys, h: Option<Digest>, index: u64, signers: &[u64]) -> SignedProof {
    let mut p = ProofBuilder::new(h.clone(), index).sign(signers[0], &k.private[signers[0] as usize]).unwrap();
    for &s in &signers[1..] {
        let q = ProofBuilder::new(h.clone(), index).sign(s, &k.private[s as usize]).unwrap();
        p.signatures.extend(q.signatures);
    }
    p
}

#[test]
fn topology_fault_bounds() {
    let k = keys(4);
    let t = topology(&k);
    assert_eq!(t.max_faults(), 1);
    assert_eq!(t.quorum(QuorumKind::ViewChange), 2);
    assert_eq!(t.quorum(QuorumKind::Commit), 3);
    assert!(t.public_key_at(3).is_some());
    assert!(t.public_key_at(4).is_none());
    let k7 = keys(7);
    assert_eq!(topology(&k7).max_faults(), 2);
    assert_eq!(Topology::new(Vec::new()).max_faults(), 0);
}

#[test]
fn proof_chain_construction() {
    let k = keys(4);
    let t = topology(&k);
    let mut chain = ProofChain::new();
    let p0 = signed_proof(&k, tip(1), 0, &[1, 2]);
    assert!(chain.insert_proof(p0, &t, tip(1)).is_ok());
    assert_eq!(chain.len(), 1);
    assert_eq!(chain.verify_with_state(&t, tip(1)), 1);
}

#[test]
fn merge_signatures_at_same_slot() {
    let k = keys(4);
    let t = topology(&k);
    let mut chain = ProofChain::new();
    chain.insert_proof(signed_proof(&k, tip(1), 0, &[1, 2]), &t, tip(1)).unwrap();
    // The first proof already counts, so a new proof for slot 0 is one step behind.
    assert!(matches!(chain.insert_proof(signed_proof(&k, tip(1), 0, &[3]), &t, tip(1)), Err(Error::ViewChangeNotFound)));

    // With a single signature the proof at slot 0 is still open and takes more.
    let mut open = ProofChain::new();
    open.insert_proof(signed_proof(&k, tip(1), 0, &[1]), &t, tip(1)).unwrap();
    assert_eq!(open.verify_with_state(&t, tip(1)), 0);
    open.insert_proof(signed_proof(&k, tip(1), 0, &[2, 3]), &t, tip(1)).unwrap();
    assert_eq!(open.len(), 1);
    assert_eq!(open.0[0].signatures.len(), 3);
    assert_eq!(open.verify_with_state(&t, tip(1)), 1);
}

#[test]
fn stale_proof_rejected() {
    let k = keys(4);
    let t = topology(&k);
    let mut chain = ProofChain::new();
    chain.insert_proof(signed_proof(&k, tip(1), 0, &[1, 2]), &t, tip(1)).unwrap();
    let r = chain.insert_proof(signed_proof(&k, tip(1), 0, &[1]), &t, tip(2));
    assert!(matches!(r, Err(Error::BlockHashMismatch)));
    assert_eq!(chain.len(), 1);
}

#[test]
fn out_of_order_index_rejected() {
    let k = keys(4);
    let t = topology(&k);
    let mut chain = ProofChain::new();
    chain.insert_proof(signed_proof(&k, tip(1), 0, &[1, 2]), &t, tip(1)).unwrap();
    let r = chain.insert_proof(signed_proof(&k, tip(1), 2, &[1, 2]), &t, tip(1));
    assert!(matches!(r, Err(Error::ViewChangeNotFound)));
    assert_eq!(chain.len(), 1);
}

#[test]
fn duplicate_signer_counts_once() {
    let k = keys(4);
    let t = topology(&k);
    let p = signed_proof(&k, tip(1), 0, &[1, 1, 1]);
    assert_eq!(p.signatures.len(), 3);
    assert!(!p.verify(&t));
    assert!(signed_proof(&k, tip(1), 0, &[1, 3]).verify(&t));
}

#[test]
fn invalid_signatures_do_not_count() {
    let k = keys(4);
    let t = topology(&k);
    // Position 5 is out of range; position 2 signs with the key of position 3.
    let mut p = signed_proof(&k, tip(1), 0, &[1]);
    let wrong = ProofBuilder::new(tip(1), 0).sign(2, &k.private[3]).unwrap();
    p.signatures.extend(wrong.signatures);
    let mut out_of_range = ProofBuilder::new(tip(1), 0).sign(5, &k.private[0]).unwrap();
    p.signatures.append(&mut out_of_range.signatures);
    assert!(!p.verify(&t));
    let mut target = signed_proof(&k, tip(1), 0, &[1]);
    target.merge_signatures(p.signatures, &t);
    assert_eq!(target.signatures.len(), 2);
}

#[test]
fn insert_never_lowers_count() {
    let k = keys(4);
    let t = topology(&k);
    let mut chain = ProofChain::new();
    let mut last = 0;
    let steps = [
        signed_proof(&k, tip(1), 0, &[0]),
        signed_proof(&k, tip(1), 0, &[1]),
        signed_proof(&k, tip(1), 1, &[2, 3]),
        signed_proof(&k, tip(2), 2, &[0, 1]),
        signed_proof(&k, tip(1), 2, &[0]),
    ];
    for p in steps {
        let _ = chain.insert_proof(p, &t, tip(1));
        let now = chain.verify_with_state(&t, tip(1));
        assert!(now >= last);
        last = now;
    }
    assert_eq!(last, 2);
    assert_eq!(chain.len(), 3);
}

#[test]
fn prune_and_merge() {
    let k = keys(4);
    let t = topology(&k);
    let mut other = ProofChain::new();
    other.0.push(signed_proof(&k, tip(1), 0, &[0, 1]));
    other.0.push(signed_proof(&k, tip(1), 1, &[2, 3]));
    other.0.push(signed_proof(&k, tip(1), 5, &[2, 3]));

    let mut pruned = ProofChain::new();
    pruned.0.push(signed_proof(&k, tip(1), 0, &[0]));
    pruned.0.push(signed_proof(&k, tip(9), 1, &[0]));
    pruned.prune(tip(1));
    assert_eq!(pruned.len(), 1);

    let mut chain = ProofChain::new();
    assert!(chain.merge(other, &t, tip(1)).is_ok());
    assert_eq!(chain.len(), 1);
    assert_eq!(chain.verify_with_state(&t, tip(1)), 1);

    let mut stale = ProofChain::new();
    stale.0.push(signed_proof(&k, tip(9), 0, &[0, 1]));
    assert!(matches!(chain.merge(stale, &t, tip(1)), Err(Error::BlockHashMismatch)));

    let mut open = ProofChain::new();
    open.0.push(signed_proof(&k, tip(1), 0, &[0]));
    let mut lagging = ProofChain::new();
    lagging.0.push(signed_proof(&k, tip(1), 0, &[1]));
    assert!(open.merge(lagging, &t, tip(1)).is_ok());
    assert_eq!(open.verify_with_state(&t, tip(1)), 1);
}
