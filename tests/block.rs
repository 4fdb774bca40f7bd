use iroha_consensus::block::{
    merkle_root_of, BlockHeader, BlockMessage, BlockPayload, BlockRejectionReason, BlockSubscriptionRequest,
    CandidateError, SignedBlock, SignedBlockCandidate,
};
use iroha_consensus::crypto::Digest;
use iroha_consensus::topology::PeerId;
use iroha_consensus::tx::{AccountId, Transaction};
use ursa::blake2::digest::{Update, VariableOutput};
use ursa::blake2::VarBlake2b;
use ursa::signatures::ed25519::Ed25519Sha512;
use ursa::signatures::SignatureScheme;

fn blake2(data: &[u8]) -> Vec<u8> {
    let mut h = VarBlake2b::new(32).unwrap();
    h.update(data);
    h.finalize_boxed().into_vec()
}

fn tx(n: u8) -> Transaction {
    Transaction::new(vec![vec![n, 1, 2]], AccountId::new("alice", "wonderland"), 1000, 1_600_000_000_000 + n as u64)
}

fn payload(txs: Vec<Transaction>, root: Option<Digest>) -> BlockPayload {
    BlockPayload {
        header: BlockHeader {
            height: 2,
            previous_block_hash: Some(Digest { bytes: vec![3; 32] }),
            transactions_hash: root,
            timestamp_ms: 42,
            view_change_index: 0,
            consensus_estimation_ms: 4000,
        },
        commit_topology: vec![PeerId::new("127.0.0.1:1337".to_string(), None)],
        transactions: txs,
        event_recommendations: Vec::new(),
    }
}

fn root_of(txs: &[Transaction]) -> Option<Digest> {
    merkle_root_of(txs.iter().map(|t| t.hash()).collect())
}

#[test]
fn merkle_root_values() {
    assert!(merkle_root_of(Vec::new()).is_none());
    let a = Digest { bytes: vec![1; 32] };
    let b = Digest { bytes: vec![2; 32] };
    let c = Digest { bytes: vec![3; 32] };
    assert_eq!(merkle_root_of(vec![a.clone()]).unwrap().bytes, vec![1; 32]);
    let ab = blake2(&[vec![1u8; 32], vec![2u8; 32]].concat());
    assert_eq!(merkle_root_of(vec![a.clone(), b.clone()]).unwrap().bytes, ab);
    let cc = blake2(&[vec![3u8; 32], vec![3u8; 32]].concat());
    let top = blake2(&[ab.clone(), cc].concat());
    assert_eq!(merkle_root_of(vec![a, b, c]).unwrap().bytes, top);
}

#[test]
fn block_candidate_validation() {
    let txs = vec![tx(1), tx(2)];
    let root = root_of(&txs);
    let good = SignedBlockCandidate { signatures: Vec::new(), payload: payload(txs, root) };
    let block = SignedBlock::from_candidate(good).unwrap();
    assert_eq!(block.transactions().len(), 2);
    let recomputed = root_of(block.transactions()).unwrap();
    assert_eq!(block.header().transactions_hash.as_ref().unwrap().bytes, recomputed.bytes);

    let wrong = SignedBlockCandidate {
        signatures: Vec::new(),
        payload: payload(vec![tx(1), tx(2)], Some(Digest { bytes: vec![0; 32] })),
    };
    let err = SignedBlock::from_candidate(wrong).err().unwrap();
    assert_eq!(err, CandidateError::TransactionsHashIncorrect);
    assert_eq!(err.message(), "Transactions' hash incorrect");

    let empty = SignedBlockCandidate { signatures: Vec::new(), payload: payload(Vec::new(), root_of(&[tx(1), tx(2)])) };
    let err = SignedBlock::from_candidate(empty).err().unwrap();
    assert_eq!(err, CandidateError::EmptyBlock);
    assert_eq!(err.message(), "Block is empty");

    let empty_no_root = SignedBlockCandidate { signatures: Vec::new(), payload: payload(Vec::new(), None) };
    assert_eq!(empty_no_root.validate().err().unwrap(), CandidateError::EmptyBlock);
}

#[test]
fn signing_keeps_payload_hash() {
    let txs = vec![tx(7)];
    let root = root_of(&txs);
    let block = SignedBlock::from_candidate(SignedBlockCandidate { signatures: Vec::new(), payload: payload(txs, root) }).unwrap();
    let payload_hash = block.hash_of_payload();
    let block_hash = block.hash();
    assert_ne!(payload_hash.bytes, block_hash.bytes);
    let (pk, sk) = Ed25519Sha512::new().keypair(None).unwrap();
    let signed = block.sign(&sk.0, 3).unwrap();
    assert_eq!(signed.signatures().len(), 1);
    assert_eq!(signed.signatures()[0].0, 3);
    assert_eq!(signed.hash_of_payload().bytes, payload_hash.bytes);
    assert_ne!(signed.hash().bytes, block_hash.bytes);
    let ok = Ed25519Sha512::new().verify(&payload_hash.bytes, &signed.signatures()[0].1, &pk).unwrap_or(false);
    assert!(ok);
    assert!(signed.sign(&vec![1, 2, 3], 0).is_none());
}

#[test]
fn header_and_stream_items() {
    let txs = vec![tx(1)];
    let root = root_of(&txs);
    let mut p = payload(txs, root);
    assert!(!p.header.is_genesis());
    assert_eq!(p.header.timestamp(), 42);
    p.header.height = 1;
    assert!(p.header.is_genesis());
    let block = SignedBlock::from_candidate(SignedBlockCandidate { signatures: Vec::new(), payload: p }).unwrap();
    assert_eq!(block.commit_topology().len(), 1);
    let back: SignedBlock = BlockMessage(block).into();
    assert_eq!(back.header().height, 1);
    assert!(BlockSubscriptionRequest::new(0).is_none());
    assert_eq!(BlockSubscriptionRequest::new(5).unwrap().0, 5);
    assert_eq!(BlockRejectionReason::ConsensusBlockRejection.message(), "Block was rejected during consensus");
}
