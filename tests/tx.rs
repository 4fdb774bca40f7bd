use iroha_consensus::crypto::Digest;
use iroha_consensus::tx::{
    condition_outcome, execution_outcome, permission_outcome, signature_outcome, AcceptedTransaction, AccountId, Instruction, PermissionsValidator, Signature, Transaction, TransactionError,
    TransactionRejectionReason, VersionedAcceptedTransaction, WorldStateView,
};
use ursa::signatures::ed25519::Ed25519Sha512;
use ursa::signatures::SignatureScheme;

/// A ledger that is a counter: instruction `[k]` adds `k`; `[0]` fails.
#[derive(Clone, Debug, PartialEq)]
struct Counter {
    total: u64,
    committed: Vec<Vec<u8>>,
    condition: Result<bool, String>,
}

impl Counter {
    fn new() -> Self {
        Counter { total: 0, committed: Vec::new(), condition: Ok(true) }
    }
}

impl WorldStateView for Counter {
    fn clone_state(&self) -> Self {
        self.clone()
    }

    fn execute(&self, _authority: &AccountId, instruction: &Instruction) -> Result<Self, String> {
        match instruction.first() {
            Some(0) | None => Err("Will fail".to_string()),
            Some(k) => Ok(Counter { total: self.total + *k as u64, ..self.clone() }),
        }
    }

    fn check_signature_condition(&self, _account: &AccountId, _signatures: &Vec<Signature>) -> Result<bool, String> {
        self.condition.clone()
    }

    fn has_transaction(&self, hash: &Digest) -> bool {
        self.committed.contains(&hash.bytes)
    }
}

struct AllowAll;

impl PermissionsValidator<Counter> for AllowAll {
    fn permits(&self, _authority: AccountId, _instruction: Instruction, _wsv: Counter) -> Result<(), String> {
        Ok(())
    }

    fn check_instruction(&self, _authority: &AccountId, _instruction: &Instruction, _wsv: &Counter) -> Result<(), String> {
        Ok(())
    }
}

struct DenyAll;

impl PermissionsValidator<Counter> for DenyAll {
    fn permits(&self, _authority: AccountId, _instruction: Instruction, _wsv: Counter) -> Result<(), String> {
        Err("denied".to_string())
    }

    fn check_instruction(&self, _authority: &AccountId, _instruction: &Instruction, _wsv: &Counter) -> Result<(), String> {
        Err("denied".to_string())
    }
}

fn signed(instructions: Vec<Instruction>, account: AccountId) -> Transaction {
    let (pk, sk) = Ed25519Sha512::new().keypair(None).unwrap();
    Transaction::new(instructions, account, 1000, 1_600_000_000_000).sign(&pk.0, &sk.0).unwrap()
}

#[test]
fn hash_should_be_the_same() {
    let tx = Transaction::new(Vec::new(), AccountId::genesis_account(), 1000, 1_600_000_000_000);
    let tx_hash = tx.hash();
    let (pk, sk) = Ed25519Sha512::new().keypair(None).unwrap();
    let signed_tx = tx.sign(&pk.0, &sk.0).expect("Failed to sign.");
    let signed_tx_hash = signed_tx.hash();
    let accepted_tx = AcceptedTransaction::from_transaction(signed_tx, 4096).expect("Failed to accept.");
    let accepted_tx_hash = accepted_tx.hash();
    let valid_tx = accepted_tx.validate(&Counter::new(), &AllowAll, true).ok().expect("Failed to validate.");
    let valid_tx_hash = valid_tx.hash();
    let rejected = valid_tx.reject(TransactionRejectionReason::NotPermitted("late".to_string()));
    assert_eq!(tx_hash.bytes, signed_tx_hash.bytes);
    assert_eq!(tx_hash.bytes, accepted_tx_hash.bytes);
    assert_eq!(tx_hash.bytes, valid_tx_hash.bytes);
    assert_eq!(tx_hash.bytes, rejected.hash().bytes);
    assert_eq!(tx_hash.bytes.len(), 32);
}

#[test]
fn transaction_not_accepted() {
    let tx = Transaction::new(vec![vec![0u8]; 4097], AccountId::new("root", "global"), 1000, 0);
    let result = AcceptedTransaction::from_transaction(tx, 4096);
    assert!(result.is_err());
    let err = result.err().unwrap();
    assert_eq!(err, TransactionError::TooManyInstructions);
    assert_eq!(err.context(), "Failed to accept transaction");
    assert_eq!(err.message(), "Too many instructions in payload");
}

#[test]
fn forged_signature_not_accepted() {
    let mut tx = signed(vec![vec![1]], AccountId::new("alice", "wonderland"));
    tx.signatures[0].signature[0] ^= 1;
    let err = AcceptedTransaction::from_transaction(tx, 10).err().unwrap();
    assert_eq!(err, TransactionError::SignatureVerification);
}

#[test]
fn validation_outcomes() {
    let wsv = Counter::new();
    let alice = || AccountId::new("alice", "wonderland");
    let accept = |tx: Transaction| AcceptedTransaction::from_transaction(tx, 10).unwrap();

    let ok = accept(signed(vec![vec![2], vec![3]], alice())).validate(&wsv, &AllowAll, false);
    assert!(ok.is_ok());
    assert_eq!(wsv.total, 0);

    let genesis = accept(signed(vec![vec![1]], AccountId::genesis_account())).validate(&wsv, &AllowAll, false);
    assert!(matches!(genesis.err().unwrap().rejection_reason, TransactionRejectionReason::UnexpectedGenesisAccountSignature));

    let failing = accept(signed(vec![vec![1], vec![0]], alice())).validate(&wsv, &AllowAll, false);
    match failing.err().unwrap().rejection_reason {
        TransactionRejectionReason::InstructionExecution { instruction, reason } => {
            assert_eq!(instruction, vec![0]);
            assert_eq!(reason, "Will fail");
        }
        _ => panic!("expected an execution failure"),
    }

    let denied = accept(signed(vec![vec![1]], alice())).validate(&wsv, &DenyAll, false);
    assert!(matches!(denied.err().unwrap().rejection_reason, TransactionRejectionReason::NotPermitted(_)));
    let genesis_ok = accept(signed(vec![vec![1]], alice())).validate(&wsv, &DenyAll, true);
    assert!(genesis_ok.is_ok());

    let mut unsatisfied = Counter::new();
    unsatisfied.condition = Ok(false);
    let r = accept(signed(vec![vec![1]], alice())).validate(&unsatisfied, &AllowAll, false);
    assert!(matches!(r.err().unwrap().rejection_reason, TransactionRejectionReason::UnsatisfiedSignatureCondition(_)));
    unsatisfied.condition = Err("Account not found".to_string());
    let r = accept(signed(vec![vec![1]], alice())).validate(&unsatisfied, &AllowAll, false);
    match r.err().unwrap().rejection_reason {
        TransactionRejectionReason::UnsatisfiedSignatureCondition(reason) => assert_eq!(reason, "Account not found"),
        _ => panic!("expected an unsatisfied condition"),
    }

    let mut accepted = accept(signed(vec![vec![1]], alice()));
    accepted.signatures[0].signature[3] ^= 0x40;
    let r = accepted.validate(&wsv, &AllowAll, false);
    assert!(matches!(r.err().unwrap().rejection_reason, TransactionRejectionReason::SignatureVerification(_)));
}

#[test]
fn proceed_is_atomic() {
    let mut wsv = Counter::new();
    let alice = AccountId::new("alice", "wonderland");
    let valid = AcceptedTransaction::from_transaction(signed(vec![vec![2], vec![5]], AccountId::new("alice", "wonderland")), 10)
        .unwrap()
        .validate(&wsv, &AllowAll, false)
        .ok()
        .unwrap();
    assert!(valid.proceed(&mut wsv).is_ok());
    assert_eq!(wsv.total, 7);

    let half = AcceptedTransaction::from_transaction(signed(vec![vec![4], vec![0]], alice), 10).unwrap();
    let valid_half = iroha_consensus::tx::ValidTransaction { payload: half.payload, signatures: half.signatures };
    assert!(valid_half.proceed(&mut wsv).is_err());
    assert_eq!(wsv.total, 7);
}

#[test]
fn expiry_and_blockchain_membership() {
    let tx = AcceptedTransaction::from_transaction(signed(vec![vec![1]], AccountId::new("a", "b")), 10).unwrap();
    let created = tx.payload.creation_time;
    assert!(!tx.is_expired(5000, created + 1000));
    assert!(tx.is_expired(5000, created + 1001));
    assert!(tx.is_expired(500, created + 501));
    assert!(!tx.is_expired(500, created + 500));
    let mut wsv = Counter::new();
    assert!(!tx.is_in_blockchain(&wsv));
    wsv.committed.push(tx.hash().bytes);
    assert!(tx.is_in_blockchain(&wsv));

    let versioned = VersionedAcceptedTransaction::V1(tx);
    assert!(versioned.check_instruction_len(1).is_ok());
    assert_eq!(versioned.check_instruction_len(0), Err(TransactionError::TooManyInstructions));
    let v = versioned.validate(&wsv, &AllowAll, false).ok().unwrap();
    assert_eq!(v.as_inner_v1().payload.instructions.len(), 1);
}

#[test]
fn rejection_decisions() {
    assert!(condition_outcome(Ok(true)).is_none());
    match condition_outcome(Ok(false)) {
        Some(TransactionRejectionReason::UnsatisfiedSignatureCondition(s)) => {
            assert_eq!(s, "Signature condition not satisfied.")
        }
        _ => panic!("expected an unsatisfied condition"),
    }
    match condition_outcome(Err("no account".to_string())) {
        Some(TransactionRejectionReason::UnsatisfiedSignatureCondition(s)) => assert_eq!(s, "no account"),
        _ => panic!("expected an unsatisfied condition"),
    }
    assert_eq!(execution_outcome(Ok(5u32), &vec![1]).ok(), Some(5));
    match execution_outcome::<u32>(Err("boom".to_string()), &vec![9, 9]) {
        Err(TransactionRejectionReason::InstructionExecution { instruction, reason }) => {
            assert_eq!(instruction, vec![9, 9]);
            assert_eq!(reason, "boom");
        }
        _ => panic!("expected an execution failure"),
    }
    assert!(permission_outcome(Ok(())).is_none());
    match permission_outcome(Err("denied".to_string())) {
        Some(TransactionRejectionReason::NotPermitted(s)) => assert_eq!(s, "denied"),
        _ => panic!("expected a permission failure"),
    }
    let sigs = vec![
        Signature { public_key: vec![1], signature: vec![2] },
        Signature { public_key: vec![3], signature: vec![4] },
    ];
    assert!(signature_outcome(&sigs, None).is_none());
    match signature_outcome(&sigs, Some(1)) {
        Some(TransactionRejectionReason::SignatureVerification(f)) => {
            assert_eq!(f.signature.public_key, vec![3]);
            assert_eq!(f.reason, "Signature verification failed");
        }
        _ => panic!("expected a signature failure"),
    }
}

#[test]
fn first_bad_signature_is_named() {
    let (pk, sk) = Ed25519Sha512::new().keypair(None).unwrap();
    let tx = signed(vec![vec![1]], AccountId::new("alice", "wonderland"));
    let mut accepted = AcceptedTransaction::from_transaction(tx.sign(&pk.0, &sk.0).unwrap(), 10).unwrap();
    accepted.signatures[1].signature[0] ^= 1;
    let second = accepted.signatures[1].signature.clone();
    match accepted.validate(&Counter::new(), &AllowAll, false).err().unwrap().rejection_reason {
        TransactionRejectionReason::SignatureVerification(f) => assert_eq!(f.signature.signature, second),
        _ => panic!("expected a signature failure"),
    }
}

#[test]
fn genesis_without_instructions_is_valid_and_proceeds() {
    let tx = signed(Vec::new(), AccountId::genesis_account());
    let valid = AcceptedTransaction::from_transaction(tx, 10).unwrap().validate(&Counter::new(), &DenyAll, true);
    let valid = valid.ok().unwrap();
    let mut wsv = Counter::new();
    wsv.total = 3;
    assert!(valid.proceed(&mut wsv).is_ok());
    assert_eq!(wsv.total, 3);
}
