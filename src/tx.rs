//! The transaction lifecycle: a transaction is accepted, then validated
//! against a copy of the world state, then applied; or it is rejected.
use vstd::prelude::*;
use vstd::utf8::encode_utf8;
use crate::codec::{all_prefixable, enc_bytes_all, enc_text, enc_u64, put_bytes_list, put_text, put_u64};
use crate::crypto::{blake2b_of, compact_of, ed25519_sign, ed25519_sign_of, ed25519_valid, ed25519_verify, hash_bytes, Digest};

verus! {

/// An instruction, in its canonical encoding; what it does is up to the world state.
pub type Instruction = Vec<u8>;

/// Identity of an account: its name within a domain.
pub struct AccountId {
    pub name: String,
    pub domain_name: String,
}

/// Name of the account and of the domain that sign the genesis block.
pub const GENESIS_NAME: &'static str = "genesis";

impl AccountId {
    /// The account `name` of domain `domain_name`.
    pub fn new(name: &str, domain_name: &str) -> (r: AccountId)
        ensures
            r.name@ == name@,
            r.domain_name@ == domain_name@,
    {
        AccountId { name: name.to_owned(), domain_name: domain_name.to_owned() }
    }

    /// The account that signs the genesis block.
    pub fn genesis_account() -> (r: AccountId)
        ensures
            r.is_genesis_spec(),
    {
        AccountId::new(GENESIS_NAME, GENESIS_NAME)
    }

    /// Whether this is the genesis account.
    pub open spec fn is_genesis_spec(&self) -> bool {
        self.name@ == GENESIS_NAME@ && self.domain_name@ == GENESIS_NAME@
    }

    /// Whether this is the genesis account.
    pub fn is_genesis(&self) -> (r: bool)
        ensures
            r == self.is_genesis_spec(),
    {
        let g = AccountId::genesis_account();
        self.name == g.name && self.domain_name == g.domain_name
    }
}

/// What the signers of a transaction sign.
pub struct Payload {
    /// Account on whose behalf the instructions run.
    pub account_id: AccountId,
    /// Instructions, run in order.
    pub instructions: Vec<Instruction>,
    /// Creation time, in milliseconds since the Unix epoch.
    pub creation_time: u64,
    /// Time to live, in milliseconds.
    pub time_to_live_ms: u64,
}

/// A signature of a transaction payload, with the key that made it.
pub struct Signature {
    pub public_key: Vec<u8>,
    pub signature: Vec<u8>,
}

impl Clone for Signature {
    fn clone(&self) -> (r: Self)
        ensures
            r.public_key@ == self.public_key@,
            r.signature@ == self.signature@,
    {
        Signature { public_key: self.public_key.clone(), signature: self.signature.clone() }
    }
}

/// Whether a payload can be encoded: every length fits a 32-bit prefix.
pub open spec fn payload_encodable(p: Payload) -> bool {
    &&& encode_utf8(p.account_id.name@).len() <= u32::MAX
    &&& encode_utf8(p.account_id.domain_name@).len() <= u32::MAX
    &&& p.instructions@.len() <= u32::MAX
    &&& all_prefixable(p.instructions@)
}

/// Canonical encoding of a payload.
pub open spec fn enc_payload(p: Payload) -> Seq<u8> {
    enc_text(p.account_id.name@) + enc_text(p.account_id.domain_name@)
        + compact_of(p.instructions@.len() as u32) + enc_bytes_all(p.instructions@)
        + enc_u64(p.creation_time) + enc_u64(p.time_to_live_ms)
}

/// The hash of a transaction: the digest of its payload's encoding.
pub open spec fn payload_hash(p: Payload) -> Seq<u8> {
    blake2b_of(enc_payload(p))
}

/// Whether a signature verifies against the hash of `p`.
pub open spec fn tx_sig_ok(p: Payload, s: Signature) -> bool {
    ed25519_valid(s.public_key@, payload_hash(p), s.signature@)
}

/// Whether every signature verifies against the hash of `p`.
pub open spec fn all_sigs_ok(p: Payload, sigs: Seq<Signature>) -> bool {
    forall|i: int| 0 <= i < sigs.len() ==> tx_sig_ok(p, sigs[i])
}

impl Payload {
    /// The hash of this payload.
    pub fn hash(&self) -> (r: Digest)
        requires
            payload_encodable(*self),
        ensures
            r@ == payload_hash(*self),
    {
        let mut out: Vec<u8> = Vec::new();
        put_text(&mut out, &self.account_id.name);
        put_text(&mut out, &self.account_id.domain_name);
        put_bytes_list(&mut out, &self.instructions);
        put_u64(&mut out, self.creation_time);
        put_u64(&mut out, self.time_to_live_ms);
        assert(out@ =~= enc_payload(*self));
        hash_bytes(out.as_slice())
    }

    /// Checks that there are at most `max_instruction_len` instructions.
    pub fn check_instruction_len(&self, max_instruction_len: usize) -> (r: Result<(), TransactionError>)
        ensures
            r is Ok <==> self.instructions@.len() <= max_instruction_len,
            r is Err ==> r == Err::<(), TransactionError>(TransactionError::TooManyInstructions),
    {
        if self.instructions.len() > max_instruction_len {
            Err(TransactionError::TooManyInstructions)
        } else {
            Ok(())
        }
    }
}

/// Why a transaction could not be accepted or applied.
#[derive(Clone, Copy, Debug, PartialEq, Eq, Structural)]
pub enum TransactionError {
    /// The payload holds more instructions than allowed.
    TooManyInstructions,
    /// A signature does not verify against the transaction's hash.
    SignatureVerification,
}

impl TransactionError {
    /// What failed: accepting the transaction, or verifying its signatures.
    pub fn context(&self) -> (r: &'static str)
        ensures
            *self == TransactionError::TooManyInstructions ==> r@ == "Failed to accept transaction"@,
            *self == TransactionError::SignatureVerification ==> r@ == "Failed to verify signatures"@,
    {
        match self {
            TransactionError::TooManyInstructions => "Failed to accept transaction",
            TransactionError::SignatureVerification => "Failed to verify signatures",
        }
    }

    /// Why it failed.
    pub fn message(&self) -> (r: &'static str)
        ensures
            *self == TransactionError::TooManyInstructions ==> r@ == "Too many instructions in payload"@,
            *self == TransactionError::SignatureVerification ==> r@ == "Signature verification failed"@,
    {
        match self {
            TransactionError::TooManyInstructions => "Too many instructions in payload",
            TransactionError::SignatureVerification => "Signature verification failed",
        }
    }
}

/// A transaction as submitted by a client.
pub struct Transaction {
    pub payload: Payload,
    pub signatures: Vec<Signature>,
}

impl Transaction {
    /// An unsigned transaction of `account_id` created at `creation_time`.
    pub fn new(instructions: Vec<Instruction>, account_id: AccountId, time_to_live_ms: u64, creation_time: u64) -> (r: Transaction)
        ensures
            r.payload == (Payload { account_id, instructions, creation_time, time_to_live_ms }),
            r.signatures@.len() == 0,
    {
        Transaction {
            payload: Payload { account_id, instructions, creation_time, time_to_live_ms },
            signatures: Vec::new(),
        }
    }

    /// The hash of this transaction.
    pub fn hash(&self) -> (r: Digest)
        requires
            payload_encodable(self.payload),
        ensures
            r@ == payload_hash(self.payload),
    {
        self.payload.hash()
    }

    /// Adds a signature of the hash by the key pair (`public_key`, `private_key`);
    /// `None` when the private key is not an Ed25519 key pair.
    pub fn sign(self, public_key: &Vec<u8>, private_key: &Vec<u8>) -> (r: Option<Transaction>)
        requires
            payload_encodable(self.payload),
        ensures
            r is Some <==> ed25519_sign_of(private_key@, payload_hash(self.payload)) is Some,
            r is Some ==> r->0.payload == self.payload && r->0.signatures@.len() == self.signatures@.len() + 1
                && r->0.signatures@.subrange(0, self.signatures@.len() as int) == self.signatures@
                && r->0.signatures@.last().public_key@ == public_key@
                && r->0.signatures@.last().signature@ == ed25519_sign_of(private_key@, payload_hash(self.payload))->0,
    {
        let h = self.payload.hash();
        match ed25519_sign(private_key, h.bytes.as_slice()) {
            Some(signature) => {
                let mut tx = self;
                tx.signatures.push(Signature { public_key: public_key.clone(), signature });
                assert(tx.signatures@.subrange(0, self.signatures@.len() as int) =~= self.signatures@);
                Some(tx)
            },
            None => None,
        }
    }

    /// Checks that there are at most `max_instruction_len` instructions.
    pub fn check_instruction_len(&self, max_instruction_len: usize) -> (r: Result<(), TransactionError>)
        ensures
            r is Ok <==> self.payload.instructions@.len() <= max_instruction_len,
            r is Err ==> r == Err::<(), TransactionError>(TransactionError::TooManyInstructions),
    {
        self.payload.check_instruction_len(max_instruction_len)
    }
}

/// Index of the first signature that does not verify against `hash`, if any.
fn first_bad_signature(hash: &Digest, signatures: &Vec<Signature>, Ghost(p): Ghost<Payload>) -> (r: Option<usize>)
    requires
        hash@ == payload_hash(p),
    ensures
        r is None <==> all_sigs_ok(p, signatures@),
        r is Some ==> r->0 < signatures@.len() && !tx_sig_ok(p, signatures@[r->0 as int])
            && forall|j: int| 0 <= j < r->0 ==> tx_sig_ok(p, signatures@[j]),
{
    let mut i: usize = 0;
    while i < signatures.len()
        invariant
            i <= signatures@.len(),
            hash@ == payload_hash(p),
            forall|j: int| 0 <= j < i ==> tx_sig_ok(p, signatures@[j]),
        decreases signatures@.len() - i,
    {
        let s = &signatures[i];
        if !ed25519_verify(&s.public_key, hash.bytes.as_slice(), &s.signature) {
            return Some(i);
        }
        i += 1;
    }
    None
}

/// The ledger state that instructions act on, as the transaction lifecycle
/// sees it.
pub trait WorldStateView: Sized {
    /// A copy of this state, to run instructions against without touching it.
    fn clone_state(&self) -> Self;

    /// The state after `authority` runs `instruction` on this state, or why it failed.
    fn execute(&self, authority: &AccountId, instruction: &Instruction) -> Result<Self, String>;

    /// Whether the signatures satisfy the signature condition of `account`, or
    /// why the condition could not be evaluated (the account may be unknown).
    fn check_signature_condition(&self, account: &AccountId, signatures: &Vec<Signature>) -> Result<bool, String>;

    /// Whether a transaction with this hash is already committed or rejected.
    fn has_transaction(&self, hash: &Digest) -> bool;
}

/// The permission rules that a non-genesis instruction must pass; users of the
/// library supply them.
pub trait PermissionsValidator<W: WorldStateView> {
    /// What the rules decide for `authority` running `instruction` on `wsv`.
    spec fn permits(&self, authority: AccountId, instruction: Instruction, wsv: W) -> Result<(), String>;

    /// Whether `authority` may run `instruction` on `wsv`, or why not.
    fn check_instruction(&self, authority: &AccountId, instruction: &Instruction, wsv: &W) -> (r: Result<(), String>)
        ensures
            r == self.permits(*authority, *instruction, *wsv);
}

/// Whether the rules permit every instruction of `p` on the state `wsv`.
pub open spec fn all_permitted<W: WorldStateView, P: PermissionsValidator<W>>(rules: P, p: Payload, wsv: W) -> bool {
    forall|i: int| 0 <= i < p.instructions@.len() ==> (#[trigger] rules.permits(p.account_id, p.instructions@[i], wsv)) is Ok
}

/// Whether `reason` is what the rules gave for the first refused instruction of
/// `p` on the state `wsv`: every earlier instruction is permitted.
pub open spec fn first_refusal<W: WorldStateView, P: PermissionsValidator<W>>(rules: P, p: Payload, wsv: W, reason: Seq<char>) -> bool {
    exists|i: int| #![trigger p.instructions@[i]] 0 <= i < p.instructions@.len()
        && (rules.permits(p.account_id, p.instructions@[i], wsv) matches Err(e) && e@ == reason)
        && forall|j: int| 0 <= j < i ==> (#[trigger] rules.permits(p.account_id, p.instructions@[j], wsv)) is Ok
}

/// Text of the rejection for a signature condition that does not hold.
pub const CONDITION_NOT_SATISFIED: &'static str = "Signature condition not satisfied.";

/// Text of the rejection for a signature that does not verify.
pub const SIGNATURE_NOT_VERIFIED: &'static str = "Signature verification failed";

/// Whether the genesis guard refuses: a transaction of the genesis account
/// outside the genesis block.
pub open spec fn guard_refuses(p: Payload, is_genesis: bool) -> bool {
    !is_genesis && p.account_id.is_genesis_spec()
}

/// Whether `sigs[i]` is the first signature that does not verify against the
/// hash of `p`.
pub open spec fn first_bad_signature_at(p: Payload, sigs: Seq<Signature>, i: int) -> bool {
    &&& 0 <= i < sigs.len()
    &&& !tx_sig_ok(p, sigs[i])
    &&& forall|j: int| 0 <= j < i ==> tx_sig_ok(p, sigs[j])
}

/// Whether `reason` is a rejection that validation can give for payload `p`
/// with signatures `sigs`: each check is reached only when the ones before it
/// pass, a signature rejection names the first bad signature, an execution
/// rejection names one of the instructions, and a permission rejection comes
/// only outside the genesis block.
pub open spec fn rejection_fits(p: Payload, sigs: Seq<Signature>, is_genesis: bool, reason: TransactionRejectionReason) -> bool {
    match reason {
        TransactionRejectionReason::UnexpectedGenesisAccountSignature => guard_refuses(p, is_genesis),
        TransactionRejectionReason::SignatureVerification(f) => {
            &&& !guard_refuses(p, is_genesis)
            &&& exists|i: int| first_bad_signature_at(p, sigs, i) && f.signature.public_key@ == sigs[i].public_key@
                && f.signature.signature@ == sigs[i].signature@ && f.reason@ == SIGNATURE_NOT_VERIFIED@
        },
        TransactionRejectionReason::UnsatisfiedSignatureCondition(_) => !guard_refuses(p, is_genesis) && all_sigs_ok(p, sigs),
        TransactionRejectionReason::InstructionExecution { instruction, reason: _ } => {
            &&& !guard_refuses(p, is_genesis)
            &&& all_sigs_ok(p, sigs)
            &&& exists|i: int| 0 <= i < p.instructions@.len() && instruction@ == p.instructions@[i]@
        },
        TransactionRejectionReason::NotPermitted(_) => {
            !is_genesis && !guard_refuses(p, is_genesis) && all_sigs_ok(p, sigs) && p.instructions@.len() > 0
        },
    }
}

/// The rejection, if any, for the first bad signature found (`None` when all verify).
pub fn signature_outcome(signatures: &Vec<Signature>, first_bad: Option<usize>) -> (r: Option<TransactionRejectionReason>)
    requires
        first_bad is Some ==> first_bad->0 < signatures@.len(),
    ensures
        first_bad is None <==> r is None,
        first_bad matches Some(i) ==> (r matches Some(TransactionRejectionReason::SignatureVerification(f))
            && f.signature.public_key@ == signatures@[i as int].public_key@
            && f.signature.signature@ == signatures@[i as int].signature@ && f.reason@ == SIGNATURE_NOT_VERIFIED@),
{
    match first_bad {
        Some(i) => Some(
            TransactionRejectionReason::SignatureVerification(
                SignatureVerificationFail { signature: signatures[i].clone(), reason: SIGNATURE_NOT_VERIFIED.to_owned() },
            ),
        ),
        None => None,
    }
}

/// The rejection, if any, for what the account's signature condition gave:
/// none when it holds, a fixed text when it does not, and the condition's own
/// error when it could not be evaluated.
pub fn condition_outcome(condition: Result<bool, String>) -> (r: Option<TransactionRejectionReason>)
    ensures
        (condition is Ok && condition->Ok_0) <==> r is None,
        (condition is Ok && !condition->Ok_0) ==> (r matches Some(TransactionRejectionReason::UnsatisfiedSignatureCondition(s))
            && s@ == CONDITION_NOT_SATISFIED@),
        condition matches Err(e) ==> (r matches Some(TransactionRejectionReason::UnsatisfiedSignatureCondition(s)) && s@ == e@),
{
    match condition {
        Ok(true) => None,
        Ok(false) => Some(TransactionRejectionReason::UnsatisfiedSignatureCondition(CONDITION_NOT_SATISFIED.to_owned())),
        Err(reason) => Some(TransactionRejectionReason::UnsatisfiedSignatureCondition(reason)),
    }
}

/// The state after `instruction` ran, or the rejection when it failed, which
/// names the instruction and carries the execution's error.
pub fn execution_outcome<W>(executed: Result<W, String>, instruction: &Instruction) -> (r: Result<W, TransactionRejectionReason>)
    ensures
        executed is Ok <==> r is Ok,
        executed matches Ok(v) ==> (r matches Ok(w) && w == v),
        executed matches Err(e) ==> (r matches Err(TransactionRejectionReason::InstructionExecution { instruction: i, reason })
            && i@ == instruction@ && reason@ == e@),
{
    match executed {
        Ok(next) => Ok(next),
        Err(reason) => Err(TransactionRejectionReason::InstructionExecution { instruction: instruction.clone(), reason }),
    }
}

/// The rejection, if any, for what the permission check gave.
pub fn permission_outcome(permission: Result<(), String>) -> (r: Option<TransactionRejectionReason>)
    ensures
        permission is Ok <==> r is None,
        permission matches Err(e) ==> (r matches Some(TransactionRejectionReason::NotPermitted(s)) && s@ == e@),
{
    match permission {
        Ok(()) => None,
        Err(reason) => Some(TransactionRejectionReason::NotPermitted(reason)),
    }
}

/// A signature that failed verification, and why.
pub struct SignatureVerificationFail {
    pub signature: Signature,
    pub reason: String,
}

/// Why a transaction was rejected.
pub enum TransactionRejectionReason {
    /// A transaction of the genesis account outside the genesis block.
    UnexpectedGenesisAccountSignature,
    /// A signature does not verify against the transaction's hash.
    SignatureVerification(SignatureVerificationFail),
    /// The account's signature condition is false or could not be evaluated.
    UnsatisfiedSignatureCondition(String),
    /// An instruction failed to execute.
    InstructionExecution { instruction: Instruction, reason: String },
    /// An instruction is not permitted.
    NotPermitted(String),
}

/// A transaction whose signatures verified and whose size is within bounds.
pub struct AcceptedTransaction {
    pub payload: Payload,
    pub signatures: Vec<Signature>,
}

/// A transaction whose instructions ran without error against the world state.
pub struct ValidTransaction {
    pub payload: Payload,
    pub signatures: Vec<Signature>,
}

/// A transaction that was rejected, with the reason.
pub struct RejectedTransaction {
    pub payload: Payload,
    pub signatures: Vec<Signature>,
    pub rejection_reason: TransactionRejectionReason,
}

impl AcceptedTransaction {
    /// Accepts `transaction` when it has at most `max_instruction_number`
    /// instructions and every signature verifies against its hash.
    pub fn from_transaction(transaction: Transaction, max_instruction_number: usize) -> (r: Result<AcceptedTransaction, TransactionError>)
        requires
            payload_encodable(transaction.payload),
        ensures
            transaction.payload.instructions@.len() > max_instruction_number ==> r == Err::<AcceptedTransaction, TransactionError>(TransactionError::TooManyInstructions),
            transaction.payload.instructions@.len() <= max_instruction_number && !all_sigs_ok(transaction.payload, transaction.signatures@)
                ==> r == Err::<AcceptedTransaction, TransactionError>(TransactionError::SignatureVerification),
            transaction.payload.instructions@.len() <= max_instruction_number && all_sigs_ok(transaction.payload, transaction.signatures@)
                ==> r is Ok && r->Ok_0.payload == transaction.payload && r->Ok_0.signatures == transaction.signatures,
    {
        transaction.check_instruction_len(max_instruction_number)?;
        let hash = transaction.hash();
        if first_bad_signature(&hash, &transaction.signatures, Ghost(transaction.payload)).is_some() {
            return Err(TransactionError::SignatureVerification);
        }
        Ok(AcceptedTransaction { payload: transaction.payload, signatures: transaction.signatures })
    }

    /// The hash of the transaction.
    pub fn hash(&self) -> (r: Digest)
        requires
            payload_encodable(self.payload),
        ensures
            r@ == payload_hash(self.payload),
    {
        self.payload.hash()
    }

    /// Checks that there are at most `max_instruction_len` instructions.
    pub fn check_instruction_len(&self, max_instruction_len: usize) -> (r: Result<(), TransactionError>)
        ensures
            r is Ok <==> self.payload.instructions@.len() <= max_instruction_len,
    {
        self.payload.check_instruction_len(max_instruction_len)
    }

    /// Whether, at time `now_ms`, the transaction has waited longer than the
    /// lesser of its own time to live and `transaction_time_to_live_ms`.
    pub fn is_expired(&self, transaction_time_to_live_ms: u64, now_ms: u64) -> (r: bool)
        ensures
            r == (now_ms - self.payload.creation_time > min_u64(self.payload.time_to_live_ms, transaction_time_to_live_ms)),
    {
        let ttl = if self.payload.time_to_live_ms < transaction_time_to_live_ms {
            self.payload.time_to_live_ms
        } else {
            transaction_time_to_live_ms
        };
        if now_ms < self.payload.creation_time {
            false
        } else {
            now_ms - self.payload.creation_time > ttl
        }
    }

    /// Whether the account's signature condition holds for the signatures.
    pub fn check_signature_condition<W: WorldStateView>(&self, world_state_view: &W) -> (r: Result<bool, String>) {
        world_state_view.check_signature_condition(&self.payload.account_id, &self.signatures)
    }

    /// Rejects the transaction for `rejection_reason`.
    pub fn reject(self, rejection_reason: TransactionRejectionReason) -> (r: RejectedTransaction)
        ensures
            r.payload == self.payload,
            r.signatures == self.signatures,
            r.rejection_reason == rejection_reason,
    {
        RejectedTransaction { payload: self.payload, signatures: self.signatures, rejection_reason }
    }

    /// Whether the transaction is already committed or rejected.
    pub fn is_in_blockchain<W: WorldStateView>(&self, world_state_view: &W) -> (r: bool)
        requires
            payload_encodable(self.payload),
    {
        world_state_view.has_transaction(&self.hash())
    }

    fn validate_internal<W: WorldStateView, P: PermissionsValidator<W>>(
        &self,
        world_state_view: &W,
        permissions_validator: &P,
        is_genesis: bool,
    ) -> (r: Result<(), TransactionRejectionReason>)
        requires
            payload_encodable(self.payload),
        ensures
            guard_refuses(self.payload, is_genesis) ==> r is Err,
            !all_sigs_ok(self.payload, self.signatures@) ==> r is Err,
            r is Ok ==> !guard_refuses(self.payload, is_genesis) && all_sigs_ok(self.payload, self.signatures@),
            r matches Err(reason) ==> rejection_fits(self.payload, self.signatures@, is_genesis, reason),
            r is Ok && !is_genesis ==> all_permitted(*permissions_validator, self.payload, *world_state_view),
            r matches Err(TransactionRejectionReason::NotPermitted(s)) ==> first_refusal(
                *permissions_validator,
                self.payload,
                *world_state_view,
                s@,
            ),
    {
        if !is_genesis && self.payload.account_id.is_genesis() {
            return Err(TransactionRejectionReason::UnexpectedGenesisAccountSignature);
        }
        let hash = self.hash();
        let first_bad = first_bad_signature(&hash, &self.signatures, Ghost(self.payload));
        match signature_outcome(&self.signatures, first_bad) {
            Some(reason) => {
                assert(first_bad_signature_at(self.payload, self.signatures@, first_bad->0 as int));
                return Err(reason);
            },
            None => {},
        }
        match condition_outcome(self.check_signature_condition(world_state_view)) {
            Some(reason) => {
                return Err(reason);
            },
            None => {},
        }
        let mut world_state_view_temp = world_state_view.clone_state();
        let mut i: usize = 0;
        while i < self.payload.instructions.len()
            invariant
                i <= self.payload.instructions@.len(),
                !guard_refuses(self.payload, is_genesis),
                all_sigs_ok(self.payload, self.signatures@),
                !is_genesis ==> forall|j: int| 0 <= j < i ==> (#[trigger] (*permissions_validator).permits(
                    self.payload.account_id,
                    self.payload.instructions@[j],
                    *world_state_view,
                )) is Ok,
            decreases self.payload.instructions@.len() - i,
        {
            let instruction = &self.payload.instructions[i];
            let executed = world_state_view_temp.execute(&self.payload.account_id, instruction);
            match execution_outcome(executed, instruction) {
                Ok(next) => {
                    world_state_view_temp = next;
                },
                Err(reason) => {
                    assert(instruction@ == self.payload.instructions@[i as int]@);
                    return Err(reason);
                },
            }
            if !is_genesis {
                let permission = permissions_validator.check_instruction(&self.payload.account_id, instruction, world_state_view);
                assert(*instruction == self.payload.instructions@[i as int]);
                match permission_outcome(permission) {
                    Some(reason) => {
                        proof {
                            let ii = i as int;
                            assert(0 <= ii < self.payload.instructions@.len());
                            assert((*permissions_validator).permits(
                                self.payload.account_id,
                                self.payload.instructions@[ii],
                                *world_state_view,
                            ) is Err);
                        }
                        return Err(reason);
                    },
                    None => {},
                }
            }
            i += 1;
        }
        Ok(())
    }

    /// Moves the transaction forward: genesis-account guard, signature check,
    /// signature condition, then each instruction against a copy of the world
    /// state, with a permission check where this is not the genesis block. The
    /// world state itself is left as it is.
    pub fn validate<W: WorldStateView, P: PermissionsValidator<W>>(
        self,
        world_state_view: &W,
        permissions_validator: &P,
        is_genesis: bool,
    ) -> (r: Result<ValidTransaction, RejectedTransaction>)
        requires
            payload_encodable(self.payload),
        ensures
            r matches Ok(v) ==> v.payload == self.payload && v.signatures == self.signatures,
            r matches Err(j) ==> j.payload == self.payload && j.signatures == self.signatures,
            guard_refuses(self.payload, is_genesis) ==> r is Err,
            !all_sigs_ok(self.payload, self.signatures@) ==> r is Err,
            r is Ok ==> !guard_refuses(self.payload, is_genesis) && all_sigs_ok(self.payload, self.signatures@),
            r matches Err(j) ==> rejection_fits(self.payload, self.signatures@, is_genesis, j.rejection_reason),
            r is Ok && !is_genesis ==> all_permitted(*permissions_validator, self.payload, *world_state_view),
            r matches Err(j) ==> (j.rejection_reason is NotPermitted ==> first_refusal(
                *permissions_validator,
                self.payload,
                *world_state_view,
                j.rejection_reason->NotPermitted_0@,
            )),
    {
        match self.validate_internal(world_state_view, permissions_validator, is_genesis) {
            Ok(()) => Ok(ValidTransaction { payload: self.payload, signatures: self.signatures }),
            Err(reason) => Err(self.reject(reason)),
        }
    }
}

/// The lesser of two integers.
pub open spec fn min_u64(a: u64, b: u64) -> u64 {
    if a < b { a } else { b }
}

impl ValidTransaction {
    /// The hash of the transaction.
    pub fn hash(&self) -> (r: Digest)
        requires
            payload_encodable(self.payload),
        ensures
            r@ == payload_hash(self.payload),
    {
        self.payload.hash()
    }

    /// Checks that there are at most `max_instruction_len` instructions.
    pub fn check_instruction_len(&self, max_instruction_len: usize) -> (r: Result<(), TransactionError>)
        ensures
            r is Ok <==> self.payload.instructions@.len() <= max_instruction_len,
    {
        self.payload.check_instruction_len(max_instruction_len)
    }

    /// Runs the instructions against a copy of `world_state_view` and, when all
    /// succeed, replaces the state with the copy; on a failure the state is left
    /// untouched.
    pub fn proceed<W: WorldStateView>(&self, world_state_view: &mut W) -> (r: Result<(), String>)
        ensures
            r is Err ==> *final(world_state_view) == *old(world_state_view),
            self.payload.instructions@.len() == 0 ==> r is Ok && *final(world_state_view) == *old(world_state_view),
    {
        if self.payload.instructions.len() == 0 {
            return Ok(());
        }
        let mut world_state_view_temp = world_state_view.clone_state();
        let mut i: usize = 0;
        while i < self.payload.instructions.len()
            invariant
                i <= self.payload.instructions@.len(),
                *world_state_view == *old(world_state_view),
            decreases self.payload.instructions@.len() - i,
        {
            world_state_view_temp = world_state_view_temp.execute(&self.payload.account_id, &self.payload.instructions[i])?;
            i += 1;
        }
        *world_state_view = world_state_view_temp;
        Ok(())
    }

    /// Whether the transaction is already committed or rejected.
    pub fn is_in_blockchain<W: WorldStateView>(&self, world_state_view: &W) -> (r: bool)
        requires
            payload_encodable(self.payload),
    {
        world_state_view.has_transaction(&self.hash())
    }

    /// Rejects the transaction for `rejection_reason`.
    pub fn reject(self, rejection_reason: TransactionRejectionReason) -> (r: RejectedTransaction)
        ensures
            r.payload == self.payload,
            r.signatures == self.signatures,
            r.rejection_reason == rejection_reason,
    {
        RejectedTransaction { payload: self.payload, signatures: self.signatures, rejection_reason }
    }
}

impl RejectedTransaction {
    /// The hash of the transaction.
    pub fn hash(&self) -> (r: Digest)
        requires
            payload_encodable(self.payload),
        ensures
            r@ == payload_hash(self.payload),
    {
        self.payload.hash()
    }

    /// Whether the transaction is already committed or rejected.
    pub fn is_in_blockchain<W: WorldStateView>(&self, world_state_view: &W) -> (r: bool)
        requires
            payload_encodable(self.payload),
    {
        world_state_view.has_transaction(&self.hash())
    }
}

/// A transaction has one hash in every state of its lifecycle: accepting,
/// validating and rejecting keep the payload, and the hash of each state is the
/// hash of its payload.
pub proof fn lemma_hash_stable_across_states(
    transaction: Transaction,
    accepted: AcceptedTransaction,
    valid: ValidTransaction,
    rejected: RejectedTransaction,
)
    requires
        accepted.payload == transaction.payload,
        valid.payload == accepted.payload,
        rejected.payload == accepted.payload,
    ensures
        payload_hash(accepted.payload) == payload_hash(transaction.payload),
        payload_hash(valid.payload) == payload_hash(transaction.payload),
        payload_hash(rejected.payload) == payload_hash(transaction.payload),
{
}

/// An accepted transaction in a versioned envelope.
pub enum VersionedAcceptedTransaction {
    V1(AcceptedTransaction),
}

impl VersionedAcceptedTransaction {
    /// The transaction inside the envelope.
    pub open spec fn inner(&self) -> AcceptedTransaction {
        match self {
            VersionedAcceptedTransaction::V1(v1) => *v1,
        }
    }

    /// The transaction inside the envelope.
    pub fn as_inner_v1(&self) -> (r: &AcceptedTransaction)
        ensures
            *r == self.inner(),
    {
        match self {
            VersionedAcceptedTransaction::V1(v1) => v1,
        }
    }

    /// The transaction inside the envelope, taken out of it.
    pub fn into_inner_v1(self) -> (r: AcceptedTransaction)
        ensures
            r == self.inner(),
    {
        match self {
            VersionedAcceptedTransaction::V1(v1) => v1,
        }
    }

    /// Accepts `transaction` as [`AcceptedTransaction::from_transaction`] does.
    pub fn from_transaction(transaction: Transaction, max_instruction_number: usize) -> (r: Result<VersionedAcceptedTransaction, TransactionError>)
        requires
            payload_encodable(transaction.payload),
        ensures
            transaction.payload.instructions@.len() > max_instruction_number
                ==> r == Err::<VersionedAcceptedTransaction, TransactionError>(TransactionError::TooManyInstructions),
            transaction.payload.instructions@.len() <= max_instruction_number && !all_sigs_ok(transaction.payload, transaction.signatures@)
                ==> r == Err::<VersionedAcceptedTransaction, TransactionError>(TransactionError::SignatureVerification),
            transaction.payload.instructions@.len() <= max_instruction_number && all_sigs_ok(transaction.payload, transaction.signatures@)
                ==> r is Ok && r->Ok_0.inner().payload == transaction.payload,
    {
        match AcceptedTransaction::from_transaction(transaction, max_instruction_number) {
            Ok(a) => Ok(VersionedAcceptedTransaction::V1(a)),
            Err(e) => Err(e),
        }
    }

    /// The hash of the transaction.
    pub fn hash(&self) -> (r: Digest)
        requires
            payload_encodable(self.inner().payload),
        ensures
            r@ == payload_hash(self.inner().payload),
    {
        self.as_inner_v1().hash()
    }

    /// Whether the transaction has expired at `now_ms`; see [`AcceptedTransaction::is_expired`].
    pub fn is_expired(&self, transaction_time_to_live_ms: u64, now_ms: u64) -> (r: bool)
        ensures
            r == (now_ms - self.inner().payload.creation_time > min_u64(
                self.inner().payload.time_to_live_ms,
                transaction_time_to_live_ms,
            )),
    {
        self.as_inner_v1().is_expired(transaction_time_to_live_ms, now_ms)
    }

    /// Validates the transaction as [`AcceptedTransaction::validate`] does.
    pub fn validate<W: WorldStateView, P: PermissionsValidator<W>>(
        self,
        world_state_view: &W,
        permissions_validator: &P,
        is_genesis: bool,
    ) -> (r: Result<VersionedValidTransaction, RejectedTransaction>)
        requires
            payload_encodable(self.inner().payload),
        ensures
            r matches Ok(v) ==> v.inner().payload == self.inner().payload && v.inner().signatures == self.inner().signatures,
            r matches Err(j) ==> j.payload == self.inner().payload && j.signatures == self.inner().signatures,
            guard_refuses(self.inner().payload, is_genesis) ==> r is Err,
            !all_sigs_ok(self.inner().payload, self.inner().signatures@) ==> r is Err,
            r is Ok ==> !guard_refuses(self.inner().payload, is_genesis) && all_sigs_ok(self.inner().payload, self.inner().signatures@),
            r matches Err(j) ==> rejection_fits(self.inner().payload, self.inner().signatures@, is_genesis, j.rejection_reason),
            r is Ok && !is_genesis ==> all_permitted(*permissions_validator, self.inner().payload, *world_state_view),
            r matches Err(j) ==> (j.rejection_reason is NotPermitted ==> first_refusal(
                *permissions_validator,
                self.inner().payload,
                *world_state_view,
                j.rejection_reason->NotPermitted_0@,
            )),
    {
        match self.into_inner_v1().validate(world_state_view, permissions_validator, is_genesis) {
            Ok(v) => Ok(VersionedValidTransaction::V1(v)),
            Err(j) => Err(j),
        }
    }

    /// Whether the account's signature condition holds for the signatures.
    pub fn check_signature_condition<W: WorldStateView>(&self, world_state_view: &W) -> (r: Result<bool, String>) {
        self.as_inner_v1().check_signature_condition(world_state_view)
    }

    /// Rejects the transaction for `rejection_reason`.
    pub fn reject(self, rejection_reason: TransactionRejectionReason) -> (r: RejectedTransaction)
        ensures
            r.payload == self.inner().payload,
            r.signatures == self.inner().signatures,
            r.rejection_reason == rejection_reason,
    {
        self.into_inner_v1().reject(rejection_reason)
    }

    /// Whether the transaction is already committed or rejected.
    pub fn is_in_blockchain<W: WorldStateView>(&self, world_state_view: &W) -> (r: bool)
        requires
            payload_encodable(self.inner().payload),
    {
        self.as_inner_v1().is_in_blockchain(world_state_view)
    }

    /// Checks that there are at most `max_instruction_len` instructions.
    pub fn check_instruction_len(&self, max_instruction_len: usize) -> (r: Result<(), TransactionError>)
        ensures
            r is Ok <==> self.inner().payload.instructions@.len() <= max_instruction_len,
    {
        self.as_inner_v1().check_instruction_len(max_instruction_len)
    }
}

/// A valid transaction in a versioned envelope.
pub enum VersionedValidTransaction {
    V1(ValidTransaction),
}

impl VersionedValidTransaction {
    /// The transaction inside the envelope.
    pub open spec fn inner(&self) -> ValidTransaction {
        match self {
            VersionedValidTransaction::V1(v1) => *v1,
        }
    }

    /// The transaction inside the envelope.
    pub fn as_inner_v1(&self) -> (r: &ValidTransaction)
        ensures
            *r == self.inner(),
    {
        match self {
            VersionedValidTransaction::V1(v1) => v1,
        }
    }

    /// The transaction inside the envelope, taken out of it.
    pub fn into_inner_v1(self) -> (r: ValidTransaction)
        ensures
            r == self.inner(),
    {
        match self {
            VersionedValidTransaction::V1(v1) => v1,
        }
    }

    /// Applies the instructions as [`ValidTransaction::proceed`] does.
    pub fn proceed<W: WorldStateView>(&self, world_state_view: &mut W) -> (r: Result<(), String>)
        ensures
            r is Err ==> *final(world_state_view) == *old(world_state_view),
            self.inner().payload.instructions@.len() == 0 ==> r is Ok && *final(world_state_view) == *old(world_state_view),
    {
        self.as_inner_v1().proceed(world_state_view)
    }

    /// The hash of the transaction.
    pub fn hash(&self) -> (r: Digest)
        requires
            payload_encodable(self.inner().payload),
        ensures
            r@ == payload_hash(self.inner().payload),
    {
        self.as_inner_v1().hash()
    }

    /// Whether the transaction is already committed or rejected.
    pub fn is_in_blockchain<W: WorldStateView>(&self, world_state_view: &W) -> (r: bool)
        requires
            payload_encodable(self.inner().payload),
    {
        self.as_inner_v1().is_in_blockchain(world_state_view)
    }

    /// Checks that there are at most `max_instruction_len` instructions.
    pub fn check_instruction_len(&self, max_instruction_len: usize) -> (r: Result<(), TransactionError>)
        ensures
            r is Ok <==> self.inner().payload.instructions@.len() <= max_instruction_len,
    {
        self.as_inner_v1().check_instruction_len(max_instruction_len)
    }
}

} // verus!
