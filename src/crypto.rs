//! Cryptographic primitives: digests, signatures, key exchange and the
//! symmetric cipher of the peer transport, plus the byte-level encoding
//! helpers shared by everything that is hashed or signed.
use vstd::prelude::*;
use ursa::blake2::digest::{Update, VariableOutput};
use ursa::encryption::symm::prelude::ChaCha20Poly1305;
use ursa::encryption::symm::SymmetricEncryptor;
use ursa::kex::x25519::X25519Sha256;
use ursa::kex::KeyExchangeScheme;
use ursa::signatures::ed25519::Ed25519Sha512;
use ursa::signatures::SignatureScheme;
use rand::{Rng, RngCore};

verus! {

/// Width in bytes of every digest.
pub const HASH_LENGTH: usize = 32;

/// The 32-byte Blake2b digest of `data`.
pub uninterp spec fn blake2b_of(data: Seq<u8>) -> Seq<u8>;

/// The Ed25519 signature of `msg` under the expanded secret key `sk`, or `None`
/// where `sk` is not a well-formed key pair.
pub uninterp spec fn ed25519_sign_of(sk: Seq<u8>, msg: Seq<u8>) -> Option<Seq<u8>>;

/// Whether `sig` is a valid Ed25519 signature of `msg` under public key `pk`.
pub uninterp spec fn ed25519_valid(pk: Seq<u8>, msg: Seq<u8>, sig: Seq<u8>) -> bool;

/// The X25519 session key (SHA-256 of the Diffie-Hellman point) of a local
/// secret key and a remote public key.
pub uninterp spec fn x25519_shared_of(sk: Seq<u8>, pk: Seq<u8>) -> Seq<u8>;

/// The plaintext of a ChaCha20-Poly1305 message `ct` (nonce, ciphertext and tag)
/// under `key` and associated data `aad`, or `None` where authentication fails.
pub uninterp spec fn chacha_open_of(key: Seq<u8>, aad: Seq<u8>, ct: Seq<u8>) -> Option<Seq<u8>>;

/// A digest of a canonically encoded value.
pub struct Digest {
    pub bytes: Vec<u8>,
}

impl View for Digest {
    type V = Seq<u8>;

    open spec fn view(&self) -> Seq<u8> {
        self.bytes@
    }
}

impl Clone for Digest {
    fn clone(&self) -> (r: Self)
        ensures
            r@ == self@,
    {
        Digest { bytes: self.bytes.clone() }
    }
}

/// Relies on ursa's re-export of `blake2::VarBlake2b` with a 32-byte output.
#[verifier::external_body]
pub(crate) fn hash_bytes(data: &[u8]) -> (r: Digest)
    ensures
        r@ == blake2b_of(data@),
        r@.len() == HASH_LENGTH,
{
    let mut hasher = ursa::blake2::VarBlake2b::new(HASH_LENGTH).expect("valid output size");
    hasher.update(data);
    Digest { bytes: hasher.finalize_boxed().into_vec() }
}

/// Relies on ursa's `Ed25519Sha512::sign`, which is deterministic and fails only
/// where the key bytes are not an Ed25519 key pair.
#[verifier::external_body]
pub(crate) fn ed25519_sign(sk: &Vec<u8>, msg: &[u8]) -> (r: Option<Vec<u8>>)
    ensures
        r is Some <==> ed25519_sign_of(sk@, msg@) is Some,
        r is Some ==> r->0@ == ed25519_sign_of(sk@, msg@)->0,
{
    let key = ursa::keys::PrivateKey(sk.clone());
    Ed25519Sha512::new().sign(msg, &key).ok()
}

/// Relies on ursa's `Ed25519Sha512::verify`, which returns `Ok` only for a valid
/// signature and reports malformed keys or signatures as errors.
#[verifier::external_body]
pub(crate) fn ed25519_verify(pk: &Vec<u8>, msg: &[u8], sig: &Vec<u8>) -> (r: bool)
    ensures
        r == ed25519_valid(pk@, msg@, sig@),
{
    let key = ursa::keys::PublicKey(pk.clone());
    Ed25519Sha512::new().verify(msg, sig.as_slice(), &key).is_ok()
}


/// Relies on ursa's `X25519Sha256::keypair` with no option, which draws a fresh
/// secret key from the operating system and always succeeds: 32-byte public
/// and secret keys.
#[verifier::external_body]
pub(crate) fn x25519_keypair() -> (r: Option<(Vec<u8>, Vec<u8>)>)
    ensures
        r is Some,
        r is Some ==> (r->0).0@.len() == 32 && (r->0).1@.len() == 32,
{
    let (pk, sk) = X25519Sha256::new().keypair(None).ok()?;
    Some((pk.0.clone(), sk.0.clone()))
}

/// Relies on ursa's `X25519Sha256::compute_shared_secret`, which always succeeds
/// on 32-byte keys and yields a 32-byte SHA-256 digest.
#[verifier::external_body]
pub(crate) fn x25519_shared(sk: &Vec<u8>, pk: &Vec<u8>) -> (r: Option<Vec<u8>>)
    requires
        sk@.len() == 32,
        pk@.len() == 32,
    ensures
        r is Some,
        r is Some ==> r->0@ == x25519_shared_of(sk@, pk@) && r->0@.len() == 32,
{
    let local = ursa::keys::PrivateKey(sk.clone());
    let remote = ursa::keys::PublicKey(pk.clone());
    X25519Sha256::new().compute_shared_secret(&local, &remote).ok().map(|k| k.0.clone())
}

/// Relies on ursa's `SymmetricEncryptor<ChaCha20Poly1305>::encrypt_easy`, which
/// draws a fresh 12-byte nonce for every message and returns it in front of the
/// ciphertext and its 16-byte tag: 28 bytes more than the plaintext. Whatever the
/// nonce, `decrypt_easy` with the same key and associated data gives the
/// plaintext back, provided the result reaches its 36-byte minimum, that is for
/// plaintexts of at least 8 bytes.
#[verifier::external_body]
pub(crate) fn chacha_seal(key: &Vec<u8>, aad: &[u8], plaintext: &[u8]) -> (r: Option<Vec<u8>>)
    requires
        key@.len() == 32,
    ensures
        r is Some ==> r->0@.len() == plaintext@.len() + 28,
        r is Some && plaintext@.len() >= 8 ==> chacha_open_of(key@, aad@, r->0@) == Some(plaintext@),
{
    let cipher = SymmetricEncryptor::<ChaCha20Poly1305>::new_with_key(key.as_slice()).ok()?;
    cipher.encrypt_easy(aad, plaintext).ok()
}

/// Relies on ursa's `SymmetricEncryptor<ChaCha20Poly1305>::decrypt_easy`, which
/// refuses input shorter than 36 bytes (nonce and tag, plus 8), then reads the
/// nonce off the front of `ct` and checks the tag.
#[verifier::external_body]
pub(crate) fn chacha_open(key: &Vec<u8>, aad: &[u8], ct: &[u8]) -> (r: Option<Vec<u8>>)
    requires
        key@.len() == 32,
    ensures
        r is Some <==> chacha_open_of(key@, aad@, ct@) is Some,
        r is Some ==> r->0@ == chacha_open_of(key@, aad@, ct@)->0,
        ct@.len() < 36 ==> r is None,
{
    let cipher = SymmetricEncryptor::<ChaCha20Poly1305>::new_with_key(key.as_slice()).ok()?;
    cipher.decrypt_easy(aad, ct).ok()
}

/// Relies on rand's `Rng::gen_range(low, high)`, which draws from `[low, high)`.
#[verifier::external_body]
pub(crate) fn random_in_range(low: usize, high: usize) -> (r: usize)
    requires
        low < high,
    ensures
        low <= r < high,
{
    rand::thread_rng().gen_range(low, high)
}

/// Relies on rand's `RngCore::fill_bytes`, which overwrites the buffer in place.
#[verifier::external_body]
pub(crate) fn fill_random(buf: &mut Vec<u8>)
    ensures
        final(buf)@.len() == old(buf)@.len(),
{
    rand::thread_rng().fill_bytes(buf.as_mut_slice())
}

/// The `k` low-order bytes of `v`, least significant first.
pub open spec fn le_bytes(v: nat, k: nat) -> Seq<u8>
    decreases k,
{
    if k == 0 {
        Seq::empty()
    } else {
        seq![(v % 256) as u8] + le_bytes(v / 256, (k - 1) as nat)
    }
}

/// The compact encoding of a 32-bit length: two mode bits in the low end of a
/// one-, two- or four-byte little-endian word, or a marker byte and four bytes.
pub open spec fn compact_of(n: u32) -> Seq<u8> {
    if n < 64 {
        seq![(n * 4) as u8]
    } else if n < 0x4000 {
        le_bytes((n * 4 + 1) as nat, 2)
    } else if n < 0x4000_0000 {
        le_bytes((n * 4 + 2) as nat, 4)
    } else {
        seq![3u8] + le_bytes(n as nat, 4)
    }
}

/// The `k` low-order bytes of `v`, least significant first.
fn le_word(v: u32, k: usize) -> (r: Vec<u8>)
    requires
        k <= 4,
    ensures
        r@ == le_bytes(v as nat, k as nat),
{
    let mut out: Vec<u8> = Vec::new();
    let mut rest: u32 = v;
    let mut i: usize = 0;
    while i < k
        invariant
            i <= k <= 4,
            out@ + le_bytes(rest as nat, (k - i) as nat) == le_bytes(v as nat, k as nat),
        decreases k - i,
    {
        let ghost before = out@;
        assert(le_bytes(rest as nat, (k - i) as nat) == seq![(rest % 256) as u8] + le_bytes(
            (rest / 256) as nat,
            (k - i - 1) as nat,
        ));
        out.push((rest % 256) as u8);
        assert(out@ == before + seq![(rest % 256) as u8]);
        assert(out@ + le_bytes((rest / 256) as nat, (k - i - 1) as nat) =~= before + le_bytes(
            rest as nat,
            (k - i) as nat,
        ));
        rest = rest / 256;
        i += 1;
    }
    assert(le_bytes(rest as nat, 0) =~= Seq::<u8>::empty());
    assert(out@ + Seq::<u8>::empty() =~= out@);
    out
}

/// The compact encoding of a 32-bit length, the prefix of every encoded sequence.
pub(crate) fn encode_compact(n: u32) -> (r: Vec<u8>)
    ensures
        r@ == compact_of(n),
{
    if n < 64 {
        let r: Vec<u8> = vec![(n * 4) as u8];
        assert(r@ =~= compact_of(n));
        r
    } else if n < 0x4000 {
        le_word(n * 4 + 1, 2)
    } else if n < 0x4000_0000 {
        le_word(n * 4 + 2, 4)
    } else {
        let mut r: Vec<u8> = vec![3u8];
        let w = le_word(n, 4);
        let mut i: usize = 0;
        let ghost start = r@;
        while i < w.len()
            invariant
                i <= w@.len(),
                start == seq![3u8],
                r@ == start + w@.subrange(0, i as int),
            decreases w@.len() - i,
        {
            r.push(w[i]);
            i += 1;
            assert(r@ =~= start + w@.subrange(0, i as int));
        }
        assert(w@.subrange(0, w@.len() as int) =~= w@);
        r
    }
}

} // verus!
