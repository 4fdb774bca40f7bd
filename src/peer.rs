//! The peer session: length-bounded framing, the hello exchange that carries
//! ephemeral key-exchange keys, and the decisions of a session as it moves
//! from connecting to ready, or to error.
use vstd::prelude::*;
use crate::codec::push_all;
use crate::crypto::{chacha_open, chacha_open_of, chacha_seal, fill_random, random_in_range, x25519_keypair, x25519_shared, x25519_shared_of};
use crate::topology::PeerId;

verus! {

/// Upper bound, exclusive, on the length of a message frame's body.
pub const MAX_MESSAGE_LENGTH: usize = 2097152;

/// Upper bound, exclusive, on the length of handshake garbage.
pub const MAX_HANDSHAKE_LENGTH: usize = 255;

/// Lower bound on the length of generated handshake garbage.
pub const MIN_GARBAGE_LENGTH: usize = 64;

/// Length of a key-exchange public key.
pub const KEY_LENGTH: usize = 32;

/// The associated data of every encrypted message: the bytes of "Iroha2Iroha2".
pub open spec fn aad_spec() -> Seq<u8> {
    seq![73u8, 114u8, 111u8, 104u8, 97u8, 50u8, 73u8, 114u8, 111u8, 104u8, 97u8, 50u8]
}

/// The associated data of every encrypted message.
pub fn default_aad() -> (r: Vec<u8>)
    ensures
        r@ == aad_spec(),
{
    let r: Vec<u8> = vec![73u8, 114u8, 111u8, 104u8, 97u8, 50u8, 73u8, 114u8, 111u8, 104u8, 97u8, 50u8];
    assert(r@ =~= aad_spec());
    r
}

/// Why a session step failed.
#[derive(Clone, Copy, Debug, PartialEq, Eq, Structural)]
pub enum PeerError {
    /// The transport failed or ended early.
    Io,
    /// A frame length is out of bounds.
    Format,
    /// The handshake garbage is too long.
    Handshake,
    /// Key generation, key exchange or cipher setup failed.
    Keys,
}

/// The state of a session.
#[derive(Clone, Copy, Debug, PartialEq, Eq, Structural)]
pub enum State {
    /// This side is to open the connection.
    Connecting,
    /// This side opened the connection and speaks first in the handshake.
    ConnectedTo,
    /// The other side opened the connection and speaks first.
    ConnectedFrom,
    /// The handshake is done; messages are encrypted.
    Ready,
    /// The session failed; nothing more happens on it.
    Error,
}

/// The four-byte big-endian form of `n`.
pub open spec fn be32(n: nat) -> Seq<u8> {
    seq![(n / 16777216 % 256) as u8, (n / 65536 % 256) as u8, (n / 256 % 256) as u8, (n % 256) as u8]
}

/// The number whose big-endian form is the first four bytes of `b`.
pub open spec fn be32_value(b: Seq<u8>) -> nat {
    (b[0] as nat) * 16777216 + (b[1] as nat) * 65536 + (b[2] as nat) * 256 + (b[3] as nat)
}

/// Whether a frame body length is allowed: `1 <= n < MAX_MESSAGE_LENGTH`.
pub open spec fn length_ok(n: nat) -> bool {
    1 <= n < MAX_MESSAGE_LENGTH
}

/// The frame of a message body: its length, big-endian, then the body.
pub open spec fn frame_of(data: Seq<u8>) -> Seq<u8> {
    be32(data.len()) + data
}

/// The body of a complete frame, if its length prefix is allowed and matches.
pub open spec fn unframed(frame: Seq<u8>) -> Option<Seq<u8>> {
    if frame.len() >= 4 && length_ok(be32_value(frame)) && frame.len() == 4 + be32_value(frame) {
        Some(frame.subrange(4, frame.len() as int))
    } else {
        None
    }
}

/// A hello: the garbage length, the garbage, then the public key.
pub open spec fn hello_of(garbage: Seq<u8>, key: Seq<u8>) -> Seq<u8> {
    seq![garbage.len() as u8] + garbage + key
}

/// Whether a garbage length is allowed: `64 <= n < 255`.
pub open spec fn garbage_length_ok(n: nat) -> bool {
    MIN_GARBAGE_LENGTH <= n < MAX_HANDSHAKE_LENGTH
}

/// The public key carried by a hello, if its garbage length is allowed and the
/// key is all there.
pub open spec fn hello_key(bytes: Seq<u8>) -> Option<Seq<u8>> {
    if bytes.len() >= 1 && garbage_length_ok(bytes[0] as nat) && bytes.len() >= 1 + bytes[0] + KEY_LENGTH {
        Some(bytes.subrange(1 + bytes[0], 1 + bytes[0] + KEY_LENGTH))
    } else {
        None
    }
}

/// Frames a message body; a body that is empty or of `MAX_MESSAGE_LENGTH`
/// bytes or more is refused.
pub fn send_message(data: &[u8]) -> (r: Result<Vec<u8>, PeerError>)
    ensures
        r is Ok <==> length_ok(data@.len()),
        r matches Ok(f) ==> f@ == frame_of(data@),
        r is Err ==> r == Err::<Vec<u8>, PeerError>(PeerError::Format),
{
    if data.len() == 0 || data.len() >= MAX_MESSAGE_LENGTH {
        return Err(PeerError::Format);
    }
    let n = data.len() as u32;
    let mut buf: Vec<u8> = Vec::new();
    buf.push((n / 16777216) as u8);
    buf.push((n / 65536 % 256) as u8);
    buf.push((n / 256 % 256) as u8);
    buf.push((n % 256) as u8);
    assert(buf@ =~= be32(data@.len()));
    push_all(&mut buf, data);
    Ok(buf)
}

/// The body length announced by a frame's four-byte prefix; a length of zero
/// or of `MAX_MESSAGE_LENGTH` or more is refused.
pub fn read_message_length(prefix: &[u8]) -> (r: Result<usize, PeerError>)
    requires
        prefix@.len() == 4,
    ensures
        r is Ok <==> length_ok(be32_value(prefix@)),
        r matches Ok(n) ==> n == be32_value(prefix@),
        r is Err ==> r == Err::<usize, PeerError>(PeerError::Format),
{
    let n: u32 = (prefix[0] as u32) * 16777216 + (prefix[1] as u32) * 65536 + (prefix[2] as u32) * 256
        + (prefix[3] as u32);
    let size = n as usize;
    if size > 0 && size < MAX_MESSAGE_LENGTH {
        Ok(size)
    } else {
        Err(PeerError::Format)
    }
}

/// The body of a complete frame; refused when the announced length is out of
/// bounds, or when the frame is not exactly prefix and body.
pub fn read_message(frame: &[u8]) -> (r: Result<Vec<u8>, PeerError>)
    ensures
        r is Ok <==> unframed(frame@) is Some,
        r matches Ok(m) ==> m@ == unframed(frame@)->0,
        frame@.len() >= 4 && !length_ok(be32_value(frame@)) ==> r == Err::<Vec<u8>, PeerError>(PeerError::Format),
{
    if frame.len() < 4 {
        return Err(PeerError::Io);
    }
    let prefix = slice_to_vec(frame, 0, 4);
    let size = read_message_length(prefix.as_slice())?;
    assert(be32_value(prefix@) == be32_value(frame@));
    if frame.len() - 4 != size {
        return Err(PeerError::Io);
    }
    Ok(slice_to_vec(frame, 4, frame.len()))
}

/// Bytes `start..end` of `s`.
fn slice_to_vec(s: &[u8], start: usize, end: usize) -> (r: Vec<u8>)
    requires
        start <= end <= s@.len(),
    ensures
        r@ == s@.subrange(start as int, end as int),
{
    let mut out: Vec<u8> = Vec::new();
    let mut i: usize = start;
    while i < end
        invariant
            start <= i <= end,
            end <= s@.len(),
            out@ == s@.subrange(start as int, i as int),
        decreases end - i,
    {
        out.push(s[i]);
        i += 1;
        assert(out@ =~= s@.subrange(start as int, i as int));
    }
    out
}

/// Random bytes sent ahead of a public key in a hello.
pub struct Garbage {
    garbage: Vec<u8>,
}

impl Garbage {
    /// The bytes of this garbage.
    pub closed spec fn bytes(&self) -> Seq<u8> {
        self.garbage@
    }

    /// Fresh garbage of a random length in `[64, 255)`.
    pub fn generate() -> (r: Garbage)
        ensures
            MIN_GARBAGE_LENGTH <= r.bytes().len() < MAX_HANDSHAKE_LENGTH,
    {
        let len = random_in_range(MIN_GARBAGE_LENGTH, MAX_HANDSHAKE_LENGTH);
        let mut garbage: Vec<u8> = Vec::new();
        let mut i: usize = 0;
        while i < len
            invariant
                i <= len,
                garbage@.len() == i,
            decreases len - i,
        {
            garbage.push(0u8);
            i += 1;
        }
        fill_random(&mut garbage);
        Garbage { garbage }
    }

    /// The bytes that carry this garbage: its length, then the garbage.
    pub fn write(&self) -> (r: Vec<u8>)
        requires
            self.bytes().len() < MAX_HANDSHAKE_LENGTH,
        ensures
            r@ == seq![self.bytes().len() as u8] + self.bytes(),
    {
        let mut out: Vec<u8> = Vec::new();
        out.push(self.garbage.len() as u8);
        push_all(&mut out, self.garbage.as_slice());
        out
    }

    /// Checks a received garbage length: at least `MIN_GARBAGE_LENGTH` and
    /// below `MAX_HANDSHAKE_LENGTH`.
    pub fn read(size: u8) -> (r: Result<usize, PeerError>)
        ensures
            r is Ok <==> garbage_length_ok(size as nat),
            r matches Ok(n) ==> n == size,
            r is Err ==> r == Err::<usize, PeerError>(PeerError::Handshake),
    {
        if MIN_GARBAGE_LENGTH <= (size as usize) && (size as usize) < MAX_HANDSHAKE_LENGTH {
            Ok(size as usize)
        } else {
            Err(PeerError::Handshake)
        }
    }
}

/// A hello carrying `key` after `garbage`.
pub fn send_hello(garbage: &Garbage, key: &[u8]) -> (r: Vec<u8>)
    requires
        garbage.bytes().len() < MAX_HANDSHAKE_LENGTH,
    ensures
        r@ == hello_of(garbage.bytes(), key@),
{
    let mut out = garbage.write();
    push_all(&mut out, key);
    assert(out@ =~= hello_of(garbage.bytes(), key@));
    out
}

/// The public key carried by a received hello.
pub fn read_hello(bytes: &[u8]) -> (r: Result<Vec<u8>, PeerError>)
    ensures
        r is Ok <==> hello_key(bytes@) is Some,
        r matches Ok(k) ==> k@ == hello_key(bytes@)->0 && k@.len() == KEY_LENGTH,
        bytes@.len() >= 1 && !garbage_length_ok(bytes@[0] as nat) ==> r == Err::<Vec<u8>, PeerError>(PeerError::Handshake),
{
    if bytes.len() < 1 {
        return Err(PeerError::Io);
    }
    let n = Garbage::read(bytes[0])?;
    if bytes.len() < 1 + n + KEY_LENGTH {
        return Err(PeerError::Io);
    }
    Ok(slice_to_vec(bytes, 1 + n, 1 + n + KEY_LENGTH))
}

/// What the session must do next to finish its handshake.
#[derive(Clone, Copy, Debug, PartialEq, Eq, Structural)]
pub enum HandshakeAction {
    /// Open a connection to the peer's address.
    Connect,
    /// Send our hello, then read the other side's.
    SendThenRead,
    /// Read the other side's hello, then send ours.
    ReadThenSend,
    /// Nothing: the session is ready or failed.
    Idle,
}

/// A session with one remote peer.
pub struct Peer {
    /// The remote peer.
    pub id: PeerId,
    /// Where the session stands.
    pub state: State,
    /// Our ephemeral key-exchange public key.
    pub public_key: Vec<u8>,
    /// Our ephemeral key-exchange secret key.
    pub secret_key: Vec<u8>,
    /// The session key, once the handshake is done.
    pub cipher: Option<Vec<u8>>,
}

impl Peer {
    /// Our ephemeral key-exchange secret key.
    pub open spec fn secret(&self) -> Seq<u8> {
        self.secret_key@
    }

    /// The session key, once the handshake is done.
    pub open spec fn session_key(&self) -> Option<Seq<u8>> {
        match self.cipher {
            Some(k) => Some(k@),
            None => None,
        }
    }

    /// Well-formedness: 32-byte keys, and a 32-byte session key when there is one.
    pub open spec fn wf(&self) -> bool {
        &&& self.public_key@.len() == KEY_LENGTH
        &&& self.secret().len() == KEY_LENGTH
        &&& self.session_key() is Some ==> self.session_key()->0.len() == KEY_LENGTH
    }

    /// A session with `id` in `state`, with a fresh ephemeral key pair; fails
    /// with `Keys` when no key pair could be made.
    pub fn new(id: PeerId, state: State) -> (r: Result<Peer, PeerError>)
        ensures
            r is Ok,
            r matches Ok(p) ==> p.wf() && p.id == id && p.state == state && p.session_key() is None,
    {
        match x25519_keypair() {
            Some((public_key, secret_key)) => Ok(Peer { id, state, public_key, secret_key, cipher: None }),
            None => Err(PeerError::Keys),
        }
    }

    /// The next handshake step for the current state.
    pub fn handshake(&self) -> (r: HandshakeAction)
        ensures
            self.state == State::Connecting ==> r == HandshakeAction::Connect,
            self.state == State::ConnectedTo ==> r == HandshakeAction::SendThenRead,
            self.state == State::ConnectedFrom ==> r == HandshakeAction::ReadThenSend,
            self.state == State::Ready || self.state == State::Error ==> r == HandshakeAction::Idle,
    {
        match self.state {
            State::Connecting => HandshakeAction::Connect,
            State::ConnectedTo => HandshakeAction::SendThenRead,
            State::ConnectedFrom => HandshakeAction::ReadThenSend,
            State::Ready => HandshakeAction::Idle,
            State::Error => HandshakeAction::Idle,
        }
    }

    /// Where the handshake stands: done, failed, or (`None`) still under way.
    pub fn handshake_status(&self) -> (r: Option<Result<(), PeerError>>)
        ensures
            self.state == State::Ready ==> r == Some(Ok::<(), PeerError>(())),
            self.state == State::Error ==> r == Some(Err::<(), PeerError>(PeerError::Handshake)),
            self.state != State::Ready && self.state != State::Error ==> r is None,
    {
        match self.state {
            State::Ready => Some(Ok(())),
            State::Error => Some(Err(PeerError::Handshake)),
            _ => None,
        }
    }

    /// Records that the connection this side opened is established.
    pub fn connect(&mut self)
        ensures
            old(self).state == State::Connecting ==> final(self).state == State::ConnectedTo,
            old(self).state != State::Connecting ==> final(self).state == old(self).state,
            final(self).id == old(self).id,
            final(self).public_key == old(self).public_key,
            final(self).secret() == old(self).secret(),
            final(self).session_key() == old(self).session_key(),
    {
        if self.state == State::Connecting {
            self.state = State::ConnectedTo;
        }
    }

    /// Our hello: fresh garbage, then our public key.
    pub fn hello(&self) -> (r: Vec<u8>)
        ensures
            exists|g: Seq<u8>| MIN_GARBAGE_LENGTH <= g.len() < MAX_HANDSHAKE_LENGTH && r@ == hello_of(g, self.public_key@),
    {
        let garbage = Garbage::generate();
        send_hello(&garbage, self.public_key.as_slice())
    }

    /// Derives the session key from our secret key and the other side's public
    /// key, and installs it.
    pub fn derive_shared_key(&mut self, public_key: &Vec<u8>) -> (r: Result<(), PeerError>)
        requires
            old(self).wf(),
        ensures
            final(self).wf(),
            r is Ok <==> public_key@.len() == KEY_LENGTH,
            r is Ok ==> final(self).session_key() == Some(x25519_shared_of(old(self).secret(), public_key@)),
            r is Err ==> r == Err::<(), PeerError>(PeerError::Keys) && final(self).session_key() == old(self).session_key(),
            final(self).state == old(self).state,
            final(self).id == old(self).id,
            final(self).public_key == old(self).public_key,
            final(self).secret() == old(self).secret(),
    {
        if public_key.len() != KEY_LENGTH {
            return Err(PeerError::Keys);
        }
        match x25519_shared(&self.secret_key, public_key) {
            Some(shared) => {
                self.cipher = Some(shared);
                Ok(())
            },
            None => Err(PeerError::Keys),
        }
    }

    /// Finishes the handshake with the other side's hello: reads its public key,
    /// derives the session key and becomes ready; on a malformed hello the
    /// session fails.
    pub fn complete_handshake(&mut self, remote_hello: &[u8]) -> (r: Result<(), PeerError>)
        requires
            old(self).wf(),
        ensures
            final(self).wf(),
            r is Ok <==> hello_key(remote_hello@) is Some,
            r is Ok ==> final(self).state == State::Ready
                && final(self).session_key() == Some(x25519_shared_of(old(self).secret(), hello_key(remote_hello@)->0)),
            r is Err ==> final(self).state == State::Error,
            final(self).id == old(self).id,
            final(self).public_key == old(self).public_key,
            final(self).secret() == old(self).secret(),
    {
        match read_hello(remote_hello) {
            Ok(key) => {
                let derived = self.derive_shared_key(&key);
                assert(derived is Ok);
                self.state = State::Ready;
                Ok(())
            },
            Err(e) => {
                self.state = State::Error;
                Err(e)
            },
        }
    }

    /// Records a transport failure: the session fails.
    pub fn fail(&mut self)
        ensures
            final(self).state == State::Error,
            final(self).id == old(self).id,
            final(self).public_key == old(self).public_key,
            final(self).secret() == old(self).secret(),
            final(self).session_key() == old(self).session_key(),
    {
        self.state = State::Error;
    }

    /// Handles a received frame body: decrypted once the session key is set,
    /// passed on as it is before. A failed session passes nothing on; a body
    /// that fails to decrypt makes the session fail.
    pub fn handle(&mut self, message: Vec<u8>) -> (r: Option<Vec<u8>>)
        requires
            old(self).wf(),
        ensures
            final(self).wf(),
            final(self).id == old(self).id,
            final(self).public_key == old(self).public_key,
            final(self).secret() == old(self).secret(),
            final(self).session_key() == old(self).session_key(),
            old(self).state == State::Error ==> r is None && final(self).state == State::Error,
            old(self).state != State::Error && old(self).session_key() is None ==> r == Some(message)
                && final(self).state == old(self).state,
            old(self).state != State::Error && old(self).session_key() is Some ==> {
                let opened = chacha_open_of(old(self).session_key()->0, aad_spec(), message@);
                &&& r is Some <==> opened is Some
                &&& r is Some ==> r->0@ == opened->0 && final(self).state == old(self).state
                &&& r is None ==> final(self).state == State::Error
            },
    {
        if self.state == State::Error {
            return None;
        }
        match &self.cipher {
            None => Some(message),
            Some(key) => {
                let aad = default_aad();
                match chacha_open(key, aad.as_slice(), message.as_slice()) {
                    Some(data) => Some(data),
                    None => {
                        self.state = State::Error;
                        None
                    },
                }
            },
        }
    }

    /// Frames an outgoing body that has already been encrypted, or that needs no
    /// encryption: `None` from the cipher, or a body out of bounds, makes the
    /// session fail and nothing is sent.
    pub fn frame_outgoing(&mut self, body: Option<Vec<u8>>) -> (r: Option<Vec<u8>>)
        ensures
            final(self).id == old(self).id,
            final(self).public_key == old(self).public_key,
            final(self).secret() == old(self).secret(),
            final(self).session_key() == old(self).session_key(),
            old(self).state == State::Error ==> r is None && final(self).state == State::Error,
            old(self).state != State::Error ==> {
                &&& r is Some <==> (body is Some && length_ok(body->0@.len()))
                &&& r is Some ==> r->0@ == frame_of(body->0@) && final(self).state == old(self).state
                &&& r is None ==> final(self).state == State::Error
            },
    {
        if self.state == State::Error {
            return None;
        }
        match body {
            Some(b) => match send_message(b.as_slice()) {
                Ok(frame) => Some(frame),
                Err(_) => {
                    self.state = State::Error;
                    None
                },
            },
            None => {
                self.state = State::Error;
                None
            },
        }
    }

    /// Prepares an encoded message for sending: encrypted once the session key
    /// is set, then framed. Returns the frame to write, or `None` when nothing
    /// may be sent; the session then fails, unless it had failed already.
    pub fn post(&mut self, data: Vec<u8>) -> (r: Option<Vec<u8>>)
        requires
            old(self).wf(),
        ensures
            final(self).wf(),
            final(self).id == old(self).id,
            final(self).session_key() == old(self).session_key(),
            old(self).state == State::Error ==> r is None && final(self).state == State::Error,
            old(self).state != State::Error && old(self).session_key() is None ==> {
                &&& r is Some <==> length_ok(data@.len())
                &&& r is Some ==> r->0@ == frame_of(data@) && final(self).state == old(self).state
                &&& r is None ==> final(self).state == State::Error
            },
            old(self).state != State::Error && old(self).session_key() is Some ==> {
                &&& r is Some ==> final(self).state == old(self).state
                    && exists|c: Seq<u8>| length_ok(c.len()) && r->0@ == frame_of(c) && c.len() == data@.len() + 28
                        && (data@.len() >= 8 ==> chacha_open_of(old(self).session_key()->0, aad_spec(), c) == Some(data@))
                &&& r is None ==> final(self).state == State::Error
                &&& data@.len() + 28 >= MAX_MESSAGE_LENGTH ==> r is None
            },
    {
        if self.state == State::Error {
            return None;
        }
        let body = match &self.cipher {
            None => Some(data),
            Some(key) => {
                let aad = default_aad();
                chacha_seal(key, aad.as_slice(), data.as_slice())
            },
        };
        let ghost sealed = body;
        let r = self.frame_outgoing(body);
        proof {
            if r is Some && old(self).session_key() is Some {
                let c = sealed->0@;
                assert(length_ok(c.len()) && r->0@ == frame_of(c) && c.len() == data@.len() + 28
                    && (data@.len() >= 8 ==> chacha_open_of(old(self).session_key()->0, aad_spec(), c) == Some(data@)));
            }
        }
        r
    }
}

/// A frame's body comes back out of the frame unchanged, for every body whose
/// length is allowed.
pub proof fn lemma_frame_round_trip(m: Seq<u8>)
    requires
        length_ok(m.len()),
    ensures
        unframed(frame_of(m)) == Some(m),
{
    let f = frame_of(m);
    let n = m.len();
    assert(be32_value(f) == n) by (nonlinear_arith)
        requires
            f[0] == (n / 16777216 % 256) as u8,
            f[1] == (n / 65536 % 256) as u8,
            f[2] == (n / 256 % 256) as u8,
            f[3] == (n % 256) as u8,
            n < 2097152,
    ;
    assert(f.subrange(4, f.len() as int) =~= m);
}

/// A hello gives back the key it carries, for garbage of an allowed length and
/// a key of the key-exchange length: the side that reads a hello derives its
/// session key from exactly the public key the other side sent.
pub proof fn lemma_hello_round_trip(garbage: Seq<u8>, key: Seq<u8>)
    requires
        garbage_length_ok(garbage.len()),
        key.len() == KEY_LENGTH,
    ensures
        hello_key(hello_of(garbage, key)) == Some(key),
{
    let h = hello_of(garbage, key);
    assert(h[0] == garbage.len() as u8);
    assert(h.subrange(1 + garbage.len() as int, 1 + garbage.len() as int + KEY_LENGTH) =~= key);
}

} // verus!
