use iroha_consensus::crypto::Digest;
use iroha_consensus::peer::{
    read_hello, read_message, read_message_length, send_hello, send_message, Garbage, HandshakeAction, Peer,
    PeerError, State, MAX_MESSAGE_LENGTH,
};
use iroha_consensus::topology::PeerId;

fn peer(state: State) -> Peer {
    Peer::new(PeerId::new("127.0.0.1:1337".to_string(), None), state).unwrap()
}

#[test]
fn framing_round_trip() {
    for len in [1usize, 100, 65536, MAX_MESSAGE_LENGTH - 1] {
        let m: Vec<u8> = (0..len).map(|i| (i % 251) as u8).collect();
        let frame = send_message(&m).unwrap();
        assert_eq!(frame.len(), len + 4);
        assert_eq!(read_message_length(&frame[..4]).unwrap(), len);
        assert_eq!(read_message(&frame).unwrap(), m);
    }
    assert_eq!(send_message(&[0x41; 3]).unwrap(), vec![0, 0, 0, 3, 0x41, 0x41, 0x41]);
}

#[test]
fn framing_length_bounds() {
    assert_eq!(send_message(&[]), Err(PeerError::Format));
    assert_eq!(send_message(&vec![0u8; MAX_MESSAGE_LENGTH]), Err(PeerError::Format));
    assert_eq!(read_message_length(&[0, 0, 0, 0]), Err(PeerError::Format));
    assert_eq!(read_message_length(&[0, 0x20, 0, 0]), Err(PeerError::Format));
    assert_eq!(read_message_length(&[0, 0x1f, 0xff, 0xff]), Ok(MAX_MESSAGE_LENGTH - 1));
    assert_eq!(read_message(&[0, 0, 0, 0]), Err(PeerError::Format));
}

#[test]
fn garbage_and_hello() {
    for _ in 0..20 {
        let g = Garbage::generate();
        let bytes = g.write();
        assert!(bytes[0] >= 64 && bytes[0] < 255);
        assert_eq!(bytes.len(), 1 + bytes[0] as usize);
        let key = vec![9u8; 32];
        let hello = send_hello(&g, &key);
        assert_eq!(read_hello(&hello).unwrap(), key);
    }
    assert_eq!(Garbage::read(254), Ok(254));
    assert_eq!(Garbage::read(255), Err(PeerError::Handshake));
    let mut long = vec![255u8];
    long.extend(vec![0u8; 300]);
    assert_eq!(read_hello(&long), Err(PeerError::Handshake));
    assert_eq!(Garbage::read(64), Ok(64));
    assert_eq!(Garbage::read(63), Err(PeerError::Handshake));
    assert_eq!(read_hello(&[3, 0, 0, 0, 1]), Err(PeerError::Handshake));
    assert_eq!(read_hello(&[64, 0, 0, 0, 1]), Err(PeerError::Io));
}

#[test]
fn handshake_actions() {
    let mut a = peer(State::Connecting);
    assert_eq!(a.handshake(), HandshakeAction::Connect);
    a.connect();
    assert_eq!(a.state, State::ConnectedTo);
    assert_eq!(a.handshake(), HandshakeAction::SendThenRead);
    assert_eq!(peer(State::ConnectedFrom).handshake(), HandshakeAction::ReadThenSend);
    assert_eq!(peer(State::Ready).handshake(), HandshakeAction::Idle);
    let mut e = peer(State::Ready);
    e.fail();
    assert_eq!(e.handshake(), HandshakeAction::Idle);
    assert_eq!(e.post(vec![1]), None);
    assert_eq!(e.handle(vec![1]), None);
    assert_eq!(e.state, State::Error);
}

#[test]
fn handshake_symmetry_and_framed_echo() {
    let mut a = peer(State::Connecting);
    a.connect();
    let mut b = peer(State::ConnectedFrom);
    let client_hello = a.hello();
    b.complete_handshake(&client_hello).unwrap();
    let server_hello = b.hello();
    a.complete_handshake(&server_hello).unwrap();
    assert_eq!(a.state, State::Ready);
    assert_eq!(b.state, State::Ready);
    assert_eq!(a.cipher, b.cipher);
    assert_eq!(a.cipher.as_ref().unwrap().len(), 32);

    let m = vec![0x41u8; 100];
    let frame = a.post(m.clone()).unwrap();
    assert_ne!(&frame[4..], &m[..]);
    let body = read_message(&frame).unwrap();
    assert_eq!(b.handle(body).unwrap(), m);
    assert_eq!(b.state, State::Ready);

    let big = vec![0x41u8; 3 * 1024 * 1024];
    assert_eq!(a.post(big), None);
    assert_eq!(a.state, State::Error);

    let mut tampered = read_message(&b.post(vec![7u8; 10]).unwrap()).unwrap();
    tampered[20] ^= 1;
    let mut c = peer(State::ConnectedFrom);
    c.complete_handshake(&a.hello()).unwrap();
    assert_eq!(c.handle(tampered), None);
    assert_eq!(c.state, State::Error);
}

#[test]
fn plaintext_before_handshake() {
    let mut a = peer(State::ConnectedTo);
    assert_eq!(a.post(vec![1, 2, 3]).unwrap(), vec![0, 0, 0, 3, 1, 2, 3]);
    assert_eq!(a.handle(vec![4, 5]).unwrap(), vec![4, 5]);
    let mut short = peer(State::ConnectedTo);
    assert!(short.derive_shared_key(&vec![1u8; 31]).is_err());
    assert!(short.complete_handshake(&[64]).is_err());
    assert_eq!(short.state, State::Error);
    let _ = Digest { bytes: Vec::new() };
}

#[test]
fn handshake_status_and_short_sealed_messages() {
    let mut a = peer(State::Connecting);
    assert_eq!(a.handshake_status(), None);
    a.connect();
    let mut b = peer(State::ConnectedFrom);
    b.complete_handshake(&a.hello()).unwrap();
    a.complete_handshake(&b.hello()).unwrap();
    assert_eq!(a.handshake_status(), Some(Ok(())));

    // A sealed body is 28 bytes longer than the message; below 36 bytes it
    // cannot be opened again.
    let frame = a.post(vec![1, 2, 3]).unwrap();
    let body = read_message(&frame).unwrap();
    assert_eq!(body.len(), 31);
    assert_eq!(b.handle(body), None);
    assert_eq!(b.handshake_status(), Some(Err(PeerError::Handshake)));

    let mut d = peer(State::ConnectedTo);
    let mut e = peer(State::ConnectedFrom);
    e.complete_handshake(&d.hello()).unwrap();
    d.complete_handshake(&e.hello()).unwrap();
    let eight = d.post(vec![8u8; 8]).unwrap();
    assert_eq!(e.handle(read_message(&eight).unwrap()), Some(vec![8u8; 8]));
    assert_eq!(e.state, State::Ready);
}
