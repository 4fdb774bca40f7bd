//! The ordered peer set of one block height and its Byzantine fault bound.
use vstd::prelude::*;

verus! {

/// Number of faulty peers tolerated among `n` peers: `(n - 1) / 3`, rounded down.
pub open spec fn faults_of(n: nat) -> nat {
    if n == 0 {
        0
    } else {
        ((n - 1) as nat) / 3
    }
}

/// Identity of a peer: where it listens and, when known, its public key.
pub struct PeerId {
    /// Address of the peer's entry point.
    pub address: String,
    /// Public key of the peer.
    pub public_key: Option<Vec<u8>>,
}

impl PeerId {
    /// A peer identity from its address and public key.
    pub fn new(address: String, public_key: Option<Vec<u8>>) -> (r: PeerId)
        ensures
            r.address@ == address@,
            r.public_key == public_key,
    {
        PeerId { address, public_key }
    }

    /// The key of this peer, as bytes.
    pub open spec fn key(&self) -> Option<Seq<u8>> {
        match self.public_key {
            Some(k) => Some(k@),
            None => None,
        }
    }
}

impl Clone for PeerId {
    fn clone(&self) -> (r: Self)
        ensures
            r.address@ == self.address@,
            r.key() == self.key(),
    {
        let public_key = match &self.public_key {
            Some(k) => Some(k.clone()),
            None => None,
        };
        PeerId { address: self.address.clone(), public_key }
    }
}

/// Which decision a quorum is counted for.
#[derive(Clone, Copy, Debug, PartialEq, Eq, Structural)]
pub enum QuorumKind {
    /// Agreement to change the view: `f + 1` peers.
    ViewChange,
    /// Commitment of a block: `2f + 1` peers.
    Commit,
}

/// The ordered peers of one block height; a position `i` names `peers[i]`.
pub struct Topology {
    pub peers: Vec<PeerId>,
}

impl Topology {
    /// A topology over the given peers, in order.
    pub fn new(peers: Vec<PeerId>) -> (r: Topology)
        ensures
            r.peers@ == peers@,
    {
        Topology { peers }
    }

    /// Number of peers.
    pub open spec fn n(&self) -> nat {
        self.peers@.len()
    }

    /// The fault bound `f` of this topology.
    pub open spec fn faults(&self) -> nat {
        faults_of(self.n())
    }

    /// The public key at position `pos`: absent for a position out of range or a
    /// peer without a key.
    pub open spec fn key_at(&self, pos: int) -> Option<Seq<u8>> {
        if 0 <= pos < self.n() {
            self.peers@[pos].key()
        } else {
            None
        }
    }

    /// Number of peers.
    pub fn len(&self) -> (r: usize)
        ensures
            r == self.n(),
    {
        self.peers.len()
    }

    /// The fault bound `f = (n - 1) / 3`.
    pub fn max_faults(&self) -> (r: usize)
        ensures
            r == self.faults(),
            r <= self.n() / 3,
    {
        let n = self.peers.len();
        if n == 0 {
            0
        } else {
            (n - 1) / 3
        }
    }

    /// Peers needed for a decision: `f + 1` for a view change, `2f + 1` for a commit.
    pub fn quorum(&self, kind: QuorumKind) -> (r: usize)
        ensures
            kind == QuorumKind::ViewChange ==> r == self.faults() + 1,
            kind == QuorumKind::Commit ==> r == 2 * self.faults() + 1,
    {
        let n = self.peers.len();
        let f = self.max_faults();
        assert(f <= usize::MAX / 3) by {
            assert(n <= usize::MAX);
        }
        match kind {
            QuorumKind::ViewChange => f + 1,
            QuorumKind::Commit => 2 * f + 1,
        }
    }

    /// The public key of the peer at position `pos`, if the position is in range
    /// and the peer has one.
    pub fn public_key_at(&self, pos: u64) -> (r: Option<&Vec<u8>>)
        ensures
            r is Some <==> self.key_at(pos as int) is Some,
            r is Some ==> r->0@ == self.key_at(pos as int)->0,
    {
        if pos < self.peers.len() as u64 {
            match &self.peers[pos as usize].public_key {
                Some(k) => Some(k),
                None => None,
            }
        } else {
            None
        }
    }
}

} // verus!
