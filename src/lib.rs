//! Consensus core of a permissioned ledger: view-change proofs, signed
//! blocks, the transaction lifecycle and the framed, encrypted peer session.

pub mod block;
pub mod codec;
pub mod crypto;
pub mod peer;
pub mod topology;
pub mod tx;
pub mod view_change;
