//! The node's peer identity.
//!
//! A node owns a long-lived asymmetric keypair; only the public key and the
//! peer identifier derived from it are ever shared with other nodes. The
//! private key stays with the process that generated it and is not held
//! here. The peer identifier is the digest of the public key, so peers can
//! check an advertised identifier against the key that comes with it.

use vstd::prelude::*;
use crate::addr::{identify, sha256_of};
use crate::hex::copy_bytes;

verus! {

/// What a peer identity is: the public key and the identifier derived from
/// it.
pub ghost struct PeerIdentityModel {
    pub public_key: Seq<u8>,
    pub peer_id: Seq<u8>,
}

/// The shareable half of a node's identity: its public key and the peer
/// identifier derived from it.
pub struct PeerIdentity {
    public_key: Vec<u8>,
    peer_id: Vec<u8>,
}

impl View for PeerIdentity {
    type V = PeerIdentityModel;

    closed spec fn view(&self) -> PeerIdentityModel {
        PeerIdentityModel { public_key: self.public_key@, peer_id: self.peer_id@ }
    }
}

impl PeerIdentity {
    /// The peer identifier is the digest of the public key.
    pub open spec fn wf(&self) -> bool {
        &&& self@.peer_id == sha256_of(self@.public_key)
        &&& self@.peer_id.len() == 32
    }

    /// Derives the identity belonging to a public key. The key material
    /// itself comes from the process's key generation; any two nodes that
    /// see the same public key derive the same peer identifier.
    pub fn from_public_key(public_key: Vec<u8>) -> (r: PeerIdentity)
        ensures
            r@.public_key == public_key@,
            r@.peer_id == sha256_of(public_key@),
            r.wf(),
    {
        let id = identify(public_key.as_slice());
        let peer_id = copy_bytes(id.as_bytes());
        PeerIdentity { public_key, peer_id }
    }

    /// The peer identifier, as digest bytes.
    pub fn peer_id_bytes(&self) -> (r: &Vec<u8>)
        ensures
            r@ == self@.peer_id,
    {
        &self.peer_id
    }

    /// The public key other peers verify signatures against.
    pub fn public_key_bytes(&self) -> (r: &Vec<u8>)
        ensures
            r@ == self@.public_key,
    {
        &self.public_key
    }
}

} // verus!
