//! The content addresser: maps a byte payload to its content identifier.
//!
//! The identifier is the SHA-256 digest of the payload bytes. Identical
//! payloads always receive the identical identifier, any byte sequence
//! (including the empty one) has an identifier, and the digest is the sole
//! key used by the local store and the gossip protocol.

use vstd::prelude::*;
use sha2::{Digest, Sha256};
use crate::hex::{bytes_eq, copy_bytes, hex_encode, hex_of};

verus! {

/// The number of bytes in a content identifier (a SHA-256 digest).
pub const DIGEST_LEN: usize = 32;

/// The digest that SHA-256 computes for a byte sequence. The digest is a
/// function of the input bytes alone.
pub uninterp spec fn sha256_of(data: Seq<u8>) -> Seq<u8>;

/// Relies on sha2::Sha256 through the Digest trait: the digest depends on the
/// input bytes alone and is exactly 32 bytes long.
#[verifier::external_body]
fn sha256_digest(data: &[u8]) -> (r: Vec<u8>)
    ensures
        r@ == sha256_of(data@),
        r@.len() == 32,
{
    Sha256::digest(data).to_vec()
}

/// A content identifier: the 32-byte SHA-256 digest of a payload.
pub struct ContentId {
    digest: Vec<u8>,
}

impl View for ContentId {
    type V = Seq<u8>;

    closed spec fn view(&self) -> Seq<u8> {
        self.digest@
    }
}

impl ContentId {
    /// A content identifier always holds a full digest.
    pub open spec fn wf(&self) -> bool {
        self@.len() == 32
    }

    /// Wraps digest bytes as an identifier; used when an identifier arrives
    /// from outside (a download request, a gossip message) already in digest
    /// form.
    pub fn from_digest(digest: Vec<u8>) -> (r: ContentId)
        requires
            digest@.len() == 32,
        ensures
            r@ == digest@,
            r.wf(),
    {
        ContentId { digest }
    }

    /// The raw digest bytes.
    pub fn as_bytes(&self) -> (r: &[u8])
        ensures
            r@ == self@,
    {
        self.digest.as_slice()
    }

    /// The canonical textual form: the lowercase hexadecimal encoding of the
    /// digest, as ASCII bytes. This form names the object on disk and is the
    /// token used at the download boundary.
    pub fn hex_bytes(&self) -> (r: Vec<u8>)
        ensures
            r@ == hex_of(self@),
    {
        hex_encode(self.digest.as_slice())
    }

    /// Whether two identifiers name the same content.
    pub fn matches(&self, other: &ContentId) -> (r: bool)
        ensures
            r == (self@ == other@),
    {
        bytes_eq(self.digest.as_slice(), other.digest.as_slice())
    }

    /// A fresh identifier with the same digest.
    pub fn duplicate(&self) -> (r: ContentId)
        ensures
            r@ == self@,
    {
        ContentId { digest: copy_bytes(self.digest.as_slice()) }
    }
}

/// Computes the content identifier of a payload: its SHA-256 digest. Pure,
/// with no failure modes; every byte sequence has an identifier.
pub fn identify(payload: &[u8]) -> (r: ContentId)
    ensures
        r@ == sha256_of(payload@),
        r.wf(),
{
    ContentId { digest: sha256_digest(payload) }
}

/// Content addressing is deterministic: any two identifiers computed for the
/// same payload bytes are equal.
pub proof fn lemma_identify_deterministic(p: Seq<u8>, a: Seq<u8>, b: Seq<u8>)
    requires
        a == sha256_of(p),
        b == sha256_of(p),
    ensures
        a == b,
{
}

} // verus!
