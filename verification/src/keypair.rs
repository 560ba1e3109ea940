//! The keypair model and the metric that orders candidates.
//!
//! A keypair is held as its raw byte encodings: 32 public-key bytes and 32
//! secret-key bytes.  Key generation and key validation are done by
//! `ed25519_dalek`; the logic here works on the bytes alone.

use vstd::prelude::*;

verus! {

/// Whether 32 bytes are the encoding of a valid ed25519 public key, that is,
/// whether `ed25519_dalek::PublicKey::from_bytes` accepts them.  The answer
/// depends on the bytes alone.
pub uninterp spec fn is_valid_public_key(s: Seq<u8>) -> bool;

/// One keypair: the byte encodings of its public and secret halves.
pub struct Keypair {
    pub public: Vec<u8>,
    pub secret: Vec<u8>,
}

impl Keypair {
    /// A well-formed keypair: both halves are 32 bytes long and the public
    /// half encodes a valid key.
    pub open spec fn wf(&self) -> bool {
        &&& self.public@.len() == 32
        &&& self.secret@.len() == 32
        &&& is_valid_public_key(self.public@)
    }
}

/// The metric of a public key: its first 8 bytes read as a big-endian
/// unsigned 64-bit integer.
pub open spec fn spec_metric(s: Seq<u8>) -> u64
    recommends
        s.len() >= 8,
{
    (s[0] * 0x100000000000000 + s[1] * 0x1000000000000 + s[2] * 0x10000000000 + s[3] * 0x100000000
        + s[4] * 0x1000000 + s[5] * 0x10000 + s[6] * 0x100 + s[7]) as u64
}

/// Reads the first 8 public-key bytes as a big-endian unsigned integer.  This
/// total order is the only comparison basis for "better" keys anywhere in the
/// system.
pub fn public_key_to_u64(public: &Vec<u8>) -> (r: u64)
    requires
        public@.len() >= 8,
    ensures
        r == spec_metric(public@),
{
    let r: u64 = (public[0] as u64) * 0x100000000000000 + (public[1] as u64) * 0x1000000000000
        + (public[2] as u64) * 0x10000000000 + (public[3] as u64) * 0x100000000
        + (public[4] as u64) * 0x1000000 + (public[5] as u64) * 0x10000
        + (public[6] as u64) * 0x100 + (public[7] as u64);
    r
}

impl Keypair {
    /// The metric of this keypair's public half.
    pub fn metric(&self) -> (r: u64)
        requires
            self.public@.len() >= 8,
        ensures
            r == spec_metric(self.public@),
    {
        public_key_to_u64(&self.public)
    }
}

/// The metric is a pure function of the public-key bytes: applied twice to
/// the same bytes it yields identical results.
pub proof fn lemma_metric_pure(a: Seq<u8>, b: Seq<u8>)
    requires
        a == b,
    ensures
        spec_metric(a) == spec_metric(b),
{
}

/// Relies on `ed25519_dalek::Keypair::generate`: a freshly drawn keypair
/// whose halves encode as 32 bytes each, the public half by compressing a
/// curve point, which `PublicKey::from_bytes` accepts back.
#[verifier::external_body]
pub(crate) fn generate_keypair() -> (r: Keypair)
    ensures
        r.public@.len() == 32,
        r.secret@.len() == 32,
        is_valid_public_key(r.public@),
{
    let pair = ed25519_dalek::Keypair::generate(&mut rand::thread_rng());
    Keypair { public: pair.public.as_bytes().to_vec(), secret: pair.secret.as_bytes().to_vec() }
}

/// Relies on `ed25519_dalek::PublicKey::from_bytes`: succeeds exactly on 32
/// bytes that encode a valid public key.
#[verifier::external_body]
pub(crate) fn public_key_valid(b: &Vec<u8>) -> (r: bool)
    ensures
        r == (b@.len() == 32 && is_valid_public_key(b@)),
{
    ed25519_dalek::PublicKey::from_bytes(b.as_slice()).is_ok()
}

/// Relies on `ed25519_dalek::SecretKey::from_bytes`: succeeds exactly on
/// inputs of 32 bytes.
#[verifier::external_body]
pub(crate) fn secret_key_valid(b: &Vec<u8>) -> (r: bool)
    ensures
        r == (b@.len() == 32),
{
    ed25519_dalek::SecretKey::from_bytes(b.as_slice()).is_ok()
}

impl Keypair {
    /// Decides at run time whether this keypair is well formed.
    pub fn check_wf(&self) -> (r: bool)
        ensures
            r == self.wf(),
    {
        public_key_valid(&self.public) && secret_key_valid(&self.secret)
    }
}

/// Builds a keypair from raw bytes, accepting exactly the well-formed ones.
pub fn keypair_from_bytes(public: Vec<u8>, secret: Vec<u8>) -> (r: Option<Keypair>)
    ensures
        r is Some <==> public@.len() == 32 && is_valid_public_key(public@) && secret@.len() == 32,
        r matches Some(p) ==> p.public@ == public@ && p.secret@ == secret@ && p.wf(),
{
    if public_key_valid(&public) && secret_key_valid(&secret) {
        Some(Keypair { public, secret })
    } else {
        None
    }
}

} // verus!
