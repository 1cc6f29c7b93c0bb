//! Key material: signing key pairs, encryption key pairs, and the group key.
//!
//! The mathematical names below stand for what the Curve25519 primitives
//! compute; the library's proofs rest on the contracts of the trusted
//! wrappers that apply them.
use vstd::prelude::*;

verus! {

/// The X25519 public key derived from a 32-byte private seed.
pub uninterp spec fn x25519_pub(seed: Seq<u8>) -> Seq<u8>;

/// The X25519 shared secret computed from one side's private seed and the
/// other side's public key.
pub uninterp spec fn x25519_shared(seed: Seq<u8>, peer_pub: Seq<u8>) -> Seq<u8>;

/// The Ed25519 verifying (public) key derived from a 32-byte private seed.
pub uninterp spec fn ed25519_pub(seed: Seq<u8>) -> Seq<u8>;

/// The Ed25519 signature of a message under a 32-byte private seed
/// (Ed25519 signing is deterministic).
pub uninterp spec fn ed25519_sig(seed: Seq<u8>, msg: Seq<u8>) -> Seq<u8>;

/// Whether a candidate signature passes Ed25519 verification: the public key
/// decodes to a curve point, the signature parses, and the verification
/// equation holds.
pub uninterp spec fn ed25519_valid(pubk: Seq<u8>, msg: Seq<u8>, sig: Seq<u8>) -> bool;

/// Whether 32 bytes decode to a valid Ed25519 curve point.
pub uninterp spec fn ed25519_point_valid(pubk: Seq<u8>) -> bool;

/// Fresh bytes from the operating system's cryptographically secure random
/// source. Nothing is promised of the values.
///
/// Relies on rand_core::OsRng::fill_bytes; failure to obtain entropy is
/// fatal to the process.
#[verifier::external_body]
pub fn random_bytes(out_len: usize) -> (r: Vec<u8>)
    ensures
        r@.len() == out_len,
{
    let mut v = vec![0u8; out_len];
    rand_core::RngCore::fill_bytes(&mut rand_core::OsRng, &mut v);
    v
}

/// Relies on x25519_dalek::PublicKey::from(&StaticSecret): the public key is
/// a function of the private seed alone.
#[verifier::external_body]
fn x25519_derive_pub(seed: &[u8; 32]) -> (r: [u8; 32])
    ensures
        r@ == x25519_pub(seed@),
{
    let secret = x25519_dalek::StaticSecret::from(*seed);
    *x25519_dalek::PublicKey::from(&secret).as_bytes()
}

/// Relies on x25519_dalek::StaticSecret::diffie_hellman. The first clause
/// names the result; the second states the documented Diffie-Hellman
/// agreement: against a peer public key derived from some seed, the result
/// is exactly what the peer computes in the swapped roles.
#[verifier::external_body]
fn x25519_dh(own_seed: &[u8; 32], peer_pub: &[u8; 32]) -> (r: [u8; 32])
    ensures
        r@ == x25519_shared(own_seed@, peer_pub@),
        forall|s: Seq<u8>|
            peer_pub@ == x25519_pub(s) ==> r@ == x25519_shared(s, x25519_pub(own_seed@)),
{
    let secret = x25519_dalek::StaticSecret::from(*own_seed);
    let peer = x25519_dalek::PublicKey::from(*peer_pub);
    *secret.diffie_hellman(&peer).as_bytes()
}

/// Relies on ed25519_dalek::SigningKey::verifying_key: the verifying key is
/// a function of the private seed alone, and it always decodes to a valid
/// curve point.
#[verifier::external_body]
fn ed25519_derive_pub(seed: &[u8; 32]) -> (r: [u8; 32])
    ensures
        r@ == ed25519_pub(seed@),
        ed25519_point_valid(r@),
{
    let key = ed25519_dalek::SigningKey::from_bytes(seed);
    key.verifying_key().to_bytes()
}

/// Relies on ed25519_dalek::SigningKey::sign: Ed25519 signing is
/// deterministic in the seed and the message, yields 64 bytes, and the
/// produced signature verifies under the seed's own verifying key.
#[verifier::external_body]
fn ed25519_sign_raw(seed: &[u8; 32], msg: &[u8]) -> (r: Vec<u8>)
    ensures
        r@ == ed25519_sig(seed@, msg@),
        r@.len() == 64,
        ed25519_valid(ed25519_pub(seed@), msg@, r@),
{
    let key = ed25519_dalek::SigningKey::from_bytes(seed);
    let sig = ed25519_dalek::Signer::sign(&key, msg);
    sig.to_bytes().to_vec()
}

/// Relies on ed25519_dalek::VerifyingKey::verify: verification is a function
/// of the public key, the message and the candidate signature.
#[verifier::external_body]
pub fn ed25519_verify(pubk: &[u8; 32], msg: &[u8], sig: &[u8]) -> (r: bool)
    ensures
        r == ed25519_valid(pubk@, msg@, sig@),
{
    match (ed25519_dalek::VerifyingKey::from_bytes(pubk), ed25519_dalek::Signature::from_slice(sig)) {
        (Ok(key), Ok(sig)) => ed25519_dalek::Verifier::verify(&key, msg, &sig).is_ok(),
        _ => false,
    }
}

/// Relies on ed25519_dalek::VerifyingKey::from_bytes: point validation is a
/// function of the 32 bytes alone.
#[verifier::external_body]
pub fn ed25519_check_point(pubk: &[u8; 32]) -> (r: bool)
    ensures
        r == ed25519_point_valid(pubk@),
{
    ed25519_dalek::VerifyingKey::from_bytes(pubk).is_ok()
}

/// An Ed25519-equivalent key pair. The private seed never leaves the holder;
/// only the public half is transmitted.
pub struct SigningKeyPair {
    seed: [u8; 32],
    pub public: [u8; 32],
}

impl SigningKeyPair {
    /// The private seed, visible to specifications only.
    pub closed spec fn seed_bytes(self) -> Seq<u8> {
        self.seed@
    }

    /// The public half, as a specification value.
    pub closed spec fn spec_public(self) -> Seq<u8> {
        self.public@
    }

    /// The public half matches the private seed.
    pub open spec fn wf(self) -> bool {
        self.spec_public() == ed25519_pub(self.seed_bytes())
    }

    /// The public half, to be transmitted.
    pub fn public_bytes(&self) -> (r: [u8; 32])
        ensures
            r@ == self.spec_public(),
    {
        self.public
    }

    /// Sign a message with the private half.
    pub fn sign(&self, msg: &[u8]) -> (r: Vec<u8>)
        ensures
            r@ == ed25519_sig(self.seed_bytes(), msg@),
            r@.len() == 64,
            ed25519_valid(ed25519_pub(self.seed_bytes()), msg@, r@),
    {
        ed25519_sign_raw(&self.seed, msg)
    }
}

/// An X25519-equivalent static Diffie-Hellman key pair. Used only to derive
/// a per-pair shared secret, never for signing.
pub struct EncryptionKeyPair {
    seed: [u8; 32],
    pub public: [u8; 32],
}

impl EncryptionKeyPair {
    /// The private seed, visible to specifications only.
    pub closed spec fn seed_bytes(self) -> Seq<u8> {
        self.seed@
    }

    /// The public half, as a specification value.
    pub closed spec fn spec_public(self) -> Seq<u8> {
        self.public@
    }

    /// The public half matches the private seed.
    pub open spec fn wf(self) -> bool {
        self.spec_public() == x25519_pub(self.seed_bytes())
    }

    /// The public half, to be transmitted.
    pub fn public_bytes(&self) -> (r: [u8; 32])
        ensures
            r@ == self.spec_public(),
    {
        self.public
    }

    /// The shared secret with a peer, from this side's point of view.
    pub fn shared_with(&self, peer_pub: &[u8; 32]) -> (r: [u8; 32])
        ensures
            r@ == x25519_shared(self.seed_bytes(), peer_pub@),
            forall|s: Seq<u8>|
                peer_pub@ == x25519_pub(s) ==> r@ == x25519_shared(
                    s,
                    x25519_pub(self.seed_bytes()),
                ),
    {
        x25519_dh(&self.seed, peer_pub)
    }
}

/// Copy a 32-byte vector into a fixed array.
fn seed_from_vec(v: &Vec<u8>) -> (r: [u8; 32])
    requires
        v@.len() == 32,
    ensures
        r@ == v@,
{
    let mut a = [0u8; 32];
    let mut i: usize = 0;
    while i < 32
        invariant
            i <= 32,
            v@.len() == 32,
            forall|j: int| 0 <= j < i ==> a@[j] == v@[j],
        decreases 32 - i,
    {
        a[i] = v[i];
        i = i + 1;
    }
    proof {
        assert(a@ =~= v@);
    }
    a
}

/// Generate a fresh signing key pair from OS randomness.
pub fn generate_signing_keypair() -> (r: SigningKeyPair)
    ensures
        r.wf(),
{
    let seed_vec = random_bytes(32);
    let seed = seed_from_vec(&seed_vec);
    let public = ed25519_derive_pub(&seed);
    SigningKeyPair { seed, public }
}

/// Generate a fresh encryption key pair from OS randomness.
pub fn generate_encryption_keypair() -> (r: EncryptionKeyPair)
    ensures
        r.wf(),
{
    let seed_vec = random_bytes(32);
    let seed = seed_from_vec(&seed_vec);
    let public = x25519_derive_pub(&seed);
    EncryptionKeyPair { seed, public }
}

/// Generate a fresh 32-byte group key from OS randomness.
pub fn generate_group_key() -> (r: Vec<u8>)
    ensures
        r@.len() == 32,
{
    random_bytes(32)
}

} // verus!
