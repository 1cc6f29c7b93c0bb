//! Key wrapping: confidential delivery of the group key to one recipient.
//!
//! A wrapped payload is `nonce || ciphertext`, where the ciphertext is the
//! authenticated encryption of the plaintext under the X25519 shared secret
//! of the two parties and a fresh 96-bit nonce.
use vstd::prelude::*;

use crate::keys::EncryptionKeyPair;
use crate::keys::random_bytes;
use crate::keys::x25519_pub;
use crate::keys::x25519_shared;
use aes_gcm::aead::Aead;
use aes_gcm::aead::KeyInit;

verus! {

/// Why unwrapping a wrapped group key failed.
#[derive(Clone, Copy, Debug, PartialEq, Eq, Structural)]
pub enum KeyWrapError {
    /// The authentication tag did not verify: tampering, wrong keys, or
    /// corruption in transit.
    AuthenticationFailed,
    /// The payload is shorter than the 12-byte nonce.
    Malformed,
}

/// The AES-256-GCM ciphertext (ciphertext plus 16-byte tag) of a plaintext
/// under a 32-byte key and a 12-byte nonce, with no associated data.
/// The result is a function of exactly these arguments.
pub uninterp spec fn aead_seal(key: Seq<u8>, nonce: Seq<u8>, plaintext: Seq<u8>) -> Seq<u8>;

/// Relies on aes_gcm::Aes256Gcm::encrypt: deterministic in key, nonce and
/// plaintext; appends a 16-byte tag.
#[verifier::external_body]
pub(crate) fn aead_encrypt(key: &[u8; 32], nonce: &[u8], plaintext: &[u8]) -> (r: Vec<u8>)
    requires
        nonce@.len() == 12,
        plaintext@.len() < 0x1_0000_0000,
    ensures
        r@ == aead_seal(key@, nonce@, plaintext@),
        r@.len() == plaintext@.len() + 16,
{
    let cipher = aes_gcm::Aes256Gcm::new_from_slice(key.as_slice()).expect("32-byte key");
    let nonce = aes_gcm::aead::Nonce::<aes_gcm::Aes256Gcm>::from_slice(nonce);
    cipher.encrypt(nonce, plaintext).expect("plaintext within AES-GCM bounds")
}

/// Relies on aes_gcm::Aes256Gcm::decrypt: succeeds exactly on ciphertexts
/// whose tag verifies under the key and nonce, returning the sealed
/// plaintext.
#[verifier::external_body]
pub(crate) fn aead_decrypt(key: &[u8; 32], nonce: &[u8], ciphertext: &[u8]) -> (r: Option<Vec<u8>>)
    requires
        nonce@.len() == 12,
    ensures
        forall|p: Seq<u8>|
            ciphertext@ == aead_seal(key@, nonce@, p) ==> r is Some && r.unwrap()@ == p,
        r is Some ==> ciphertext@ == aead_seal(key@, nonce@, r.unwrap()@)
            && ciphertext@.len() == r.unwrap()@.len() + 16,
{
    let cipher = aes_gcm::Aes256Gcm::new_from_slice(key.as_slice()).expect("32-byte key");
    let nonce = aes_gcm::aead::Nonce::<aes_gcm::Aes256Gcm>::from_slice(nonce);
    cipher.decrypt(nonce, ciphertext).ok()
}

/// Wrap a plaintext (the group key) for the holder of `client_public`:
/// derive the shared secret from the sender's private key and the
/// recipient's public key, encrypt under it with a fresh random nonce, and
/// return `nonce || ciphertext`.
///
/// The second clause states the payload as the recipient will see it: sealed
/// under the secret that the recipient derives in the swapped roles.
pub fn encrypt_group_key(
    plaintext: &[u8],
    admin_private: &EncryptionKeyPair,
    client_public: &[u8; 32],
) -> (r: Vec<u8>)
    requires
        admin_private.wf(),
        plaintext@.len() < 0x1_0000_0000,
    ensures
        r@.len() == plaintext@.len() + 28,
        r@.subrange(12, r@.len() as int) == aead_seal(
            x25519_shared(admin_private.seed_bytes(), client_public@),
            r@.subrange(0, 12),
            plaintext@,
        ),
        forall|s: Seq<u8>|
            client_public@ == x25519_pub(s) ==> r@.subrange(12, r@.len() as int) == aead_seal(
                x25519_shared(s, admin_private.spec_public()),
                r@.subrange(0, 12),
                plaintext@,
            ),
{
    let shared = admin_private.shared_with(client_public);
    let mut out = random_bytes(12);
    let ciphertext = aead_encrypt(&shared, out.as_slice(), plaintext);
    let ghost nonce = out@;
    out.append(&mut clone_bytes(&ciphertext));
    proof {
        assert(out@.subrange(0, 12) =~= nonce);
        assert(out@.subrange(12, out@.len() as int) =~= ciphertext@);
    }
    out
}

/// Unwrap `nonce || ciphertext` with the recipient's private key and the
/// sender's public key. Fails with `Malformed` when the payload is shorter
/// than the nonce, and with `AuthenticationFailed` when the tag does not
/// verify; succeeds exactly on genuine seals under the recomputed shared
/// secret, returning the sealed plaintext.
pub fn decrypt_group_key(
    wrapped: &[u8],
    client_private: &EncryptionKeyPair,
    admin_public: &[u8; 32],
) -> (r: Result<Vec<u8>, KeyWrapError>)
    ensures
        wrapped@.len() < 12 <==> r == Err::<Vec<u8>, KeyWrapError>(KeyWrapError::Malformed),
        wrapped@.len() >= 12 && r is Err ==> r == Err::<Vec<u8>, KeyWrapError>(
            KeyWrapError::AuthenticationFailed,
        ),
        r is Ok ==> wrapped@.subrange(12, wrapped@.len() as int) == aead_seal(
            x25519_shared(client_private.seed_bytes(), admin_public@),
            wrapped@.subrange(0, 12),
            r.unwrap()@,
        ),
        forall|p: Seq<u8>|
            wrapped@.len() >= 12 && wrapped@.subrange(12, wrapped@.len() as int) == aead_seal(
                x25519_shared(client_private.seed_bytes(), admin_public@),
                wrapped@.subrange(0, 12),
                p,
            ) ==> r is Ok && r.unwrap()@ == p,
{
    if wrapped.len() < 12 {
        return Err(KeyWrapError::Malformed);
    }
    let nonce = vstd::slice::slice_subrange(wrapped, 0, 12);
    let ciphertext = vstd::slice::slice_subrange(wrapped, 12, wrapped.len());
    let shared = client_private.shared_with(admin_public);
    match aead_decrypt(&shared, nonce, ciphertext) {
        Some(plaintext) => Ok(plaintext),
        None => Err(KeyWrapError::AuthenticationFailed),
    }
}

/// Law: for all valid (admin, member) encryption key pairs and any
/// plaintext group key, unwrapping a freshly wrapped key with the member's
/// private key and the admin's public key succeeds and returns exactly the
/// wrapped key.
pub fn group_key_round_trip(
    key: &[u8],
    admin: &EncryptionKeyPair,
    member: &EncryptionKeyPair,
) -> (r: Result<Vec<u8>, KeyWrapError>)
    requires
        admin.wf(),
        member.wf(),
        key@.len() < 0x1_0000_0000,
    ensures
        r is Ok,
        r.unwrap()@ == key@,
{
    let member_pub = member.public_bytes();
    let admin_pub = admin.public_bytes();
    let wrapped = encrypt_group_key(key, admin, &member_pub);
    decrypt_group_key(wrapped.as_slice(), member, &admin_pub)
}

/// Copy a byte vector.
pub fn clone_bytes(v: &Vec<u8>) -> (r: Vec<u8>)
    ensures
        r@ == v@,
{
    let mut out: Vec<u8> = Vec::new();
    let mut i: usize = 0;
    while i < v.len()
        invariant
            i <= v@.len(),
            out@ == v@.subrange(0, i as int),
        decreases v@.len() - i,
    {
        out.push(v[i]);
        proof {
            assert(out@ =~= v@.subrange(0, i + 1 as int));
        }
        i = i + 1;
    }
    proof {
        assert(v@.subrange(0, v@.len() as int) =~= v@);
    }
    out
}

} // verus!
