//! The three tagged wire message variants exchanged over a connection.
use vstd::prelude::*;

verus! {

/// Protocol-level failures: malformed envelopes, wrong field lengths, a
/// variant that the current state does not expect, or a signature that does
/// not verify.
#[derive(Clone, Copy, Debug, PartialEq, Eq, Structural)]
pub enum ProtocolError {
    /// The bytes do not decode to any envelope.
    MalformedEnvelope,
    /// A public key field is not exactly 32 bytes, or fails point validation.
    MalformedKey,
    /// A chat message whose signature does not verify against the sender's
    /// registered public signing key.
    BadSignature,
    /// An envelope variant that the current handshake state does not accept.
    UnexpectedMessage,
    /// A field too long for the 4-byte length prefix.
    FieldTooLong,
}

/// One wire message. Public keys travel as plain byte vectors; their exact
/// 32-byte length is enforced by the handshake, not by the codec.
#[derive(Debug, PartialEq, Eq)]
pub enum ProtocolMessage {
    JoinRequest {
        username: String,
        /// The member's X25519 encryption public key (32 bytes).
        encryption_pub: Vec<u8>,
        /// The member's Ed25519 signing public key (32 bytes).
        signing_pub: Vec<u8>,
    },
    JoinResponse {
        /// The group key, wrapped for the member: 12-byte nonce followed by
        /// ciphertext and tag.
        encrypted_group_key: Vec<u8>,
        /// The admin's Ed25519 signing public key.
        admin_signing_pub: Vec<u8>,
        /// The admin's X25519 encryption public key.
        admin_encryption_pub: Vec<u8>,
    },
    ChatMessage {
        username: String,
        /// Unique, monotonically increasing per sender.
        msg_id: String,
        /// The chat plaintext, encrypted under the group key: 12-byte nonce
        /// followed by ciphertext and tag.
        ciphertext: Vec<u8>,
        /// Ed25519 signature over `ciphertext || msg_id` (64 bytes).
        signature: Vec<u8>,
    },
}

/// The mathematical shape of an envelope: character and byte sequences in
/// place of strings and vectors.
pub enum EnvelopeView {
    JoinRequest { username: Seq<char>, encryption_pub: Seq<u8>, signing_pub: Seq<u8> },
    JoinResponse {
        encrypted_group_key: Seq<u8>,
        admin_signing_pub: Seq<u8>,
        admin_encryption_pub: Seq<u8>,
    },
    ChatMessage { username: Seq<char>, msg_id: Seq<char>, ciphertext: Seq<u8>, signature: Seq<u8> },
}

impl View for ProtocolMessage {
    type V = EnvelopeView;

    open spec fn view(&self) -> EnvelopeView {
        match self {
            ProtocolMessage::JoinRequest { username, encryption_pub, signing_pub } => {
                EnvelopeView::JoinRequest {
                    username: username@,
                    encryption_pub: encryption_pub@,
                    signing_pub: signing_pub@,
                }
            },
            ProtocolMessage::JoinResponse {
                encrypted_group_key,
                admin_signing_pub,
                admin_encryption_pub,
            } => {
                EnvelopeView::JoinResponse {
                    encrypted_group_key: encrypted_group_key@,
                    admin_signing_pub: admin_signing_pub@,
                    admin_encryption_pub: admin_encryption_pub@,
                }
            },
            ProtocolMessage::ChatMessage { username, msg_id, ciphertext, signature } => {
                EnvelopeView::ChatMessage {
                    username: username@,
                    msg_id: msg_id@,
                    ciphertext: ciphertext@,
                    signature: signature@,
                }
            },
        }
    }
}

/// Conversion of a byte vector into a fixed 32-byte array, failing on any
/// other length.
pub trait VecToArray32: View<V = Seq<u8>> {
    /// Succeeds exactly when the vector holds 32 bytes, returning them.
    fn to_array32(&self) -> (r: Result<[u8; 32], String>)
        ensures
            match r {
                Ok(a) => self@.len() == 32 && a@ == self@,
                Err(_) => self@.len() != 32,
            },
    ;
}

impl VecToArray32 for Vec<u8> {
    fn to_array32(&self) -> (r: Result<[u8; 32], String>) {
        if self.len() != 32 {
            return Err("expected vector length of 32".to_owned());
        }
        let mut a = [0u8; 32];
        let mut i: usize = 0;
        while i < 32
            invariant
                i <= 32,
                self@.len() == 32,
                forall|j: int| 0 <= j < i ==> a@[j] == self@[j],
            decreases 32 - i,
        {
            a[i] = self[i];
            i = i + 1;
        }
        proof {
            assert(a@ =~= self@);
        }
        Ok(a)
    }
}

} // verus!
