//! Authenticated chat: producing, verifying and reading relayed messages.
use vstd::prelude::*;

use crate::envelope::ProtocolMessage;
use crate::envelope::VecToArray32;
use crate::handshake::ClientPhase;
use crate::handshake::ClientSession;
use crate::keys::ed25519_sig;
use crate::keys::ed25519_valid;
use crate::keys::ed25519_verify;
use crate::keys::random_bytes;
use crate::keywrap::aead_decrypt;
use crate::keywrap::aead_encrypt;
use crate::keywrap::aead_seal;
use crate::text::spec_decimal;
use crate::text::u64_to_string;
use vstd::utf8::encode_utf8;

verus! {

/// The bytes a chat signature covers: the ciphertext followed by the UTF-8
/// bytes of the message identifier.
pub open spec fn sig_payload(ciphertext: Seq<u8>, msg_id: Seq<char>) -> Seq<u8> {
    ciphertext + encode_utf8(msg_id)
}

/// Build the signed byte string `ciphertext || msg_id`.
pub fn sig_payload_bytes(ciphertext: &Vec<u8>, msg_id: &String) -> (r: Vec<u8>)
    ensures
        r@ == sig_payload(ciphertext@, msg_id@),
{
    let mut out = crate::keywrap::clone_bytes(ciphertext);
    out.extend_from_slice(msg_id.as_str().as_bytes());
    proof {
        assert(out@ =~= sig_payload(ciphertext@, msg_id@));
    }
    out
}

/// Why reading a relayed chat message failed.
#[derive(Clone, Copy, Debug, PartialEq, Eq, Structural)]
pub enum ChatReceiveError {
    /// The signature does not verify against the sender's public signing
    /// key.
    BadSignature,
    /// The ciphertext's authentication tag does not verify under the group
    /// key.
    AuthenticationFailed,
    /// The ciphertext is shorter than the 12-byte nonce.
    Malformed,
}

impl ClientSession {
    /// Produce a chat envelope: encrypt the plaintext under the group key
    /// with a fresh nonce, stamp the next message identifier (unique and
    /// monotonically increasing for this sender), and sign
    /// `ciphertext || msg_id` with this session's private signing key.
    pub fn send_chat(&mut self, plaintext: &[u8]) -> (r: ProtocolMessage)
        requires
            old(self).wf(),
            old(self).phase == ClientPhase::Joined,
            old(self).next_msg_id < 0xFFFF_FFFF_FFFF_FFFFu64,
            plaintext@.len() < 0xFFFF_0000,
        ensures
            *final(self) == (ClientSession {
                next_msg_id: (old(self).next_msg_id + 1) as u64,
                ..*old(self)
            }),
            match r@ {
                crate::envelope::EnvelopeView::ChatMessage {
                    username,
                    msg_id,
                    ciphertext,
                    signature,
                } => {
                    &&& username == old(self).username@
                    &&& msg_id == spec_decimal(old(self).next_msg_id as nat)
                    &&& ciphertext.len() == plaintext@.len() + 28
                    &&& ciphertext.subrange(12, ciphertext.len() as int) == aead_seal(
                        old(self).group_key.unwrap()@,
                        ciphertext.subrange(0, 12),
                        plaintext@,
                    )
                    &&& signature == ed25519_sig(
                        old(self).signing.seed_bytes(),
                        sig_payload(ciphertext, msg_id),
                    )
                    &&& ed25519_valid(
                        old(self).signing.spec_public(),
                        sig_payload(ciphertext, msg_id),
                        signature,
                    )
                },
                _ => false,
            },
    {
        let key_arr = match &self.group_key {
            Some(k) => match k.to_array32() {
                Ok(a) => a,
                Err(_) => vstd::pervasive::unreached(),
            },
            None => vstd::pervasive::unreached(),
        };
        let mut ciphertext = random_bytes(12);
        let mut sealed = aead_encrypt(&key_arr, ciphertext.as_slice(), plaintext);
        let ghost nonce = ciphertext@;
        ciphertext.append(&mut sealed);
        proof {
            assert(ciphertext@.subrange(0, 12) =~= nonce);
            assert(ciphertext@.subrange(12, ciphertext@.len() as int) == aead_seal(
                self.group_key.unwrap()@,
                ciphertext@.subrange(0, 12),
                plaintext@,
            ));
        }
        let msg_id = u64_to_string(self.next_msg_id);
        self.next_msg_id = self.next_msg_id + 1;
        let payload = sig_payload_bytes(&ciphertext, &msg_id);
        let signature = self.signing.sign(payload.as_slice());
        ProtocolMessage::ChatMessage {
            username: self.username.clone(),
            msg_id,
            ciphertext,
            signature,
        }
    }

    /// Read a relayed chat message: verify the signature over
    /// `ciphertext || msg_id` against the sender's public signing key, then
    /// decrypt the ciphertext under the group key. Succeeds exactly on a
    /// verifying signature and a genuine seal, returning the sealed
    /// plaintext.
    pub fn receive_chat(
        &self,
        msg_id: &String,
        ciphertext: &Vec<u8>,
        signature: &Vec<u8>,
        sender_signing_pub: &[u8; 32],
    ) -> (r: Result<Vec<u8>, ChatReceiveError>)
        requires
            self.wf(),
            self.phase == ClientPhase::Joined,
        ensures
            !ed25519_valid(sender_signing_pub@, sig_payload(ciphertext@, msg_id@), signature@)
                ==> r == Err::<Vec<u8>, ChatReceiveError>(ChatReceiveError::BadSignature),
            ed25519_valid(sender_signing_pub@, sig_payload(ciphertext@, msg_id@), signature@)
                ==> {
                let key = self.group_key.unwrap()@;
                &&& ciphertext@.len() < 12 ==> r == Err::<Vec<u8>, ChatReceiveError>(
                    ChatReceiveError::Malformed,
                )
                &&& (r is Ok ==> ciphertext@.len() >= 12 && ciphertext@.subrange(
                    12,
                    ciphertext@.len() as int,
                ) == aead_seal(key, ciphertext@.subrange(0, 12), r.unwrap()@))
                &&& forall|p: Seq<u8>|
                    (ciphertext@.len() >= 12 && ciphertext@.subrange(
                        12,
                        ciphertext@.len() as int,
                    ) == aead_seal(key, ciphertext@.subrange(0, 12), p)) ==> (r is Ok
                        && r.unwrap()@ == p)
                &&& (ciphertext@.len() >= 12 && r is Err) ==> r == Err::<
                    Vec<u8>,
                    ChatReceiveError,
                >(ChatReceiveError::AuthenticationFailed)
            },
    {
        let payload = sig_payload_bytes(ciphertext, msg_id);
        if !ed25519_verify(sender_signing_pub, payload.as_slice(), signature.as_slice()) {
            return Err(ChatReceiveError::BadSignature);
        }
        if ciphertext.len() < 12 {
            return Err(ChatReceiveError::Malformed);
        }
        let key_arr = match &self.group_key {
            Some(k) => match k.to_array32() {
                Ok(a) => a,
                Err(_) => vstd::pervasive::unreached(),
            },
            None => vstd::pervasive::unreached(),
        };
        let nonce = vstd::slice::slice_subrange(ciphertext.as_slice(), 0, 12);
        let sealed = vstd::slice::slice_subrange(ciphertext.as_slice(), 12, ciphertext.len());
        match aead_decrypt(&key_arr, nonce, sealed) {
            Some(plaintext) => Ok(plaintext),
            None => Err(ChatReceiveError::AuthenticationFailed),
        }
    }
}

/// Law: a chat message honestly produced by `send_chat` verifies against
/// the sender's correct public signing key, and a joined member holding the
/// same group key decrypts it back to the original plaintext.
pub fn send_receive_round_trip(
    sender: &mut ClientSession,
    receiver: &ClientSession,
    plaintext: &[u8],
) -> (r: Result<Vec<u8>, ChatReceiveError>)
    requires
        old(sender).wf(),
        receiver.wf(),
        old(sender).phase == ClientPhase::Joined,
        receiver.phase == ClientPhase::Joined,
        receiver.group_key.unwrap()@ == old(sender).group_key.unwrap()@,
        old(sender).next_msg_id < 0xFFFF_FFFF_FFFF_FFFFu64,
        plaintext@.len() < 0xFFFF_0000,
    ensures
        r is Ok,
        r.unwrap()@ == plaintext@,
{
    let env = sender.send_chat(plaintext);
    let sender_pub = sender.signing.public_bytes();
    match env {
        ProtocolMessage::ChatMessage { username: _, msg_id, ciphertext, signature } => {
            receiver.receive_chat(&msg_id, &ciphertext, &signature, &sender_pub)
        },
        _ => vstd::pervasive::unreached(),
    }
}

} // verus!
