//! The join handshake: the server-side onboarding of a member and the
//! client-side state machine that obtains the group key.
use vstd::prelude::*;

use crate::envelope::ProtocolError;
use crate::envelope::ProtocolMessage;
use crate::envelope::VecToArray32;
use crate::keys::EncryptionKeyPair;
use crate::keys::SigningKeyPair;
use crate::keys::ed25519_check_point;
use crate::keys::ed25519_point_valid;
use crate::keys::generate_encryption_keypair;
use crate::keys::generate_signing_keypair;
use crate::keys::random_bytes;
use crate::keys::x25519_pub;
use crate::keys::x25519_shared;
use crate::keywrap::KeyWrapError;
use crate::keywrap::aead_seal;
use crate::keywrap::decrypt_group_key;
use crate::keywrap::encrypt_group_key;
use vstd::utf8::encode_utf8;

verus! {

/// A joined participant as the server registers it.
pub struct Member {
    pub username: String,
    pub signing_pub: [u8; 32],
    pub encryption_pub: [u8; 32],
    /// The handle of the member's connection, assigned by the transport.
    pub conn_id: usize,
}

/// The server's state: the admin key pairs, the group key, and the registry
/// of joined members.
pub struct ServerState {
    pub admin_signing: SigningKeyPair,
    pub admin_encryption: EncryptionKeyPair,
    /// The 32-byte symmetric group key; one per server process, never
    /// transmitted in the clear.
    pub group_key: Vec<u8>,
    pub members: Vec<Member>,
}

/// Whether a join request's keys are acceptable: both exactly 32 bytes, and
/// the signing key a valid curve point.
pub open spec fn join_request_acceptable(encryption_pub: Seq<u8>, signing_pub: Seq<u8>) -> bool {
    crate::is_key_bytes(encryption_pub) && crate::is_key_bytes(signing_pub)
        && ed25519_point_valid(signing_pub)
}

/// The first registered member on the given connection, if any.
pub open spec fn find_member(ms: Seq<Member>, conn_id: usize) -> Option<Member>
    decreases ms.len(),
{
    if ms.len() == 0 {
        None
    } else if ms.first().conn_id == conn_id {
        Some(ms.first())
    } else {
        find_member(ms.drop_first(), conn_id)
    }
}

pub proof fn lemma_find_member_at(ms: Seq<Member>, conn_id: usize, i: int)
    requires
        0 <= i < ms.len(),
        ms[i].conn_id == conn_id,
        forall|j: int| 0 <= j < i ==> ms[j].conn_id != conn_id,
    ensures
        find_member(ms, conn_id) == Some(ms[i]),
    decreases i,
{
    if i > 0 {
        lemma_find_member_at(ms.drop_first(), conn_id, i - 1);
    }
}

pub proof fn lemma_find_member_none(ms: Seq<Member>, conn_id: usize)
    requires
        forall|j: int| 0 <= j < ms.len() ==> ms[j].conn_id != conn_id,
    ensures
        find_member(ms, conn_id) is None,
    decreases ms.len(),
{
    if ms.len() > 0 {
        lemma_find_member_none(ms.drop_first(), conn_id);
    }
}

/// The connections a verified chat message from `sender` is forwarded to:
/// every registered member except the sender's own connection.
pub open spec fn recipient_ids(ms: Seq<Member>, sender: usize) -> Seq<usize> {
    ms.filter(|m: Member| m.conn_id != sender).map_values(|m: Member| m.conn_id)
}

/// The registry after a successful join: the old members in order, with the
/// new member appended.
pub open spec fn join_registered(
    pre: Seq<Member>,
    post: Seq<Member>,
    conn_id: usize,
    username: Seq<char>,
    encryption_pub: Seq<u8>,
    signing_pub: Seq<u8>,
) -> bool {
    &&& post.len() == pre.len() + 1
    &&& post.subrange(0, pre.len() as int) == pre
    &&& post.last().username@ == username
    &&& post.last().signing_pub@ == signing_pub
    &&& post.last().encryption_pub@ == encryption_pub
    &&& post.last().conn_id == conn_id
}

/// A correct join response from state `st` to the member holding
/// `encryption_pub`: the admin's two public keys, and the group key wrapped
/// so that the member's own shared secret unseals it.
pub open spec fn join_response_view(
    st: ServerState,
    encryption_pub: Seq<u8>,
    resp: crate::envelope::EnvelopeView,
) -> bool {
    match resp {
        crate::envelope::EnvelopeView::JoinResponse {
            encrypted_group_key,
            admin_signing_pub,
            admin_encryption_pub,
        } => {
            &&& admin_signing_pub == st.admin_signing.spec_public()
            &&& admin_encryption_pub == st.admin_encryption.spec_public()
            &&& encrypted_group_key.len() == 60
            &&& forall|s: Seq<u8>|
                encryption_pub == x25519_pub(s) ==> encrypted_group_key.subrange(12, 60)
                    == aead_seal(
                    x25519_shared(s, st.admin_encryption.spec_public()),
                    encrypted_group_key.subrange(0, 12),
                    st.group_key@,
                )
        },
        _ => false,
    }
}

/// The admin keys and the group key are those of the earlier state.
pub open spec fn keys_unchanged(pre: ServerState, post: ServerState) -> bool {
    &&& post.admin_signing == pre.admin_signing
    &&& post.admin_encryption == pre.admin_encryption
    &&& post.group_key == pre.group_key
}

impl ServerState {
    /// The admin key pairs are consistent and the group key is 32 bytes.
    pub open spec fn wf(self) -> bool {
        self.admin_signing.wf() && self.admin_encryption.wf() && crate::is_key_bytes(self.group_key@)
    }

    /// Fresh server state: newly generated admin key pairs and group key, no
    /// members. A restarted server runs this again, so its group key is new.
    pub fn new() -> (r: ServerState)
        ensures
            r.wf(),
            r.members@.len() == 0,
    {
        ServerState {
            admin_signing: generate_signing_keypair(),
            admin_encryption: generate_encryption_keypair(),
            group_key: random_bytes(32),
            members: Vec::new(),
        }
    }

    /// Handle a join request: reject unacceptable keys with a malformed-key
    /// error and leave the state unchanged; otherwise wrap the group key for
    /// the member, register the member, and return the join response to
    /// send back.
    pub fn handle_join_request(
        &mut self,
        conn_id: usize,
        username: String,
        encryption_pub: Vec<u8>,
        signing_pub: Vec<u8>,
    ) -> (r: Result<ProtocolMessage, ProtocolError>)
        requires
            old(self).wf(),
        ensures
            final(self).wf(),
            keys_unchanged(*old(self), *final(self)),
            !join_request_acceptable(encryption_pub@, signing_pub@) ==> r == Err::<
                ProtocolMessage,
                ProtocolError,
            >(ProtocolError::MalformedKey) && final(self).members == old(self).members,
            join_request_acceptable(encryption_pub@, signing_pub@) ==> {
                &&& r is Ok
                &&& join_registered(
                    old(self).members@,
                    final(self).members@,
                    conn_id,
                    username@,
                    encryption_pub@,
                    signing_pub@,
                )
                &&& join_response_view(*old(self), encryption_pub@, r.unwrap()@)
            },
    {
        if encryption_pub.len() != 32 || signing_pub.len() != 32 {
            return Err(ProtocolError::MalformedKey);
        }
        let signing_arr = match signing_pub.to_array32() {
            Ok(a) => a,
            Err(_) => vstd::pervasive::unreached(),
        };
        if !ed25519_check_point(&signing_arr) {
            return Err(ProtocolError::MalformedKey);
        }
        let encryption_arr = match encryption_pub.to_array32() {
            Ok(a) => a,
            Err(_) => vstd::pervasive::unreached(),
        };
        let wrapped = encrypt_group_key(
            self.group_key.as_slice(),
            &self.admin_encryption,
            &encryption_arr,
        );
        let admin_signing_pub = self.admin_signing.public_bytes();
        let admin_encryption_pub = self.admin_encryption.public_bytes();
        let response = ProtocolMessage::JoinResponse {
            encrypted_group_key: wrapped,
            admin_signing_pub: vstd::slice::slice_to_vec(admin_signing_pub.as_slice()),
            admin_encryption_pub: vstd::slice::slice_to_vec(admin_encryption_pub.as_slice()),
        };
        let ghost members0 = self.members@;
        self.members.push(
            Member { username, signing_pub: signing_arr, encryption_pub: encryption_arr, conn_id },
        );
        proof {
            assert(self.members@.subrange(0, members0.len() as int) =~= members0);
        }
        Ok(response)
    }

    /// Remove the member on a closed connection; other members are
    /// unaffected.
    pub fn remove_member(&mut self, conn_id: usize)
        ensures
            final(self).members@ == old(self).members@.filter(
                |m: Member| m.conn_id != conn_id,
            ),
            final(self).admin_signing == old(self).admin_signing,
            final(self).admin_encryption == old(self).admin_encryption,
            final(self).group_key == old(self).group_key,
            old(self).wf() ==> final(self).wf(),
    {
        let mut kept: Vec<Member> = Vec::new();
        let mut i: usize = 0;
        let n = self.members.len();
        while i < n
            invariant
                i <= n,
                n == self.members@.len(),
                kept@ =~= self.members@.subrange(0, i as int).filter(
                    |m: Member| m.conn_id != conn_id,
                ),
            decreases n - i,
        {
            let ghost prefix = self.members@.subrange(0, i as int);
            let m = &self.members[i];
            let keep = m.conn_id != conn_id;
            if keep {
                let copied = Member {
                    username: m.username.clone(),
                    signing_pub: m.signing_pub,
                    encryption_pub: m.encryption_pub,
                    conn_id: m.conn_id,
                };
                assert(copied == self.members@[i as int]);
                kept.push(copied);
            }
            proof {
                let next = self.members@.subrange(0, i + 1 as int);
                assert(next.drop_last() =~= prefix);
                assert(next.last() == self.members@[i as int]);
                reveal_with_fuel(Seq::filter, 2);
                assert(kept@ =~= next.filter(|m: Member| m.conn_id != conn_id));
            }
            i = i + 1;
        }
        proof {
            assert(self.members@.subrange(0, n as int) =~= self.members@);
        }
        self.members = kept;
    }

    /// Handle a chat message from a connection: look the sender up in the
    /// registry, verify the signature over `ciphertext || msg_id` against
    /// the sender's registered signing key, and return the connections to
    /// forward the unmodified envelope to. A message from an unregistered
    /// connection is unexpected; one whose signature does not verify is
    /// dropped with a bad-signature error. The state never changes.
    pub fn handle_chat_message(
        &self,
        conn_id: usize,
        msg_id: &String,
        ciphertext: &Vec<u8>,
        signature: &Vec<u8>,
    ) -> (r: Result<Vec<usize>, ProtocolError>)
        ensures
            find_member(self.members@, conn_id) is None ==> r == Err::<Vec<usize>, ProtocolError>(
                ProtocolError::UnexpectedMessage,
            ),
            match find_member(self.members@, conn_id) {
                Some(m) => {
                    if crate::keys::ed25519_valid(
                        m.signing_pub@,
                        crate::relay::sig_payload(ciphertext@, msg_id@),
                        signature@,
                    ) {
                        r is Ok && r.unwrap()@ == recipient_ids(self.members@, conn_id)
                    } else {
                        r == Err::<Vec<usize>, ProtocolError>(ProtocolError::BadSignature)
                    }
                },
                None => true,
            },
    {
        // Look the sender up by its connection.
        let n = self.members.len();
        let mut idx: usize = 0;
        let mut found = false;
        while idx < n && !found
            invariant
                idx <= n,
                n == self.members@.len(),
                found ==> idx < n && self.members@[idx as int].conn_id == conn_id,
                forall|j: int| 0 <= j < idx ==> self.members@[j].conn_id != conn_id,
            decreases (n - idx) * 2 + (if found { 0int } else { 1int }),
        {
            if self.members[idx].conn_id == conn_id {
                found = true;
            } else {
                idx = idx + 1;
            }
        }
        if !found {
            proof {
                lemma_find_member_none(self.members@, conn_id);
            }
            return Err(ProtocolError::UnexpectedMessage);
        }
        proof {
            lemma_find_member_at(self.members@, conn_id, idx as int);
        }
        let sender = &self.members[idx];
        let payload = crate::relay::sig_payload_bytes(ciphertext, msg_id);
        if !crate::keys::ed25519_verify(
            &sender.signing_pub,
            payload.as_slice(),
            signature.as_slice(),
        ) {
            return Err(ProtocolError::BadSignature);
        }
        // Collect every other member's connection.
        let mut out: Vec<usize> = Vec::new();
        let mut i: usize = 0;
        while i < n
            invariant
                i <= n,
                n == self.members@.len(),
                out@ =~= recipient_ids(self.members@.subrange(0, i as int), conn_id),
            decreases n - i,
        {
            let ghost prefix = self.members@.subrange(0, i as int);
            if self.members[i].conn_id != conn_id {
                out.push(self.members[i].conn_id);
            }
            proof {
                let next = self.members@.subrange(0, i + 1 as int);
                assert(next.drop_last() =~= prefix);
                assert(next.last() == self.members@[i as int]);
                reveal_with_fuel(Seq::filter, 2);
                assert(next.filter(|m: Member| m.conn_id != conn_id).map_values(
                    |m: Member| m.conn_id,
                ) =~= out@);
            }
            i = i + 1;
        }
        proof {
            assert(self.members@.subrange(0, n as int) =~= self.members@);
        }
        Ok(out)
    }
}

/// The server's state machine for one connection.
#[derive(Clone, Copy, Debug, PartialEq, Eq, Structural)]
pub enum ServerConnPhase {
    AwaitingJoinRequest,
    HandshakeComplete,
    Rejected,
}

/// What the transport does after the server handles one envelope.
pub enum ServerReply {
    /// Send this envelope back on the same connection.
    Respond(ProtocolMessage),
    /// Forward the received envelope, unmodified, to these connections.
    Relay(Vec<usize>),
}

/// Handle one decoded envelope on one connection, advancing that
/// connection's state machine: a join request is answered and registers the
/// member; after the handshake, chat messages are verified and relayed; an
/// envelope the current state does not accept is rejected. Errors never
/// change the registry, and nothing here performs any I/O.
pub fn server_handle_envelope(
    state: &mut ServerState,
    phase: &mut ServerConnPhase,
    conn_id: usize,
    msg: ProtocolMessage,
) -> (r: Result<ServerReply, ProtocolError>)
    requires
        old(state).wf(),
    ensures
        final(state).wf(),
        keys_unchanged(*old(state), *final(state)),
        match msg@ {
            crate::envelope::EnvelopeView::JoinRequest { username, encryption_pub, signing_pub } => {
                if *old(phase) == ServerConnPhase::AwaitingJoinRequest {
                    if join_request_acceptable(encryption_pub, signing_pub) {
                        &&& *final(phase) == ServerConnPhase::HandshakeComplete
                        &&& match r {
                            Ok(ServerReply::Respond(resp)) => join_registered(
                                old(state).members@,
                                final(state).members@,
                                conn_id,
                                username,
                                encryption_pub,
                                signing_pub,
                            ) && join_response_view(*old(state), encryption_pub, resp@),
                            _ => false,
                        }
                    } else {
                        &&& *final(phase) == ServerConnPhase::Rejected
                        &&& r == Err::<ServerReply, ProtocolError>(ProtocolError::MalformedKey)
                        &&& final(state).members == old(state).members
                    }
                } else {
                    &&& *final(phase) == *old(phase)
                    &&& r == Err::<ServerReply, ProtocolError>(ProtocolError::UnexpectedMessage)
                    &&& final(state).members == old(state).members
                }
            },
            crate::envelope::EnvelopeView::ChatMessage { username, msg_id, ciphertext, signature } => {
                &&& final(state).members == old(state).members
                &&& if *old(phase) == ServerConnPhase::HandshakeComplete {
                    &&& *final(phase) == *old(phase)
                    &&& match find_member(old(state).members@, conn_id) {
                        Some(m) => {
                            if crate::keys::ed25519_valid(
                                m.signing_pub@,
                                crate::relay::sig_payload(ciphertext, msg_id),
                                signature,
                            ) {
                                match r {
                                    Ok(ServerReply::Relay(ids)) => ids@ == recipient_ids(
                                        old(state).members@,
                                        conn_id,
                                    ),
                                    _ => false,
                                }
                            } else {
                                r == Err::<ServerReply, ProtocolError>(ProtocolError::BadSignature)
                            }
                        },
                        None => r == Err::<ServerReply, ProtocolError>(
                            ProtocolError::UnexpectedMessage,
                        ),
                    }
                } else {
                    &&& r == Err::<ServerReply, ProtocolError>(ProtocolError::UnexpectedMessage)
                    &&& *final(phase) == if *old(phase) == ServerConnPhase::AwaitingJoinRequest {
                        ServerConnPhase::Rejected
                    } else {
                        *old(phase)
                    }
                }
            },
            crate::envelope::EnvelopeView::JoinResponse { .. } => {
                &&& r == Err::<ServerReply, ProtocolError>(ProtocolError::UnexpectedMessage)
                &&& final(state).members == old(state).members
                &&& *final(phase) == if *old(phase) == ServerConnPhase::AwaitingJoinRequest {
                    ServerConnPhase::Rejected
                } else {
                    *old(phase)
                }
            },
        },
{
    match msg {
        ProtocolMessage::JoinRequest { username, encryption_pub, signing_pub } => {
            if *phase == ServerConnPhase::AwaitingJoinRequest {
                match state.handle_join_request(conn_id, username, encryption_pub, signing_pub) {
                    Ok(resp) => {
                        *phase = ServerConnPhase::HandshakeComplete;
                        Ok(ServerReply::Respond(resp))
                    },
                    Err(e) => {
                        *phase = ServerConnPhase::Rejected;
                        Err(e)
                    },
                }
            } else {
                Err(ProtocolError::UnexpectedMessage)
            }
        },
        ProtocolMessage::ChatMessage { username: _, msg_id, ciphertext, signature } => {
            if *phase == ServerConnPhase::HandshakeComplete {
                match state.handle_chat_message(conn_id, &msg_id, &ciphertext, &signature) {
                    Ok(ids) => Ok(ServerReply::Relay(ids)),
                    Err(e) => Err(e),
                }
            } else {
                if *phase == ServerConnPhase::AwaitingJoinRequest {
                    *phase = ServerConnPhase::Rejected;
                }
                Err(ProtocolError::UnexpectedMessage)
            }
        },
        ProtocolMessage::JoinResponse { .. } => {
            if *phase == ServerConnPhase::AwaitingJoinRequest {
                *phase = ServerConnPhase::Rejected;
            }
            Err(ProtocolError::UnexpectedMessage)
        },
    }
}

/// The client's state machine for its one connection to the administrator.
#[derive(Clone, Copy, Debug, PartialEq, Eq, Structural)]
pub enum ClientPhase {
    Disconnected,
    Connecting,
    AwaitingJoinResponse,
    Joined,
    Failed,
}

/// Why a client's join failed.
#[derive(Clone, Copy, Debug, PartialEq, Eq, Structural)]
pub enum JoinError {
    Protocol(ProtocolError),
    KeyWrap(KeyWrapError),
}

/// A client's session: its per-session key pairs, and, once joined, the
/// group key and the admin's public keys.
pub struct ClientSession {
    pub phase: ClientPhase,
    pub username: String,
    pub signing: SigningKeyPair,
    pub encryption: EncryptionKeyPair,
    /// The unwrapped group key; present exactly once joined.
    pub group_key: Option<Vec<u8>>,
    pub admin_signing_pub: Option<[u8; 32]>,
    pub admin_encryption_pub: Option<[u8; 32]>,
    /// Counter behind the unique, monotonically increasing message
    /// identifiers this sender stamps.
    pub next_msg_id: u64,
}

/// Whether a username fits the codec's 4-byte length prefix.
pub fn username_fits(u: &String) -> (r: bool)
    ensures
        r == crate::codec::fits_u32(encode_utf8(u@).len()),
{
    (u.as_str().as_bytes().len() as u64) < 0x1_0000_0000u64
}

impl ClientSession {
    /// The key pairs are consistent, the username fits the codec, and a
    /// joined session holds a 32-byte group key and the admin's keys.
    pub open spec fn wf(self) -> bool {
        &&& self.signing.wf()
        &&& self.encryption.wf()
        &&& crate::codec::fits_u32(encode_utf8(self.username@).len())
        &&& self.phase == ClientPhase::Joined ==> {
            &&& self.group_key is Some
            &&& crate::is_key_bytes(self.group_key.unwrap()@)
            &&& self.admin_signing_pub is Some
            &&& self.admin_encryption_pub is Some
        }
    }

    /// A fresh session: newly generated per-session key pairs, no group key
    /// yet. Keys are never persisted; a restart yields a new identity.
    pub fn new(username: String) -> (r: ClientSession)
        requires
            crate::codec::fits_u32(encode_utf8(username@).len()),
        ensures
            r.wf(),
            r.phase == ClientPhase::Disconnected,
            r.username == username,
            r.group_key is None,
            r.next_msg_id == 0,
    {
        ClientSession {
            phase: ClientPhase::Disconnected,
            username,
            signing: generate_signing_keypair(),
            encryption: generate_encryption_keypair(),
            group_key: None,
            admin_signing_pub: None,
            admin_encryption_pub: None,
            next_msg_id: 0,
        }
    }

    /// The transport connected: the session starts connecting.
    pub fn on_connected(&mut self)
        requires
            old(self).phase == ClientPhase::Disconnected,
        ensures
            *final(self) == (ClientSession { phase: ClientPhase::Connecting, ..*old(self) }),
    {
        self.phase = ClientPhase::Connecting;
    }

    /// Build the join request carrying the username and both public keys,
    /// and start awaiting the response.
    pub fn make_join_request(&mut self) -> (r: ProtocolMessage)
        requires
            old(self).phase == ClientPhase::Connecting,
        ensures
            *final(self) == (ClientSession {
                phase: ClientPhase::AwaitingJoinResponse,
                ..*old(self)
            }),
            r@ == (crate::envelope::EnvelopeView::JoinRequest {
                username: old(self).username@,
                encryption_pub: old(self).encryption.spec_public(),
                signing_pub: old(self).signing.spec_public(),
            }),
    {
        let encryption_pub = self.encryption.public_bytes();
        let signing_pub = self.signing.public_bytes();
        let env = ProtocolMessage::JoinRequest {
            username: self.username.clone(),
            encryption_pub: vstd::slice::slice_to_vec(encryption_pub.as_slice()),
            signing_pub: vstd::slice::slice_to_vec(signing_pub.as_slice()),
        };
        self.phase = ClientPhase::AwaitingJoinResponse;
        env
    }

    /// Handle the envelope received while awaiting the join response. On a
    /// join response whose wrapped key unseals under this session's own
    /// shared secret to a 32-byte key, the session becomes joined, holding
    /// exactly that key and the admin's advertised public keys. Every
    /// failure — wrong variant, malformed admin keys, a wrapped key that is
    /// too short or does not authenticate — moves the session to failed and
    /// says why.
    pub fn handle_join_response(&mut self, msg: &ProtocolMessage) -> (r: Result<(), JoinError>)
        requires
            old(self).wf(),
            old(self).phase == ClientPhase::AwaitingJoinResponse,
        ensures
            final(self).wf(),
            final(self).username == old(self).username,
            final(self).signing == old(self).signing,
            final(self).encryption == old(self).encryption,
            final(self).next_msg_id == old(self).next_msg_id,
            r is Ok <==> final(self).phase == ClientPhase::Joined,
            r is Err ==> final(self).phase == ClientPhase::Failed,
            match msg@ {
                crate::envelope::EnvelopeView::JoinResponse {
                    encrypted_group_key,
                    admin_signing_pub,
                    admin_encryption_pub,
                } => {
                    let shared = x25519_shared(
                        old(self).encryption.seed_bytes(),
                        admin_encryption_pub,
                    );
                    &&& (admin_signing_pub.len() != 32 || admin_encryption_pub.len() != 32)
                        ==> r == Err::<(), JoinError>(JoinError::Protocol(
                        ProtocolError::MalformedKey,
                    ))
                    &&& (admin_signing_pub.len() == 32 && admin_encryption_pub.len() == 32) ==> {
                        &&& encrypted_group_key.len() < 12 ==> r == Err::<(), JoinError>(
                            JoinError::KeyWrap(KeyWrapError::Malformed),
                        )
                        &&& (r is Ok ==> {
                            &&& final(self).group_key is Some
                            &&& final(self).group_key.unwrap()@.len() == 32
                            &&& encrypted_group_key.len() >= 12
                            &&& encrypted_group_key.subrange(
                                12,
                                encrypted_group_key.len() as int,
                            ) == aead_seal(
                                shared,
                                encrypted_group_key.subrange(0, 12),
                                final(self).group_key.unwrap()@,
                            )
                            &&& final(self).admin_signing_pub is Some
                            &&& final(self).admin_signing_pub.unwrap()@ == admin_signing_pub
                            &&& final(self).admin_encryption_pub is Some
                            &&& final(self).admin_encryption_pub.unwrap()@ == admin_encryption_pub
                        })
                        &&& forall|p: Seq<u8>|
                            (encrypted_group_key.len() >= 12 && p.len() == 32
                                && encrypted_group_key.subrange(
                                12,
                                encrypted_group_key.len() as int,
                            ) == aead_seal(shared, encrypted_group_key.subrange(0, 12), p)) ==> (
                            r is Ok && final(self).group_key is Some
                                && final(self).group_key.unwrap()@ == p)
                    }
                },
                _ => r == Err::<(), JoinError>(JoinError::Protocol(
                    ProtocolError::UnexpectedMessage,
                )),
            },
    {
        match msg {
            ProtocolMessage::JoinResponse {
                encrypted_group_key,
                admin_signing_pub,
                admin_encryption_pub,
            } => {
                if admin_signing_pub.len() != 32 || admin_encryption_pub.len() != 32 {
                    self.phase = ClientPhase::Failed;
                    return Err(JoinError::Protocol(ProtocolError::MalformedKey));
                }
                let asp = match admin_signing_pub.to_array32() {
                    Ok(a) => a,
                    Err(_) => vstd::pervasive::unreached(),
                };
                let aep = match admin_encryption_pub.to_array32() {
                    Ok(a) => a,
                    Err(_) => vstd::pervasive::unreached(),
                };
                match decrypt_group_key(encrypted_group_key.as_slice(), &self.encryption, &aep) {
                    Ok(key) => {
                        if key.len() != 32 {
                            self.phase = ClientPhase::Failed;
                            return Err(JoinError::Protocol(ProtocolError::MalformedKey));
                        }
                        self.group_key = Some(key);
                        self.admin_signing_pub = Some(asp);
                        self.admin_encryption_pub = Some(aep);
                        self.phase = ClientPhase::Joined;
                        Ok(())
                    },
                    Err(e) => {
                        self.phase = ClientPhase::Failed;
                        Err(JoinError::KeyWrap(e))
                    },
                }
            },
            _ => {
                self.phase = ClientPhase::Failed;
                Err(JoinError::Protocol(ProtocolError::UnexpectedMessage))
            },
        }
    }
}

} // verus!
