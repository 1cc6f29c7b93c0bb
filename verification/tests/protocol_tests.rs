use veil::codec::{decode_envelope, encode_envelope};
use veil::envelope::{ProtocolError, ProtocolMessage};
use veil::handshake::{
    server_handle_envelope, ClientPhase, ClientSession, JoinError, ServerConnPhase, ServerReply,
    ServerState,
};
use veil::keywrap::KeyWrapError;
use veil::relay::{send_receive_round_trip, ChatReceiveError};

fn join_client(
    server: &mut ServerState,
    conn_id: usize,
    username: &str,
) -> (ClientSession, ServerConnPhase) {
    let mut client = ClientSession::new(String::from(username));
    client.on_connected();
    let request = client.make_join_request();
    // Run the request through the codec, as the wire would.
    let bytes = encode_envelope(&request).unwrap();
    let request = decode_envelope(bytes.as_slice()).unwrap();
    let mut phase = ServerConnPhase::AwaitingJoinRequest;
    let reply = server_handle_envelope(server, &mut phase, conn_id, request).unwrap();
    let response = match reply {
        ServerReply::Respond(resp) => resp,
        _ => panic!("expected a join response"),
    };
    assert_eq!(phase, ServerConnPhase::HandshakeComplete);
    client.handle_join_response(&response).unwrap();
    assert_eq!(client.phase, ClientPhase::Joined);
    (client, phase)
}

#[test]
fn join_handshake_delivers_exact_group_key() {
    let mut server = ServerState::new();
    let (client, _) = join_client(&mut server, 1, "alice");
    assert_eq!(client.group_key.as_ref().unwrap(), &server.group_key);
    assert_eq!(
        client.admin_signing_pub.unwrap(),
        server.admin_signing.public_bytes()
    );
    assert_eq!(server.members.len(), 1);
    assert_eq!(server.members[0].username, "alice");
}

#[test]
fn chat_is_relayed_verified_and_decrypted() {
    let mut server = ServerState::new();
    let (mut alice, mut alice_phase) = join_client(&mut server, 1, "alice");
    let (bob, _) = join_client(&mut server, 2, "bob");

    let env = alice.send_chat(b"hello group");
    let bytes = encode_envelope(&env).unwrap();
    let server_copy = decode_envelope(bytes.as_slice()).unwrap();
    let reply = server_handle_envelope(&mut server, &mut alice_phase, 1, server_copy).unwrap();
    match reply {
        ServerReply::Relay(ids) => assert_eq!(ids, vec![2]),
        _ => panic!("expected a relay"),
    }

    match env {
        ProtocolMessage::ChatMessage { username, msg_id, ciphertext, signature } => {
            assert_eq!(username, "alice");
            assert_eq!(msg_id, "0");
            let plaintext = bob
                .receive_chat(&msg_id, &ciphertext, &signature, &alice.signing.public_bytes())
                .unwrap();
            assert_eq!(plaintext, b"hello group");

            // Verification against any other public key fails.
            let outsider = ClientSession::new(String::from("carol"));
            let r = bob.receive_chat(&msg_id, &ciphertext, &signature, &outsider.signing.public_bytes());
            assert_eq!(r, Err(ChatReceiveError::BadSignature));

            // A third party that never joined this group holds a different
            // group key and cannot decrypt the relayed ciphertext.
            let mut other_server = ServerState::new();
            let (eve, _) = join_client(&mut other_server, 9, "eve");
            let r = eve.receive_chat(&msg_id, &ciphertext, &signature, &alice.signing.public_bytes());
            assert_eq!(r, Err(ChatReceiveError::AuthenticationFailed));
        }
        _ => panic!("expected a chat message"),
    }
}

#[test]
fn chat_round_trip_law_on_concrete_values() {
    let mut server = ServerState::new();
    let (mut alice, _) = join_client(&mut server, 1, "alice");
    let (bob, _) = join_client(&mut server, 2, "bob");
    let plaintext = send_receive_round_trip(&mut alice, &bob, b"the meeting is at noon").unwrap();
    assert_eq!(plaintext, b"the meeting is at noon");
}

#[test]
fn msg_ids_increase_per_sender() {
    let mut server = ServerState::new();
    let (mut alice, _) = join_client(&mut server, 1, "alice");
    for expected in ["0", "1", "2"] {
        match alice.send_chat(b"x") {
            ProtocolMessage::ChatMessage { msg_id, .. } => assert_eq!(msg_id, expected),
            _ => panic!("expected a chat message"),
        }
    }
}

#[test]
fn tampered_chat_signature_is_dropped() {
    let mut server = ServerState::new();
    let (mut alice, mut alice_phase) = join_client(&mut server, 1, "alice");
    let (_bob, _) = join_client(&mut server, 2, "bob");
    let env = alice.send_chat(b"hello");
    let tampered = match env {
        ProtocolMessage::ChatMessage { username, msg_id, ciphertext, mut signature } => {
            signature[0] ^= 1;
            ProtocolMessage::ChatMessage { username, msg_id, ciphertext, signature }
        }
        _ => panic!("expected a chat message"),
    };
    let r = server_handle_envelope(&mut server, &mut alice_phase, 1, tampered);
    assert_eq!(r.err(), Some(ProtocolError::BadSignature));
}

#[test]
fn short_key_join_request_is_rejected_without_affecting_others() {
    let mut server = ServerState::new();
    let (mut alice, mut alice_phase) = join_client(&mut server, 1, "alice");

    let bad = ProtocolMessage::JoinRequest {
        username: String::from("mallory"),
        encryption_pub: vec![0u8; 31],
        signing_pub: vec![0u8; 32],
    };
    let mut phase = ServerConnPhase::AwaitingJoinRequest;
    let r = server_handle_envelope(&mut server, &mut phase, 5, bad);
    assert_eq!(r.err(), Some(ProtocolError::MalformedKey));
    assert_eq!(phase, ServerConnPhase::Rejected);
    assert_eq!(server.members.len(), 1);

    // The connected member is unaffected and can still send.
    let env = alice.send_chat(b"still here");
    let bytes = encode_envelope(&env).unwrap();
    let copy = decode_envelope(bytes.as_slice()).unwrap();
    let reply = server_handle_envelope(&mut server, &mut alice_phase, 1, copy).unwrap();
    match reply {
        ServerReply::Relay(ids) => assert_eq!(ids, Vec::<usize>::new()),
        _ => panic!("expected a relay"),
    }
}

#[test]
fn chat_before_handshake_is_unexpected() {
    let mut server = ServerState::new();
    let mut alice = ClientSession::new(String::from("alice"));
    alice.on_connected();
    // Hand-build a chat envelope from an unjoined connection.
    let env = ProtocolMessage::ChatMessage {
        username: String::from("alice"),
        msg_id: String::from("0"),
        ciphertext: vec![0u8; 40],
        signature: vec![0u8; 64],
    };
    let mut phase = ServerConnPhase::AwaitingJoinRequest;
    let r = server_handle_envelope(&mut server, &mut phase, 1, env);
    assert_eq!(r.err(), Some(ProtocolError::UnexpectedMessage));
    assert_eq!(phase, ServerConnPhase::Rejected);
}

#[test]
fn client_rejects_wrong_variant_and_malformed_admin_keys() {
    let mut client = ClientSession::new(String::from("alice"));
    client.on_connected();
    let _ = client.make_join_request();
    let wrong = ProtocolMessage::JoinRequest {
        username: String::from("x"),
        encryption_pub: vec![0u8; 32],
        signing_pub: vec![0u8; 32],
    };
    let r = client.handle_join_response(&wrong);
    assert_eq!(r, Err(JoinError::Protocol(ProtocolError::UnexpectedMessage)));
    assert_eq!(client.phase, ClientPhase::Failed);

    let mut client = ClientSession::new(String::from("alice"));
    client.on_connected();
    let _ = client.make_join_request();
    let bad_keys = ProtocolMessage::JoinResponse {
        encrypted_group_key: vec![0u8; 60],
        admin_signing_pub: vec![0u8; 31],
        admin_encryption_pub: vec![0u8; 32],
    };
    let r = client.handle_join_response(&bad_keys);
    assert_eq!(r, Err(JoinError::Protocol(ProtocolError::MalformedKey)));
    assert_eq!(client.phase, ClientPhase::Failed);
}

#[test]
fn stale_join_response_fails_after_server_restart() {
    // A client joins; the server process restarts and so holds a new group
    // key and new admin keys. The old join response does not validate for a
    // fresh session, and the old group key no longer matches the new one.
    let mut old_server = ServerState::new();
    let (old_client, _) = join_client(&mut old_server, 1, "alice");
    let new_server = ServerState::new();
    assert_ne!(old_server.group_key, new_server.group_key);
    assert_ne!(
        old_client.group_key.as_ref().unwrap(),
        &new_server.group_key
    );

    // A fresh client session handed the stale response fails with an
    // authentication error rather than silently accepting stale material.
    let mut fresh = ClientSession::new(String::from("alice"));
    fresh.on_connected();
    let request = fresh.make_join_request();
    drop(request);
    let stale_wrapped = {
        let mut phase = ServerConnPhase::AwaitingJoinRequest;
        let mut probe = ClientSession::new(String::from("probe"));
        probe.on_connected();
        let req = probe.make_join_request();
        let reply = server_handle_envelope(&mut old_server, &mut phase, 7, req).unwrap();
        match reply {
            ServerReply::Respond(ProtocolMessage::JoinResponse {
                encrypted_group_key, ..
            }) => encrypted_group_key,
            _ => panic!("expected a join response"),
        }
    };
    let stale = ProtocolMessage::JoinResponse {
        encrypted_group_key: stale_wrapped,
        admin_signing_pub: old_server.admin_signing.public_bytes().to_vec(),
        admin_encryption_pub: old_server.admin_encryption.public_bytes().to_vec(),
    };
    let r = fresh.handle_join_response(&stale);
    assert_eq!(r, Err(JoinError::KeyWrap(KeyWrapError::AuthenticationFailed)));
    assert_eq!(fresh.phase, ClientPhase::Failed);
}

#[test]
fn disconnect_removes_only_that_member() {
    let mut server = ServerState::new();
    let (_a, _) = join_client(&mut server, 1, "alice");
    let (_b, _) = join_client(&mut server, 2, "bob");
    server.remove_member(1);
    assert_eq!(server.members.len(), 1);
    assert_eq!(server.members[0].username, "bob");
}

#[test]
fn short_chat_ciphertext_is_malformed() {
    let mut server = ServerState::new();
    let (alice, _) = join_client(&mut server, 1, "alice");
    let msg_id = String::from("0");
    let ciphertext = vec![1u8; 5];
    let mut payload = ciphertext.clone();
    payload.extend_from_slice(msg_id.as_bytes());
    let signature = alice.signing.sign(payload.as_slice());
    let r = alice.receive_chat(&msg_id, &ciphertext, &signature, &alice.signing.public_bytes());
    assert_eq!(r, Err(ChatReceiveError::Malformed));
}
