use veil::codec::{decode_envelope, encode_envelope, frame_payload, FrameBuffer};
use veil::envelope::{ProtocolError, ProtocolMessage};

fn sample_envelopes() -> Vec<ProtocolMessage> {
    vec![
        ProtocolMessage::JoinRequest {
            username: String::from("alice"),
            encryption_pub: vec![7u8; 32],
            signing_pub: vec![9u8; 32],
        },
        ProtocolMessage::JoinResponse {
            encrypted_group_key: vec![1u8; 60],
            admin_signing_pub: vec![2u8; 32],
            admin_encryption_pub: vec![3u8; 32],
        },
        ProtocolMessage::ChatMessage {
            username: String::from("bob"),
            msg_id: String::from("17"),
            ciphertext: vec![4u8, 5, 6],
            signature: vec![8u8; 64],
        },
    ]
}

fn assert_same_envelope(a: &ProtocolMessage, b: &ProtocolMessage) {
    match (a, b) {
        (
            ProtocolMessage::JoinRequest { username: u1, encryption_pub: e1, signing_pub: s1 },
            ProtocolMessage::JoinRequest { username: u2, encryption_pub: e2, signing_pub: s2 },
        ) => {
            assert_eq!(u1, u2);
            assert_eq!(e1, e2);
            assert_eq!(s1, s2);
        }
        (
            ProtocolMessage::JoinResponse {
                encrypted_group_key: k1,
                admin_signing_pub: s1,
                admin_encryption_pub: e1,
            },
            ProtocolMessage::JoinResponse {
                encrypted_group_key: k2,
                admin_signing_pub: s2,
                admin_encryption_pub: e2,
            },
        ) => {
            assert_eq!(k1, k2);
            assert_eq!(s1, s2);
            assert_eq!(e1, e2);
        }
        (
            ProtocolMessage::ChatMessage {
                username: u1,
                msg_id: m1,
                ciphertext: c1,
                signature: g1,
            },
            ProtocolMessage::ChatMessage {
                username: u2,
                msg_id: m2,
                ciphertext: c2,
                signature: g2,
            },
        ) => {
            assert_eq!(u1, u2);
            assert_eq!(m1, m2);
            assert_eq!(c1, c2);
            assert_eq!(g1, g2);
        }
        _ => panic!("envelope variants differ"),
    }
}

#[test]
fn envelope_round_trip_each_variant() {
    for env in sample_envelopes() {
        let bytes = encode_envelope(&env).unwrap();
        let back = decode_envelope(bytes.as_slice()).unwrap();
        assert_same_envelope(&env, &back);
    }
}

#[test]
fn decode_rejects_malformed_bytes() {
    assert_eq!(decode_envelope(&[]), Err(ProtocolError::MalformedEnvelope));
    assert_eq!(decode_envelope(&[9u8]), Err(ProtocolError::MalformedEnvelope));
    assert_eq!(decode_envelope(&[1u8, 0, 0]), Err(ProtocolError::MalformedEnvelope));
    // A length prefix that promises more bytes than follow.
    assert_eq!(
        decode_envelope(&[1u8, 0, 0, 0, 5, 97]),
        Err(ProtocolError::MalformedEnvelope)
    );
    // Trailing bytes after a complete envelope.
    let env = ProtocolMessage::JoinResponse {
        encrypted_group_key: vec![1u8; 4],
        admin_signing_pub: vec![2u8; 4],
        admin_encryption_pub: vec![3u8; 4],
    };
    let mut bytes = encode_envelope(&env).unwrap();
    bytes.push(0);
    assert_eq!(decode_envelope(bytes.as_slice()), Err(ProtocolError::MalformedEnvelope));
}

#[test]
fn decode_rejects_invalid_utf8_username() {
    // Tag 1, username of 1 byte that is not valid UTF-8, two empty keys.
    let bytes = vec![1u8, 0, 0, 0, 1, 0xFF, 0, 0, 0, 0, 0, 0, 0, 0];
    assert_eq!(decode_envelope(bytes.as_slice()), Err(ProtocolError::MalformedEnvelope));
}

#[test]
fn framing_round_trip_with_mid_frame_chunks() {
    let envelopes = sample_envelopes();
    let mut stream: Vec<u8> = Vec::new();
    for env in &envelopes {
        let payload = encode_envelope(env).unwrap();
        let frame = frame_payload(payload.as_slice()).unwrap();
        stream.extend_from_slice(frame.as_slice());
    }
    for chunk_len in [1usize, 3, 7, stream.len()] {
        let mut buffer = FrameBuffer::new();
        let mut decoded: Vec<ProtocolMessage> = Vec::new();
        for chunk in stream.chunks(chunk_len) {
            buffer.push_bytes(chunk);
            while let Some(frame) = buffer.next_frame() {
                decoded.push(decode_envelope(frame.as_slice()).unwrap());
            }
        }
        assert_eq!(decoded.len(), envelopes.len());
        for (a, b) in envelopes.iter().zip(decoded.iter()) {
            assert_same_envelope(a, b);
        }
    }
}

#[test]
fn frame_buffer_waits_for_whole_frame() {
    let mut buffer = FrameBuffer::new();
    buffer.push_bytes(&[0, 0, 0, 3, 10]);
    assert!(buffer.next_frame().is_none());
    buffer.push_bytes(&[20]);
    assert!(buffer.next_frame().is_none());
    buffer.push_bytes(&[30]);
    assert_eq!(buffer.next_frame(), Some(vec![10, 20, 30]));
    assert!(buffer.next_frame().is_none());
}
