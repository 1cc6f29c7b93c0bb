//! Envelope codec and length-prefixed framing.
//!
//! Each envelope serializes to a tag byte followed by its fields in order,
//! every field prefixed by its length as a 4-byte big-endian count. On the
//! wire, each serialized envelope travels inside one frame: a 4-byte
//! big-endian byte count followed by that many bytes, so that receivers can
//! reassemble exactly one envelope per logical message regardless of how the
//! stream is segmented.
use vstd::prelude::*;

use crate::envelope::EnvelopeView;
use crate::envelope::ProtocolError;
use crate::envelope::ProtocolMessage;
use vstd::utf8::decode_utf8;
use vstd::utf8::encode_utf8;
use vstd::utf8::valid_utf8;

verus! {

/// A length fits the 4-byte prefix when it is below 2^32.
pub open spec fn fits_u32(n: nat) -> bool {
    n < 0x1_0000_0000
}

/// The 4-byte big-endian encoding of a 32-bit count.
pub open spec fn be32(n: u32) -> Seq<u8> {
    seq![
        ((n >> 24) & 0xff) as u8,
        ((n >> 16) & 0xff) as u8,
        ((n >> 8) & 0xff) as u8,
        (n & 0xff) as u8,
    ]
}

/// The 32-bit count read from the first four bytes of a sequence.
pub open spec fn from_be32(s: Seq<u8>) -> u32
    recommends
        s.len() >= 4,
{
    ((s[0] as u32) << 24) | ((s[1] as u32) << 16) | ((s[2] as u32) << 8) | (s[3] as u32)
}

pub proof fn lemma_be32_round_trip(n: u32)
    ensures
        be32(n).len() == 4,
        from_be32(be32(n)) == n,
{
    let b0 = ((n >> 24) & 0xff) as u8;
    let b1 = ((n >> 16) & 0xff) as u8;
    let b2 = ((n >> 8) & 0xff) as u8;
    let b3 = (n & 0xff) as u8;
    assert(((b0 as u32) << 24) | ((b1 as u32) << 16) | ((b2 as u32) << 8) | (b3 as u32) == n)
        by (bit_vector)
        requires
            b0 == ((n >> 24) & 0xff) as u8,
            b1 == ((n >> 16) & 0xff) as u8,
            b2 == ((n >> 8) & 0xff) as u8,
            b3 == (n & 0xff) as u8,
    ;
}

/// A field as it stands in the byte stream: its length, then its bytes.
pub open spec fn lp(p: Seq<u8>) -> Seq<u8>
    recommends
        fits_u32(p.len()),
{
    be32(p.len() as u32) + p
}

/// Split one length-prefixed field off the front of a byte sequence.
pub open spec fn take_lp(s: Seq<u8>) -> Option<(Seq<u8>, Seq<u8>)> {
    if s.len() < 4 {
        None
    } else {
        let n = from_be32(s.subrange(0, 4)) as int;
        if s.len() < 4 + n {
            None
        } else {
            Some((s.subrange(4, 4 + n), s.subrange(4 + n, s.len() as int)))
        }
    }
}

/// Splitting a length-prefixed field off a stream returns exactly the field
/// and the remainder.
pub proof fn lemma_take_lp_of_lp(p: Seq<u8>, rest: Seq<u8>)
    requires
        fits_u32(p.len()),
    ensures
        take_lp(lp(p) + rest) == Some((p, rest)),
{
    lemma_be32_round_trip(p.len() as u32);
    let s = lp(p) + rest;
    assert(s.subrange(0, 4) =~= be32(p.len() as u32));
    assert(s.subrange(4, 4 + p.len() as int) =~= p);
    assert(s.subrange(4 + p.len() as int, s.len() as int) =~= rest);
}

/// Append one length-prefixed field to a buffer.
fn push_lp(out: &mut Vec<u8>, field: &[u8])
    requires
        fits_u32(field@.len()),
    ensures
        final(out)@ == old(out)@ + lp(field@),
{
    let n = field.len() as u32;
    out.push(((n >> 24) & 0xff) as u8);
    out.push(((n >> 16) & 0xff) as u8);
    out.push(((n >> 8) & 0xff) as u8);
    out.push((n & 0xff) as u8);
    out.extend_from_slice(field);
    proof {
        assert(out@ =~= old(out)@ + lp(field@));
    }
}

/// Read one length-prefixed field starting at `i`, returning the field and
/// the position just past it.
fn read_lp(buf: &[u8], i: usize) -> (r: Option<(Vec<u8>, usize)>)
    requires
        i <= buf@.len(),
    ensures
        match r {
            Some((v, j)) => {
                &&& i < j <= buf@.len()
                &&& take_lp(buf@.subrange(i as int, buf@.len() as int)) == Some(
                    (v@, buf@.subrange(j as int, buf@.len() as int)),
                )
            },
            None => take_lp(buf@.subrange(i as int, buf@.len() as int)) is None,
        },
{
    let ghost s = buf@.subrange(i as int, buf@.len() as int);
    if buf.len() - i < 4 {
        return None;
    }
    let n32: u32 = ((*vstd::slice::slice_index_get(buf, i) as u32) << 24) | ((*vstd::slice::slice_index_get(buf, i + 1) as u32) << 16) | ((*vstd::slice::slice_index_get(buf, i + 2) as u32) << 8) | (*vstd::slice::slice_index_get(buf, i + 3) as u32);
    proof {
        assert(s.subrange(0, 4)[0] == buf@[i as int]);
        assert(s.subrange(0, 4)[1] == buf@[i as int + 1]);
        assert(s.subrange(0, 4)[2] == buf@[i as int + 2]);
        assert(s.subrange(0, 4)[3] == buf@[i as int + 3]);
        assert(n32 == from_be32(s.subrange(0, 4)));
    }
    let n = n32 as usize;
    if buf.len() - i - 4 < n {
        proof {
            assert(s.len() < 4 + n32 as int);
        }
        return None;
    }
    let field = vstd::slice::slice_to_vec(vstd::slice::slice_subrange(buf, i + 4, i + 4 + n));
    let j = i + 4 + n;
    proof {
        assert(field@ =~= s.subrange(4, 4 + n32 as int));
        assert(buf@.subrange(j as int, buf@.len() as int) =~= s.subrange(
            4 + n32 as int,
            s.len() as int,
        ));
    }
    Some((field, j))
}

/// Relies on String::from_utf8: succeeds exactly on valid UTF-8, returning
/// precisely the decoded characters.
#[verifier::external_body]
pub fn string_from_utf8(v: Vec<u8>) -> (r: Option<String>)
    ensures
        match r {
            Some(s) => valid_utf8(v@) && s@ == decode_utf8(v@),
            None => !valid_utf8(v@),
        },
{
    String::from_utf8(v).ok()
}

/// Every field of the envelope fits the 4-byte length prefix.
pub open spec fn env_wf(v: EnvelopeView) -> bool {
    match v {
        EnvelopeView::JoinRequest { username, encryption_pub, signing_pub } => fits_u32(
            encode_utf8(username).len(),
        ) && fits_u32(encryption_pub.len()) && fits_u32(signing_pub.len()),
        EnvelopeView::JoinResponse {
            encrypted_group_key,
            admin_signing_pub,
            admin_encryption_pub,
        } => fits_u32(encrypted_group_key.len()) && fits_u32(admin_signing_pub.len()) && fits_u32(
            admin_encryption_pub.len(),
        ),
        EnvelopeView::ChatMessage { username, msg_id, ciphertext, signature } => fits_u32(
            encode_utf8(username).len(),
        ) && fits_u32(encode_utf8(msg_id).len()) && fits_u32(ciphertext.len()) && fits_u32(
            signature.len(),
        ),
    }
}

/// The serialized form of an envelope: a tag byte, then each field
/// length-prefixed, strings as UTF-8.
pub open spec fn spec_encode(v: EnvelopeView) -> Seq<u8> {
    match v {
        EnvelopeView::JoinRequest { username, encryption_pub, signing_pub } => seq![1u8] + lp(
            encode_utf8(username),
        ) + lp(encryption_pub) + lp(signing_pub),
        EnvelopeView::JoinResponse {
            encrypted_group_key,
            admin_signing_pub,
            admin_encryption_pub,
        } => seq![2u8] + lp(encrypted_group_key) + lp(admin_signing_pub) + lp(admin_encryption_pub),
        EnvelopeView::ChatMessage { username, msg_id, ciphertext, signature } => seq![3u8] + lp(
            encode_utf8(username),
        ) + lp(encode_utf8(msg_id)) + lp(ciphertext) + lp(signature),
    }
}

pub open spec fn decode_join_request(s: Seq<u8>) -> Option<EnvelopeView> {
    match take_lp(s) {
        Some((u, s1)) => match take_lp(s1) {
            Some((ep, s2)) => match take_lp(s2) {
                Some((sp, s3)) => if s3.len() == 0 && valid_utf8(u) {
                    Some(
                        EnvelopeView::JoinRequest {
                            username: decode_utf8(u),
                            encryption_pub: ep,
                            signing_pub: sp,
                        },
                    )
                } else {
                    None
                },
                None => None,
            },
            None => None,
        },
        None => None,
    }
}

pub open spec fn decode_join_response(s: Seq<u8>) -> Option<EnvelopeView> {
    match take_lp(s) {
        Some((ekg, s1)) => match take_lp(s1) {
            Some((asp, s2)) => match take_lp(s2) {
                Some((aep, s3)) => if s3.len() == 0 {
                    Some(
                        EnvelopeView::JoinResponse {
                            encrypted_group_key: ekg,
                            admin_signing_pub: asp,
                            admin_encryption_pub: aep,
                        },
                    )
                } else {
                    None
                },
                None => None,
            },
            None => None,
        },
        None => None,
    }
}

pub open spec fn decode_chat_message(s: Seq<u8>) -> Option<EnvelopeView> {
    match take_lp(s) {
        Some((u, s1)) => match take_lp(s1) {
            Some((m, s2)) => match take_lp(s2) {
                Some((ct, s3)) => match take_lp(s3) {
                    Some((sig, s4)) => if s4.len() == 0 && valid_utf8(u) && valid_utf8(m) {
                        Some(
                            EnvelopeView::ChatMessage {
                                username: decode_utf8(u),
                                msg_id: decode_utf8(m),
                                ciphertext: ct,
                                signature: sig,
                            },
                        )
                    } else {
                        None
                    },
                    None => None,
                },
                None => None,
            },
            None => None,
        },
        None => None,
    }
}

/// The envelope denoted by a byte sequence, if any: the deserialization that
/// `decode_envelope` computes. A decode consumes the whole sequence.
pub open spec fn spec_decode(s: Seq<u8>) -> Option<EnvelopeView> {
    if s.len() == 0 {
        None
    } else {
        let rest = s.subrange(1, s.len() as int);
        if s[0] == 1 {
            decode_join_request(rest)
        } else if s[0] == 2 {
            decode_join_response(rest)
        } else if s[0] == 3 {
            decode_chat_message(rest)
        } else {
            None
        }
    }
}

/// Law: decoding is a left inverse of encoding — every well-formed envelope
/// comes back from its own serialized bytes.
pub proof fn lemma_decode_encode(v: EnvelopeView)
    requires
        env_wf(v),
    ensures
        spec_decode(spec_encode(v)) == Some(v),
{
    broadcast use vstd::utf8::encode_utf8_valid_utf8, vstd::utf8::encode_utf8_decode_utf8;

    let e = spec_encode(v);
    let rest = e.subrange(1, e.len() as int);
    let empty = Seq::<u8>::empty();
    match v {
        EnvelopeView::JoinRequest { username, encryption_pub, signing_pub } => {
            let ub = encode_utf8(username);
            assert(rest =~= lp(ub) + (lp(encryption_pub) + lp(signing_pub)));
            lemma_take_lp_of_lp(ub, lp(encryption_pub) + lp(signing_pub));
            assert(lp(encryption_pub) + lp(signing_pub) =~= lp(encryption_pub) + (lp(signing_pub)
                + empty));
            lemma_take_lp_of_lp(encryption_pub, lp(signing_pub) + empty);
            lemma_take_lp_of_lp(signing_pub, empty);
            assert(lp(signing_pub) + empty =~= lp(signing_pub));
        },
        EnvelopeView::JoinResponse {
            encrypted_group_key,
            admin_signing_pub,
            admin_encryption_pub,
        } => {
            assert(rest =~= lp(encrypted_group_key) + (lp(admin_signing_pub) + lp(
                admin_encryption_pub,
            )));
            lemma_take_lp_of_lp(
                encrypted_group_key,
                lp(admin_signing_pub) + lp(admin_encryption_pub),
            );
            assert(lp(admin_signing_pub) + lp(admin_encryption_pub) =~= lp(admin_signing_pub) + (lp(
                admin_encryption_pub,
            ) + empty));
            lemma_take_lp_of_lp(admin_signing_pub, lp(admin_encryption_pub) + empty);
            lemma_take_lp_of_lp(admin_encryption_pub, empty);
            assert(lp(admin_encryption_pub) + empty =~= lp(admin_encryption_pub));
        },
        EnvelopeView::ChatMessage { username, msg_id, ciphertext, signature } => {
            let ub = encode_utf8(username);
            let mb = encode_utf8(msg_id);
            assert(rest =~= lp(ub) + (lp(mb) + (lp(ciphertext) + lp(signature))));
            lemma_take_lp_of_lp(ub, lp(mb) + (lp(ciphertext) + lp(signature)));
            assert(lp(mb) + (lp(ciphertext) + lp(signature)) =~= lp(mb) + (lp(ciphertext) + (lp(
                signature,
            ) + empty)));
            lemma_take_lp_of_lp(mb, lp(ciphertext) + (lp(signature) + empty));
            lemma_take_lp_of_lp(ciphertext, lp(signature) + empty);
            lemma_take_lp_of_lp(signature, empty);
            assert(lp(signature) + empty =~= lp(signature));
        },
    }
}

/// Whether a byte sequence fits the 4-byte length prefix.
fn len_fits(s: &[u8]) -> (r: bool)
    ensures
        r == fits_u32(s@.len()),
{
    (s.len() as u64) < 0x1_0000_0000u64
}

/// Serialize an envelope. Fails exactly when some field is too long for the
/// 4-byte length prefix.
pub fn encode_envelope(env: &ProtocolMessage) -> (r: Result<Vec<u8>, ProtocolError>)
    ensures
        env_wf(env@) ==> r is Ok && r.unwrap()@ == spec_encode(env@),
        !env_wf(env@) ==> r == Err::<Vec<u8>, ProtocolError>(ProtocolError::FieldTooLong),
{
    let mut out: Vec<u8> = Vec::new();
    match env {
        ProtocolMessage::JoinRequest { username, encryption_pub, signing_pub } => {
            let ub = username.as_str().as_bytes();
            if !len_fits(ub) || !len_fits(encryption_pub.as_slice()) || !len_fits(
                signing_pub.as_slice(),
            ) {
                return Err(ProtocolError::FieldTooLong);
            }
            out.push(1u8);
            push_lp(&mut out, ub);
            push_lp(&mut out, encryption_pub.as_slice());
            push_lp(&mut out, signing_pub.as_slice());
            proof {
                assert(out@ =~= spec_encode(env@));
            }
        },
        ProtocolMessage::JoinResponse {
            encrypted_group_key,
            admin_signing_pub,
            admin_encryption_pub,
        } => {
            if !len_fits(encrypted_group_key.as_slice()) || !len_fits(admin_signing_pub.as_slice())
                || !len_fits(admin_encryption_pub.as_slice()) {
                return Err(ProtocolError::FieldTooLong);
            }
            out.push(2u8);
            push_lp(&mut out, encrypted_group_key.as_slice());
            push_lp(&mut out, admin_signing_pub.as_slice());
            push_lp(&mut out, admin_encryption_pub.as_slice());
            proof {
                assert(out@ =~= spec_encode(env@));
            }
        },
        ProtocolMessage::ChatMessage { username, msg_id, ciphertext, signature } => {
            let ub = username.as_str().as_bytes();
            let mb = msg_id.as_str().as_bytes();
            if !len_fits(ub) || !len_fits(mb) || !len_fits(ciphertext.as_slice()) || !len_fits(
                signature.as_slice(),
            ) {
                return Err(ProtocolError::FieldTooLong);
            }
            out.push(3u8);
            push_lp(&mut out, ub);
            push_lp(&mut out, mb);
            push_lp(&mut out, ciphertext.as_slice());
            push_lp(&mut out, signature.as_slice());
            proof {
                assert(out@ =~= spec_encode(env@));
            }
        },
    }
    Ok(out)
}

/// Deserialize one envelope from exactly these bytes. Returns the envelope
/// that `spec_decode` denotes, and a malformed-envelope error when it
/// denotes none.
pub fn decode_envelope(bytes: &[u8]) -> (r: Result<ProtocolMessage, ProtocolError>)
    ensures
        match spec_decode(bytes@) {
            Some(v) => r is Ok && r.unwrap()@ == v,
            None => r == Err::<ProtocolMessage, ProtocolError>(ProtocolError::MalformedEnvelope),
        },
{
    if bytes.len() == 0 {
        return Err(ProtocolError::MalformedEnvelope);
    }
    let tag = *vstd::slice::slice_index_get(bytes, 0);
    if tag == 1 {
        match read_lp(bytes, 1) {
            Some((u, j1)) => match read_lp(bytes, j1) {
                Some((ep, j2)) => match read_lp(bytes, j2) {
                    Some((sp, j3)) => {
                        if j3 != bytes.len() {
                            return Err(ProtocolError::MalformedEnvelope);
                        }
                        match string_from_utf8(u) {
                            Some(username) => Ok(
                                ProtocolMessage::JoinRequest {
                                    username,
                                    encryption_pub: ep,
                                    signing_pub: sp,
                                },
                            ),
                            None => Err(ProtocolError::MalformedEnvelope),
                        }
                    },
                    None => Err(ProtocolError::MalformedEnvelope),
                },
                None => Err(ProtocolError::MalformedEnvelope),
            },
            None => Err(ProtocolError::MalformedEnvelope),
        }
    } else if tag == 2 {
        match read_lp(bytes, 1) {
            Some((ekg, j1)) => match read_lp(bytes, j1) {
                Some((asp, j2)) => match read_lp(bytes, j2) {
                    Some((aep, j3)) => {
                        if j3 != bytes.len() {
                            return Err(ProtocolError::MalformedEnvelope);
                        }
                        Ok(
                            ProtocolMessage::JoinResponse {
                                encrypted_group_key: ekg,
                                admin_signing_pub: asp,
                                admin_encryption_pub: aep,
                            },
                        )
                    },
                    None => Err(ProtocolError::MalformedEnvelope),
                },
                None => Err(ProtocolError::MalformedEnvelope),
            },
            None => Err(ProtocolError::MalformedEnvelope),
        }
    } else if tag == 3 {
        match read_lp(bytes, 1) {
            Some((u, j1)) => match read_lp(bytes, j1) {
                Some((m, j2)) => match read_lp(bytes, j2) {
                    Some((ct, j3)) => match read_lp(bytes, j3) {
                        Some((sig, j4)) => {
                            if j4 != bytes.len() {
                                return Err(ProtocolError::MalformedEnvelope);
                            }
                            match (string_from_utf8(u), string_from_utf8(m)) {
                                (Some(username), Some(msg_id)) => Ok(
                                    ProtocolMessage::ChatMessage {
                                        username,
                                        msg_id,
                                        ciphertext: ct,
                                        signature: sig,
                                    },
                                ),
                                _ => Err(ProtocolError::MalformedEnvelope),
                            }
                        },
                        None => Err(ProtocolError::MalformedEnvelope),
                    },
                    None => Err(ProtocolError::MalformedEnvelope),
                },
                None => Err(ProtocolError::MalformedEnvelope),
            },
            None => Err(ProtocolError::MalformedEnvelope),
        }
    } else {
        Err(ProtocolError::MalformedEnvelope)
    }
}

/// A sequence of payloads laid out as consecutive length-prefixed frames.
pub open spec fn frames(ps: Seq<Seq<u8>>) -> Seq<u8>
    decreases ps.len(),
{
    if ps.len() == 0 {
        Seq::<u8>::empty()
    } else {
        lp(ps.first()) + frames(ps.drop_first())
    }
}

/// The payloads denoted by a byte stream of whole frames, if the stream
/// parses: frames split off the front until nothing is left.
pub open spec fn parse_frames(s: Seq<u8>) -> Option<Seq<Seq<u8>>>
    decreases s.len(),
{
    if s.len() == 0 {
        Some(Seq::<Seq<u8>>::empty())
    } else if s.len() < 4 {
        None
    } else {
        let n = from_be32(s.subrange(0, 4)) as int;
        if s.len() < 4 + n {
            None
        } else {
            let p = s.subrange(4, 4 + n);
            let rest = s.subrange(4 + n, s.len() as int);
            match parse_frames(rest) {
                Some(ps) => Some(seq![p] + ps),
                None => None,
            }
        }
    }
}

/// Law: framing round-trips — parsing the concatenation of length-prefixed
/// frames yields back exactly the framed payloads.
pub proof fn lemma_parse_frames_of_frames(ps: Seq<Seq<u8>>)
    requires
        forall|i: int| 0 <= i < ps.len() ==> fits_u32(#[trigger] ps[i].len()),
    ensures
        parse_frames(frames(ps)) == Some(ps),
    decreases ps.len(),
{
    if ps.len() == 0 {
        assert(frames(ps).len() == 0);
        assert(parse_frames(frames(ps)) == Some(Seq::<Seq<u8>>::empty()));
        assert(Seq::<Seq<u8>>::empty() =~= ps);
    } else {
        let p = ps.first();
        let tail = frames(ps.drop_first());
        let s = frames(ps);
        assert(s == lp(p) + tail);
        lemma_take_lp_of_lp(p, tail);
        lemma_be32_round_trip(p.len() as u32);
        assert(s.len() >= 4);
        assert(s.subrange(0, 4) =~= be32(p.len() as u32));
        assert(s.subrange(4, 4 + p.len() as int) =~= p);
        assert(s.subrange(4 + p.len() as int, s.len() as int) =~= tail);
        lemma_parse_frames_of_frames(ps.drop_first());
        assert(seq![p] + ps.drop_first() =~= ps);
    }
}

/// Law: a stream of well-formed envelopes, each serialized and sent as one
/// length-prefixed frame, parses back to the identical sequence of
/// envelopes, wherever the frame boundaries fall in the stream.
pub proof fn lemma_envelope_stream_round_trip(vs: Seq<EnvelopeView>)
    requires
        forall|i: int| 0 <= i < vs.len() ==> env_wf(#[trigger] vs[i]),
        forall|i: int| 0 <= i < vs.len() ==> fits_u32(#[trigger] spec_encode(vs[i]).len()),
    ensures
        parse_frames(frames(vs.map_values(|v: EnvelopeView| spec_encode(v)))) == Some(
            vs.map_values(|v: EnvelopeView| spec_encode(v)),
        ),
        forall|i: int|
            0 <= i < vs.len() ==> spec_decode(#[trigger] spec_encode(vs[i])) == Some(vs[i]),
{
    let ps = vs.map_values(|v: EnvelopeView| spec_encode(v));
    assert forall|i: int| 0 <= i < ps.len() implies fits_u32(#[trigger] ps[i].len()) by {
        assert(ps[i] == spec_encode(vs[i]));
    }
    lemma_parse_frames_of_frames(ps);
    assert forall|i: int| 0 <= i < vs.len() implies spec_decode(#[trigger] spec_encode(vs[i]))
        == Some(vs[i]) by {
        lemma_decode_encode(vs[i]);
    }
}

/// Wrap a payload in one frame: its 4-byte big-endian length, then its
/// bytes. Fails exactly when the payload is too long for the prefix.
pub fn frame_payload(payload: &[u8]) -> (r: Result<Vec<u8>, ProtocolError>)
    ensures
        fits_u32(payload@.len()) ==> r is Ok && r.unwrap()@ == lp(payload@),
        !fits_u32(payload@.len()) ==> r == Err::<Vec<u8>, ProtocolError>(ProtocolError::FieldTooLong),
{
    if !len_fits(payload) {
        return Err(ProtocolError::FieldTooLong);
    }
    let mut out: Vec<u8> = Vec::new();
    push_lp(&mut out, payload);
    proof {
        assert(out@ =~= lp(payload@));
    }
    Ok(out)
}

/// Reassembles whole frames from a stream read in arbitrary chunks. Bytes go
/// in as they arrive; each complete frame comes out exactly once, in stream
/// order, however the chunk boundaries fall.
pub struct FrameBuffer {
    buf: Vec<u8>,
}

impl View for FrameBuffer {
    type V = Seq<u8>;

    closed spec fn view(&self) -> Seq<u8> {
        self.buf@
    }
}

impl FrameBuffer {
    /// An empty reassembly buffer.
    pub fn new() -> (r: FrameBuffer)
        ensures
            r@ == Seq::<u8>::empty(),
    {
        FrameBuffer { buf: Vec::new() }
    }

    /// Feed the bytes of one read, as they arrived.
    pub fn push_bytes(&mut self, chunk: &[u8])
        ensures
            final(self)@ == old(self)@ + chunk@,
    {
        self.buf.extend_from_slice(chunk);
    }

    /// Split off the first complete frame, if one has fully arrived.
    pub fn next_frame(&mut self) -> (r: Option<Vec<u8>>)
        ensures
            match r {
                Some(p) => take_lp(old(self)@) == Some((p@, final(self)@)),
                None => take_lp(old(self)@) is None && final(self)@ == old(self)@,
            },
{
        proof {
            assert(self.buf@.subrange(0, self.buf@.len() as int) =~= self.buf@);
        }
        match read_lp(self.buf.as_slice(), 0) {
            Some((p, j)) => {
                let rest = self.buf.split_off(j);
                self.buf = rest;
                Some(p)
            },
            None => None,
        }
    }
}

} // verus!
