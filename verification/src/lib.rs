//! Closed-group messaging core: key material, envelope codec with
//! length-prefixed framing, Diffie-Hellman key wrapping of the group key,
//! the join handshake, and authenticated message relay.
use vstd::prelude::*;

pub mod cmd;
pub mod codec;
pub mod commands;
pub mod envelope;
pub mod handshake;
pub mod keys;
pub mod keywrap;
pub mod relay;
pub mod text;
pub mod users;

verus! {

/// A public key on the wire is exactly 32 bytes.
pub const KEY_LEN: usize = 32;

/// An AEAD nonce is exactly 12 bytes.
pub const NONCE_LEN: usize = 12;

/// True of a byte sequence that can stand for a public key or the group key.
pub open spec fn is_key_bytes(s: Seq<u8>) -> bool {
    s.len() == KEY_LEN
}

} // verus!
