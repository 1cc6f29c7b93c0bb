use veil::keys::{generate_encryption_keypair, random_bytes};
use veil::keywrap::{decrypt_group_key, encrypt_group_key, group_key_round_trip, KeyWrapError};

#[test]
fn wrap_unwrap_returns_same_key() {
    let admin = generate_encryption_keypair();
    let member = generate_encryption_keypair();
    let key = random_bytes(32);
    let wrapped = encrypt_group_key(key.as_slice(), &admin, &member.public_bytes());
    assert_eq!(wrapped.len(), 32 + 12 + 16);
    let unwrapped = decrypt_group_key(wrapped.as_slice(), &member, &admin.public_bytes()).unwrap();
    assert_eq!(unwrapped, key);
}

#[test]
fn wrap_round_trip_law_on_concrete_values() {
    let admin = generate_encryption_keypair();
    let member = generate_encryption_keypair();
    let key = random_bytes(32);
    let r = group_key_round_trip(key.as_slice(), &admin, &member).unwrap();
    assert_eq!(r, key);
}

#[test]
fn every_single_bit_flip_fails_authentication() {
    let admin = generate_encryption_keypair();
    let member = generate_encryption_keypair();
    let key = random_bytes(32);
    let wrapped = encrypt_group_key(key.as_slice(), &admin, &member.public_bytes());
    for i in 0..wrapped.len() {
        for bit in 0..8u8 {
            let mut tampered = wrapped.clone();
            tampered[i] ^= 1 << bit;
            match decrypt_group_key(tampered.as_slice(), &member, &admin.public_bytes()) {
                Err(KeyWrapError::AuthenticationFailed) => {}
                Err(e) => panic!("unexpected error on flipped bit: {:?}", e),
                Ok(other) => {
                    // Success with the original key would mean the flip was
                    // not detected; with another key, worse still.
                    panic!("tampered payload unwrapped to {:?}", other);
                }
            }
        }
    }
}

#[test]
fn short_payload_is_malformed() {
    let admin = generate_encryption_keypair();
    let member = generate_encryption_keypair();
    let r = decrypt_group_key(&[0u8; 11], &member, &admin.public_bytes());
    assert_eq!(r, Err(KeyWrapError::Malformed));
}

#[test]
fn wrong_recipient_cannot_unwrap() {
    let admin = generate_encryption_keypair();
    let member = generate_encryption_keypair();
    let outsider = generate_encryption_keypair();
    let key = random_bytes(32);
    let wrapped = encrypt_group_key(key.as_slice(), &admin, &member.public_bytes());
    let r = decrypt_group_key(wrapped.as_slice(), &outsider, &admin.public_bytes());
    assert_eq!(r, Err(KeyWrapError::AuthenticationFailed));
}

#[test]
fn fresh_group_keys_differ_and_old_wrap_is_invalid_under_new_key() {
    // A server restart draws a new group key; material wrapped under the
    // old key pair no longer unwraps against the new server's keys.
    let old_admin = generate_encryption_keypair();
    let new_admin = generate_encryption_keypair();
    let member = generate_encryption_keypair();
    let old_key = random_bytes(32);
    let new_key = random_bytes(32);
    assert_ne!(old_key, new_key);
    let wrapped_old = encrypt_group_key(old_key.as_slice(), &old_admin, &member.public_bytes());
    let r = decrypt_group_key(wrapped_old.as_slice(), &member, &new_admin.public_bytes());
    assert_eq!(r, Err(KeyWrapError::AuthenticationFailed));
}
