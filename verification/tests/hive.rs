//! Encryption between agents.

use b3_cli::hive::{
    decrypt_dm, decrypt_room_key, decrypt_room_message, dm_info, encrypt_dm, encrypt_dm_ephemeral,
    encrypt_dm_with, encrypt_room_key, encrypt_room_message, generate_room_key, pin_public_key,
    pin_text, DecryptError, EncryptedEnvelope, KeyType, Pin,
};
use base64::Engine;
use chacha20poly1305::aead::{Aead, KeyInit, Payload};
use x25519_dalek::{PublicKey, StaticSecret};

fn test_keypair() -> ([u8; 32], [u8; 32]) {
    let secret = StaticSecret::random_from_rng(rand::rngs::OsRng);
    let public = PublicKey::from(&secret);
    (secret.to_bytes(), public.to_bytes())
}

fn b64(b: &[u8]) -> String {
    base64::engine::general_purpose::STANDARD.encode(b)
}

#[test]
fn dm_static_roundtrip() {
    let (a_secret, a_public) = test_keypair();
    let (b_secret, b_public) = test_keypair();
    let plaintext = b"Hello from agent A!";
    let aad = b"a:b:1234567890";

    let envelope = encrypt_dm(plaintext, &a_secret, &b_public, "a", "b", aad);
    assert!(envelope.encrypted);
    assert_eq!(envelope.key_type, KeyType::Static);
    assert!(envelope.ephemeral_pub.is_none());

    let decrypted = decrypt_dm(&envelope, &b_secret, &a_public, "b", "a", aad).unwrap();
    assert_eq!(decrypted, plaintext);
}

#[test]
fn dm_static_wrong_key_fails() {
    let (a_secret, a_public) = test_keypair();
    let (_b_secret, b_public) = test_keypair();
    let (c_secret, _c_public) = test_keypair();
    let aad = b"a:b:1234567890";

    let envelope = encrypt_dm(b"secret", &a_secret, &b_public, "a", "b", aad);
    let result = decrypt_dm(&envelope, &c_secret, &a_public, "c", "a", aad);
    assert!(result.is_err());
}

#[test]
fn dm_static_wrong_aad_fails() {
    let (a_secret, a_public) = test_keypair();
    let (b_secret, b_public) = test_keypair();
    let aad = b"a:b:1234567890";
    let wrong_aad = b"a:b:9999999999";

    let envelope = encrypt_dm(b"secret", &a_secret, &b_public, "a", "b", aad);
    let result = decrypt_dm(&envelope, &b_secret, &a_public, "b", "a", wrong_aad);
    assert!(result.is_err());
}

#[test]
fn dm_ephemeral_roundtrip() {
    let (b_secret, b_public) = test_keypair();
    let plaintext = b"Forward secret message";
    let aad = b"a:b:1234567890";

    let envelope = encrypt_dm_ephemeral(plaintext, &b_public, "a", "b", aad);
    assert_eq!(envelope.key_type, KeyType::Ephemeral);
    assert!(envelope.ephemeral_pub.is_some());

    let dummy_pub = [0u8; 32];
    let decrypted = decrypt_dm(&envelope, &b_secret, &dummy_pub, "b", "a", aad).unwrap();
    assert_eq!(decrypted, plaintext);
}

#[test]
fn room_key_roundtrip() {
    let (creator_secret, creator_public) = test_keypair();
    let (member_secret, member_public) = test_keypair();

    let room_key = generate_room_key();
    let encrypted = encrypt_room_key(&room_key, &creator_secret, &member_public, "test-room-123");
    let decrypted =
        decrypt_room_key(&encrypted, &member_secret, &creator_public, "test-room-123").unwrap();

    assert_eq!(room_key, decrypted);
}

#[test]
fn each_room_has_its_own_wrapping_key() {
    let (creator_secret, creator_public) = test_keypair();
    let (member_secret, member_public) = test_keypair();
    let room_key = generate_room_key();
    let encrypted = encrypt_room_key(&room_key, &creator_secret, &member_public, "room-a");
    assert!(decrypt_room_key(&encrypted, &member_secret, &creator_public, "room-a").is_ok());
    assert!(decrypt_room_key(&encrypted, &member_secret, &creator_public, "room-b").is_err());
}

#[test]
fn room_message_roundtrip() {
    let room_key = generate_room_key();
    let plaintext = b"Room message for everyone";

    let envelope = encrypt_room_message(plaintext, &room_key);
    let decrypted = decrypt_room_message(&envelope, &room_key).unwrap();

    assert_eq!(decrypted, plaintext);
}

#[test]
fn room_message_wrong_key_fails() {
    let room_key = generate_room_key();
    let wrong_key = generate_room_key();

    let envelope = encrypt_room_message(b"secret", &room_key);
    let result = decrypt_room_message(&envelope, &wrong_key);
    assert!(result.is_err());
}

#[test]
fn dm_info_is_order_independent() {
    assert_eq!(dm_info("alice", "bob", false), dm_info("bob", "alice", false));
    assert_eq!(dm_info("alice", "bob", true), dm_info("bob", "alice", true));
}

#[test]
fn dm_info_ephemeral_differs_from_static() {
    assert_ne!(dm_info("alice", "bob", false), dm_info("alice", "bob", true));
}

/// A message under a known nonce is what ChaCha20-Poly1305 makes of it under the key
/// that HKDF-SHA256 derives from the shared secret.
#[test]
fn dm_follows_the_documented_construction() {
    let (a_secret, _) = test_keypair();
    let (_, b_public) = test_keypair();
    let nonce = [7u8; 12];
    let envelope = encrypt_dm_with(&nonce, b"hi", &a_secret, &b_public, "b", "a", b"context");
    assert_eq!(envelope.version, 1);
    assert_eq!(envelope.nonce, b64(&nonce));

    let shared = StaticSecret::from(a_secret).diffie_hellman(&PublicKey::from(b_public));
    let mut key = [0u8; 32];
    hkdf::Hkdf::<sha2::Sha256>::new(Some(b"b3-hive-v1"), shared.as_bytes())
        .expand(dm_info("a", "b", false).as_bytes(), &mut key)
        .unwrap();
    let cipher = chacha20poly1305::ChaCha20Poly1305::new_from_slice(&key).unwrap();
    let sealed = cipher
        .encrypt(
            chacha20poly1305::Nonce::from_slice(&nonce),
            Payload { msg: b"hi", aad: b"context" },
        )
        .unwrap();
    assert_eq!(envelope.content, b64(&sealed));
}

#[test]
fn damaged_envelopes_say_what_is_wrong() {
    let (a_secret, a_public) = test_keypair();
    let (b_secret, b_public) = test_keypair();
    let good = encrypt_dm(b"x", &a_secret, &b_public, "a", "b", b"");
    let open = |e: &EncryptedEnvelope| decrypt_dm(e, &b_secret, &a_public, "b", "a", b"");

    let mut e = good.clone();
    e.nonce = "!".to_string();
    assert_eq!(open(&e).unwrap_err(), DecryptError::InvalidNonce);
    let mut e = good.clone();
    e.nonce = b64(&[1, 2, 3]);
    assert_eq!(open(&e).unwrap_err(), DecryptError::InvalidNonce);
    let mut e = good.clone();
    e.content = "!".to_string();
    assert_eq!(open(&e).unwrap_err(), DecryptError::InvalidContent);
    let mut e = good.clone();
    e.key_type = KeyType::Ephemeral;
    assert_eq!(open(&e).unwrap_err(), DecryptError::MissingEphemeralKey);
    e.ephemeral_pub = Some(b64(&[0; 31]));
    assert_eq!(open(&e).unwrap_err(), DecryptError::InvalidEphemeralKey);
    let mut e = good.clone();
    e.content = b64(&[0; 20]);
    assert_eq!(open(&e).unwrap_err(), DecryptError::DecryptionFailed);

    let room_key = generate_room_key();
    let mut wrapped = encrypt_room_key(&room_key, &a_secret, &b_public, "r");
    assert_eq!(
        decrypt_room_key(&wrapped, &b_secret, &a_public, "other").unwrap_err(),
        DecryptError::DecryptionFailed
    );
    wrapped.nonce = String::new();
    assert_eq!(
        decrypt_room_key(&wrapped, &b_secret, &a_public, "r").unwrap_err(),
        DecryptError::InvalidNonce
    );
}

#[test]
fn a_changed_key_is_noticed() {
    let (_, public) = test_keypair();
    let (_, other) = test_keypair();
    assert_eq!(pin_public_key(None, &public), Pin::New);
    let stored = pin_text(&public);
    assert_eq!(stored, b64(&public));
    assert_eq!(pin_public_key(Some(&stored), &public), Pin::Known);
    assert_eq!(pin_public_key(Some(&stored), &other), Pin::Changed(public));
}
