//! Keys, rooms and time locks.

use b3_cli::clock::Timestamp;
use b3_cli::hive::{self, EncryptedRoomKey};
use b3_cli::hive_integration::{
    decrypt_dm_if_encrypted, decrypt_room_message_if_encrypted, decrypt_timelock,
    encrypt_dm_ephemeral_for_target, encrypt_dm_for_target, encrypt_room_message,
    encrypt_timelock, encrypt_timelock_with, expired_room, generate_and_distribute_room_key,
    identity_of, is_expired, load_room_key, load_room_members, load_room_meta,
    load_room_meta_full, members_to_key, needs_sender, open_timelock, parse_expires_in,
    public_key_url, receive_room_key, store_room_key, store_room_key_with_members,
    store_room_members, AgentIdentity, RoomRefusal,
};
use b3_cli::json;
use b3_cli::puller::{on_room_message, RoomAction};
use base64::Engine;
use x25519_dalek::{PublicKey, StaticSecret};

const NOW: Timestamp = Timestamp { secs: 1_700_000_000, nanos: 0 };

fn keypair() -> ([u8; 32], [u8; 32]) {
    let secret = StaticSecret::random_from_rng(rand::rngs::OsRng);
    let public = PublicKey::from(&secret);
    (secret.to_bytes(), public.to_bytes())
}

fn b64(b: &[u8]) -> String {
    base64::engine::general_purpose::STANDARD.encode(b)
}

fn identity(id: &str, public_key: [u8; 32]) -> AgentIdentity {
    AgentIdentity { public_key, agent_id: id.to_string() }
}

#[test]
fn identities_are_read_from_the_server() {
    let (_, public) = keypair();
    let body = format!(r#"{{"wg_public_key":"{}","agent_id":"hc-1"}}"#, b64(&public));
    let id = identity_of(&json::parse(&body).unwrap(), "ann").unwrap();
    assert_eq!(id.public_key, public);
    assert_eq!(id.agent_id, "hc-1");
    assert!(identity_of(&json::parse("{}").unwrap(), "ann").is_err());
    assert!(public_key_url("https://x", "ann").starts_with("https://x/"));
}

#[test]
fn a_direct_message_reaches_its_target() {
    let (a_secret, a_public) = keypair();
    let (b_secret, b_public) = keypair();
    let bob = identity("hc-b", b_public);
    let ann = identity("hc-a", a_public);
    let e = encrypt_dm_for_target(Some(&a_secret), &bob, "hc-a", "hello").unwrap();
    assert!(needs_sender(Some(&e)));
    let plain = decrypt_dm_if_encrypted(Some(&e), Some(&b_secret), Ok(&ann), "hc-b", "ann", "raw");
    assert_eq!(plain.unwrap(), "hello");
    assert!(encrypt_dm_for_target(None, &bob, "hc-a", "hello").is_err());
    let e = encrypt_dm_ephemeral_for_target(&bob, "hc-a", "secret");
    let plain = decrypt_dm_if_encrypted(Some(&e), Some(&b_secret), Ok(&ann), "hc-b", "ann", "raw");
    assert_eq!(plain.unwrap(), "secret");
    let plain = decrypt_dm_if_encrypted(None, Some(&b_secret), Ok(&ann), "hc-b", "ann", "raw");
    assert_eq!(plain.unwrap(), "raw");
    assert!(decrypt_dm_if_encrypted(Some(&e), None, Ok(&ann), "hc-b", "ann", "raw").is_err());
}

#[test]
fn stored_rooms_read_back() {
    let key = hive::generate_room_key();
    let members = vec!["ann".to_string(), "bob".to_string()];
    let f = store_room_key_with_members(&key, "ann", Some("2030-01-01T00:00:00+00:00"), &members);
    assert_eq!(load_room_key(Some(&f.key)), Some(key));
    let meta = load_room_meta_full(Some(&f.meta)).unwrap();
    assert_eq!(meta.creator, "ann");
    assert_eq!(meta.expires_at.unwrap(), "2030-01-01T00:00:00+00:00");
    assert_eq!(meta.members, members);
    assert_eq!(load_room_meta(Some(&f.meta)).unwrap(), "ann");
    let f = store_room_key(&key, "ann", None);
    assert!(load_room_members(Some(&f.meta)).is_empty());
    let later = store_room_members(Some(&f.meta), &members).unwrap();
    assert_eq!(load_room_members(Some(&later)), members);
    let f = store_room_key(&key, "ann", Some("2030-01-01T00:00:00Z"));
    let later = store_room_members(Some(&f.meta), &members).unwrap();
    let meta = load_room_meta_full(Some(&later)).unwrap();
    assert_eq!((meta.creator.as_str(), &meta.members), ("ann", &members));
    assert_eq!(meta.expires_at.unwrap(), "2030-01-01T00:00:00Z");
    assert!(load_room_members(None).is_empty());
    assert!(load_room_key(None).is_none());
    assert!(load_room_key(Some("short")).is_none());
}

#[test]
fn an_expired_room_is_closed() {
    assert!(is_expired(Some("2023-11-14T22:13:19+00:00"), NOW));
    assert!(!is_expired(Some("2023-11-14T22:13:21+00:00"), NOW));
    assert!(!is_expired(Some("no time"), NOW));
    assert!(!is_expired(None, NOW));
    let key = hive::generate_room_key();
    let f = store_room_key(&key, "ann", Some("2020-01-01T00:00:00Z"));
    assert!(matches!(
        encrypt_room_message("r", Some(&f.meta), Some(&f.key), NOW, "x"),
        Err(RoomRefusal::Expired(_))
    ));
    assert!(matches!(encrypt_room_message("r", None, None, NOW, "x"), Err(RoomRefusal::NoKey(_))));
    assert_eq!(expired_room("r.meta", &f.meta, NOW).unwrap(), "r");
    assert!(expired_room("r.key", &f.meta, NOW).is_none());
    let f = store_room_key(&key, "ann", None);
    let e = encrypt_room_message("r", Some(&f.meta), Some(&f.key), NOW, "to all").unwrap();
    assert_eq!(decrypt_room_message_if_encrypted("r", Some(&e), Some(&f.key), "raw"), "to all");
    assert_eq!(decrypt_room_message_if_encrypted("r", None, Some(&f.key), "raw"), "raw");
    assert_ne!(decrypt_room_message_if_encrypted("r", Some(&e), None, "raw"), "to all");
}

#[test]
fn a_room_key_reaches_every_member() {
    let (a_secret, a_public) = keypair();
    let (b_secret, b_public) = keypair();
    let members = members_to_key(&["Ann".to_string(), "Bob".to_string()], "ann");
    assert_eq!(members, vec!["Bob".to_string()]);
    let (files, message) = generate_and_distribute_room_key(
        "r1", "ann", Some(&a_secret), &members, &[identity("hc-b", b_public)], None,
    )
    .unwrap();
    let key = load_room_key(Some(&files.key)).unwrap();
    match on_room_message("ann", "r1", &message, None, "bob", "https://x") {
        RoomAction::TakeKey { wrapped, expires_at, members } => {
            assert!(expires_at.is_none());
            assert_eq!(members, vec!["bob".to_string()]);
            let copy = EncryptedRoomKey {
                nonce: wrapped.text("nonce").unwrap(),
                encrypted_key: wrapped.text("encrypted_key").unwrap(),
            };
            let ann = identity("hc-a", a_public);
            let got = receive_room_key("r1", "ann", Some(&b_secret), Ok(&ann), &copy, None).unwrap();
            assert_eq!(load_room_key(Some(&got.key)), Some(key));
        }
        other => panic!("Expected TakeKey, got: {other:?}"),
    }
    assert!(generate_and_distribute_room_key("r1", "ann", None, &[], &[], None).is_err());
}

#[test]
fn spans_of_rooms() {
    assert_eq!(parse_expires_in("1h", NOW).unwrap(), "2023-11-14T23:13:20+00:00");
    assert_eq!(
        parse_expires_in("5w", NOW).unwrap_err(),
        "Unknown unit in expires_in: w (expected s/m/h/d)"
    );
    assert_eq!(
        parse_expires_in("xh", NOW).unwrap_err(),
        "Invalid expires_in format: xh (expected e.g. '1h', '24h', '7d')"
    );
}

#[test]
fn a_time_lock_opens_with_its_key() {
    let (envelope, key) = encrypt_timelock("later").unwrap();
    assert_eq!(decrypt_timelock(&envelope, &key).unwrap(), "later");
    let (_, other) = encrypt_timelock("x").unwrap();
    assert!(decrypt_timelock(&envelope, &other).is_err());
    assert_eq!(decrypt_timelock("{}", &key).unwrap_err(), "Not a timelock envelope");
    assert!(decrypt_timelock("{", &key).unwrap_err().starts_with("Invalid timelock envelope: "));
    let j = json::parse(r#"{"key_type":"timelock"}"#).unwrap();
    assert_eq!(open_timelock(&j, &key).unwrap_err(), "Missing nonce in timelock envelope");
    let j = json::parse(r#"{"key_type":"timelock","nonce":"AA=="}"#).unwrap();
    assert_eq!(open_timelock(&j, &key).unwrap_err(), "Missing content in timelock envelope");
    let j = json::parse(r#"{"key_type":"timelock","nonce":"AA==","content":"AA=="}"#).unwrap();
    assert_eq!(open_timelock(&j, "AA==").unwrap_err(), "Unlock key must be 32 bytes");
    assert_eq!(open_timelock(&j, &key).unwrap_err(), "Nonce must be 24 bytes");
    let a = encrypt_timelock_with(&[1; 32], &[2; 24], "x").unwrap();
    let b = encrypt_timelock_with(&[1; 32], &[2; 24], "x").unwrap();
    assert_eq!(a, b);
    assert_eq!(a.1, b64(&[1; 32]));
}
