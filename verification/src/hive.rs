//! End-to-end encryption of messages between agents.
//!
//! Two agents share a key through X25519; a room shares one symmetric key that its
//! creator hands to each member. Every message is sealed with ChaCha20-Poly1305.

use vstd::prelude::*;

use crate::bytes;
use crate::crypto;
use crate::text;

verus! {

/// How the key of an envelope was agreed on.
#[derive(Debug, Clone, Copy, PartialEq, Eq, Structural)]
pub enum KeyType {
    Static,
    Ephemeral,
}

/// An encrypted message as it travels.
#[derive(Debug, Clone)]
pub struct EncryptedEnvelope {
    pub encrypted: bool,
    pub version: u8,
    pub key_type: KeyType,
    pub ephemeral_pub: Option<String>,
    pub nonce: String,
    pub content: String,
}

/// The mathematical value of an [`EncryptedEnvelope`].
pub struct EnvelopeView {
    pub encrypted: bool,
    pub version: u8,
    pub key_type: KeyType,
    pub ephemeral_pub: Option<Seq<char>>,
    pub nonce: Seq<char>,
    pub content: Seq<char>,
}

impl View for EncryptedEnvelope {
    type V = EnvelopeView;

    open spec fn view(&self) -> EnvelopeView {
        EnvelopeView {
            encrypted: self.encrypted,
            version: self.version,
            key_type: self.key_type,
            ephemeral_pub: match self.ephemeral_pub {
                Some(s) => Some(s@),
                None => None,
            },
            nonce: self.nonce@,
            content: self.content@,
        }
    }
}

/// A room key encrypted for one member.
#[derive(Debug, Clone)]
pub struct EncryptedRoomKey {
    pub nonce: String,
    pub encrypted_key: String,
}

/// Why a message or a key could not be decrypted.
#[derive(Debug, Clone, Copy, PartialEq, Eq, Structural)]
pub enum DecryptError {
    InvalidNonce,
    InvalidContent,
    MissingEphemeralKey,
    InvalidEphemeralKey,
    DecryptionFailed,
    InvalidRoomKey,
}

impl DecryptError {
    /// The text of the error.
    pub open spec fn text(self) -> Seq<char> {
        match self {
            DecryptError::InvalidNonce => "invalid nonce"@,
            DecryptError::InvalidContent => "invalid ciphertext content"@,
            DecryptError::MissingEphemeralKey => "missing ephemeral public key"@,
            DecryptError::InvalidEphemeralKey => "invalid ephemeral public key"@,
            DecryptError::DecryptionFailed => "decryption failed (wrong key, tampered data, or invalid AAD)"@,
            DecryptError::InvalidRoomKey => "decrypted room key has wrong length"@,
        }
    }

    /// The text of the error.
    pub fn message(&self) -> (r: String)
        ensures
            r@ == self.text(),
    {
        match self {
            DecryptError::InvalidNonce => "invalid nonce".to_owned(),
            DecryptError::InvalidContent => "invalid ciphertext content".to_owned(),
            DecryptError::MissingEphemeralKey => "missing ephemeral public key".to_owned(),
            DecryptError::InvalidEphemeralKey => "invalid ephemeral public key".to_owned(),
            DecryptError::DecryptionFailed => "decryption failed (wrong key, tampered data, or invalid AAD)".to_owned(),
            DecryptError::InvalidRoomKey => "decrypted room key has wrong length".to_owned(),
        }
    }
}

// ── Key derivation ──────────────────────────────────────────────────

/// The salt of every derived key.
pub open spec fn salt() -> Seq<u8> {
    vstd::utf8::encode_utf8("b3-hive-v1"@)
}

/// The key that a shared secret gives in the context `info`.
pub open spec fn derived_key(shared: Seq<u8>, info: Seq<char>) -> Seq<u8> {
    crypto::hkdf(salt(), shared, vstd::utf8::encode_utf8(info))
}

/// The context of the key that two agents share.
pub open spec fn dm_context(a: Seq<char>, b: Seq<char>, ephemeral: bool) -> Seq<char> {
    let first = if text::le_spec(a, b) {
        a
    } else {
        b
    };
    let second = if text::le_spec(a, b) {
        b
    } else {
        a
    };
    if ephemeral {
        "dm-ephemeral:"@ + first + ":"@ + second
    } else {
        "dm:"@ + first + ":"@ + second
    }
}

/// Both ends of a conversation derive their key in the same context.
pub proof fn law_dm_context_symmetric(a: Seq<char>, b: Seq<char>, ephemeral: bool)
    ensures
        dm_context(a, b, ephemeral) == dm_context(b, a, ephemeral),
{
    text::lemma_le_total(a, b);
}

/// A static and an ephemeral conversation never share a context.
pub proof fn law_dm_context_separated(a: Seq<char>, b: Seq<char>, c: Seq<char>, d: Seq<char>)
    ensures
        dm_context(a, b, true) != dm_context(c, d, false),
{
    reveal_strlit("dm-ephemeral:");
    reveal_strlit("dm:");
    assert(dm_context(a, b, true)[2] == '-');
    assert(dm_context(c, d, false)[2] == ':');
}

/// The context of the key that two agents share: their ids in order, so that
/// both ends agree.
pub fn dm_info(a_id: &str, b_id: &str, ephemeral: bool) -> (r: String)
    ensures
        r@ == dm_context(a_id@, b_id@, ephemeral),
{
    let (first, second) = if text::le(a_id, b_id) {
        (a_id, b_id)
    } else {
        (b_id, a_id)
    };
    let mut s: String = if ephemeral {
        "dm-ephemeral:".to_owned()
    } else {
        "dm:".to_owned()
    };
    s.append(first);
    s.append(":");
    s.append(second);
    s
}

/// The key that a shared secret gives in the context `info`.
fn derive_key(shared: &[u8; 32], info: &str) -> (key: [u8; 32])
    ensures
        key@ == derived_key(shared@, info@),
{
    let s = bytes::bytes_of("b3-hive-v1");
    let i = bytes::bytes_of(info);
    crypto::hkdf_sha256(s.as_slice(), shared, i.as_slice())
}

// ── Sealing ─────────────────────────────────────────────────────────

/// What decrypting a sealed message gives. One that is longer than the cipher seals
/// is refused.
pub open spec fn opened_with(
    key: Seq<u8>,
    nonce: Seq<u8>,
    ciphertext: Seq<u8>,
    aad: Seq<u8>,
) -> Result<Seq<u8>, DecryptError> {
    if nonce.len() != 12 {
        Err(DecryptError::InvalidNonce)
    } else if !crypto::fits_sealed(ciphertext.len()) {
        Err(DecryptError::DecryptionFailed)
    } else {
        match crypto::opened(key, nonce, aad, ciphertext) {
            Some(m) => Ok(m),
            None => Err(DecryptError::DecryptionFailed),
        }
    }
}

/// The views of the two sides of a decryption.
pub open spec fn plain_view(r: Result<Vec<u8>, DecryptError>) -> Result<Seq<u8>, DecryptError> {
    match r {
        Ok(m) => Ok(m@),
        Err(e) => Err(e),
    }
}

/// Seals a message under a key and a nonce.
fn encrypt_aead(key: &[u8; 32], nonce: &[u8], plaintext: &[u8], aad: &[u8]) -> (c: Vec<u8>)
    requires
        nonce@.len() == 12,
        crypto::fits_cipher(plaintext@.len()),
    ensures
        c@ == crypto::sealed(key@, nonce@, aad@, plaintext@),
        opened_with(key@, nonce@, c@, aad@) == Ok::<Seq<u8>, DecryptError>(plaintext@),
{
    crypto::seal(key, nonce, plaintext, aad)
}

/// Opens a sealed message.
fn decrypt_aead(key: &[u8; 32], nonce: &[u8], ciphertext: &[u8], aad: &[u8]) -> (r: Result<
    Vec<u8>,
    DecryptError,
>)
    ensures
        plain_view(r) == opened_with(key@, nonce@, ciphertext@, aad@),
{
    if nonce.len() != 12 {
        return Err(DecryptError::InvalidNonce);
    }
    if !crypto::is_sealed(ciphertext.len()) {
        return Err(DecryptError::DecryptionFailed);
    }
    match crypto::open(key, nonce, ciphertext, aad) {
        Some(m) => Ok(m),
        None => Err(DecryptError::DecryptionFailed),
    }
}

/// The nonce and the ciphertext that two base64 texts hold.
pub open spec fn decoded_parts(nonce: Seq<char>, content: Seq<char>) -> Result<
    (Seq<u8>, Seq<u8>),
    DecryptError,
> {
    match crypto::b64_decoded(nonce) {
        Err(_) => Err(DecryptError::InvalidNonce),
        Ok(n) => match crypto::b64_decoded(content) {
            Err(_) => Err(DecryptError::InvalidContent),
            Ok(c) => Ok((n, c)),
        },
    }
}

/// The nonce and the ciphertext that two base64 texts hold.
fn decode_parts(nonce: &str, content: &str) -> (r: Result<(Vec<u8>, Vec<u8>), DecryptError>)
    ensures
        match r {
            Ok((n, c)) => decoded_parts(nonce@, content@) == Ok::<
                (Seq<u8>, Seq<u8>),
                DecryptError,
            >((n@, c@)),
            Err(e) => decoded_parts(nonce@, content@) == Err::<(Seq<u8>, Seq<u8>), DecryptError>(e),
        },
{
    match crypto::b64_decode(nonce) {
        Err(_) => Err(DecryptError::InvalidNonce),
        Ok(n) => match crypto::b64_decode(content) {
            Err(_) => Err(DecryptError::InvalidContent),
            Ok(c) => Ok((n, c)),
        },
    }
}

// ── Direct messages ─────────────────────────────────────────────────

/// The key of a direct message from one holder of a secret key.
pub open spec fn dm_key(
    secret: Seq<u8>,
    public: Seq<u8>,
    my_id: Seq<char>,
    their_id: Seq<char>,
    ephemeral: bool,
) -> Seq<u8> {
    derived_key(crypto::dh(secret, public), dm_context(my_id, their_id, ephemeral))
}

/// The envelope of a direct message that was sealed with a static key.
pub open spec fn dm_envelope(
    nonce: Seq<u8>,
    plaintext: Seq<u8>,
    secret: Seq<u8>,
    public: Seq<u8>,
    my_id: Seq<char>,
    their_id: Seq<char>,
    aad: Seq<u8>,
) -> EnvelopeView {
    EnvelopeView {
        encrypted: true,
        version: 1,
        key_type: KeyType::Static,
        ephemeral_pub: None,
        nonce: crypto::b64(nonce),
        content: crypto::b64(
            crypto::sealed(dm_key(secret, public, my_id, their_id, false), nonce, aad, plaintext),
        ),
    }
}

/// The envelope of a direct message that was sealed with an ephemeral key.
pub open spec fn dm_ephemeral_envelope(
    nonce: Seq<u8>,
    ephemeral: Seq<u8>,
    plaintext: Seq<u8>,
    public: Seq<u8>,
    my_id: Seq<char>,
    their_id: Seq<char>,
    aad: Seq<u8>,
) -> EnvelopeView {
    EnvelopeView {
        encrypted: true,
        version: 1,
        key_type: KeyType::Ephemeral,
        ephemeral_pub: Some(crypto::b64(crypto::public_key(ephemeral))),
        nonce: crypto::b64(nonce),
        content: crypto::b64(
            crypto::sealed(dm_key(ephemeral, public, my_id, their_id, true), nonce, aad, plaintext),
        ),
    }
}

/// The key under which the receiver opens an envelope.
pub open spec fn receiver_key(
    e: EnvelopeView,
    secret: Seq<u8>,
    sender_pub: Seq<u8>,
    my_id: Seq<char>,
    sender_id: Seq<char>,
) -> Result<Seq<u8>, DecryptError> {
    match e.key_type {
        KeyType::Static => Ok(dm_key(secret, sender_pub, my_id, sender_id, false)),
        KeyType::Ephemeral => match e.ephemeral_pub {
            None => Err(DecryptError::MissingEphemeralKey),
            Some(s) => match crypto::b64_decoded(s) {
                Err(_) => Err(DecryptError::InvalidEphemeralKey),
                Ok(p) => if p.len() != 32 {
                    Err(DecryptError::InvalidEphemeralKey)
                } else {
                    Ok(dm_key(secret, p, my_id, sender_id, true))
                },
            },
        },
    }
}

/// What decrypting a direct message gives.
pub open spec fn dm_plaintext(
    e: EnvelopeView,
    secret: Seq<u8>,
    sender_pub: Seq<u8>,
    my_id: Seq<char>,
    sender_id: Seq<char>,
    aad: Seq<u8>,
) -> Result<Seq<u8>, DecryptError> {
    match decoded_parts(e.nonce, e.content) {
        Err(x) => Err(x),
        Ok((n, c)) => match receiver_key(e, secret, sender_pub, my_id, sender_id) {
            Err(x) => Err(x),
            Ok(key) => opened_with(key, n, c, aad),
        },
    }
}

/// Encrypts a direct message under the given nonce, with the static keys of both ends.
///
/// The receiver, who holds the secret key of `their_pub`, decrypts it to the plaintext.
pub fn encrypt_dm_with(
    nonce: &[u8],
    plaintext: &[u8],
    my_key: &[u8; 32],
    their_pub: &[u8; 32],
    my_id: &str,
    their_id: &str,
    aad: &[u8],
) -> (r: EncryptedEnvelope)
    requires
        nonce@.len() == 12,
        crypto::fits_cipher(plaintext@.len()),
    ensures
        r@ == dm_envelope(nonce@, plaintext@, my_key@, their_pub@, my_id@, their_id@, aad@),
        forall|their_key: Seq<u8>|
            their_key.len() == 32 && their_pub@ == #[trigger] crypto::public_key(their_key)
                ==> dm_plaintext(
                r@,
                their_key,
                crypto::public_key(my_key@),
                their_id@,
                my_id@,
                aad@,
            ) == Ok::<Seq<u8>, DecryptError>(plaintext@),
{
    let shared = crypto::diffie_hellman(my_key, their_pub);
    let info = dm_info(my_id, their_id, false);
    let key = derive_key(&shared, info.as_str());
    let ciphertext = encrypt_aead(&key, nonce, plaintext, aad);
    proof {
        law_dm_context_symmetric(my_id@, their_id@, false);
    }
    EncryptedEnvelope {
        encrypted: true,
        version: 1,
        key_type: KeyType::Static,
        ephemeral_pub: None,
        nonce: crypto::b64_encode(nonce),
        content: crypto::b64_encode(ciphertext.as_slice()),
    }
}

/// Encrypts a direct message under a random nonce.
///
/// The receiver, who holds the secret key of `their_pub`, decrypts it to the plaintext.
pub fn encrypt_dm(
    plaintext: &[u8],
    my_key: &[u8; 32],
    their_pub: &[u8; 32],
    my_id: &str,
    their_id: &str,
    aad: &[u8],
) -> (r: EncryptedEnvelope)
    requires
        crypto::fits_cipher(plaintext@.len()),
    ensures
        exists|nonce: Seq<u8>|
            nonce.len() == 12 && r@ == #[trigger] dm_envelope(
                nonce,
                plaintext@,
                my_key@,
                their_pub@,
                my_id@,
                their_id@,
                aad@,
            ),
        forall|their_key: Seq<u8>|
            their_key.len() == 32 && their_pub@ == #[trigger] crypto::public_key(their_key)
                ==> dm_plaintext(
                r@,
                their_key,
                crypto::public_key(my_key@),
                their_id@,
                my_id@,
                aad@,
            ) == Ok::<Seq<u8>, DecryptError>(plaintext@),
{
    let nonce = crypto::random_bytes(12);
    encrypt_dm_with(nonce.as_slice(), plaintext, my_key, their_pub, my_id, their_id, aad)
}

/// Encrypts a direct message under the given nonce and one-time secret key.
///
/// The receiver decrypts it to the plaintext, whatever it takes the sender's
/// static key to be.
pub fn encrypt_dm_ephemeral_with(
    nonce: &[u8],
    ephemeral: &[u8; 32],
    plaintext: &[u8],
    their_pub: &[u8; 32],
    my_id: &str,
    their_id: &str,
    aad: &[u8],
) -> (r: EncryptedEnvelope)
    requires
        nonce@.len() == 12,
        crypto::fits_cipher(plaintext@.len()),
    ensures
        r@ == dm_ephemeral_envelope(
            nonce@,
            ephemeral@,
            plaintext@,
            their_pub@,
            my_id@,
            their_id@,
            aad@,
        ),
        forall|their_key: Seq<u8>, sender_pub: Seq<u8>|
            their_key.len() == 32 && their_pub@ == crypto::public_key(their_key)
                ==> #[trigger] dm_plaintext(r@, their_key, sender_pub, their_id@, my_id@, aad@)
                == Ok::<Seq<u8>, DecryptError>(plaintext@),
{
    let public = crypto::public_of(ephemeral);
    let shared = crypto::diffie_hellman(ephemeral, their_pub);
    let info = dm_info(my_id, their_id, true);
    let key = derive_key(&shared, info.as_str());
    let ciphertext = encrypt_aead(&key, nonce, plaintext, aad);
    proof {
        law_dm_context_symmetric(my_id@, their_id@, true);
    }
    EncryptedEnvelope {
        encrypted: true,
        version: 1,
        key_type: KeyType::Ephemeral,
        ephemeral_pub: Some(crypto::b64_encode(public.as_slice())),
        nonce: crypto::b64_encode(nonce),
        content: crypto::b64_encode(ciphertext.as_slice()),
    }
}

/// Encrypts a direct message under a random nonce and a one-time secret key that
/// is not kept.
pub fn encrypt_dm_ephemeral(
    plaintext: &[u8],
    their_pub: &[u8; 32],
    my_id: &str,
    their_id: &str,
    aad: &[u8],
) -> (r: EncryptedEnvelope)
    requires
        crypto::fits_cipher(plaintext@.len()),
    ensures
        exists|nonce: Seq<u8>, ephemeral: Seq<u8>|
            nonce.len() == 12 && ephemeral.len() == 32 && r@ == #[trigger] dm_ephemeral_envelope(
                nonce,
                ephemeral,
                plaintext@,
                their_pub@,
                my_id@,
                their_id@,
                aad@,
            ),
        forall|their_key: Seq<u8>, sender_pub: Seq<u8>|
            their_key.len() == 32 && their_pub@ == crypto::public_key(their_key)
                ==> #[trigger] dm_plaintext(r@, their_key, sender_pub, their_id@, my_id@, aad@)
                == Ok::<Seq<u8>, DecryptError>(plaintext@),
{
    let ephemeral = crypto::random_secret();
    let nonce = crypto::random_bytes(12);
    encrypt_dm_ephemeral_with(
        nonce.as_slice(),
        &ephemeral,
        plaintext,
        their_pub,
        my_id,
        their_id,
        aad,
    )
}

/// Decrypts a direct message, of either key type.
pub fn decrypt_dm(
    envelope: &EncryptedEnvelope,
    my_key: &[u8; 32],
    sender_pub: &[u8; 32],
    my_id: &str,
    sender_id: &str,
    aad: &[u8],
) -> (r: Result<Vec<u8>, DecryptError>)
    ensures
        plain_view(r) == dm_plaintext(
            envelope@,
            my_key@,
            sender_pub@,
            my_id@,
            sender_id@,
            aad@,
        ),
{
    let (nonce, ciphertext) = match decode_parts(
        envelope.nonce.as_str(),
        envelope.content.as_str(),
    ) {
        Ok(parts) => parts,
        Err(e) => {
            return Err(e);
        },
    };
    let key: [u8; 32] = match envelope.key_type {
        KeyType::Static => {
            let shared = crypto::diffie_hellman(my_key, sender_pub);
            let info = dm_info(my_id, sender_id, false);
            derive_key(&shared, info.as_str())
        },
        KeyType::Ephemeral => {
            let encoded = match &envelope.ephemeral_pub {
                Some(s) => s,
                None => {
                    return Err(DecryptError::MissingEphemeralKey);
                },
            };
            let decoded = match crypto::b64_decode(encoded.as_str()) {
                Ok(b) => b,
                Err(_) => {
                    return Err(DecryptError::InvalidEphemeralKey);
                },
            };
            let public = match bytes::array32(decoded.as_slice()) {
                Some(p) => p,
                None => {
                    return Err(DecryptError::InvalidEphemeralKey);
                },
            };
            let shared = crypto::diffie_hellman(my_key, &public);
            let info = dm_info(my_id, sender_id, true);
            derive_key(&shared, info.as_str())
        },
    };
    decrypt_aead(&key, nonce.as_slice(), ciphertext.as_slice(), aad)
}

// ── Rooms ───────────────────────────────────────────────────────────

/// The context of the key under which a room key is handed over.
pub open spec fn room_context(room_id: Seq<char>) -> Seq<char> {
    "room-key:"@ + room_id
}

/// No two rooms share a context, even between the same two agents, nor does a room
/// share one with a conversation.
pub proof fn law_room_context_separated(
    room_id: Seq<char>,
    other_id: Seq<char>,
    a: Seq<char>,
    b: Seq<char>,
    ephemeral: bool,
)
    ensures
        room_id != other_id ==> vstd::utf8::encode_utf8(room_context(room_id))
            != vstd::utf8::encode_utf8(room_context(other_id)),
        vstd::utf8::encode_utf8(room_context(room_id)) != vstd::utf8::encode_utf8(
            dm_context(a, b, ephemeral),
        ),
{
    let r = room_context(room_id);
    let o = room_context(other_id);
    let d = dm_context(a, b, ephemeral);
    reveal_strlit("room-key:");
    reveal_strlit("dm-ephemeral:");
    reveal_strlit("dm:");
    assert(r[0] == 'r' && d[0] == 'd');
    assert(r.skip(9) =~= room_id);
    assert(o.skip(9) =~= other_id);
    vstd::utf8::encode_utf8_decode_utf8(r);
    vstd::utf8::encode_utf8_decode_utf8(o);
    vstd::utf8::encode_utf8_decode_utf8(d);
}

/// The key under which a room key is handed from one agent to another.
pub open spec fn room_wrap_key(
    secret: Seq<u8>,
    public: Seq<u8>,
    room_id: Seq<char>,
) -> Seq<u8> {
    derived_key(crypto::dh(secret, public), room_context(room_id))
}

/// What decrypting a room key gives.
pub open spec fn room_key_plaintext(
    nonce: Seq<char>,
    encrypted_key: Seq<char>,
    secret: Seq<u8>,
    creator_pub: Seq<u8>,
    room_id: Seq<char>,
) -> Result<Seq<u8>, DecryptError> {
    match decoded_parts(nonce, encrypted_key) {
        Err(x) => Err(x),
        Ok((n, c)) => match opened_with(
            room_wrap_key(secret, creator_pub, room_id),
            n,
            c,
            Seq::empty(),
        ) {
            Err(x) => Err(x),
            Ok(k) => if k.len() == 32 {
                Ok(k)
            } else {
                Err(DecryptError::InvalidRoomKey)
            },
        },
    }
}

/// A fresh room key. Nothing is promised of its bytes.
pub fn generate_room_key() -> (key: [u8; 32])
    ensures
        key@.len() == 32,
{
    let b = crypto::random_bytes(32);
    match bytes::array32(b.as_slice()) {
        Some(k) => k,
        None => [0u8;32],
    }
}

/// The context under which the key of a room is handed over.
fn room_info(room_id: &str) -> (s: String)
    ensures
        s@ == room_context(room_id@),
{
    let mut s: String = "room-key:".to_owned();
    s.append(room_id);
    s
}

/// Encrypts a room key for a member under the given nonce.
///
/// The member, who holds the secret key of `member_pub`, decrypts it to the room key.
pub fn encrypt_room_key_with(
    nonce: &[u8],
    room_key: &[u8; 32],
    my_key: &[u8; 32],
    member_pub: &[u8; 32],
    room_id: &str,
) -> (r: EncryptedRoomKey)
    requires
        nonce@.len() == 12,
    ensures
        r.nonce@ == crypto::b64(nonce@),
        r.encrypted_key@ == crypto::b64(
            crypto::sealed(
                room_wrap_key(my_key@, member_pub@, room_id@),
                nonce@,
                Seq::empty(),
                room_key@,
            ),
        ),
        forall|member_key: Seq<u8>|
            member_key.len() == 32 && member_pub@ == #[trigger] crypto::public_key(member_key)
                ==> room_key_plaintext(
                r.nonce@,
                r.encrypted_key@,
                member_key,
                crypto::public_key(my_key@),
                room_id@,
            ) == Ok::<Seq<u8>, DecryptError>(room_key@),
{
    let shared = crypto::diffie_hellman(my_key, member_pub);
    let info = room_info(room_id);
    let key = derive_key(&shared, info.as_str());
    let no_aad: Vec<u8> = Vec::new();
    assert(no_aad@ == Seq::<u8>::empty());
    let ciphertext = encrypt_aead(&key, nonce, room_key.as_slice(), no_aad.as_slice());
    EncryptedRoomKey {
        nonce: crypto::b64_encode(nonce),
        encrypted_key: crypto::b64_encode(ciphertext.as_slice()),
    }
}

/// Encrypts a room key for a member under a random nonce.
pub fn encrypt_room_key(
    room_key: &[u8; 32],
    my_key: &[u8; 32],
    member_pub: &[u8; 32],
    room_id: &str,
) -> (r: EncryptedRoomKey)
    ensures
        exists|nonce: Seq<u8>|
            nonce.len() == 12 && r.nonce@ == #[trigger] crypto::b64(nonce) && r.encrypted_key@
                == crypto::b64(
                crypto::sealed(
                    room_wrap_key(my_key@, member_pub@, room_id@),
                    nonce,
                    Seq::empty(),
                    room_key@,
                ),
            ),
        forall|member_key: Seq<u8>|
            member_key.len() == 32 && member_pub@ == #[trigger] crypto::public_key(member_key)
                ==> room_key_plaintext(
                r.nonce@,
                r.encrypted_key@,
                member_key,
                crypto::public_key(my_key@),
                room_id@,
            ) == Ok::<Seq<u8>, DecryptError>(room_key@),
{
    let nonce = crypto::random_bytes(12);
    encrypt_room_key_with(nonce.as_slice(), room_key, my_key, member_pub, room_id)
}

/// Decrypts a room key that the holder of `creator_pub` encrypted.
pub fn decrypt_room_key(
    encrypted: &EncryptedRoomKey,
    my_key: &[u8; 32],
    creator_pub: &[u8; 32],
    room_id: &str,
) -> (r: Result<[u8; 32], DecryptError>)
    ensures
        match r {
            Ok(k) => room_key_plaintext(
                encrypted.nonce@,
                encrypted.encrypted_key@,
                my_key@,
                creator_pub@,
                room_id@,
            ) == Ok::<Seq<u8>, DecryptError>(k@),
            Err(e) => room_key_plaintext(
                encrypted.nonce@,
                encrypted.encrypted_key@,
                my_key@,
                creator_pub@,
                room_id@,
            ) == Err::<Seq<u8>, DecryptError>(e),
        },
{
    let (nonce, ciphertext) = match decode_parts(
        encrypted.nonce.as_str(),
        encrypted.encrypted_key.as_str(),
    ) {
        Ok(parts) => parts,
        Err(e) => {
            return Err(e);
        },
    };
    let shared = crypto::diffie_hellman(my_key, creator_pub);
    let info = room_info(room_id);
    let key = derive_key(&shared, info.as_str());
    let no_aad: Vec<u8> = Vec::new();
    assert(no_aad@ == Seq::<u8>::empty());
    match decrypt_aead(&key, nonce.as_slice(), ciphertext.as_slice(), no_aad.as_slice()) {
        Ok(plain) => match bytes::array32(plain.as_slice()) {
            Some(k) => Ok(k),
            None => Err(DecryptError::InvalidRoomKey),
        },
        Err(e) => Err(e),
    }
}

/// The envelope of a room message.
pub open spec fn room_envelope(
    nonce: Seq<u8>,
    plaintext: Seq<u8>,
    room_key: Seq<u8>,
) -> EnvelopeView {
    EnvelopeView {
        encrypted: true,
        version: 1,
        key_type: KeyType::Static,
        ephemeral_pub: None,
        nonce: crypto::b64(nonce),
        content: crypto::b64(crypto::sealed(room_key, nonce, Seq::empty(), plaintext)),
    }
}

/// What decrypting a room message gives.
pub open spec fn room_plaintext(e: EnvelopeView, room_key: Seq<u8>) -> Result<
    Seq<u8>,
    DecryptError,
> {
    match decoded_parts(e.nonce, e.content) {
        Err(x) => Err(x),
        Ok((n, c)) => opened_with(room_key, n, c, Seq::empty()),
    }
}

/// Encrypts a room message under the given nonce. The room key decrypts it to
/// the plaintext.
pub fn encrypt_room_message_with(nonce: &[u8], plaintext: &[u8], room_key: &[u8; 32]) -> (r:
    EncryptedEnvelope)
    requires
        nonce@.len() == 12,
        crypto::fits_cipher(plaintext@.len()),
    ensures
        r@ == room_envelope(nonce@, plaintext@, room_key@),
        room_plaintext(r@, room_key@) == Ok::<Seq<u8>, DecryptError>(plaintext@),
{
    let no_aad: Vec<u8> = Vec::new();
    assert(no_aad@ == Seq::<u8>::empty());
    let ciphertext = encrypt_aead(room_key, nonce, plaintext, no_aad.as_slice());
    EncryptedEnvelope {
        encrypted: true,
        version: 1,
        key_type: KeyType::Static,
        ephemeral_pub: None,
        nonce: crypto::b64_encode(nonce),
        content: crypto::b64_encode(ciphertext.as_slice()),
    }
}

/// Encrypts a room message under a random nonce. The room key decrypts it to the
/// plaintext.
pub fn encrypt_room_message(plaintext: &[u8], room_key: &[u8; 32]) -> (r: EncryptedEnvelope)
    requires
        crypto::fits_cipher(plaintext@.len()),
    ensures
        exists|nonce: Seq<u8>|
            nonce.len() == 12 && r@ == #[trigger] room_envelope(nonce, plaintext@, room_key@),
        room_plaintext(r@, room_key@) == Ok::<Seq<u8>, DecryptError>(plaintext@),
{
    let nonce = crypto::random_bytes(12);
    encrypt_room_message_with(nonce.as_slice(), plaintext, room_key)
}

/// Decrypts a room message with the room key.
pub fn decrypt_room_message(envelope: &EncryptedEnvelope, room_key: &[u8; 32]) -> (r: Result<
    Vec<u8>,
    DecryptError,
>)
    ensures
        plain_view(r) == room_plaintext(envelope@, room_key@),
{
    let (nonce, ciphertext) = match decode_parts(
        envelope.nonce.as_str(),
        envelope.content.as_str(),
    ) {
        Ok(parts) => parts,
        Err(e) => {
            return Err(e);
        },
    };
    let no_aad: Vec<u8> = Vec::new();
    assert(no_aad@ == Seq::<u8>::empty());
    decrypt_aead(room_key, nonce.as_slice(), ciphertext.as_slice(), no_aad.as_slice())
}

// ── Pinned public keys ──────────────────────────────────────────────

/// What a public key is, compared with the one that was seen first.
#[derive(Debug, Clone, Copy, PartialEq, Eq)]
pub enum Pin {
    /// No usable key was stored: this one is to be written.
    New,
    /// The stored key is this one.
    Known,
    /// The stored key is another one.
    Changed([u8; 32]),
}

/// The usable key in the stored text of a pinned key.
pub open spec fn stored_pin(stored: Option<Seq<char>>) -> Option<Seq<u8>> {
    match stored {
        None => None,
        Some(s) => match crypto::b64_decoded(text::trim_spec(s)) {
            Ok(b) => if b.len() == 32 {
                Some(b)
            } else {
                None
            },
            Err(_) => None,
        },
    }
}

/// The text that is stored for a public key when it is first seen. Reading it
/// back gives the key.
pub fn pin_text(public_key: &[u8; 32]) -> (r: String)
    ensures
        r@ == crypto::b64(public_key@),
        stored_pin(Some(r@)) == Some(public_key@),
{
    let r = crypto::b64_encode(public_key.as_slice());
    proof {
        crypto::lemma_b64_trims(r@);
    }
    r
}

/// Compares a public key with the stored text of the key that was seen first,
/// where there is one. A text that holds no key counts as none.
pub fn pin_public_key(stored: Option<&str>, public_key: &[u8; 32]) -> (r: Pin)
    ensures
        ({
            let known = stored_pin(
                match stored {
                    Some(s) => Some(s@),
                    None => None,
                },
            );
            match r {
                Pin::New => known is None,
                Pin::Known => known == Some(public_key@),
                Pin::Changed(old_key) => known == Some(old_key@) && old_key@ != public_key@,
            }
        }),
{
    let text_of_key = match stored {
        Some(s) => text::trim(s),
        None => {
            return Pin::New;
        },
    };
    match crypto::b64_decode(text_of_key.as_str()) {
        Err(_) => Pin::New,
        Ok(b) => match bytes::array32(b.as_slice()) {
            None => Pin::New,
            Some(k) => if bytes::same_bytes(k.as_slice(), public_key.as_slice()) {
                Pin::Known
            } else {
                Pin::Changed(k)
            },
        },
    }
}

} // verus!
