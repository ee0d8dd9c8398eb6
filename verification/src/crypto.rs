//! Cryptographic operations of outside crates, over plain bytes.

use base64::Engine as _;
use chacha20poly1305::aead::{Aead, Payload};
use chacha20poly1305::KeyInit;
use rand::RngCore as _;
use sha2::Digest as _;
use vstd::prelude::*;

use crate::text;

verus! {

/// The base64 text of the given bytes, as `base64`'s STANDARD engine writes it.
pub uninterp spec fn b64(b: Seq<u8>) -> Seq<char>;

/// The bytes that `base64`'s STANDARD engine reads from a text, or the text of
/// its error.
pub uninterp spec fn b64_decoded(s: Seq<char>) -> Result<Seq<u8>, Seq<char>>;

/// The shared secret of a secret and a public X25519 key.
pub uninterp spec fn dh(secret: Seq<u8>, public: Seq<u8>) -> Seq<u8>;

/// The public X25519 key of a secret one.
pub uninterp spec fn public_key(secret: Seq<u8>) -> Seq<u8>;

/// The first 32 bytes that HKDF-SHA256 expands to.
pub uninterp spec fn hkdf(salt: Seq<u8>, secret: Seq<u8>, info: Seq<u8>) -> Seq<u8>;

/// The ChaCha20-Poly1305 ciphertext of a message.
pub uninterp spec fn sealed(
    key: Seq<u8>,
    nonce: Seq<u8>,
    aad: Seq<u8>,
    message: Seq<u8>,
) -> Seq<u8>;

/// The message in a ChaCha20-Poly1305 ciphertext, when it is authentic.
pub uninterp spec fn opened(
    key: Seq<u8>,
    nonce: Seq<u8>,
    aad: Seq<u8>,
    ciphertext: Seq<u8>,
) -> Option<Seq<u8>>;

/// The XChaCha20-Poly1305 ciphertext of a message without associated data.
pub uninterp spec fn x_sealed(key: Seq<u8>, nonce: Seq<u8>, message: Seq<u8>) -> Seq<u8>;

/// The message in an XChaCha20-Poly1305 ciphertext, when it is authentic.
pub uninterp spec fn x_opened(key: Seq<u8>, nonce: Seq<u8>, ciphertext: Seq<u8>) -> Option<
    Seq<u8>,
>;

/// The SHA-256 digest of the given bytes.
pub uninterp spec fn sha256_of(b: Seq<u8>) -> Seq<u8>;

/// The most bytes that one ChaCha20 stream encrypts: the first of its blocks makes the
/// key of the tag.
pub const MAX_MESSAGE: u64 = 0x3f_ffff_ff80;

/// Whether the blocks of a message, the last one filled up, fit one ChaCha20 stream.
pub open spec fn fits_cipher(len: nat) -> bool {
    (len + 63) / 64 < 0xffff_ffff
}

/// Whether a message that fits the cipher can have this many bytes with its tag.
pub open spec fn fits_sealed(len: nat) -> bool {
    len < 16 || fits_cipher((len - 16) as nat)
}

/// Whether the blocks of a message fit one ChaCha20 stream.
pub(crate) fn is_message(len: usize) -> (r: bool)
    ensures
        r == fits_cipher(len as nat),
{
    len as u64 <= MAX_MESSAGE
}

/// Whether a message that fits the cipher can have this many bytes with its tag.
pub(crate) fn is_sealed(len: usize) -> (r: bool)
    ensures
        r == fits_sealed(len as nat),
{
    len < 16 || is_message(len - 16)
}

/// A text that was read as the given bytes.
pub open spec fn read_as(b: Seq<u8>) -> Result<Seq<u8>, Seq<char>> {
    Ok(b)
}

/// The characters of base64's standard alphabet, with its padding.
pub open spec fn is_b64_char(c: char) -> bool {
    ||| 'A' <= c <= 'Z'
    ||| 'a' <= c <= 'z'
    ||| '0' <= c <= '9'
    ||| c == '+'
    ||| c == '/'
    ||| c == '='
}

/// Text in the standard alphabet has no white space to trim.
pub proof fn lemma_b64_trims(s: Seq<char>)
    requires
        forall|i: int| 0 <= i < s.len() ==> is_b64_char(#[trigger] s[i]),
    ensures
        text::trim_spec(s) == s,
{
    assert forall|i: int| 0 <= i < s.len() implies !text::is_space(#[trigger] s[i]) by {
        assert(is_b64_char(s[i]));
    }
    text::lemma_trim_nothing(s);
}

/// Calls `Engine::encode` of `base64`'s STANDARD engine. The text is made of the
/// standard alphabet, and decoding it gives the bytes back.
#[verifier::external_body]
pub(crate) fn b64_encode(b: &[u8]) -> (s: String)
    ensures
        s@ == b64(b@),
        b64_decoded(s@) == read_as(b@),
        forall|i: int| 0 <= i < s@.len() ==> is_b64_char(#[trigger] s@[i]),
{
    base64::engine::general_purpose::STANDARD.encode(b)
}

/// Calls `Engine::decode` of `base64`'s STANDARD engine; an error is handed on
/// as its text.
#[verifier::external_body]
pub(crate) fn b64_decode(s: &str) -> (r: Result<Vec<u8>, String>)
    ensures
        match r {
            Ok(b) => b64_decoded(s@) == Ok::<Seq<u8>, Seq<char>>(b@),
            Err(e) => b64_decoded(s@) == Err::<Seq<u8>, Seq<char>>(e@),
        },
{
    match base64::engine::general_purpose::STANDARD.decode(s) {
        Ok(b) => Ok(b),
        Err(e) => Err(e.to_string()),
    }
}

/// Calls `StaticSecret::diffie_hellman` of `x25519_dalek`. The two holders of a
/// pair of secret keys compute the same shared secret from each other's public key.
#[verifier::external_body]
pub(crate) fn diffie_hellman(secret: &[u8; 32], public: &[u8; 32]) -> (r: [u8; 32])
    ensures
        r@ == dh(secret@, public@),
        forall|other: Seq<u8>|
            other.len() == 32 && public@ == #[trigger] public_key(other) ==> r@ == dh(
                other,
                public_key(secret@),
            ),
{
    x25519_dalek::StaticSecret::from(*secret).diffie_hellman(
        &x25519_dalek::PublicKey::from(*public),
    ).to_bytes()
}

/// Calls `PublicKey::from(&StaticSecret)` of `x25519_dalek`.
#[verifier::external_body]
pub(crate) fn public_of(secret: &[u8; 32]) -> (r: [u8; 32])
    ensures
        r@ == public_key(secret@),
{
    x25519_dalek::PublicKey::from(&x25519_dalek::StaticSecret::from(*secret)).to_bytes()
}

/// Calls `StaticSecret::random_from_rng` of `x25519_dalek` with the operating
/// system's generator. Nothing is promised of the key.
#[verifier::external_body]
pub(crate) fn random_secret() -> (r: [u8; 32]) {
    x25519_dalek::StaticSecret::random_from_rng(rand::rngs::OsRng).to_bytes()
}

/// Calls `fill_bytes` of `rand`'s `OsRng` on `n` bytes. Nothing but the length is
/// promised of them.
#[verifier::external_body]
pub(crate) fn random_bytes(n: usize) -> (r: Vec<u8>)
    ensures
        r@.len() == n,
{
    let mut b = vec![0u8; n];
    rand::rngs::OsRng.fill_bytes(&mut b);
    b
}

/// Calls `Hkdf::<Sha256>::new` and `expand` of `hkdf` for 32 bytes, a length that
/// HKDF-SHA256 always accepts.
#[verifier::external_body]
pub(crate) fn hkdf_sha256(salt: &[u8], secret: &[u8; 32], info: &[u8]) -> (r: [u8; 32])
    ensures
        r@ == hkdf(salt@, secret@, info@),
{
    let mut key = [0u8; 32];
    let hk = hkdf::Hkdf::<sha2::Sha256>::new(Some(salt), secret);
    hk.expand(info, &mut key).expect("32 bytes are a valid HKDF-SHA256 length");
    key
}

/// Calls `encrypt` of `ChaCha20Poly1305`, which does not fail on a message that fits
/// the cipher. The tag adds 16 bytes, and `decrypt` gives the message back.
#[verifier::external_body]
pub(crate) fn seal(key: &[u8; 32], nonce: &[u8], message: &[u8], aad: &[u8]) -> (c: Vec<u8>)
    requires
        nonce@.len() == 12,
        fits_cipher(message@.len()),
    ensures
        c@ == sealed(key@, nonce@, aad@, message@),
        c@.len() == message@.len() + 16,
        opened(key@, nonce@, aad@, c@) == Some(message@),
{
    let cipher = chacha20poly1305::ChaCha20Poly1305::new(key.into());
    let payload = Payload { msg: message, aad };
    let nonce = chacha20poly1305::Nonce::from_slice(nonce);
    cipher.encrypt(nonce, payload).expect("the message fits the cipher")
}

/// Calls `decrypt` of `ChaCha20Poly1305`; `None` stands for its one error. A
/// ciphertext longer than any that fits the cipher is left out. Which ciphertexts are
/// not authentic is not said: the tag makes a forgery unlikely, not impossible.
#[verifier::external_body]
pub(crate) fn open(key: &[u8; 32], nonce: &[u8], ciphertext: &[u8], aad: &[u8]) -> (r: Option<
    Vec<u8>,
>)
    requires
        nonce@.len() == 12,
        fits_sealed(ciphertext@.len()),
    ensures
        match r {
            Some(m) => opened(key@, nonce@, aad@, ciphertext@) == Some(m@),
            None => opened(key@, nonce@, aad@, ciphertext@) is None,
        },
{
    let cipher = chacha20poly1305::ChaCha20Poly1305::new(key.into());
    let payload = Payload { msg: ciphertext, aad };
    cipher.decrypt(chacha20poly1305::Nonce::from_slice(nonce), payload).ok()
}

/// Calls `encrypt` of `XChaCha20Poly1305`, which does not fail on a message that fits
/// the cipher. The tag adds 16 bytes, and `decrypt` gives the message back.
#[verifier::external_body]
pub(crate) fn x_seal(key: &[u8; 32], nonce: &[u8], message: &[u8]) -> (c: Vec<u8>)
    requires
        nonce@.len() == 24,
        fits_cipher(message@.len()),
    ensures
        c@ == x_sealed(key@, nonce@, message@),
        c@.len() == message@.len() + 16,
        x_opened(key@, nonce@, c@) == Some(message@),
{
    let cipher = chacha20poly1305::XChaCha20Poly1305::new(key.into());
    let nonce = chacha20poly1305::XNonce::from_slice(nonce);
    cipher.encrypt(nonce, message).expect("the message fits the cipher")
}

/// Calls `decrypt` of `XChaCha20Poly1305`; `None` stands for its one error. A
/// ciphertext longer than any that fits the cipher is left out. Which ciphertexts are
/// not authentic is not said: the tag makes a forgery unlikely, not impossible.
#[verifier::external_body]
pub(crate) fn x_open(key: &[u8; 32], nonce: &[u8], ciphertext: &[u8]) -> (r: Option<Vec<u8>>)
    requires
        nonce@.len() == 24,
        fits_sealed(ciphertext@.len()),
    ensures
        match r {
            Some(m) => x_opened(key@, nonce@, ciphertext@) == Some(m@),
            None => x_opened(key@, nonce@, ciphertext@) is None,
        },
{
    let cipher = chacha20poly1305::XChaCha20Poly1305::new(key.into());
    cipher.decrypt(chacha20poly1305::XNonce::from_slice(nonce), ciphertext).ok()
}

/// Calls `Sha256::digest` of `sha2`.
#[verifier::external_body]
pub(crate) fn sha256(b: &[u8]) -> (r: [u8; 32])
    ensures
        r@ == sha256_of(b@),
{
    sha2::Sha256::digest(b).into()
}

} // verus!
