//! Cryptographic primitives of the secure channel: PBKDF2 key derivation,
//! AES-256-GCM sealing and opening, and the random sources.
//!
//! The outside calls stand behind trusted wrappers; everything a caller
//! relies on is stated over the named results `derived_key_of`,
//! `aead_cipher` and `aead_plain`.

use vstd::prelude::*;

use aes_gcm::aead::Aead;
use aes_gcm::KeyInit;
use base64::Engine;
use rand::Rng;
use rand::TryRngCore;

verus! {

/// The 32-byte key that PBKDF2-HMAC-SHA-256 derives, over 100,000 rounds,
/// from the decimal form of a PIN and a salt.
pub uninterp spec fn derived_key_of(pin: int, salt: Seq<u8>) -> Seq<u8>;

/// The AES-256-GCM ciphertext (message followed by the 16-byte tag) for a
/// key, a nonce and a plaintext.
pub uninterp spec fn aead_cipher(key: Seq<u8>, nonce: Seq<u8>, plain: Seq<u8>) -> Seq<u8>;

/// What AES-256-GCM decryption yields for a key, a nonce and a ciphertext:
/// the plaintext when the tag authenticates, nothing otherwise.
pub uninterp spec fn aead_plain(key: Seq<u8>, nonce: Seq<u8>, cipher: Seq<u8>) -> Option<Seq<u8>>;

/// The standard base64 encoding of a byte sequence, as ASCII bytes.
pub uninterp spec fn b64_of(b: Seq<u8>) -> Seq<u8>;

/// Relies on pbkdf2::pbkdf2_hmac with sha2::Sha256: fills the output buffer
/// with the key derived from password and salt; deterministic in both, so the
/// result is named `derived_key_of`. The password is the PIN written in
/// decimal, as the channel protocol prescribes.
#[verifier::external_body]
pub fn derive_key(pin: i32, salt: &[u8]) -> (key: Vec<u8>)
    requires
        salt@.len() == 16,
    ensures
        key@.len() == 32,
        key@ == derived_key_of(pin as int, salt@),
{
    let mut key = vec![0u8; 32];
    pbkdf2::pbkdf2_hmac::<sha2::Sha256>(pin.to_string().as_bytes(), salt, 100_000, &mut key);
    key
}

/// Relies on rand::rngs::OsRng::try_fill_bytes: fills the buffer with bytes
/// from the operating system's random source. Nothing is promised of the
/// contents, only the length.
#[verifier::external_body]
pub fn random_bytes(n: usize) -> (r: Vec<u8>)
    ensures
        r@.len() == n,
{
    let mut buf = vec![0u8; n];
    rand::rngs::OsRng.try_fill_bytes(&mut buf).expect("RNG failed");
    buf
}

/// Relies on rand::Rng::random_range: returns a value sampled from the given
/// range, so the result lies in [10,000,000, 100,000,000). Nothing more is
/// promised of a random value.
#[verifier::external_body]
pub fn random_pin() -> (pin: i32)
    ensures
        10_000_000 <= pin < 100_000_000,
{
    rand::rng().random_range(10_000_000..100_000_000)
}

/// Relies on aes_gcm::Aes256Gcm (aead::Aead::encrypt): returns the
/// ciphertext with the 16-byte tag appended; deterministic in key, nonce and
/// plaintext, so the result is named `aead_cipher`. The aead crate documents
/// that decrypting the result with the same key and nonce yields the
/// plaintext back, stated here over `aead_plain`.
#[verifier::external_body]
pub fn aead_seal(key: &[u8], nonce: &[u8], plain: &[u8]) -> (r: Vec<u8>)
    requires
        key@.len() == 32,
        nonce@.len() == 12,
        plain@.len() < 0x1000_0000,
    ensures
        r@ == aead_cipher(key@, nonce@, plain@),
        r@.len() == plain@.len() + 16,
        aead_plain(key@, nonce@, r@) == Some(plain@),
{
    let cipher = aes_gcm::Aes256Gcm::new(aes_gcm::Key::<aes_gcm::Aes256Gcm>::from_slice(key));
    cipher.encrypt(aes_gcm::Nonce::from_slice(nonce), plain).expect("encryption failed")
}

/// Relies on aes_gcm::Aes256Gcm (aead::Aead::decrypt): yields the plaintext
/// when the tag authenticates under this key and nonce, and an opaque error
/// otherwise; deterministic, so the outcome is named `aead_plain`.
#[verifier::external_body]
pub fn aead_open(key: &[u8], nonce: &[u8], cipher_text: &[u8]) -> (r: Option<Vec<u8>>)
    requires
        key@.len() == 32,
        nonce@.len() == 12,
    ensures
        match r {
            Some(p) => aead_plain(key@, nonce@, cipher_text@) == Some(p@),
            None => aead_plain(key@, nonce@, cipher_text@) is None,
        },
{
    let cipher = aes_gcm::Aes256Gcm::new(aes_gcm::Key::<aes_gcm::Aes256Gcm>::from_slice(key));
    match cipher.decrypt(aes_gcm::Nonce::from_slice(nonce), cipher_text) {
        Ok(p) => Some(p),
        Err(_) => None,
    }
}

/// Relies on base64::engine::general_purpose::STANDARD (Engine::encode):
/// deterministic in its input, so the result is named `b64_of`.
#[verifier::external_body]
pub fn base64_encode(b: &[u8]) -> (r: Vec<u8>)
    ensures
        r@ == b64_of(b@),
{
    base64::engine::general_purpose::STANDARD.encode(b).into_bytes()
}

/// Generate a fresh random 16-byte salt for key derivation.
pub fn generate_salt() -> (r: Vec<u8>)
    ensures
        r@.len() == 16,
{
    random_bytes(16)
}

} // verus!
