//! Cryptographic primitives: key derivation, random salts and nonces, the
//! authenticated cipher, and zeroization of transient key material.
//!
//! The primitives themselves live in outside crates; each is reached through
//! a single trusted wrapper whose contract states what the crate's code does.
//! Everything above the wrappers is verified.

use vstd::prelude::*;

use aes_gcm::Aes256Gcm;
use aes_gcm::KeyInit;
use aes_gcm::aead::Aead;
use aes_gcm::aead::generic_array::GenericArray;
use argon2::Argon2;
use rand::RngCore;
use zeroize::Zeroize;

use crate::VaultError;

verus! {

use vstd::utf8::encode_utf8;

/// Length in bytes of a salt fed to key derivation.
pub const SALT_LEN: usize = 16;

/// Length in bytes of an AEAD nonce.
pub const NONCE_LEN: usize = 12;

/// Length in bytes of a derived symmetric key.
pub const KEY_LEN: usize = 32;

/// Length in bytes of the AEAD authentication tag appended to a ciphertext.
pub const TAG_LEN: usize = 16;

/// Upper bound on the plaintexts this library seals, and on the byte length
/// of a passphrase. Stays far below the cipher's own message limit and keeps
/// every length computation free of overflow.
pub const PLAINTEXT_LIMIT: usize = 0x4000_0000;

/// The key derived from a passphrase and a salt. Deterministic: the same
/// passphrase and salt always name the same 32-byte key.
pub uninterp spec fn kdf(passphrase: Seq<char>, salt: Seq<u8>) -> Seq<u8>;

/// The ciphertext (with its trailing authentication tag) produced by the
/// authenticated cipher for a key, a nonce and a plaintext. Deterministic in
/// its three arguments.
pub uninterp spec fn aead_seal(key: Seq<u8>, nonce: Seq<u8>, plaintext: Seq<u8>) -> Seq<u8>;

/// The passphrase's UTF-8 encoding is short enough for key derivation.
pub open spec fn passphrase_ok(passphrase: Seq<char>) -> bool {
    encode_utf8(passphrase).len() <= PLAINTEXT_LIMIT
}

/// Runtime check for [`passphrase_ok`]; callers outside verified code use it
/// before handing a passphrase to the library.
pub fn passphrase_fits(passphrase: &str) -> (b: bool)
    ensures
        b == passphrase_ok(passphrase@),
{
    passphrase.as_bytes().len() <= PLAINTEXT_LIMIT
}

/// Derives the 32-byte symmetric key for a passphrase and a salt.
///
/// Relies on `argon2::Argon2::hash_password_into` (Argon2id, the crate's
/// default parameters): with a 16-byte salt, a 32-byte output buffer and a
/// password of at most 2^32 - 1 bytes it fills the buffer deterministically
/// from (password, salt) and reports no error.
#[verifier::external_body]
pub fn derive_key(passphrase: &str, salt: &Vec<u8>) -> (r: Vec<u8>)
    requires
        salt@.len() == SALT_LEN,
        passphrase_ok(passphrase@),
    ensures
        r@ == kdf(passphrase@, salt@),
        r@.len() == KEY_LEN,
{
    let mut key = [0u8; 32];
    Argon2::default()
        .hash_password_into(passphrase.as_bytes(), salt.as_slice(), &mut key)
        .expect("key derivation parameters are fixed and valid");
    key.to_vec()
}

/// Fills a fresh buffer with bytes from the thread-local generator.
///
/// Relies on `rand::RngCore::fill_bytes` on `rand::thread_rng()`: it fills
/// the whole buffer; nothing is promised about the values, which differ from
/// call to call. The generator aborts only when the operating system's
/// randomness source is unavailable.
#[verifier::external_body]
fn random_bytes(n: usize) -> (r: Vec<u8>)
    ensures
        r@.len() == n,
{
    let mut buf = vec![0u8; n];
    rand::thread_rng().fill_bytes(&mut buf);
    buf
}

/// A fresh 16-byte salt for one key derivation.
pub fn generate_salt() -> (r: Vec<u8>)
    ensures
        r@.len() == SALT_LEN,
{
    random_bytes(SALT_LEN)
}

/// A fresh 12-byte nonce for one cipher call.
pub fn generate_nonce() -> (r: Vec<u8>)
    ensures
        r@.len() == NONCE_LEN,
{
    random_bytes(NONCE_LEN)
}

/// Seals a plaintext under a key and a nonce.
///
/// Relies on `aes_gcm::Aes256Gcm` via `aead::Aead::encrypt`: AES-256-GCM
/// with a postfix 16-byte tag. The result is a function of (key, nonce,
/// plaintext) alone, is 16 bytes longer than the plaintext, and the call
/// reports no error for messages within the cipher's 2^36-byte limit.
#[verifier::external_body]
fn aead_encrypt(key: &Vec<u8>, nonce: &Vec<u8>, plaintext: &Vec<u8>) -> (r: Vec<u8>)
    requires
        key@.len() == KEY_LEN,
        nonce@.len() == NONCE_LEN,
        plaintext@.len() <= PLAINTEXT_LIMIT,
    ensures
        r@ == aead_seal(key@, nonce@, plaintext@),
        r@.len() == plaintext@.len() + TAG_LEN,
{
    let cipher = Aes256Gcm::new(GenericArray::from_slice(key.as_slice()));
    cipher
        .encrypt(GenericArray::from_slice(nonce.as_slice()), plaintext.as_slice())
        .expect("message length is within the cipher's limit")
}

/// Opens a ciphertext under a key and a nonce, or reports nothing when the
/// authentication tag does not verify.
///
/// Relies on `aes_gcm::Aes256Gcm` via `aead::Aead::decrypt`: decryption
/// recomputes the tag over the ciphertext and, when it matches, inverts the
/// keystream. Hence it succeeds exactly on images of the cipher's encryption
/// for the same key and nonce, and then returns the sealed plaintext.
#[verifier::external_body]
fn aead_decrypt(key: &Vec<u8>, nonce: &Vec<u8>, ciphertext: &Vec<u8>) -> (r: Option<Vec<u8>>)
    requires
        key@.len() == KEY_LEN,
        nonce@.len() == NONCE_LEN,
    ensures
        r matches Some(p) ==> ciphertext@ == aead_seal(key@, nonce@, p@),
        forall|p: Seq<u8>|
            p.len() <= PLAINTEXT_LIMIT && ciphertext@ == aead_seal(key@, nonce@, p)
                ==> r is Some && r.unwrap()@ == p,
{
    let cipher = Aes256Gcm::new(GenericArray::from_slice(key.as_slice()));
    cipher.decrypt(GenericArray::from_slice(nonce.as_slice()), ciphertext.as_slice()).ok()
}

/// Overwrites a transient secret and releases its contents.
///
/// Relies on `zeroize::Zeroize` for `Vec<u8>`: every byte of the buffer,
/// including spare capacity, is overwritten with zeros before the length is
/// reset to zero.
#[verifier::external_body]
pub fn wipe(buf: &mut Vec<u8>)
    ensures
        final(buf)@.len() == 0,
{
    buf.zeroize();
}

/// Encrypts `data` under `key` with a fresh nonce; returns the ciphertext,
/// the nonce, and the caller's salt, so the three can be stored together.
pub fn encrypt(key: &Vec<u8>, data: &Vec<u8>, salt: &Vec<u8>) -> (r: Result<
    (Vec<u8>, Vec<u8>, Vec<u8>),
    VaultError,
>)
    requires
        key@.len() == KEY_LEN,
        data@.len() <= PLAINTEXT_LIMIT,
    ensures
        r matches Ok(t) ==> {
            &&& t.0@ == aead_seal(key@, t.1@, data@)
            &&& t.0@.len() == data@.len() + TAG_LEN
            &&& t.1@.len() == NONCE_LEN
            &&& t.2@ == salt@
        },
        r is Ok,
{
    let nonce = generate_nonce();
    let ciphertext = aead_encrypt(key, &nonce, data);
    let mut salt_copy: Vec<u8> = Vec::new();
    salt_copy.extend_from_slice(salt.as_slice());
    proof {
        assert(salt_copy@ =~= salt@);
    }
    Ok((ciphertext, nonce, salt_copy))
}

/// Decrypts a ciphertext under `key` and `nonce`. Succeeds exactly on
/// untampered ciphertexts sealed under the same key and nonce; any other
/// input is an authentication failure and releases no plaintext.
pub fn decrypt(key: &Vec<u8>, nonce: &Vec<u8>, ciphertext: &Vec<u8>) -> (r: Result<
    Vec<u8>,
    VaultError,
>)
    requires
        key@.len() == KEY_LEN,
        nonce@.len() == NONCE_LEN,
    ensures
        r matches Ok(p) ==> ciphertext@ == aead_seal(key@, nonce@, p@),
        forall|p: Seq<u8>|
            p.len() <= PLAINTEXT_LIMIT && ciphertext@ == aead_seal(key@, nonce@, p)
                ==> r is Ok && r.unwrap()@ == p,
        r matches Err(e) ==> e == VaultError::AuthenticationFailed,
{
    match aead_decrypt(key, nonce, ciphertext) {
        Some(p) => Ok(p),
        None => Err(VaultError::AuthenticationFailed),
    }
}

} // verus!
