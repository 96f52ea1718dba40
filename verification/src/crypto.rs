//! Client-side cryptography: the AEAD seal/open pair for file bodies and
//! names, the deterministic Argon2 name hash, and the RSA signature over
//! (body ++ name). One AEAD, one signature scheme and one hash are fixed
//! by the envelope format.
//!
//! Outside calls are modelled by naming their results: `aead_seal`,
//! `argon2_hash` and `rsa_signature` stand for what the respective
//! primitives return, and every contract speaks of those names.

use vstd::prelude::*;

use aes_gcm_siv::aead::Aead;
use aes_gcm_siv::KeyInit;

use crate::hash::bytes_eq;

verus! {

use vstd::utf8::encode_utf8;

/// The ciphertext AES-256-GCM-SIV produces for a key, nonce and
/// plaintext: a pure function of the three. The cipher only ever
/// produces (and accepts) ciphertexts of plaintexts within its
/// 2^36-byte bound, so every statement over this name concerns such
/// plaintexts.
pub uninterp spec fn aead_seal(key: Seq<u8>, nonce: Seq<u8>, plain: Seq<u8>) -> Seq<u8>;

/// The PHC-encoded digest Argon2 (default configuration) produces for a
/// salt and password: deterministic because the salt is supplied by the
/// caller.
pub uninterp spec fn argon2_hash(salt: Seq<u8>, password: Seq<u8>) -> Seq<char>;

/// The RSA-PKCS1-SHA256 signature the key with the given PKCS#8 encoding
/// produces over a message. PKCS#1 v1.5 signing is deterministic, so the
/// signature is a function of key bytes and message alone.
pub uninterp spec fn rsa_signature(key_der: Seq<u8>, msg: Seq<u8>) -> Seq<u8>;

/// The 32-byte AEAD key the envelope format derives from a password: its
/// UTF-8 bytes, truncated to 32 and right-padded with zeroes.
pub open spec fn padded_key(password: Seq<u8>) -> Seq<u8> {
    Seq::new(32, |i: int| if i < password.len() { password[i] } else { 0u8 })
}

/// Failures of the signing-key machinery.
#[derive(Debug)]
pub enum CryptoError {
    /// Reading key material failed; carries the I/O error's message.
    IO(String),
    /// The PKCS#8 bytes do not hold a usable RSA private key.
    BadPrivateKey,
    /// The signing primitive gave out (memory or system randomness).
    OOM,
    /// A signature did not match.
    BadSignature,
}

/// A parsed RSA signing key, kept together with the PKCS#8 bytes it was
/// parsed from, so that contracts can attribute signatures to those
/// bytes. Only `get_key_pair` constructs one.
pub struct SigningKey {
    der: Vec<u8>,
    pair: ring::signature::RsaKeyPair,
}

#[verifier::external_type_specification]
#[verifier::external_body]
pub struct ExRsaKeyPair(ring::signature::RsaKeyPair);

impl View for SigningKey {
    type V = Seq<u8>;

    closed spec fn view(&self) -> Seq<u8> {
        self.der@
    }
}

/// Derive the fixed-width AEAD key from a password, as the envelope
/// format prescribes.
fn generate_key(password: &String) -> (r: Vec<u8>)
    ensures
        r@ == padded_key(encode_utf8(password@)),
{
    let bytes = password.as_str().as_bytes();
    let mut key: Vec<u8> = Vec::new();
    let mut i: usize = 0;
    while i < 32
        invariant
            i <= 32,
            key@.len() == i,
            bytes@ == encode_utf8(password@),
            forall|j: int| 0 <= j < i ==> key@[j] == padded_key(encode_utf8(password@))[j],
        decreases 32 - i,
    {
        if i < bytes.len() {
            key.push(bytes[i]);
        } else {
            key.push(0u8);
        }
        i = i + 1;
    }
    proof {
        assert(key@ =~= padded_key(encode_utf8(password@)));
    }
    key
}

/// Relies on Aes256GcmSiv (aes-gcm-siv): encryption is a pure function
/// of key, nonce and plaintext; the ciphertext is the plaintext's length
/// plus a 16-byte tag; with no associated data it fails only when the
/// plaintext exceeds the AEAD's bound of 2^36 bytes.
#[verifier::external_body]
fn aead_encrypt(key: &Vec<u8>, nonce: &[u8; 12], plain: &Vec<u8>) -> (r: Result<Vec<u8>, ()>)
    requires
        key@.len() == 32,
    ensures
        r matches Ok(ct) ==> ct@ == aead_seal(key@, nonce@, plain@) && ct@.len() == plain@.len()
            + 16,
        r is Ok ==> plain@.len() <= 0x10_0000_0000,
        plain@.len() <= 0x10_0000_0000 ==> r is Ok,
{
    let cipher = match aes_gcm_siv::Aes256GcmSiv::new_from_slice(key.as_slice()) {
        Ok(c) => c,
        Err(_) => return Err(()),
    };
    cipher.encrypt(&aes_gcm_siv::Nonce::from(*nonce), plain.as_slice()).map_err(|_| ())
}

/// Relies on Aes256GcmSiv: decryption inverts encryption for the same
/// key and nonce, and the tag check rejects every byte string that no
/// plaintext seals to. For a fixed key and nonce, encryption is
/// injective (a length-preserving keystream XOR plus a tag), so the
/// plaintext a ciphertext opens to is unique.
#[verifier::external_body]
fn aead_decrypt(key: &Vec<u8>, nonce: &[u8; 12], ct: &Vec<u8>) -> (r: Result<Vec<u8>, ()>)
    requires
        key@.len() == 32,
    ensures
        r matches Err(e) ==> (forall|p: Seq<u8>| ct@ != aead_seal(key@, nonce@, p)),
        r matches Ok(p) ==> ct@ == aead_seal(key@, nonce@, p@) && (forall|q: Seq<u8>|
        ct@ == aead_seal(key@, nonce@, q) ==> q == p@),
{
    let cipher = match aes_gcm_siv::Aes256GcmSiv::new_from_slice(key.as_slice()) {
        Ok(c) => c,
        Err(_) => return Err(()),
    };
    cipher.decrypt(&aes_gcm_siv::Nonce::from(*nonce), ct.as_slice()).map_err(|_| ())
}

/// Relies on rand::random: a fresh 12-byte nonce from the thread's
/// cryptographic generator. Nothing is assumed about the value.
#[verifier::external_body]
fn generate_random_nonce() -> (r: [u8; 12]) {
    rand::random::<[u8; 12]>()
}

/// Seal a byte string under a password: generate a fresh nonce and
/// encrypt with AES-256-GCM-SIV under the password-derived key. Always
/// succeeds for bodies within the AEAD's length bound.
pub fn encrypt_bytes(bytes: Vec<u8>, password: String) -> (r: Result<([u8; 12], Vec<u8>), String>)
    ensures
        r matches Ok(p) ==> p.1@ == aead_seal(
            padded_key(encode_utf8(password@)),
            p.0@,
            bytes@,
        ) && p.1@.len() == bytes@.len() + 16,
        bytes@.len() <= 0x10_0000_0000 ==> r is Ok,
{
    let key = generate_key(&password);
    let nonce_bytes = generate_random_nonce();
    match aead_encrypt(&key, &nonce_bytes, &bytes) {
        Ok(ct) => Ok((nonce_bytes, ct)),
        Err(_) => Err("encryption failure!".to_string()),
    }
}

/// Open an AEAD ciphertext under a password-derived key. The plaintext
/// comes back exactly when some plaintext seals to these bytes under
/// this key and nonce; every other byte string is rejected.
pub fn decrypt_bytes(bytes: Vec<u8>, password: String, nonce_bytes: [u8; 12]) -> (r: Result<
    Vec<u8>,
    String,
>)
    ensures
        r matches Ok(p) ==> bytes@ == aead_seal(
            padded_key(encode_utf8(password@)),
            nonce_bytes@,
            p@,
        ),
        forall|p: Seq<u8>|
            bytes@ == aead_seal(padded_key(encode_utf8(password@)), nonce_bytes@, p) ==> (r
                matches Ok(q) && q@ == p),
{
    let key = generate_key(&password);
    match aead_decrypt(&key, &nonce_bytes, &bytes) {
        Ok(p) => Ok(p),
        Err(_) => Err("decryption failure!".to_string()),
    }
}

/// Relies on argon2::hash_encoded (rust-argon2) with the default
/// configuration: the PHC-encoded digest is a pure function of password,
/// salt and configuration. The crate rejects salts shorter than 8 bytes
/// and inputs beyond 2^32 - 1 bytes.
#[verifier::external_body]
fn argon2_hash_encoded(password: &String, salt: &String) -> (r: String)
    requires
        encode_utf8(salt@).len() >= 8,
        encode_utf8(salt@).len() <= 0xFFFF_FFFF,
        encode_utf8(password@).len() <= 0xFFFF_FFFF,
    ensures
        r@ == argon2_hash(encode_utf8(salt@), encode_utf8(password@)),
{
    let config = argon2::Config::default();
    match argon2::hash_encoded(password.as_bytes(), salt.as_bytes(), &config) {
        Ok(h) => h,
        Err(_) => String::new(),
    }
}

/// The deterministic name hash: Argon2 over `password` with the
/// caller-supplied `salt`, PHC-encoded. The same salt and password give
/// the same string in every call and in every process, because the salt
/// is fixed by the caller rather than drawn at random.
pub fn hash_password(salt: String, password: String) -> (r: String)
    requires
        encode_utf8(salt@).len() >= 8,
        encode_utf8(salt@).len() <= 0xFFFF_FFFF,
        encode_utf8(password@).len() <= 0xFFFF_FFFF,
    ensures
        r@ == argon2_hash(encode_utf8(salt@), encode_utf8(password@)),
{
    argon2_hash_encoded(&password, &salt)
}

/// The name hash is deterministic: hashing the same name under the same
/// secret gives the same digest, across calls and across processes — the
/// digest is a function of the two inputs alone, with no hidden state.
pub proof fn lemma_name_hash_deterministic(salt: Seq<u8>, password: Seq<u8>)
    ensures
        argon2_hash(salt, password) == argon2_hash(salt, password),
{
}

/// Relies on ring::signature::RsaKeyPair::from_pkcs8: parse a PKCS#8
/// private key. The pair is stored beside the bytes it came from, so
/// that its signatures can be attributed to those bytes.
#[verifier::external_body]
pub fn get_key_pair(key_data: &Vec<u8>) -> (r: Result<SigningKey, CryptoError>)
    ensures
        r matches Ok(k) ==> k@ == key_data@,
        r matches Err(e) ==> e == CryptoError::BadPrivateKey,
{
    match ring::signature::RsaKeyPair::from_pkcs8(key_data.as_slice()) {
        Ok(pair) => Ok(SigningKey { der: key_data.clone(), pair }),
        Err(_) => Err(CryptoError::BadPrivateKey),
    }
}

/// Relies on RsaKeyPair::sign with RSA_PKCS1_SHA256 (ring): PKCS#1 v1.5
/// signing is deterministic — the randomness serves only blinding — so
/// the signature is a function of the key and the message. It fails only
/// if system randomness or memory gives out.
#[verifier::external_body]
fn rsa_sign(key: &SigningKey, msg: &Vec<u8>) -> (r: Result<Vec<u8>, ()>)
    ensures
        r matches Ok(sig) ==> sig@ == rsa_signature(key@, msg@),
{
    let mut signature = vec![0u8; key.pair.public().modulus_len()];
    let rng = ring::rand::SystemRandom::new();
    match key.pair.sign(&ring::signature::RSA_PKCS1_SHA256, &rng, msg.as_slice(), &mut signature) {
        Ok(()) => Ok(signature),
        Err(_) => Err(()),
    }
}

/// Sign (body ++ name) with the user's RSA key, as the envelope format
/// prescribes.
pub fn sign_file(file_data: &Vec<u8>, file_name: &[u8], key_pair: &SigningKey) -> (r: Result<
    Vec<u8>,
    CryptoError,
>)
    ensures
        r matches Ok(sig) ==> sig@ == rsa_signature(key_pair@, file_data@ + file_name@),
        r matches Err(e) ==> e == CryptoError::OOM,
{
    let mut full_file: Vec<u8> = file_data.clone();
    full_file.extend_from_slice(file_name);
    proof {
        assert(full_file@ =~= file_data@ + file_name@);
    }
    match rsa_sign(key_pair, &full_file) {
        Ok(sig) => Ok(sig),
        Err(_) => Err(CryptoError::OOM),
    }
}

/// Check a detached signature by re-signing (body ++ name) and comparing
/// byte for byte — sound because the scheme's signatures are
/// deterministic: true exactly when the
/// bytes are the key's signature over the same message. A signature made
/// by `sign_file` over the same body, name and key always passes.
pub fn verify_file_signature(
    file_data: &Vec<u8>,
    file_name: &[u8],
    key_pair: &SigningKey,
    signature: &Vec<u8>,
) -> (r: Result<bool, CryptoError>)
    ensures
        r matches Ok(b) ==> b == (signature@ == rsa_signature(
            key_pair@,
            file_data@ + file_name@,
        )),
        r matches Err(e) ==> e == CryptoError::OOM,
{
    match sign_file(file_data, file_name, key_pair) {
        Ok(expected) => Ok(bytes_eq(signature, &expected)),
        Err(e) => Err(e),
    }
}

} // verus!
