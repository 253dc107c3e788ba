//! Keys, their base64 text form, and authenticated encryption of chunks.
use vstd::prelude::*;
use aes_gcm::aead::{Aead, AeadCore, KeyInit, OsRng};
use aes_gcm::{Aes256Gcm, Key, Nonce};
use base64::Engine;
use rand::Rng;
use crate::error::TransferError;

verus! {

/// Length of a key in bytes.
pub const KEY_LEN: usize = 32;

/// Length of the nonce put in front of every encrypted chunk.
pub const NONCE_LEN: usize = 12;

/// Length of the authentication tag that follows the encrypted bytes.
pub const TAG_LEN: usize = 16;

/// The longest plaintext the cipher accepts, in bytes (2^36).
pub const MAX_PLAINTEXT_LEN: u64 = 0x10_0000_0000;

/// The base64 crate's decoding error, carried through as an opaque value.
#[verifier::external_type_specification]
#[verifier::external_body]
pub struct ExDecodeError(base64::DecodeError);

/// The aead crate's error of AES-GCM, carried through as an opaque value.
#[verifier::external_type_specification]
#[verifier::external_body]
pub struct ExAeadError(aes_gcm::Error);

/// The standard (padded) base64 text of `bytes`, as the base64 crate writes it.
pub uninterp spec fn base64_standard_encode(bytes: Seq<u8>) -> Seq<char>;

/// The bytes that standard base64 text `text` stands for, or `None` where the base64
/// crate refuses the text.
pub uninterp spec fn base64_standard_decode(text: Seq<char>) -> Option<Seq<u8>>;

/// What AES-256-GCM makes of `plaintext` under `key` and `nonce` with no associated
/// data: the encrypted bytes followed by the tag.
pub uninterp spec fn aes256_gcm_seal(key: Seq<u8>, nonce: Seq<u8>, plaintext: Seq<u8>) -> Seq<u8>;

/// What AES-256-GCM recovers from `ciphertext` (encrypted bytes and tag) under `key`
/// and `nonce`, or `None` where the tag does not match.
pub uninterp spec fn aes256_gcm_open(
    key: Seq<u8>,
    nonce: Seq<u8>,
    ciphertext: Seq<u8>,
) -> Option<Seq<u8>>;

/// Decodes `text` with the base64 crate's `STANDARD` engine.
///
/// Trusted: calls `Engine::decode` of `base64::engine::general_purpose::STANDARD`.
/// The contract names its result: `Ok` with the decoded bytes exactly where
/// `base64_standard_decode` gives them, an error otherwise. Which `DecodeError`
/// comes back is not stated.
#[verifier::external_body]
fn decode_base64(text: &str) -> (r: Result<Vec<u8>, base64::DecodeError>)
    ensures
        match base64_standard_decode(text@) {
            Some(b) => r matches Ok(v) && v@ == b,
            None => r is Err,
        },
{
    base64::engine::general_purpose::STANDARD.decode(text)
}

/// Encodes a key with the base64 crate's `STANDARD` engine.
///
/// Trusted: calls `Engine::encode` of `base64::engine::general_purpose::STANDARD`.
/// The contract names the text it returns, and states that the same engine decodes
/// that text back to the key: standard base64 encoding is undone by its decoding.
#[verifier::external_body]
fn encode_base64(bytes: &[u8; 32]) -> (s: String)
    ensures
        s@ == base64_standard_encode(bytes@),
        base64_standard_decode(s@) == Some(bytes@),
{
    base64::engine::general_purpose::STANDARD.encode(bytes)
}

/// 32 random bytes from the thread-local generator of the rand crate.
///
/// Trusted: calls `Rng::fill` on `rand::thread_rng()`. Nothing is stated of the
/// bytes: they are random.
#[verifier::external_body]
fn random_key_bytes() -> [u8; 32] {
    let mut key = [0u8;32];
    rand::thread_rng().fill(&mut key);
    key
}

/// A random nonce from the operating system's generator.
///
/// Trusted: calls `AeadCore::generate_nonce` of `Aes256Gcm` with `OsRng`. Nothing is
/// stated of the bytes: they are random.
#[verifier::external_body]
fn random_nonce() -> [u8; 12] {
    Aes256Gcm::generate_nonce(&mut OsRng).into()
}

/// Encrypts `plaintext` with AES-256-GCM under `key` and `nonce`.
///
/// Trusted: builds the `Aes256Gcm` cipher of `key` (`KeyInit::new`) and calls
/// `Aead::encrypt` on it. The aes-gcm source refuses plaintexts longer than 2^36
/// bytes and otherwise returns the encrypted bytes followed by a 16-byte tag; the
/// contract says so, names the result, and states that `Aead::decrypt` with the same
/// key and nonce gives the plaintext back, which is what makes it an AEAD cipher.
#[verifier::external_body]
fn aes256_gcm_encrypt(key: &[u8; 32], nonce: &[u8; 12], plaintext: &[u8]) -> (r: Result<
    Vec<u8>,
    aes_gcm::Error,
>)
    ensures
        r is Ok <==> plaintext@.len() <= MAX_PLAINTEXT_LEN,
        r matches Ok(c) ==> c@ == aes256_gcm_seal(key@, nonce@, plaintext@),
        r matches Ok(c) ==> c@.len() == plaintext@.len() + TAG_LEN,
        r matches Ok(c) ==> aes256_gcm_open(key@, nonce@, c@) == Some(plaintext@),
{
    Aes256Gcm::new(Key::<Aes256Gcm>::from_slice(key)).encrypt(Nonce::from_slice(nonce), plaintext)
}

/// Decrypts and authenticates `ciphertext` with AES-256-GCM under `key` and `nonce`.
///
/// Trusted: builds the `Aes256Gcm` cipher of `key` (`KeyInit::new`) and calls
/// `Aead::decrypt` on it. The contract names the result; from the aead and aes-gcm
/// source it also states that input shorter than the tag is refused and that the
/// plaintext is the input without its 16-byte tag.
#[verifier::external_body]
fn aes256_gcm_decrypt(key: &[u8; 32], nonce: &[u8], ciphertext: &[u8]) -> (r: Result<
    Vec<u8>,
    aes_gcm::Error,
>)
    requires
        nonce@.len() == NONCE_LEN,
    ensures
        match aes256_gcm_open(key@, nonce@, ciphertext@) {
            Some(p) => r matches Ok(v) && v@ == p,
            None => r is Err,
        },
        ciphertext@.len() < TAG_LEN ==> r is Err,
        r matches Ok(v) ==> v@.len() + TAG_LEN == ciphertext@.len(),
{
    Aes256Gcm::new(Key::<Aes256Gcm>::from_slice(key)).decrypt(Nonce::from_slice(nonce), ciphertext)
}

/// The symmetric key that a transfer is encrypted with.
#[derive(Debug, Clone, Copy)]
pub struct Cipher {
    pub key: [u8; 32],
}

impl View for Cipher {
    type V = Seq<u8>;

    open spec fn view(&self) -> Seq<u8> {
        self.key@
    }
}

impl Cipher {
    /// The cipher of `key`.
    pub fn new(key: [u8; 32]) -> (c: Cipher)
        ensures
            c@ == key@,
    {
        Cipher { key }
    }
}

/// The key that text `text` stands for, or why it is refused.
pub open spec fn key_from_text(text: Seq<char>) -> Result<Seq<u8>, TransferError> {
    match base64_standard_decode(text) {
        None => Err(TransferError::InvalidKeyEncoding),
        Some(b) => if b.len() == KEY_LEN {
            Ok(b)
        } else {
            Err(TransferError::InvalidKeyLength)
        },
    }
}

/// A nonce followed by what AES-256-GCM makes of `data` under `key` and that nonce.
pub open spec fn sealed(key: Seq<u8>, nonce: Seq<u8>, data: Seq<u8>) -> Seq<u8> {
    nonce + aes256_gcm_seal(key, nonce, data)
}

/// What `decrypt_data` makes of `blob` under `key`: the nonce is its first 12 bytes.
pub open spec fn opened(key: Seq<u8>, blob: Seq<u8>) -> Result<Seq<u8>, TransferError> {
    if blob.len() < NONCE_LEN {
        Err(TransferError::InvalidEncryptedLength)
    } else {
        match aes256_gcm_open(key, blob.take(NONCE_LEN as int), blob.skip(NONCE_LEN as int)) {
            Some(p) => Ok(p),
            None => Err(TransferError::DecryptionFailed),
        }
    }
}

/// The view of a result holding bytes.
pub open spec fn bytes_result(r: Result<Vec<u8>, TransferError>) -> Result<Seq<u8>, TransferError> {
    match r {
        Ok(v) => Ok(v@),
        Err(e) => Err(e),
    }
}

/// A fresh random key.
pub fn generate_key() -> [u8; 32] {
    random_key_bytes()
}

/// The key held in `decoded`, the bytes that a key text decoded to: it must be
/// exactly 32 bytes long.
pub fn key_from_bytes(decoded: &[u8]) -> (r: Result<[u8; 32], TransferError>)
    ensures
        decoded@.len() == KEY_LEN ==> (r matches Ok(k) && k@ == decoded@),
        decoded@.len() != KEY_LEN ==> r == Err::<[u8; 32], TransferError>(
            TransferError::InvalidKeyLength,
        ),
{
    if decoded.len() != KEY_LEN {
        return Err(TransferError::InvalidKeyLength);
    }
    let mut key = [0u8;32];
    let mut i: usize = 0;
    while i < KEY_LEN
        invariant
            decoded@.len() == KEY_LEN,
            i <= KEY_LEN,
            key@.len() == KEY_LEN,
            forall|j: int| 0 <= j < i ==> key@[j] == decoded@[j],
        decreases KEY_LEN - i,
    {
        key[i] = decoded[i];
        i = i + 1;
    }
    Ok(key)
}

/// The key written as standard base64 text in `key_str`.
pub fn key_from_string(key_str: &str) -> (r: Result<[u8; 32], TransferError>)
    ensures
        match key_from_text(key_str@) {
            Ok(k) => r matches Ok(key) && key@ == k,
            Err(e) => r == Err::<[u8; 32], TransferError>(e),
        },
{
    match decode_base64(key_str) {
        Ok(decoded) => key_from_bytes(decoded.as_slice()),
        Err(_) => Err(TransferError::InvalidKeyEncoding),
    }
}

/// The standard base64 text of `key`; reading it back gives the key.
pub fn key_to_string(key: &[u8; 32]) -> (s: String)
    ensures
        s@ == base64_standard_encode(key@),
        key_from_text(s@) == Ok::<Seq<u8>, TransferError>(key@),
{
    encode_base64(key)
}

/// Encrypts `data` under `cipher` with the given nonce and puts the nonce in front.
/// Encrypted data decrypts back to `data`.
pub fn encrypt_data_with_nonce(data: &[u8], cipher: &Cipher, nonce: &[u8; 12]) -> (r: Result<
    Vec<u8>,
    TransferError,
>)
    ensures
        data@.len() <= MAX_PLAINTEXT_LEN ==> (r matches Ok(v) && v@ == sealed(
            cipher@,
            nonce@,
            data@,
        )),
        data@.len() > MAX_PLAINTEXT_LEN ==> r == Err::<Vec<u8>, TransferError>(
            TransferError::EncryptionFailed,
        ),
        r matches Ok(v) ==> v@.len() == NONCE_LEN + data@.len() + TAG_LEN,
        r matches Ok(v) ==> opened(cipher@, v@) == Ok::<Seq<u8>, TransferError>(data@),
{
    match aes256_gcm_encrypt(&cipher.key, nonce, data) {
        Ok(ciphertext) => {
            let result = prepend_nonce(nonce, &ciphertext);
            proof {
                let v = result@;
                assert(v.take(NONCE_LEN as int) == nonce@);
                assert(v.skip(NONCE_LEN as int) == ciphertext@);
            }
            Ok(result)
        },
        Err(_) => Err(TransferError::EncryptionFailed),
    }
}

/// The nonce followed by the encrypted bytes, as an encrypted chunk is laid out.
pub fn prepend_nonce(nonce: &[u8; 12], ciphertext: &[u8]) -> (r: Vec<u8>)
    ensures
        r@ == nonce@ + ciphertext@,
{
    let mut result: Vec<u8> = Vec::new();
    let mut i: usize = 0;
    while i < NONCE_LEN
        invariant
            i <= NONCE_LEN,
            result@ == nonce@.take(i as int),
        decreases NONCE_LEN - i,
    {
        result.push(nonce[i]);
        i = i + 1;
        assert(result@ == nonce@.take(i as int));
    }
    assert(nonce@.take(NONCE_LEN as int) == nonce@);
    let mut j: usize = 0;
    while j < ciphertext.len()
        invariant
            j <= ciphertext@.len(),
            result@ == nonce@ + ciphertext@.take(j as int),
        decreases ciphertext@.len() - j,
    {
        result.push(ciphertext[j]);
        j = j + 1;
        assert(result@ == nonce@ + ciphertext@.take(j as int));
    }
    assert(ciphertext@.take(ciphertext@.len() as int) == ciphertext@);
    result
}

/// Encrypts `data` under `cipher` with a fresh random nonce, which it puts in front.
/// It fails only where the cipher refuses the data (beyond 2^36 bytes); what it
/// returns decrypts back to `data`.
pub fn encrypt_data(data: &[u8], cipher: &Cipher) -> (r: Result<Vec<u8>, TransferError>)
    ensures
        r is Ok <==> data@.len() <= MAX_PLAINTEXT_LEN,
        r is Err ==> r == Err::<Vec<u8>, TransferError>(TransferError::EncryptionFailed),
        r matches Ok(v) ==> v@.len() == NONCE_LEN + data@.len() + TAG_LEN && v@ == sealed(
            cipher@,
            v@.take(NONCE_LEN as int),
            data@,
        ),
        r matches Ok(v) ==> opened(cipher@, v@) == Ok::<Seq<u8>, TransferError>(data@),
{
    let nonce = random_nonce();
    let r = encrypt_data_with_nonce(data, cipher, &nonce);
    proof {
        if r is Ok {
            assert(r->Ok_0@.take(NONCE_LEN as int) == nonce@);
        }
    }
    r
}

/// Splits `encrypted_data` into its 12-byte nonce and the rest, and decrypts the rest.
pub fn decrypt_data(encrypted_data: &[u8], cipher: &Cipher) -> (r: Result<Vec<u8>, TransferError>)
    ensures
        bytes_result(r) == opened(cipher@, encrypted_data@),
        r matches Ok(p) ==> p@.len() + NONCE_LEN + TAG_LEN == encrypted_data@.len(),
{
    if encrypted_data.len() < NONCE_LEN {
        return Err(TransferError::InvalidEncryptedLength);
    }
    let (nonce_bytes, ciphertext) = encrypted_data.split_at(NONCE_LEN);
    match aes256_gcm_decrypt(&cipher.key, nonce_bytes, ciphertext) {
        Ok(plain) => Ok(plain),
        Err(_) => Err(TransferError::DecryptionFailed),
    }
}

} // verus!
