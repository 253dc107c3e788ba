use fastshare::crypto::{
    decrypt_data, encrypt_data, encrypt_data_with_nonce, generate_key, key_from_bytes,
    key_from_string, key_to_string, Cipher,
};
use fastshare::error::TransferError;

#[test]
fn key_text_reads_back_to_the_key() {
    let key: [u8; 32] = core::array::from_fn(|i| (i * 7 + 3) as u8);
    let text = key_to_string(&key);
    assert_eq!(key_from_string(&text), Ok(key));
    let random = generate_key();
    assert_eq!(key_from_string(&key_to_string(&random)), Ok(random));
}

#[test]
fn key_text_is_standard_base64() {
    assert_eq!(key_to_string(&[0u8; 32]), "AAAAAAAAAAAAAAAAAAAAAAAAAAAAAAAAAAAAAAAAAAA=");
    assert_eq!(key_from_string("AAAAAAAAAAAAAAAAAAAAAAAAAAAAAAAAAAAAAAAAAAA="), Ok([0u8; 32]));
}

#[test]
fn key_text_must_be_base64() {
    assert_eq!(key_from_string("not base64!"), Err(TransferError::InvalidKeyEncoding));
}

#[test]
fn key_must_have_32_bytes() {
    // "AAAA" decodes to 3 bytes.
    assert_eq!(key_from_string("AAAA"), Err(TransferError::InvalidKeyLength));
    assert_eq!(key_from_bytes(&[1u8; 31]), Err(TransferError::InvalidKeyLength));
    assert_eq!(key_from_bytes(&[1u8; 33]), Err(TransferError::InvalidKeyLength));
    assert_eq!(key_from_bytes(&[9u8; 32]), Ok([9u8; 32]));
}

#[test]
fn encrypted_data_decrypts_back() {
    let cipher = Cipher::new([5u8; 32]);
    let data = b"hello, parallel world".to_vec();
    let sealed = encrypt_data(&data, &cipher).unwrap();
    assert_eq!(sealed.len(), 12 + data.len() + 16);
    assert_ne!(&sealed[12..12 + data.len()], &data[..]);
    assert_eq!(decrypt_data(&sealed, &cipher), Ok(data));
}

#[test]
fn empty_data_encrypts_to_nonce_and_tag() {
    let cipher = Cipher::new([1u8; 32]);
    let sealed = encrypt_data(&[], &cipher).unwrap();
    assert_eq!(sealed.len(), 28);
    assert_eq!(decrypt_data(&sealed, &cipher), Ok(vec![]));
}

#[test]
fn nonce_is_put_in_front() {
    let cipher = Cipher::new([2u8; 32]);
    let nonce = [7u8; 12];
    let sealed = encrypt_data_with_nonce(b"abc", &cipher, &nonce).unwrap();
    assert_eq!(&sealed[..12], &nonce[..]);
    assert_eq!(sealed, encrypt_data_with_nonce(b"abc", &cipher, &nonce).unwrap());
    assert_eq!(decrypt_data(&sealed, &cipher), Ok(b"abc".to_vec()));
}

#[test]
fn known_answer_of_the_cipher() {
    // AES-256-GCM with an all-zero key and nonce on an empty message gives this tag.
    let cipher = Cipher::new([0u8; 32]);
    let sealed = encrypt_data_with_nonce(&[], &cipher, &[0u8; 12]).unwrap();
    let tag: Vec<u8> = vec![
        0x53, 0x0f, 0x8a, 0xfb, 0xc7, 0x45, 0x36, 0xb9, 0xa9, 0x63, 0xb4, 0xf1, 0xc4, 0xcb, 0x73,
        0x8b,
    ];
    assert_eq!(&sealed[12..], &tag[..]);
}

#[test]
fn short_encrypted_data_is_refused() {
    let cipher = Cipher::new([3u8; 32]);
    assert_eq!(decrypt_data(&[0u8; 11], &cipher), Err(TransferError::InvalidEncryptedLength));
    assert_eq!(decrypt_data(&[0u8; 20], &cipher), Err(TransferError::DecryptionFailed));
}

#[test]
fn tampered_or_foreign_data_is_refused() {
    let cipher = Cipher::new([4u8; 32]);
    let mut sealed = encrypt_data(b"secret", &cipher).unwrap();
    let other = Cipher::new([6u8; 32]);
    assert_eq!(decrypt_data(&sealed, &other), Err(TransferError::DecryptionFailed));
    let last = sealed.len() - 1;
    sealed[last] ^= 1;
    assert_eq!(decrypt_data(&sealed, &cipher), Err(TransferError::DecryptionFailed));
}

#[test]
fn nonce_goes_before_the_encrypted_bytes() {
    let v = fastshare::crypto::prepend_nonce(&[1u8; 12], &[9, 8, 7]);
    assert_eq!(v, vec![1, 1, 1, 1, 1, 1, 1, 1, 1, 1, 1, 1, 9, 8, 7]);
}
