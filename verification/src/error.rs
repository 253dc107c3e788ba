//! Why an operation of the library was refused.
use vstd::prelude::*;

verus! {

/// The errors of the transfer logic.
#[derive(Debug, PartialEq, Eq)]
pub enum TransferError {
    /// A key text is not valid standard base64.
    InvalidKeyEncoding,
    /// A key does not decode to exactly 32 bytes.
    InvalidKeyLength,
    /// The cipher refused to encrypt the data.
    EncryptionFailed,
    /// Encrypted data is too short to hold a nonce.
    InvalidEncryptedLength,
    /// Encrypted data does not authenticate under the key.
    DecryptionFailed,
    /// The file is encrypted but the receiver has no key.
    MissingDecryptionKey,
    /// The file description matches neither the current nor the legacy layout.
    UnreadableFileInfo,
    /// A receiver asked the relay for a session that does not exist.
    SessionNotFound(String),
    /// A relay client opened with a message type the relay does not know.
    UnknownMessageType(String),
    /// No receiver joined a relay session in time.
    ReceiverTimeout,
}

} // verus!
