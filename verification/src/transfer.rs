//! The steps of a transfer: what the sender announces and sends per chunk, and how
//! the receiver takes it in.
use vstd::prelude::*;
use crate::crypto::{
    Cipher, bytes_result, encrypt_data, decrypt_data, generate_key, key_from_string,
    key_from_text, key_to_string, opened, sealed, base64_standard_encode, NONCE_LEN, TAG_LEN,
    MAX_PLAINTEXT_LEN,
};
use crate::error::TransferError;
use crate::reassembly::chunk_agrees;
use vstd::slice::slice_to_vec;

verus! {

/// Most bytes read from the file, or from the connection, at a time (64 KiB).
pub const CHUNK_SIZE: usize = 65536;

/// What the sender announces about the file before sending it.
#[derive(Debug, PartialEq, Eq)]
pub struct FileInfo {
    pub name: String,
    pub size: u64,
    pub streams: usize,
    pub encrypted: bool,
}

/// The announcement of senders that know only a single stream.
#[derive(Debug, PartialEq, Eq)]
pub struct LegacyFileInfo {
    pub name: String,
    pub size: u64,
}

/// The header in front of every chunk: which stream sent it, where in the file it
/// belongs, and how many bytes (possibly encrypted) follow.
#[derive(Debug, Clone, Copy, PartialEq, Eq, Structural)]
pub struct ChunkInfo {
    pub stream_id: usize,
    pub offset: u64,
    pub size: usize,
}

/// How many bytes to read next when `remaining` bytes are left.
pub open spec fn read_window(remaining: nat) -> nat {
    if remaining < CHUNK_SIZE {
        remaining
    } else {
        CHUNK_SIZE as nat
    }
}

/// A read window is the smaller of what remains and a chunk: never more than either,
/// and equal to one of them, so it is positive while anything remains.
pub proof fn lemma_read_window_is_min(remaining: nat)
    ensures
        read_window(remaining) <= remaining,
        read_window(remaining) <= CHUNK_SIZE,
        read_window(remaining) == remaining || read_window(remaining) == CHUNK_SIZE,
        remaining > 0 ==> read_window(remaining) > 0,
{
}

fn window(position: u64, end: u64) -> (n: usize)
    requires
        position <= end,
    ensures
        n == read_window((end - position) as nat),
        n <= end - position,
        n <= CHUNK_SIZE,
        n == end - position || n == CHUNK_SIZE,
{
    let remaining = end - position;
    if remaining < CHUNK_SIZE as u64 {
        remaining as usize
    } else {
        CHUNK_SIZE
    }
}

/// A file announcement as received, and whether it came in the legacy layout.
#[derive(Debug, PartialEq, Eq)]
pub struct Announcement {
    pub info: FileInfo,
    pub legacy: bool,
}

/// The announcement as a receiver reads it: in the current layout if it parses so,
/// else in the legacy layout, which means a single unencrypted stream of raw bytes.
pub open spec fn resolved_file_info(
    current: Option<FileInfo>,
    legacy: Option<LegacyFileInfo>,
) -> Result<Announcement, TransferError> {
    match current {
        Some(info) => Ok(Announcement { info, legacy: false }),
        None => match legacy {
            Some(l) => Ok(
                Announcement {
                    info: FileInfo { name: l.name, size: l.size, streams: 1, encrypted: false },
                    legacy: true,
                },
            ),
            None => Err(TransferError::UnreadableFileInfo),
        },
    }
}

/// Chooses the announcement from what the received bytes parse to in the current
/// layout and in the legacy one, keeping note of which layout it was.
pub fn resolve_file_info(current: Option<FileInfo>, legacy: Option<LegacyFileInfo>) -> (r: Result<
    Announcement,
    TransferError,
>)
    ensures
        r == resolved_file_info(current, legacy),
        current matches Some(info) ==> r == Ok::<Announcement, TransferError>(
            Announcement { info, legacy: false },
        ),
        current is None ==> (legacy matches Some(l) ==> r == Ok::<Announcement, TransferError>(
            Announcement {
                info: FileInfo { name: l.name, size: l.size, streams: 1, encrypted: false },
                legacy: true,
            },
        )),
        current is None && legacy is None ==> r == Err::<Announcement, TransferError>(
            TransferError::UnreadableFileInfo,
        ),
{
    match current {
        Some(info) => Ok(Announcement { info, legacy: false }),
        None => match legacy {
            Some(l) => Ok(
                Announcement {
                    info: FileInfo { name: l.name, size: l.size, streams: 1, encrypted: false },
                    legacy: true,
                },
            ),
            None => Err(TransferError::UnreadableFileInfo),
        },
    }
}

/// An announcement that parses in the current layout is taken as it is and never as
/// legacy; only when it does not is the legacy layout used, as one unencrypted stream.
pub proof fn lemma_current_layout_wins(
    info: FileInfo,
    current: Option<FileInfo>,
    legacy: Option<LegacyFileInfo>,
)
    ensures
        resolved_file_info(Some(info), legacy) == Ok::<Announcement, TransferError>(
            Announcement { info, legacy: false },
        ),
        current is None ==> (legacy matches Some(l) ==> resolved_file_info(current, legacy)
            == Ok::<Announcement, TransferError>(
            Announcement {
                info: FileInfo { name: l.name, size: l.size, streams: 1, encrypted: false },
                legacy: true,
            },
        )),
        resolved_file_info(None, None) == Err::<Announcement, TransferError>(
            TransferError::UnreadableFileInfo,
        ),
{
}

/// How a receiver takes in the file.
#[derive(Debug, Clone, Copy, PartialEq, Eq, Structural)]
pub enum ReceivePlan {
    /// The data follows on the first connection as raw bytes (legacy senders).
    SingleStream,
    /// Framed chunks come on the first connection and on this many more.
    Parallel { extra_connections: usize },
}

/// The plan for a file announced with `announcement`: a legacy announcement means
/// raw bytes on the one connection; a current one means framed chunks on the first
/// connection and on one more connection for every stream after the first.
pub fn receive_plan(announcement: &Announcement) -> (p: ReceivePlan)
    ensures
        announcement.legacy ==> p == ReceivePlan::SingleStream,
        !announcement.legacy ==> p == (ReceivePlan::Parallel {
            extra_connections: if announcement.info.streams == 0 {
                0
            } else {
                (announcement.info.streams - 1) as usize
            },
        }),
{
    if announcement.legacy {
        ReceivePlan::SingleStream
    } else if announcement.info.streams == 0 {
        ReceivePlan::Parallel { extra_connections: 0 }
    } else {
        ReceivePlan::Parallel { extra_connections: announcement.info.streams - 1 }
    }
}

/// The sender's cipher and the text of its key: present when encryption is asked
/// for or a key is given. A given key is read from its text; otherwise a fresh random
/// key is made. The text is the key's base64 form and reads back to the key.
pub fn sender_cipher(encrypt: bool, key: Option<&str>) -> (r: Result<
    Option<(Cipher, String)>,
    TransferError,
>)
    ensures
        !encrypt && key is None ==> r == Ok::<Option<(Cipher, String)>, TransferError>(None),
        key matches Some(text) ==> match key_from_text(text@) {
            Ok(k) => r matches Ok(Some((c, t))) && c@ == k,
            Err(e) => r == Err::<Option<(Cipher, String)>, TransferError>(e),
        },
        encrypt && key is None ==> r matches Ok(Some(_)),
        r matches Ok(Some((c, t))) ==> t@ == base64_standard_encode(c@) && key_from_text(t@)
            == Ok::<Seq<u8>, TransferError>(c@),
{
    if encrypt || key.is_some() {
        let encryption_key = match key {
            Some(text) => match key_from_string(text) {
                Ok(k) => k,
                Err(e) => {
                    return Err(e);
                },
            },
            None => generate_key(),
        };
        let key_b64 = key_to_string(&encryption_key);
        Ok(Some((Cipher::new(encryption_key), key_b64)))
    } else {
        Ok(None)
    }
}

/// The receiver's cipher: none for an unencrypted file; for an encrypted one, the
/// key read from the given text, which must be present.
pub fn receiver_cipher(encrypted: bool, key: Option<&str>) -> (r: Result<
    Option<Cipher>,
    TransferError,
>)
    ensures
        !encrypted ==> r == Ok::<Option<Cipher>, TransferError>(None),
        encrypted && key is None ==> r == Err::<Option<Cipher>, TransferError>(
            TransferError::MissingDecryptionKey,
        ),
        encrypted ==> (key matches Some(text) ==> match key_from_text(text@) {
            Ok(k) => r matches Ok(Some(c)) && c@ == k,
            Err(e) => r == Err::<Option<Cipher>, TransferError>(e),
        }),
{
    if encrypted {
        match key {
            Some(text) => match key_from_string(text) {
                Ok(k) => Ok(Some(Cipher::new(k))),
                Err(e) => Err(e),
            },
            None => Err(TransferError::MissingDecryptionKey),
        }
    } else {
        Ok(None)
    }
}

/// What a chunk's payload holds once received: the bytes themselves, or, under a
/// cipher, what they decrypt to.
pub open spec fn opened_payload(cipher: Option<Cipher>, payload: Seq<u8>) -> Result<
    Seq<u8>,
    TransferError,
> {
    match cipher {
        None => Ok(payload),
        Some(c) => opened(c@, payload),
    }
}

/// The data of a received chunk payload, decrypted when there is a cipher.
pub fn open_payload(payload: Vec<u8>, cipher: Option<&Cipher>) -> (r: Result<Vec<u8>, TransferError>)
    ensures
        bytes_result(r) == opened_payload(
            match cipher {
                Some(c) => Some(*c),
                None => None,
            },
            payload@,
        ),
        r matches Ok(d) ==> d@.len() <= payload@.len(),
{
    match cipher {
        Some(c) => decrypt_data(payload.as_slice(), c),
        None => Ok(payload),
    }
}

/// Where one stream of the sender is in its range of the file.
pub struct SendCursor {
    stream_id: usize,
    offset: u64,
    end: u64,
}

impl SendCursor {
    /// The stream this cursor sends for.
    pub closed spec fn stream(&self) -> nat {
        self.stream_id as nat
    }

    /// The offset of the next byte to send.
    pub closed spec fn position(&self) -> nat {
        self.offset as nat
    }

    /// One past the last byte of the stream's range.
    pub closed spec fn end(&self) -> nat {
        self.end as nat
    }

    /// How many bytes the cursor reads next: a chunk's worth, or what is left of its
    /// range; nothing once it is at or past the range's end.
    pub open spec fn window_left(&self) -> nat {
        if self.position() < self.end() {
            read_window((self.end() - self.position()) as nat)
        } else {
            0
        }
    }

    /// While bytes of the range remain, a cursor reads the smaller of a chunk and what
    /// remains, which is at least one byte; after that it reads nothing.
    pub proof fn lemma_window_left(&self)
        ensures
            self.position() < self.end() ==> 0 < self.window_left() <= CHUNK_SIZE,
            self.position() < self.end() ==> self.window_left() <= self.end() - self.position(),
            self.position() < self.end() ==> (self.window_left() == CHUNK_SIZE
                || self.window_left() == self.end() - self.position()),
            self.position() >= self.end() ==> self.window_left() == 0,
    {
    }

    /// A cursor at the start of stream `stream_id`'s range `[start, end)`; a start at
    /// or past the end leaves nothing to send.
    pub fn new(stream_id: usize, start: u64, end: u64) -> (c: SendCursor)
        ensures
            c.stream() == stream_id,
            c.position() == start,
            c.end() == end,
    {
        SendCursor { stream_id, offset: start, end }
    }

    /// The offset of the next byte to send.
    pub fn offset(&self) -> (o: u64)
        ensures
            o == self.position(),
    {
        self.offset
    }

    /// The whole range has been sent.
    pub fn is_done(&self) -> (b: bool)
        ensures
            b == (self.position() >= self.end()),
    {
        self.offset >= self.end
    }

    /// How many bytes to read from the file next: a chunk's worth, or what is left;
    /// none once the range has been sent.
    pub fn next_read_len(&self) -> (n: usize)
        ensures
            n == self.window_left(),
            self.position() < self.end() ==> 0 < n && n <= CHUNK_SIZE && n <= self.end()
                - self.position() && (n == CHUNK_SIZE || n == self.end() - self.position()),
            self.position() >= self.end() ==> n == 0,
    {
        if self.offset < self.end {
            window(self.offset, self.end)
        } else {
            0
        }
    }

    /// Makes the chunk of the `plain` bytes just read at the cursor: its header and its
    /// payload, the bytes themselves or, under a cipher, their encryption with a fresh
    /// nonce. The cursor moves past the bytes, and never past the end of its range.
    pub fn package(&mut self, plain: &[u8], cipher: Option<&Cipher>) -> (r: (ChunkInfo, Vec<u8>))
        requires
            plain@.len() <= old(self).window_left(),
        ensures
            old(self).position() <= old(self).end() ==> final(self).position() <= final(self).end(),
            final(self).stream() == old(self).stream(),
            final(self).end() == old(self).end(),
            final(self).position() == old(self).position() + plain@.len(),
            r.0.stream_id == old(self).stream(),
            r.0.offset == old(self).position(),
            r.0.size == r.1@.len(),
            cipher is None ==> r.1@ == plain@,
            cipher is Some ==> r.1@.len() == NONCE_LEN + plain@.len() + TAG_LEN,
            cipher matches Some(c) ==> r.1@ == sealed(
                c@,
                r.1@.take(NONCE_LEN as int),
                plain@,
            ),
            opened_payload(
                match cipher {
                    Some(c) => Some(*c),
                    None => None,
                },
                r.1@,
            ) == Ok::<Seq<u8>, TransferError>(plain@),
    {
        let payload = match cipher {
            Some(c) => match encrypt_data(plain, c) {
                Ok(v) => v,
                Err(_) => {
                    assert(plain@.len() <= MAX_PLAINTEXT_LEN);
                    Vec::new()
                },
            },
            None => slice_to_vec(plain),
        };
        let info = ChunkInfo { stream_id: self.stream_id, offset: self.offset, size: payload.len() };
        self.offset = self.offset + plain.len() as u64;
        (info, payload)
    }
}

/// A chunk that a sender's cursor made from a file's bytes at its position, opened by
/// the receiver under the same cipher, holds exactly the file's bytes at the offset
/// its header names. Storing it therefore keeps the receiver's buffer in agreement
/// with the file (`Reassembler::store`), and once the buffer is complete it has handed
/// out the whole file (`lemma_complete_reassembly_is_file`).
pub proof fn lemma_received_chunk_agrees(
    file: Seq<u8>,
    header: ChunkInfo,
    plain: Seq<u8>,
    payload: Seq<u8>,
    cipher: Option<Cipher>,
    received: Seq<u8>,
)
    requires
        header.offset + plain.len() <= file.len(),
        plain == file.subrange(header.offset as int, header.offset + plain.len()),
        opened_payload(cipher, payload) == Ok::<Seq<u8>, TransferError>(plain),
        opened_payload(cipher, payload) == Ok::<Seq<u8>, TransferError>(received),
    ensures
        chunk_agrees(file, header.offset as nat, received),
{
}

/// How much of a file a single-stream receiver has taken in.
pub struct SingleStreamReceiver {
    received: u64,
    size: u64,
}

impl SingleStreamReceiver {
    /// The bytes counted as received so far.
    pub closed spec fn received(&self) -> nat {
        self.received as nat
    }

    /// The announced size of the file.
    pub closed spec fn size(&self) -> nat {
        self.size as nat
    }

    /// Nothing received yet of a file of `size` bytes.
    pub fn new(size: u64) -> (r: SingleStreamReceiver)
        ensures
            r.received() == 0,
            r.size() == size,
    {
        SingleStreamReceiver { received: 0, size }
    }

    /// The bytes counted as received so far.
    pub fn received_bytes(&self) -> (n: u64)
        ensures
            n == self.received(),
    {
        self.received
    }

    /// The announced size has been reached.
    pub fn is_done(&self) -> (b: bool)
        ensures
            b == (self.received() >= self.size()),
    {
        self.received >= self.size
    }

    /// How many bytes to read from the connection next: a chunk's worth, or what is
    /// left of the announced size.
    pub fn next_read_len(&self) -> (n: usize)
        requires
            self.received() < self.size(),
        ensures
            n == read_window((self.size() - self.received()) as nat),
            0 < n <= CHUNK_SIZE,
            n <= self.size() - self.received(),
            n == CHUNK_SIZE || n == self.size() - self.received(),
    {
        window(self.received, self.size)
    }

    /// Takes in the `raw` bytes just read: under a cipher they are decrypted as one
    /// encrypted piece. What comes out is counted as received.
    pub fn accept(&mut self, raw: &[u8], cipher: Option<&Cipher>) -> (r: Result<Vec<u8>, TransferError>)
        requires
            old(self).received() < old(self).size(),
            raw@.len() <= read_window((old(self).size() - old(self).received()) as nat),
        ensures
            final(self).size() == old(self).size(),
            bytes_result(r) == opened_payload(
                match cipher {
                    Some(c) => Some(*c),
                    None => None,
                },
                raw@,
            ),
            r matches Ok(d) ==> final(self).received() == old(self).received() + d@.len(),
            r is Err ==> final(self).received() == old(self).received(),
    {
        let r = open_payload(slice_to_vec(raw), cipher);
        match r {
            Ok(d) => {
                self.received = self.received + d.len() as u64;
                Ok(d)
            },
            Err(e) => Err(e),
        }
    }
}

} // verus!
