use fastshare::crypto::{key_from_string, key_to_string, Cipher};
use fastshare::error::TransferError;
use fastshare::transfer::{
    open_payload, receive_plan, Announcement, receiver_cipher, resolve_file_info, sender_cipher, ChunkInfo,
    FileInfo, LegacyFileInfo, ReceivePlan, SendCursor, SingleStreamReceiver, CHUNK_SIZE,
};

fn info(streams: usize, encrypted: bool) -> FileInfo {
    FileInfo { name: "a.bin".to_string(), size: 10, streams, encrypted }
}

#[test]
fn current_announcement_is_preferred() {
    let legacy = LegacyFileInfo { name: "old".to_string(), size: 3 };
    assert_eq!(
        resolve_file_info(Some(info(4, true)), Some(legacy)),
        Ok(Announcement { info: info(4, true), legacy: false })
    );
}

#[test]
fn legacy_announcement_means_one_plain_stream() {
    let legacy = LegacyFileInfo { name: "old.txt".to_string(), size: 77 };
    assert_eq!(
        resolve_file_info(None, Some(legacy)),
        Ok(Announcement {
            info: FileInfo { name: "old.txt".to_string(), size: 77, streams: 1, encrypted: false },
            legacy: true,
        })
    );
}

#[test]
fn unreadable_announcement_is_refused() {
    assert_eq!(resolve_file_info(None, None), Err(TransferError::UnreadableFileInfo));
}

#[test]
fn plan_follows_the_stream_count() {
    let current = |streams| Announcement { info: info(streams, false), legacy: false };
    assert_eq!(receive_plan(&current(1)), ReceivePlan::Parallel { extra_connections: 0 });
    assert_eq!(receive_plan(&current(10)), ReceivePlan::Parallel { extra_connections: 9 });
    assert_eq!(receive_plan(&current(2)), ReceivePlan::Parallel { extra_connections: 1 });
    assert_eq!(receive_plan(&current(0)), ReceivePlan::Parallel { extra_connections: 0 });
}

#[test]
fn only_a_legacy_announcement_means_raw_single_stream() {
    let legacy = LegacyFileInfo { name: "old".to_string(), size: 5 };
    let a = resolve_file_info(None, Some(legacy)).unwrap();
    assert_eq!(receive_plan(&a), ReceivePlan::SingleStream);
    let one = resolve_file_info(Some(info(1, true)), None).unwrap();
    assert_eq!(receive_plan(&one), ReceivePlan::Parallel { extra_connections: 0 });
}

#[test]
fn sender_without_encryption_has_no_cipher() {
    assert!(matches!(sender_cipher(false, None), Ok(None)));
}

#[test]
fn sender_with_encryption_makes_a_key_and_shows_it() {
    let (cipher, text) = sender_cipher(true, None).unwrap().unwrap();
    assert_eq!(key_from_string(&text), Ok(cipher.key));
}

#[test]
fn sender_with_a_given_key_uses_it() {
    let key = [42u8; 32];
    let given = key_to_string(&key);
    let (cipher, text) = sender_cipher(false, Some(&given)).unwrap().unwrap();
    assert_eq!(cipher.key, key);
    assert_eq!(text, given);
}

#[test]
fn sender_with_a_bad_key_fails() {
    assert_eq!(sender_cipher(true, Some("AAAA")).err(), Some(TransferError::InvalidKeyLength));
    assert_eq!(sender_cipher(false, Some("%%")).err(), Some(TransferError::InvalidKeyEncoding));
}

#[test]
fn receiver_cipher_follows_the_announcement() {
    assert!(matches!(receiver_cipher(false, Some("whatever")), Ok(None)));
    assert_eq!(receiver_cipher(true, None).err(), Some(TransferError::MissingDecryptionKey));
    let text = key_to_string(&[8u8; 32]);
    assert_eq!(receiver_cipher(true, Some(&text)).unwrap().unwrap().key, [8u8; 32]);
    assert_eq!(receiver_cipher(true, Some("AAAA")).err(), Some(TransferError::InvalidKeyLength));
}

#[test]
fn cursor_reads_whole_chunks_then_the_rest() {
    let mut c = SendCursor::new(2, 100, 100 + CHUNK_SIZE as u64 + 5);
    assert_eq!(c.next_read_len(), CHUNK_SIZE);
    let first = vec![1u8; CHUNK_SIZE];
    let (header, payload) = c.package(&first, None);
    assert_eq!(header, ChunkInfo { stream_id: 2, offset: 100, size: CHUNK_SIZE });
    assert_eq!(payload, first);
    assert_eq!(c.offset(), 100 + CHUNK_SIZE as u64);
    assert_eq!(c.next_read_len(), 5);
    let (header, _) = c.package(&[2, 3], None);
    assert_eq!(header.offset, 100 + CHUNK_SIZE as u64);
    assert_eq!(c.next_read_len(), 3);
    assert!(!c.is_done());
    c.package(&[4, 5, 6], None);
    assert!(c.is_done());
    assert_eq!(c.next_read_len(), 0);
}

#[test]
fn cursor_starting_past_its_end_sends_nothing() {
    let c = SendCursor::new(1, 50, 40);
    assert!(c.is_done());
    assert_eq!(c.next_read_len(), 0);
    let e = SendCursor::new(0, 7, 7);
    assert!(e.is_done());
}

#[test]
fn encrypted_chunks_open_to_the_bytes_read() {
    let cipher = Cipher::new([9u8; 32]);
    let mut c = SendCursor::new(0, 0, 1000);
    let plain: Vec<u8> = (0..100u8).collect();
    let (header, payload) = c.package(&plain, Some(&cipher));
    assert_eq!(header.size, payload.len());
    assert_eq!(payload.len(), 12 + 100 + 16);
    assert_eq!(c.offset(), 100);
    assert_eq!(open_payload(payload, Some(&cipher)), Ok(plain.clone()));
    assert_eq!(open_payload(plain.clone(), None), Ok(plain));
}

#[test]
fn single_stream_receiver_counts_what_it_takes_in() {
    let mut r = SingleStreamReceiver::new(10);
    assert_eq!(r.next_read_len(), 10);
    assert_eq!(r.accept(&[1, 2, 3, 4], None), Ok(vec![1, 2, 3, 4]));
    assert_eq!(r.received_bytes(), 4);
    assert_eq!(r.next_read_len(), 6);
    assert_eq!(r.accept(&[5, 6, 7, 8, 9, 10], None), Ok(vec![5, 6, 7, 8, 9, 10]));
    assert!(r.is_done());
}

#[test]
fn single_stream_receiver_decrypts_each_read() {
    let cipher = Cipher::new([1u8; 32]);
    let sealed = fastshare::crypto::encrypt_data(&[7, 7, 7], &cipher).unwrap();
    let mut r = SingleStreamReceiver::new(1000);
    assert_eq!(r.accept(&sealed, Some(&cipher)), Ok(vec![7, 7, 7]));
    assert_eq!(r.received_bytes(), 3);
    assert_eq!(r.accept(&[1, 2, 3], Some(&cipher)), Err(TransferError::InvalidEncryptedLength));
    assert_eq!(r.received_bytes(), 3);
}
