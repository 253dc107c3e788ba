use fastshare::framing::{frame_length, frame_message};

#[test]
fn frame_starts_with_big_endian_length() {
    let payload: Vec<u8> = (0..300u32).map(|i| i as u8).collect();
    let f = frame_message(&payload);
    assert_eq!(&f[..4], &[0, 0, 1, 44]);
    assert_eq!(&f[4..], &payload[..]);
    assert_eq!(frame_length(&[f[0], f[1], f[2], f[3]]), 300);
}

#[test]
fn empty_message_frame() {
    assert_eq!(frame_message(&[]), vec![0, 0, 0, 0]);
    assert_eq!(frame_length(&[0, 0, 0, 0]), 0);
}

#[test]
fn header_is_what_a_big_endian_u32_writes() {
    for n in [1u32, 255, 256, 65535, 0x0102_0304, u32::MAX] {
        assert_eq!(frame_length(&n.to_be_bytes()), n);
    }
}
