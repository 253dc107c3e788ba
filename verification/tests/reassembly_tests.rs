use fastshare::reassembly::Reassembler;

fn drain(r: &mut Reassembler) -> Vec<u8> {
    let mut out = Vec::new();
    while !r.is_complete() {
        match r.take_next() {
            Some(d) => out.extend_from_slice(&d),
            None => break,
        }
    }
    out
}

#[test]
fn chunks_out_of_order_come_out_in_file_order() {
    let mut r = Reassembler::new(10);
    r.store(6, vec![6, 7, 8, 9]);
    r.store(3, vec![3, 4, 5]);
    assert_eq!(r.take_next(), None);
    r.store(0, vec![0, 1, 2]);
    assert_eq!(drain(&mut r), (0..10).collect::<Vec<u8>>());
    assert!(r.is_complete());
}

#[test]
fn nothing_is_handed_out_before_the_next_chunk_arrives() {
    let mut r = Reassembler::new(4);
    r.store(2, vec![2, 3]);
    assert_eq!(r.take_next(), None);
    assert!(!r.is_complete());
    r.store(0, vec![0, 1]);
    assert_eq!(r.take_next(), Some(vec![0, 1]));
    assert_eq!(r.take_next(), Some(vec![2, 3]));
    assert!(r.is_complete());
}

#[test]
fn a_later_chunk_at_the_same_offset_replaces_the_earlier() {
    let mut r = Reassembler::new(2);
    r.store(0, vec![9, 9]);
    r.store(0, vec![1, 2]);
    assert_eq!(r.take_next(), Some(vec![1, 2]));
}

#[test]
fn empty_file_is_complete_at_once() {
    let r = Reassembler::new(0);
    assert!(r.is_complete());
}

#[test]
fn many_chunks_in_reverse_order() {
    let file: Vec<u8> = (0..5000u32).map(|i| (i % 251) as u8).collect();
    let mut r = Reassembler::new(file.len() as u64);
    let mut offsets: Vec<usize> = (0..file.len()).step_by(97).collect();
    offsets.reverse();
    for o in offsets {
        let end = (o + 97).min(file.len());
        r.store(o as u64, file[o..end].to_vec());
    }
    assert_eq!(drain(&mut r), file);
}

#[test]
fn chunks_are_kept_at_any_offset() {
    let mut r = Reassembler::new(3);
    r.store(u64::MAX, vec![1, 2, 3]);
    r.store(u64::MAX - 1, vec![4, 5, 6]);
    r.store(0, vec![7, 8]);
    assert_eq!(r.take_next(), Some(vec![7, 8]));
    assert!(!r.is_complete());
    assert_eq!(r.take_next(), None);
}
