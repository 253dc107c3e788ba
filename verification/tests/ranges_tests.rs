use fastshare::ranges::{stream_range, stream_ranges, StreamRange};

#[test]
fn even_split_between_streams() {
    let v = stream_ranges(4, 100);
    assert_eq!(
        v,
        vec![
            StreamRange { stream_id: 0, start: 0, end: 25 },
            StreamRange { stream_id: 1, start: 25, end: 50 },
            StreamRange { stream_id: 2, start: 50, end: 75 },
            StreamRange { stream_id: 3, start: 75, end: 100 },
        ]
    );
}

#[test]
fn last_stream_takes_the_remainder() {
    let v = stream_ranges(3, 10);
    assert_eq!(v[0], StreamRange { stream_id: 0, start: 0, end: 3 });
    assert_eq!(v[1], StreamRange { stream_id: 1, start: 3, end: 6 });
    assert_eq!(v[2], StreamRange { stream_id: 2, start: 6, end: 10 });
}

#[test]
fn more_streams_than_bytes() {
    let v = stream_ranges(10, 3);
    for r in &v[..9] {
        assert_eq!(r.start, 0);
        assert_eq!(r.end, 0);
    }
    assert_eq!(v[9], StreamRange { stream_id: 9, start: 0, end: 3 });
}

#[test]
fn single_stream_sends_everything() {
    assert_eq!(stream_range(0, 1, 12345), StreamRange { stream_id: 0, start: 0, end: 12345 });
}

#[test]
fn ranges_partition_the_file() {
    for n in 1..20usize {
        for size in [0u64, 1, 7, 64, 1000, 65537, u64::MAX] {
            let v = stream_ranges(n, size);
            assert_eq!(v.len(), n);
            assert_eq!(v[0].start, 0);
            assert_eq!(v[n - 1].end, size);
            for i in 0..n - 1 {
                assert_eq!(v[i].end, v[i + 1].start);
            }
        }
    }
}
