//! How a file is split between parallel streams.
use vstd::prelude::*;

verus! {

/// First byte of the part of a `file_size`-byte file that stream `stream_id` of
/// `num_streams` sends: every stream gets `file_size / num_streams` bytes.
pub open spec fn range_start(stream_id: nat, num_streams: nat, file_size: nat) -> nat {
    stream_id * (file_size / num_streams)
}

/// One past the last byte of stream `stream_id`'s part: the last stream also takes
/// the remainder of the division.
pub open spec fn range_end(stream_id: nat, num_streams: nat, file_size: nat) -> nat {
    if stream_id + 1 == num_streams {
        file_size
    } else {
        (stream_id + 1) * (file_size / num_streams)
    }
}

/// Byte `offset` of the file lies in the range of some stream.
pub open spec fn is_covered(num_streams: nat, file_size: nat, offset: nat) -> bool {
    exists|i: nat|
        i < num_streams && #[trigger] range_start(i, num_streams, file_size) <= offset < range_end(
            i,
            num_streams,
            file_size,
        )
}

/// The half-open byte range `[start, end)` of the file that one stream sends.
#[derive(Debug, Clone, Copy, PartialEq, Eq, Structural)]
pub struct StreamRange {
    pub stream_id: usize,
    pub start: u64,
    pub end: u64,
}

proof fn lemma_share_bounds(i: nat, n: nat, size: nat)
    requires
        0 < n,
        i <= n,
    ensures
        i * (size / n) <= n * (size / n),
        n * (size / n) <= size,
        i * (size / n) <= size,
{
    assert(i * (size / n) <= n * (size / n)) by (nonlinear_arith)
        requires
            i <= n,
    ;
    assert(n * (size / n) <= size) by (nonlinear_arith)
        requires
            0 < n,
    ;
}

/// The range of the file that stream `stream_id` of `num_streams` sends.
pub fn stream_range(stream_id: usize, num_streams: usize, file_size: u64) -> (r: StreamRange)
    requires
        0 < num_streams,
        stream_id < num_streams,
    ensures
        r.stream_id == stream_id,
        r.start == range_start(stream_id as nat, num_streams as nat, file_size as nat),
        r.end == range_end(stream_id as nat, num_streams as nat, file_size as nat),
{
    let n = num_streams as u64;
    let per = file_size / n;
    proof {
        lemma_share_bounds(stream_id as nat, num_streams as nat, file_size as nat);
        lemma_share_bounds((stream_id + 1) as nat, num_streams as nat, file_size as nat);
    }
    let start = stream_id as u64 * per;
    let end = if stream_id == num_streams - 1 {
        file_size
    } else {
        (stream_id as u64 + 1) * per
    };
    StreamRange { stream_id, start, end }
}

/// The ranges of all `num_streams` streams, in stream order.
pub fn stream_ranges(num_streams: usize, file_size: u64) -> (v: Vec<StreamRange>)
    requires
        0 < num_streams,
    ensures
        v.len() == num_streams,
        forall|i: int|
            #![trigger v[i]]
            0 <= i < num_streams ==> v[i].stream_id == i && v[i].start == range_start(
                i as nat,
                num_streams as nat,
                file_size as nat,
            ) && v[i].end == range_end(i as nat, num_streams as nat, file_size as nat),
{
    let mut v: Vec<StreamRange> = Vec::new();
    let mut i: usize = 0;
    while i < num_streams
        invariant
            0 < num_streams,
            i <= num_streams,
            v.len() == i,
            forall|j: int|
                #![trigger v[j]]
                0 <= j < i ==> v[j].stream_id == j && v[j].start == range_start(
                    j as nat,
                    num_streams as nat,
                    file_size as nat,
                ) && v[j].end == range_end(j as nat, num_streams as nat, file_size as nat),
        decreases num_streams - i,
    {
        let r = stream_range(i, num_streams, file_size);
        v.push(r);
        i = i + 1;
    }
    v
}

/// The streams' ranges partition the file: the first starts at byte 0, the last ends
/// at the file's end, each ends where the next one starts, none runs backwards, and
/// every byte of the file lies in exactly one of them.
pub proof fn lemma_stream_ranges_partition(num_streams: nat, file_size: nat)
    requires
        0 < num_streams,
    ensures
        range_start(0, num_streams, file_size) == 0,
        range_end((num_streams - 1) as nat, num_streams, file_size) == file_size,
        forall|i: nat|
            i + 1 < num_streams ==> #[trigger] range_end(i, num_streams, file_size) == range_start(
                i + 1,
                num_streams,
                file_size,
            ),
        forall|i: nat|
            i < num_streams ==> #[trigger] range_start(i, num_streams, file_size) <= range_end(
                i,
                num_streams,
                file_size,
            ) <= file_size,
        forall|o: nat| o < file_size ==> #[trigger] is_covered(num_streams, file_size, o),
        forall|i: nat, j: nat|
            i < j < num_streams ==> #[trigger] range_end(i, num_streams, file_size)
                <= #[trigger] range_start(j, num_streams, file_size),
{
    let n = num_streams;
    let per = file_size / n;
    assert(0 * per == 0) by (nonlinear_arith);
    assert forall|i: nat| i < n implies #[trigger] range_start(i, n, file_size) <= range_end(
        i,
        n,
        file_size,
    ) <= file_size by {
        lemma_share_bounds(i, n, file_size);
        lemma_share_bounds(i + 1, n, file_size);
        assert(i * per <= (i + 1) * per) by (nonlinear_arith);
    }
    assert forall|i: nat, j: nat| i < j < n implies #[trigger] range_end(i, n, file_size)
        <= #[trigger] range_start(j, n, file_size) by {
        assert((i + 1) * per <= j * per) by (nonlinear_arith)
            requires
                i < j,
        ;
    }
    assert forall|o: nat| o < file_size implies #[trigger] is_covered(n, file_size, o) by {
        let q = o / per;
        if per == 0 || q >= n - 1 {
            let i = (n - 1) as nat;
            if per == 0 {
                assert(i * per == 0) by (nonlinear_arith)
                    requires
                        per == 0,
                ;
            } else {
                assert(i * per <= o) by (nonlinear_arith)
                    requires
                        per > 0,
                        q == o / per,
                        i <= q,
                ;
            }
            assert(range_start(i, n, file_size) <= o < range_end(i, n, file_size));
        } else {
            let i = q;
            assert(i * per <= o < (i + 1) * per) by (nonlinear_arith)
                requires
                    per > 0,
                    i == o / per,
            ;
            assert(range_start(i, n, file_size) <= o < range_end(i, n, file_size));
        }
    }
}

} // verus!
