//! Length-prefixed messages: a 4-byte big-endian length, then the message bytes.
use vstd::prelude::*;

verus! {

/// The 4 big-endian bytes of `n` (`n < 2^32`).
pub open spec fn be32_bytes(n: nat) -> Seq<u8> {
    seq![
        ((n / 0x100_0000) % 0x100) as u8,
        ((n / 0x1_0000) % 0x100) as u8,
        ((n / 0x100) % 0x100) as u8,
        (n % 0x100) as u8,
    ]
}

/// The number that 4 big-endian bytes stand for.
pub open spec fn be32_value(b: Seq<u8>) -> nat {
    (b[0] * 0x100_0000 + b[1] * 0x1_0000 + b[2] * 0x100 + b[3]) as nat
}

/// The frame of `payload`: its length, kept to 32 bits, then the payload.
pub open spec fn framed(payload: Seq<u8>) -> Seq<u8> {
    be32_bytes(payload.len() % 0x1_0000_0000) + payload
}

/// Frames `payload` for sending: its length as 4 big-endian bytes (only the low 32
/// bits of the length are kept), then the payload.
pub fn frame_message(payload: &[u8]) -> (f: Vec<u8>)
    ensures
        f@ == framed(payload@),
{
    let len = payload.len();
    let n: u32 = len as u32;
    let len64: u64 = len as u64;
    assert(n == len64 % 0x1_0000_0000) by (bit_vector)
        requires
            n == len as u32,
            len64 == len as u64,
    ;
    let mut f: Vec<u8> = Vec::new();
    f.push((n / 0x100_0000) as u8);
    f.push((n / 0x1_0000 % 0x100) as u8);
    f.push((n / 0x100 % 0x100) as u8);
    f.push((n % 0x100) as u8);
    assert(f@ == be32_bytes(n as nat));
    let mut i: usize = 0;
    while i < payload.len()
        invariant
            i <= payload@.len(),
            f@ == be32_bytes(n as nat) + payload@.take(i as int),
        decreases payload@.len() - i,
    {
        f.push(payload[i]);
        i = i + 1;
        assert(f@ == be32_bytes(n as nat) + payload@.take(i as int));
    }
    assert(payload@.take(payload@.len() as int) == payload@);
    f
}

/// The message length that a frame's 4-byte header announces.
pub fn frame_length(header: &[u8; 4]) -> (n: u32)
    ensures
        n == be32_value(header@),
{
    let n = header[0] as u32 * 0x100_0000 + header[1] as u32 * 0x1_0000 + header[2] as u32 * 0x100
        + header[3] as u32;
    n
}

/// A frame's header announces the length of the message it was made from (for
/// messages shorter than 4 GiB), and the message follows it unchanged.
pub proof fn lemma_frame_roundtrip(payload: Seq<u8>)
    requires
        payload.len() <= u32::MAX,
    ensures
        framed(payload).len() == 4 + payload.len(),
        be32_value(framed(payload).take(4)) == payload.len(),
        framed(payload).skip(4) == payload,
{
    let n = payload.len();
    let f = framed(payload);
    assert(f.take(4) == be32_bytes(n));
    assert(f.skip(4) =~= payload);
    assert(be32_value(be32_bytes(n)) == n) by (nonlinear_arith)
        requires
            n <= 0xffff_ffff,
            be32_value(be32_bytes(n)) == ((n / 0x100_0000) % 0x100) * 0x100_0000 + ((n / 0x1_0000)
                % 0x100) * 0x1_0000 + ((n / 0x100) % 0x100) * 0x100 + n % 0x100,
    ;
}

} // verus!
