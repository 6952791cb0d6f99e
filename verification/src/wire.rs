//! Big-endian integers and byte copying, as used by every frame of the protocol.
use vstd::prelude::*;

verus! {

/// The two bytes of `n` in network (big-endian) order.
pub open spec fn be_u16_bytes(n: u16) -> Seq<u8> {
    seq![(n / 0x100) as u8, (n % 0x100) as u8]
}

/// The four bytes of `n` in network (big-endian) order.
pub open spec fn be_u32_bytes(n: u32) -> Seq<u8> {
    seq![
        (n / 0x1000000) as u8,
        ((n / 0x10000) % 0x100) as u8,
        ((n / 0x100) % 0x100) as u8,
        (n % 0x100) as u8,
    ]
}

/// The number that the first two bytes of `b` denote in network order.
pub open spec fn be_u16_value(b: Seq<u8>) -> int {
    b[0] * 0x100 + b[1]
}

/// The number that the first four bytes of `b` denote in network order.
pub open spec fn be_u32_value(b: Seq<u8>) -> int {
    b[0] * 0x1000000 + b[1] * 0x10000 + b[2] * 0x100 + b[3]
}

/// The number that four bytes denote, most significant first.
pub open spec fn network_u32(b0: u8, b1: u8, b2: u8, b3: u8) -> int {
    b0 * 16777216 + b1 * 65536 + b2 * 256 + b3
}

/// Law: the bytes written for a number hold it most significant byte first,
/// and the number read from bytes is taken most significant byte first.
pub proof fn lemma_network_order(n: u32, m: u16, b: Seq<u8>)
    ensures
        network_u32(be_u32_bytes(n)[0], be_u32_bytes(n)[1], be_u32_bytes(n)[2], be_u32_bytes(n)[3])
            == n,
        be_u32_bytes(n).len() == 4,
        be_u16_bytes(m)[0] * 256 + be_u16_bytes(m)[1] == m,
        be_u16_bytes(m).len() == 2,
        b.len() >= 4 ==> be_u32_value(b) == network_u32(b[0], b[1], b[2], b[3]),
        b.len() >= 2 ==> be_u16_value(b) == b[0] * 256 + b[1],
{
}

/// Reading back the bytes written for a `u16` gives the number again.
pub proof fn lemma_be_u16_roundtrip(n: u16)
    ensures
        be_u16_value(be_u16_bytes(n)) == n,
{
}

/// Reading back the bytes written for a `u32` gives the number again.
pub proof fn lemma_be_u32_roundtrip(n: u32)
    ensures
        be_u32_value(be_u32_bytes(n)) == n,
{
}

/// Writing the number that four bytes denote gives back those bytes.
pub proof fn lemma_be_u32_bytes_of_value(b: Seq<u8>)
    requires
        b.len() == 4,
    ensures
        0 <= be_u32_value(b) <= u32::MAX,
        be_u32_bytes(be_u32_value(b) as u32) == b,
{
    let (b0, b1, b2, b3) = (b[0], b[1], b[2], b[3]);
    let v = be_u32_value(b);
    assert(v / 0x1000000 == b0 && (v / 0x10000) % 0x100 == b1 && (v / 0x100) % 0x100 == b2
        && v % 0x100 == b3) by (nonlinear_arith)
        requires
            v == b0 * 0x1000000 + b1 * 0x10000 + b2 * 0x100 + b3,
            0 <= b0 < 0x100,
            0 <= b1 < 0x100,
            0 <= b2 < 0x100,
            0 <= b3 < 0x100,
    ;
    assert(be_u32_bytes(v as u32) =~= b);
}

/// Writing the number that two bytes denote gives back those bytes.
pub proof fn lemma_be_u16_bytes_of_value(b: Seq<u8>)
    requires
        b.len() == 2,
    ensures
        0 <= be_u16_value(b) <= u16::MAX,
        be_u16_bytes(be_u16_value(b) as u16) == b,
{
    assert(be_u16_bytes(be_u16_value(b) as u16) =~= b);
}

/// Appends `n` to `out` in network order.
pub fn push_u16_be(out: &mut Vec<u8>, n: u16)
    ensures
        final(out)@ == old(out)@ + be_u16_bytes(n),
{
    out.push((n / 0x100) as u8);
    out.push((n % 0x100) as u8);
    assert(final(out)@ =~= old(out)@ + be_u16_bytes(n));
}

/// Appends `n` to `out` in network order.
pub fn push_u32_be(out: &mut Vec<u8>, n: u32)
    ensures
        final(out)@ == old(out)@ + be_u32_bytes(n),
{
    out.push((n / 0x1000000) as u8);
    out.push(((n / 0x10000) % 0x100) as u8);
    out.push(((n / 0x100) % 0x100) as u8);
    out.push((n % 0x100) as u8);
    assert(final(out)@ =~= old(out)@ + be_u32_bytes(n));
}

/// The `u16` stored in network order at `at` in `buf`.
pub fn read_u16_be(buf: &[u8], at: usize) -> (n: u16)
    requires
        at + 2 <= buf@.len(),
    ensures
        n == be_u16_value(buf@.subrange(at as int, at + 2)),
{
    (buf[at] as u16) * 0x100 + (buf[at + 1] as u16)
}

/// The `u32` stored in network order at `at` in `buf`.
pub fn read_u32_be(buf: &[u8], at: usize) -> (n: u32)
    requires
        at + 4 <= buf@.len(),
    ensures
        n == be_u32_value(buf@.subrange(at as int, at + 4)),
{
    (buf[at] as u32) * 0x1000000 + (buf[at + 1] as u32) * 0x10000 + (buf[at + 2] as u32) * 0x100
        + (buf[at + 3] as u32)
}

/// Appends all of `bytes` to `out`.
pub fn push_bytes(out: &mut Vec<u8>, bytes: &[u8])
    ensures
        final(out)@ == old(out)@ + bytes@,
{
    let mut i: usize = 0;
    while i < bytes.len()
        invariant
            i <= bytes@.len(),
            out@ == old(out)@ + bytes@.subrange(0, i as int),
        decreases bytes@.len() - i,
    {
        out.push(bytes[i]);
        i = i + 1;
        assert(out@ =~= old(out)@ + bytes@.subrange(0, i as int));
    }
    assert(bytes@.subrange(0, i as int) =~= bytes@);
}

/// A fresh vector holding the bytes of `buf` from `from` up to, not including, `to`.
pub fn copy_range(buf: &[u8], from: usize, to: usize) -> (v: Vec<u8>)
    requires
        from <= to <= buf@.len(),
    ensures
        v@ == buf@.subrange(from as int, to as int),
{
    let mut v: Vec<u8> = Vec::new();
    let mut i: usize = from;
    while i < to
        invariant
            from <= i <= to <= buf@.len(),
            v@ == buf@.subrange(from as int, i as int),
        decreases to - i,
    {
        v.push(buf[i]);
        i = i + 1;
        assert(v@ =~= buf@.subrange(from as int, i as int));
    }
    v
}

} // verus!
