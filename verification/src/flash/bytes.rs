use vstd::prelude::*;

verus! {

/// The little-endian bytes of a 16-bit value.
pub open spec fn u16_le(x: u16) -> Seq<u8> {
    seq![(x & 0xff) as u8, ((x >> 8u16) & 0xff) as u8]
}

/// The little-endian bytes of a 32-bit value.
pub open spec fn u32_le(x: u32) -> Seq<u8> {
    seq![(x & 0xff) as u8, ((x >> 8u32) & 0xff) as u8, ((x >> 16u32) & 0xff) as u8, ((x >> 24u32) & 0xff) as u8]
}

/// The 16-bit value of two little-endian bytes.
pub open spec fn u16_of(b0: u8, b1: u8) -> u16 {
    (b0 as u16) | ((b1 as u16) << 8u16)
}

/// The 32-bit value of four little-endian bytes.
pub open spec fn u32_of(b0: u8, b1: u8, b2: u8, b3: u8) -> u32 {
    (b0 as u32) | ((b1 as u32) << 8u32) | ((b2 as u32) << 16u32) | ((b3 as u32) << 24u32)
}

pub proof fn lemma_u16_bytes(x: u16, b0: u8, b1: u8)
    by (bit_vector)
    ensures
        ((x & 0xff) as u8 as u16) | ((((x >> 8u16) & 0xff) as u8 as u16) << 8u16) == x,
        (((b0 as u16) | ((b1 as u16) << 8u16)) & 0xff) as u8 == b0,
        ((((b0 as u16) | ((b1 as u16) << 8u16)) >> 8u16) & 0xff) as u8 == b1,
{
}

pub proof fn lemma_u32_bytes(x: u32, b0: u8, b1: u8, b2: u8, b3: u8)
    by (bit_vector)
    ensures
        ((x & 0xff) as u8 as u32) | ((((x >> 8u32) & 0xff) as u8 as u32) << 8u32) | ((((x >> 16u32) & 0xff) as u8 as u32) << 16u32)
            | ((((x >> 24u32) & 0xff) as u8 as u32) << 24u32) == x,
        (((b0 as u32) | ((b1 as u32) << 8u32) | ((b2 as u32) << 16u32) | ((b3 as u32) << 24u32)) & 0xff) as u8 == b0,
        ((((b0 as u32) | ((b1 as u32) << 8u32) | ((b2 as u32) << 16u32) | ((b3 as u32) << 24u32)) >> 8u32) & 0xff) as u8 == b1,
        ((((b0 as u32) | ((b1 as u32) << 8u32) | ((b2 as u32) << 16u32) | ((b3 as u32) << 24u32)) >> 16u32) & 0xff) as u8 == b2,
        ((((b0 as u32) | ((b1 as u32) << 8u32) | ((b2 as u32) << 16u32) | ((b3 as u32) << 24u32)) >> 24u32) & 0xff) as u8 == b3,
{
}

/// Two values with the same bytes are the same value, and the bytes of the
/// value of four bytes are those bytes.
pub proof fn lemma_u32_le(x: u32, y: u32, bytes: Seq<u8>)
    requires
        bytes.len() == 4,
    ensures
        u32_le(x) == u32_le(y) ==> x == y,
        u32_of(u32_le(x)[0], u32_le(x)[1], u32_le(x)[2], u32_le(x)[3]) == x,
        u32_le(u32_of(bytes[0], bytes[1], bytes[2], bytes[3])) == bytes,
{
    lemma_u32_bytes(x, 0, 0, 0, 0);
    lemma_u32_bytes(y, 0, 0, 0, 0);
    lemma_u32_bytes(0, bytes[0], bytes[1], bytes[2], bytes[3]);
    assert(u32_le(u32_of(bytes[0], bytes[1], bytes[2], bytes[3])) =~= bytes);
}

/// The 16-bit counterpart of `lemma_u32_le`.
pub proof fn lemma_u16_le(x: u16, y: u16, bytes: Seq<u8>)
    requires
        bytes.len() == 2,
    ensures
        u16_le(x) == u16_le(y) ==> x == y,
        u16_of(u16_le(x)[0], u16_le(x)[1]) == x,
        u16_le(u16_of(bytes[0], bytes[1])) == bytes,
{
    lemma_u16_bytes(x, 0, 0);
    lemma_u16_bytes(y, 0, 0);
    lemma_u16_bytes(0, bytes[0], bytes[1]);
    assert(u16_le(u16_of(bytes[0], bytes[1])) =~= bytes);
}

/// Appends `bytes` to `out`.
pub fn push_bytes(out: &mut Vec<u8>, bytes: &[u8])
    ensures
        final(out)@ == old(out)@ + bytes@,
{
    let mut i: usize = 0;
    while i < bytes.len()
        invariant
            i <= bytes@.len(),
            out@ == old(out)@ + bytes@.take(i as int),
        decreases bytes@.len() - i,
    {
        out.push(bytes[i]);
        i = i + 1;
        assert(out@ =~= old(out)@ + bytes@.take(i as int));
    }
    assert(bytes@.take(bytes@.len() as int) =~= bytes@);
}

/// Appends the little-endian bytes of `x`.
pub fn push_u16(out: &mut Vec<u8>, x: u16)
    ensures
        final(out)@ == old(out)@ + u16_le(x),
{
    out.push((x & 0xff) as u8);
    out.push(((x >> 8u16) & 0xff) as u8);
    assert(out@ =~= old(out)@ + u16_le(x));
}

/// Appends the little-endian bytes of `x`.
pub fn push_u32(out: &mut Vec<u8>, x: u32)
    ensures
        final(out)@ == old(out)@ + u32_le(x),
{
    out.push((x & 0xff) as u8);
    out.push(((x >> 8u32) & 0xff) as u8);
    out.push(((x >> 16u32) & 0xff) as u8);
    out.push(((x >> 24u32) & 0xff) as u8);
    assert(out@ =~= old(out)@ + u32_le(x));
}

/// Reads the 16-bit value of the two bytes at `at`.
pub fn read_u16(bytes: &[u8], at: usize) -> (x: u16)
    requires
        at + 2 <= bytes@.len(),
    ensures
        x == u16_of(bytes@[at as int], bytes@[at + 1]),
{
    (bytes[at] as u16) | ((bytes[at + 1] as u16) << 8u16)
}

/// Reads the 32-bit value of the four bytes at `at`.
pub fn read_u32(bytes: &[u8], at: usize) -> (x: u32)
    requires
        at + 4 <= bytes@.len(),
    ensures
        x == u32_of(bytes@[at as int], bytes@[at + 1], bytes@[at + 2], bytes@[at + 3]),
{
    (bytes[at] as u32) | ((bytes[at + 1] as u32) << 8u32) | ((bytes[at + 2] as u32) << 16u32) | ((bytes[at + 3] as u32) << 24u32)
}

/// Copies the bytes at `at` into `target`.
pub fn read_into(target: &mut [u8], bytes: &[u8], at: usize)
    requires
        at + old(target)@.len() <= bytes@.len(),
    ensures
        final(target)@ == bytes@.subrange(at as int, at + old(target)@.len()),
{
    let count = bytes.len();
    let mut i: usize = 0;
    while i < target.len()
        invariant
            count == bytes@.len(),
            i <= target@.len(),
            target@.len() == old(target)@.len(),
            at + target@.len() <= bytes@.len(),
            forall|j: int| 0 <= j < i ==> target@[j] == bytes@[at + j],
        decreases target@.len() - i,
    {
        target[i] = bytes[at + i];
        i = i + 1;
    }
    assert(target@ =~= bytes@.subrange(at as int, at + old(target)@.len()));
}

} // verus!
