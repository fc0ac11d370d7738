//! Fixed-width fields read from and written into raw byte buffers.
use vstd::prelude::*;

verus! {

/// The big-endian 16-bit field at `o`.
pub open spec fn be16(s: Seq<u8>, o: int) -> u16 {
    (s[o] as nat * 256 + s[o + 1] as nat) as u16
}

/// The little-endian 16-bit field at `o` (the order the checksum engine uses).
pub open spec fn le16(s: Seq<u8>, o: int) -> u16 {
    (s[o] as nat + s[o + 1] as nat * 256) as u16
}

/// The big-endian 32-bit field at `o`.
pub open spec fn be32(s: Seq<u8>, o: int) -> u32 {
    (s[o] as nat * 0x1000000 + s[o + 1] as nat * 0x10000 + s[o + 2] as nat * 0x100
        + s[o + 3] as nat) as u32
}

/// `s` with `part` written over it from position `at` on.
pub open spec fn put(s: Seq<u8>, at: int, part: Seq<u8>) -> Seq<u8> {
    Seq::new(s.len(), |j: int| if at <= j < at + part.len() { part[j - at] } else { s[j] })
}

/// Reads the big-endian 16-bit field at `o`.
pub fn read_be16(buf: &[u8], o: usize) -> (r: u16)
    requires
        o + 2 <= buf@.len(),
    ensures
        r == be16(buf@, o as int),
{
    buf[o] as u16 * 256 + buf[o + 1] as u16
}

/// Reads the little-endian 16-bit field at `o`.
pub fn read_le16(buf: &[u8], o: usize) -> (r: u16)
    requires
        o + 2 <= buf@.len(),
    ensures
        r == le16(buf@, o as int),
{
    buf[o] as u16 + buf[o + 1] as u16 * 256
}

/// Reads the big-endian 32-bit field at `o`.
pub fn read_be32(buf: &[u8], o: usize) -> (r: u32)
    requires
        o + 4 <= buf@.len(),
    ensures
        r == be32(buf@, o as int),
{
    buf[o] as u32 * 0x1000000 + buf[o + 1] as u32 * 0x10000 + buf[o + 2] as u32 * 0x100
        + buf[o + 3] as u32
}

/// Copies `part` into `buf` from position `at` on.
pub fn put_bytes(buf: &mut [u8], at: usize, part: &[u8])
    requires
        at + part@.len() <= old(buf)@.len(),
    ensures
        final(buf)@ == put(old(buf)@, at as int, part@),
{
    let n = part.len();
    let total = buf.len();
    let mut i: usize = 0;
    while i < n
        invariant
            n == part@.len(),
            at + n <= buf@.len(),
            total == buf@.len(),
            i <= n,
            buf@.len() == old(buf)@.len(),
            forall|j: int|
                0 <= j < buf@.len() ==> buf@[j] == (if at <= j < at + i {
                    part@[j - at]
                } else {
                    old(buf)@[j]
                }),
        decreases n - i,
    {
        buf[at + i] = part[i];
        i = i + 1;
    }
    assert(buf@ =~= put(old(buf)@, at as int, part@));
}

} // verus!
