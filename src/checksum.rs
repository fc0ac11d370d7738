//! The Internet checksum (ones'-complement sum of little-endian 16-bit words).
use vstd::prelude::*;
use vstd::arithmetic::div_mod::*;

verus! {

/// Sum of the byte sequence read as little-endian 16-bit words; an odd
/// trailing byte counts as the low byte of a final word.
pub open spec fn word_sum(s: Seq<u8>) -> nat
    decreases s.len(),
{
    if s.len() == 0 {
        0
    } else if s.len() == 1 {
        s[0] as nat
    } else {
        s[0] as nat + 256 * (s[1] as nat) + word_sum(s.subrange(2, s.len() as int))
    }
}

/// End-around carry: `while x >> 16 != 0 { x = (x & 0xFFFF) + (x >> 16) }`.
pub open spec fn fold16(x: nat) -> nat
    decreases x,
{
    if x < 0x10000 {
        x
    } else {
        fold16(x % 0x10000 + x / 0x10000)
    }
}

/// The folded ones'-complement sum of a range.
pub open spec fn ones_sum(s: Seq<u8>) -> nat {
    fold16(word_sum(s))
}

/// The checksum of a range: `0xFFFF` minus its folded sum.
pub open spec fn checksum_of(s: Seq<u8>) -> u16 {
    (0xFFFF - ones_sum(s)) as u16
}

/// A range carries a valid checksum when its folded sum is `0xFFFF`.
pub open spec fn checksum_valid(s: Seq<u8>) -> bool {
    ones_sum(s) == 0xFFFF
}

/// `fold16` in closed form: zero stays zero, anything else lands in
/// `1..=0xFFFF` on its residue modulo `0xFFFF`.
pub proof fn lemma_fold16_closed(x: nat)
    ensures
        fold16(x) == if x == 0 { 0 } else { ((x - 1) as int % 0xFFFF) + 1 },
    decreases x,
{
    if x >= 0x10000 {
        let q = x / 0x10000;
        let r = x % 0x10000;
        let y = r + q;
        assert(x == 0x10000 * q + r);
        assert(y < x);
        lemma_fold16_closed(y);
        assert((x - 1) as int == 0xFFFF * (q as int) + (y - 1) as int);
        lemma_mod_multiples_vanish(q as int, (y - 1) as int, 0xFFFF);
    } else if x > 0 {
        lemma_small_mod((x - 1) as nat, 0xFFFF);
    }
}

/// Folding part of a sum early does not change the folded result.
pub proof fn lemma_fold16_absorb(x: nat, y: nat)
    ensures
        fold16(fold16(x) + y) == fold16(x + y),
{
    lemma_fold16_closed(x);
    lemma_fold16_closed(x + y);
    lemma_fold16_closed(fold16(x) + y);
    if x > 0 {
        let f = fold16(x);
        assert(f >= 1);
        let m = (x - 1) as int % 0xFFFF;
        lemma_fundamental_div_mod((x - 1) as int, 0xFFFF);
        let k = (x - 1) as int / 0xFFFF;
        assert((x + y - 1) as int == 0xFFFF * k + (f + y - 1) as int);
        lemma_mod_multiples_vanish(k, (f + y - 1) as int, 0xFFFF);
    }
}


/// One step of end-around carry on a value below `0x1FFFF`.
proof fn lemma_fold16_once(x: nat)
    requires
        x < 0x1FFFF,
    ensures
        fold16(x) == if x > 0xFFFF { (x - 0xFFFF) as nat } else { x },
{
    if x >= 0x10000 {
        let y = x % 0x10000 + x / 0x10000;
        assert(x / 0x10000 == 1);
        assert(y == x - 0xFFFF);
        assert(fold16(y) == y);
    }
}

/// Splitting off the first word of a range.
proof fn lemma_word_sum_step(s: Seq<u8>, i: int)
    requires
        0 <= i < s.len(),
    ensures
        i + 1 < s.len() ==> word_sum(s.subrange(i, s.len() as int)) == s[i] as nat + 256 * (
        s[i + 1] as nat) + word_sum(s.subrange(i + 2, s.len() as int)),
        i + 1 == s.len() ==> word_sum(s.subrange(i, s.len() as int)) == s[i] as nat,
{
    let t = s.subrange(i, s.len() as int);
    if i + 1 < s.len() {
        assert(t.subrange(2, t.len() as int) =~= s.subrange(i + 2, s.len() as int));
    }
}

/// The folded sum of `buf[start .. start + len]`, computed with an
/// end-around carry after every word so that it never exceeds 17 bits.
fn folded_sum(buf: &[u8], start: usize, len: usize) -> (r: u32)
    requires
        start + len <= buf@.len(),
    ensures
        r as nat == ones_sum(buf@.subrange(start as int, start + len)),
        r <= 0xFFFF,
{
    let n = buf.len();
    assert(start + len <= n);
    let end = start + len;
    let ghost whole = buf@.subrange(start as int, end as int);
    let ghost s = buf@.subrange(0, end as int);
    assert(s.subrange(start as int, end as int) =~= whole);
    let mut acc: u32 = 0;
    let mut i: usize = start;
    while i < end
        invariant
            start <= i <= end,
            end == start + len,
            end <= buf@.len(),
            s == buf@.subrange(0, end as int),
            acc <= 0xFFFF,
            fold16(acc as nat + word_sum(s.subrange(i as int, end as int))) == ones_sum(whole),
        decreases end - i,
    {
        let ghost rest_before = word_sum(s.subrange(i as int, end as int));
        proof {
            lemma_word_sum_step(s, i as int);
        }
        let w: u32 = if i + 1 < end {
            buf[i] as u32 + 256 * (buf[i + 1] as u32)
        } else {
            buf[i] as u32
        };
        let next: usize = if i + 1 < end { i + 2 } else { i + 1 };
        let ghost rest_after: nat = if i + 1 < end {
            word_sum(s.subrange(i + 2, end as int))
        } else {
            0
        };
        assert(rest_before == w as nat + rest_after);
        let sum: u32 = acc + w;
        let folded: u32 = if sum > 0xFFFF { sum - 0xFFFF } else { sum };
        proof {
            lemma_fold16_once(sum as nat);
            lemma_fold16_absorb(sum as nat, rest_after);
            assert(acc as nat + rest_before == sum as nat + rest_after);
            if i + 1 == end {
                assert(s.subrange(end as int, end as int).len() == 0);
            }
        }
        acc = folded;
        i = next;
    }
    proof {
        assert(s.subrange(end as int, end as int).len() == 0);
        assert(fold16(acc as nat) == acc as nat);
    }
    acc
}

/// Weight of the byte at position `i` inside its little-endian word.
pub open spec fn byte_weight(i: int) -> nat {
    if i % 2 == 0 {
        1
    } else {
        256
    }
}

/// `s` with the little-endian 16-bit word `v` stored at `k` and `k + 1`.
pub open spec fn with_word(s: Seq<u8>, k: int, v: u16) -> Seq<u8> {
    s.update(k, (v % 256) as u8).update(k + 1, (v / 256) as u8)
}

/// Replacing one byte moves the word sum by the weighted difference.
pub proof fn lemma_word_sum_update(s: Seq<u8>, i: int, v: u8)
    requires
        0 <= i < s.len(),
    ensures
        word_sum(s.update(i, v)) + s[i] as nat * byte_weight(i) == word_sum(s) + v as nat
            * byte_weight(i),
    decreases s.len(),
{
    let t = s.update(i, v);
    if s.len() >= 2 {
        if i < 2 {
            assert(t.subrange(2, t.len() as int) =~= s.subrange(2, s.len() as int));
            if i == 0 {
                assert(byte_weight(i) == 1);
            } else {
                assert(byte_weight(i) == 256);
            }
        } else {
            let tail = s.subrange(2, s.len() as int);
            assert(t.subrange(2, t.len() as int) =~= tail.update(i - 2, v));
            lemma_word_sum_update(tail, i - 2, v);
            assert(byte_weight(i - 2) == byte_weight(i));
        }
    }
}

/// Storing the checksum computed with its field zeroed yields a range that
/// verifies, whatever the rest of the range holds.
pub proof fn lemma_embedded_checksum_verifies(s: Seq<u8>, k: int)
    requires
        0 <= k,
        k + 1 < s.len(),
        k % 2 == 0,
    ensures
        checksum_valid(with_word(s, k, checksum_of(with_word(s, k, 0)))),
{
    let z = with_word(s, k, 0);
    let total = word_sum(z);
    let c = checksum_of(z);
    lemma_fold16_closed(total);
    let u = z.update(k, (c % 256) as u8);
    lemma_word_sum_update(z, k, (c % 256) as u8);
    lemma_word_sum_update(u, k + 1, (c / 256) as u8);
    assert(z[k] == 0 && z[k + 1] == 0);
    assert(u[k + 1] == 0);
    assert(u.update(k + 1, (c / 256) as u8) =~= with_word(s, k, c)) by {
        assert(z.update(k, (c % 256) as u8) == u);
    }
    let t: nat = total + c as nat;
    lemma_fundamental_div_mod(c as int, 256);
    assert(byte_weight(k) == 1 && byte_weight(k + 1) == 256);
    assert(t == word_sum(with_word(s, k, c)));
    lemma_fold16_closed(t);
    if total > 0 {
        lemma_fundamental_div_mod((total - 1) as int, 0xFFFF);
        let q = (total - 1) as int / 0xFFFF;
        assert((t - 1) as int == 0xFFFF * q + 0xFFFE);
        lemma_mod_multiples_vanish(q, 0xFFFE, 0xFFFF);
    }
}

/// Flipping any single bit of a range that carries a valid checksum makes
/// the check fail.
pub proof fn lemma_bit_flip_detected(s: Seq<u8>, i: int, bit: u8)
    requires
        checksum_valid(s),
        0 <= i < s.len(),
        bit < 8,
    ensures
        !checksum_valid(s.update(i, s[i] ^ (1u8 << bit))),
{
    let x = s[i];
    let m: u8 = 1u8 << bit;
    let y: u8 = x ^ m;
    assert(1 <= m && m <= 128) by (bit_vector)
        requires
            m == 1u8 << bit,
            bit < 8,
    ;
    assert((y > x && (y - x) as u8 == m) || (y < x && (x - y) as u8 == m)) by (bit_vector)
        requires
            m == 1u8 << bit,
            bit < 8,
            y == x ^ m,
    ;
    let t = s.update(i, y);
    lemma_word_sum_update(s, i, y);
    let before = word_sum(s);
    let after = word_sum(t);
    lemma_fold16_closed(before);
    lemma_fold16_closed(after);
    let d: int = after - before;
    assert(d == (y as int - x as int) * byte_weight(i)) by (nonlinear_arith)
        requires
            after + x as nat * byte_weight(i) == before + y as nat * byte_weight(i),
            d == after - before,
    ;
    assert(1 <= d <= 32768 || -32768 <= d <= -1) by (nonlinear_arith)
        requires
            d == (y as int - x as int) * byte_weight(i),
            y as int - x as int == m || x as int - y as int == m,
            1 <= m <= 128,
            byte_weight(i) == 1 || byte_weight(i) == 256,
    ;
    assert(before > 0);
    lemma_fundamental_div_mod((before - 1) as int, 0xFFFF);
    let q = (before - 1) as int / 0xFFFF;
    assert((before - 1) as int % 0xFFFF == 0xFFFE);
    // before == 0xFFFF * (q + 1)
    if after > 0 {
        if d > 0 {
            assert((after - 1) as int == 0xFFFF * (q + 1) + (d - 1));
            lemma_mod_multiples_vanish(q + 1, d - 1, 0xFFFF);
            lemma_small_mod((d - 1) as nat, 0xFFFF);
        } else {
            assert((after - 1) as int == 0xFFFF * q + (0xFFFE + d));
            lemma_mod_multiples_vanish(q, 0xFFFE + d, 0xFFFF);
            lemma_small_mod((0xFFFE + d) as nat, 0xFFFF);
        }
    }
}

/// A checksum field, as it sits in a protocol header.
pub struct Checksum {
    pub data: u16,
}

impl Checksum {
    /// Whether `buf[start .. start + len]` carries a valid checksum.
    pub fn check(&self, buf: &[u8], start: usize, len: usize) -> (r: bool)
        requires
            start + len <= buf@.len(),
        ensures
            r == checksum_valid(buf@.subrange(start as int, start + len)),
    {
        folded_sum(buf, start, len) == 0xFFFF
    }

    /// Computes the checksum of `buf[start .. start + len]` into `self.data`.
    pub fn calculate(&mut self, buf: &[u8], start: usize, len: usize)
        requires
            start + len <= buf@.len(),
        ensures
            final(self).data == checksum_of(buf@.subrange(start as int, start + len)),
    {
        let sum = folded_sum(buf, start, len);
        self.data = (0xFFFF - sum) as u16;
    }
}

} // verus!
