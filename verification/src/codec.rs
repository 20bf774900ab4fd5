//! Bit-exact codecs for the wire: the little-endian four-byte layout of
//! 32-bit values, and the IEEE-754 single-precision encoding of small
//! integers.
//!
//! Floating-point values never appear here as floats: the driver carries them
//! as their raw bit patterns, so a NaN's sign and payload bits survive the
//! trip to the device and back untouched.

use vstd::arithmetic::power2::{
    lemma2_to64, lemma_pow2_adds, lemma_pow2_pos, lemma_pow2_strictly_increases, pow2,
};
use vstd::prelude::*;

verus! {

/// Byte `i` (low byte first) of a 32-bit value.
pub open spec fn le_byte(bits: u32, i: int) -> u8 {
    if i == 0 {
        (bits & 0xff) as u8
    } else if i == 1 {
        ((bits >> 8) & 0xff) as u8
    } else if i == 2 {
        ((bits >> 16) & 0xff) as u8
    } else {
        ((bits >> 24) & 0xff) as u8
    }
}

/// The 32-bit value assembled from four bytes, low byte first.
pub open spec fn word_of_le_bytes(b0: u8, b1: u8, b2: u8, b3: u8) -> u32 {
    (b0 as u32) | ((b1 as u32) << 8) | ((b2 as u32) << 16) | ((b3 as u32) << 24)
}

/// The 32-bit value stored low byte first at `base` in a register file.
pub open spec fn load_le(m: Seq<u8>, base: int) -> u32 {
    word_of_le_bytes(m[base], m[base + 1], m[base + 2], m[base + 3])
}

/// The register file after storing `bits` low byte first at `base`.
pub open spec fn store_le(m: Seq<u8>, base: int, bits: u32) -> Seq<u8> {
    m.update(base, le_byte(bits, 0)).update(base + 1, le_byte(bits, 1)).update(
        base + 2,
        le_byte(bits, 2),
    ).update(base + 3, le_byte(bits, 3))
}

/// Splitting a word into its four little-endian bytes and reassembling them
/// gives the word back bit for bit — every IEEE-754 sign, exponent and
/// payload bit included.
pub proof fn lemma_le_round_trip(bits: u32)
    ensures
        word_of_le_bytes(le_byte(bits, 0), le_byte(bits, 1), le_byte(bits, 2), le_byte(bits, 3))
            == bits,
{
    assert((((bits & 0xff) as u8) as u32) | (((((bits >> 8) & 0xff) as u8) as u32) << 8) | (((((
    bits >> 16) & 0xff) as u8) as u32) << 16) | (((((bits >> 24) & 0xff) as u8) as u32) << 24)
        == bits) by (bit_vector);
}

/// Two register files that agree on the four bytes at `base` load the same
/// word there.
pub proof fn lemma_load_le_agrees(m1: Seq<u8>, m2: Seq<u8>, base: int)
    requires
        m1[base] == m2[base],
        m1[base + 1] == m2[base + 1],
        m1[base + 2] == m2[base + 2],
        m1[base + 3] == m2[base + 3],
    ensures
        load_le(m1, base) == load_le(m2, base),
{
}

/// Index of the highest set bit of `n` (0 for both 0 and 1).
pub open spec fn msb_index(n: nat) -> nat
    decreases n,
{
    if n <= 1 {
        0
    } else {
        msb_index(n / 2) + 1
    }
}

/// The IEEE-754 single-precision bit pattern of the small integer `n`.
/// Every value below 2^16 fits the 24-bit significand exactly, so there is
/// no rounding: sign 0, biased exponent 127 plus the highest set bit's
/// index, and the bits below the leading one moved to the top of the 23-bit
/// mantissa field.
pub open spec fn float_bits_of_int(n: u16) -> u32 {
    if n == 0 {
        0u32
    } else {
        let k = msb_index(n as nat);
        (((127 + k) * pow2(23) + (n - pow2(k)) * pow2((23 - k) as nat)) as u32)
    }
}

/// `pow2` is monotone.
proof fn lemma_pow2_le(a: nat, b: nat)
    requires
        a <= b,
    ensures
        pow2(a) <= pow2(b),
{
    if a < b {
        lemma_pow2_strictly_increases(a, b);
    }
}

/// The highest set bit's index brackets `n` between two powers of two.
proof fn lemma_msb_index_bounds(n: nat)
    requires
        n >= 1,
    ensures
        pow2(msb_index(n)) <= n < pow2(msb_index(n) + 1),
    decreases n,
{
    if n <= 1 {
        lemma2_to64();
    } else {
        lemma_msb_index_bounds(n / 2);
        let k = msb_index(n / 2);
        assert(pow2(k + 1) == 2 * pow2(k)) by {
            lemma_pow2_adds(k, 1);
            lemma2_to64();
        }
        assert(pow2(k + 2) == 2 * pow2(k + 1)) by {
            lemma_pow2_adds(k + 1, 1);
            lemma2_to64();
        }
    }
}

/// Conversely, bracketing `n` between `pow2(k)` and `pow2(k + 1)` pins the
/// highest set bit's index down to `k`.
proof fn lemma_msb_index_unique(n: nat, k: nat)
    requires
        pow2(k) <= n < pow2(k + 1),
    ensures
        msb_index(n) == k,
{
    lemma_pow2_pos(k);
    lemma_msb_index_bounds(n);
    let m = msb_index(n);
    if m < k {
        lemma_pow2_le(m + 1, k);
    }
    if k < m {
        lemma_pow2_le(k + 1, m);
    }
}

/// Encode a small integer as the bits of the IEEE-754 single-precision
/// value equal to it.  Exact for the whole `u16` range.
pub fn float_bits_from_u16(n: u16) -> (r: u32)
    ensures
        r == float_bits_of_int(n),
{
    if n == 0 {
        return 0;
    }
    let w = n as u32;
    let mut k: u32 = 0;
    let mut p: u32 = 1;
    proof {
        lemma2_to64();
    }
    while 2 * p <= w
        invariant
            1 <= w < 0x10000,
            w == n as u32,
            p as nat == pow2(k as nat),
            p <= w,
            k <= 15,
        decreases w - p,
    {
        proof {
            lemma_pow2_adds(k as nat, 1);
            lemma2_to64();
            if k as nat + 1 >= 16 {
                lemma_pow2_le(16, k as nat + 1);
            }
        }
        p = 2 * p;
        k = k + 1;
    }
    proof {
        assert(pow2(k as nat + 1) == 2 * pow2(k as nat)) by {
            lemma_pow2_adds(k as nat, 1);
            lemma2_to64();
        }
        lemma_msb_index_unique(n as nat, k as nat);
    }
    let frac = w - p;
    let mut q: u32 = 1;
    let mut j: u32 = 0;
    while j < 23 - k
        invariant
            k <= 15,
            j <= 23 - k,
            q as nat == pow2(j as nat),
        decreases 23 - k - j,
    {
        proof {
            lemma_pow2_le(j as nat, 22);
            lemma2_to64();
            lemma_pow2_adds(j as nat, 1);
        }
        q = 2 * q;
        j = j + 1;
    }
    proof {
        lemma_pow2_adds(k as nat, (23 - k) as nat);
        lemma2_to64();
        lemma_pow2_pos((23 - k) as nat);
        assert((w - p) * (q as nat) < (p as nat) * (q as nat)) by (nonlinear_arith)
            requires
                w - p < p as nat,
                q as nat >= 1,
                p >= 1,
        ;
    }
    let mantissa = frac * q;
    let exponent = 127 + k;
    exponent * 0x80_0000 + mantissa
}

/// Storing a word at `base` and loading from the same base gives the word
/// back; every byte outside `base .. base + 4` is untouched.
pub proof fn lemma_store_load(m: Seq<u8>, base: int, bits: u32)
    requires
        0 <= base,
        base + 4 <= m.len(),
    ensures
        store_le(m, base, bits).len() == m.len(),
        load_le(store_le(m, base, bits), base) == bits,
        forall|i: int|
            0 <= i < m.len() && !(base <= i < base + 4) ==> store_le(m, base, bits)[i] == m[i],
{
    lemma_le_round_trip(bits);
}

} // verus!
