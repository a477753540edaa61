//! Bit-level access to a little-endian byte array: the numbering of bits, and
//! reading and writing a range of them as an unsigned integer.

use vstd::prelude::*;
use vstd::arithmetic::power2::pow2;
use vstd::arithmetic::power2::lemma_pow2_unfold;
use vstd::arithmetic::power2::lemma_pow2_pos;
use vstd::arithmetic::power2::lemma2_to64;
use vstd::arithmetic::power2::lemma2_to64_rest;
use vstd::arithmetic::div_mod::lemma_div_denominator;
use vstd::arithmetic::div_mod::lemma_breakdown;

verus! {

/// Bit `k` of a byte, bit 0 being the least significant.
pub open spec fn byte_bit(b: u8, k: u8) -> bool {
    (b >> k) & 1u8 == 1u8
}

/// Bit `i` of a byte sequence: bit `i % 8` of byte `i / 8`.
pub open spec fn bit_at(bytes: Seq<u8>, i: int) -> bool {
    byte_bit(bytes[i / 8], (i % 8) as u8)
}

/// Bit `k` of a natural number.
pub open spec fn value_bit(v: nat, k: nat) -> bool {
    (v / pow2(k)) % 2 == 1
}

/// The unsigned integer held in the `width` bits that start at bit `lsb`,
/// the bit at `lsb` being the least significant.
pub open spec fn field(bytes: Seq<u8>, lsb: int, width: nat) -> nat
    decreases width,
{
    if width == 0 {
        0
    } else {
        (if bit_at(bytes, lsb) { 1nat } else { 0nat }) + 2 * field(bytes, lsb + 1, (width - 1) as nat)
    }
}

/// A field of `width` bits is below `2^width`.
pub proof fn lemma_field_bound(bytes: Seq<u8>, lsb: int, width: nat)
    ensures
        field(bytes, lsb, width) < pow2(width),
    decreases width,
{
    if width == 0 {
        lemma2_to64();
    } else {
        lemma_pow2_unfold(width);
        lemma_field_bound(bytes, lsb + 1, (width - 1) as nat);
    }
}

/// Reads bits `lsb..=msb` as an unsigned integer.
pub fn bit_range(bytes: &[u8; 11], msb: usize, lsb: usize) -> (value: u64)
    requires
        lsb <= msb < 88,
        msb - lsb < 64,
    ensures
        value == field(bytes@, lsb as int, (msb - lsb + 1) as nat),
{
    let mut value: u64 = 0;
    let mut i: usize = msb + 1;
    while i > lsb
        invariant
            lsb <= i <= msb + 1,
            msb < 88,
            msb - lsb < 64,
            value == field(bytes@, i as int, (msb + 1 - i) as nat),
        decreases i - lsb,
    {
        i = i - 1;
        let k: u8 = (i % 8) as u8;
        let byte: u8 = bytes[i / 8];
        let bit: u8 = (byte >> k) & 1;
        proof {
            let w = (msb - i) as nat;
            lemma_field_bound(bytes@, i + 1, w);
            lemma_pow2_le_63(w);
            let v = value;
            assert(bit == 0 || bit == 1) by (bit_vector)
                requires
                    bit == (byte >> k) & 1u8,
            ;
            assert(v < 0x8000_0000_0000_0000u64 && bit <= 1 ==> ((v << 1) | (bit as u64)) == 2 * v
                + bit) by (bit_vector);
        }
        value = (value << 1) | (bit as u64);
    }
    value
}

/// `2^w` is at most `2^63` for `w` up to 63.
proof fn lemma_pow2_le_63(w: nat)
    requires
        w <= 63,
    ensures
        pow2(w) <= 0x8000_0000_0000_0000,
    decreases 63 - w,
{
    if w == 63 {
        lemma2_to64_rest();
    } else {
        lemma_pow2_le_63(w + 1);
        lemma_pow2_unfold(w + 1);
    }
}

/// Replacing bit `k` of a byte by `bitv` changes that bit and no other.
proof fn lemma_byte_set_bit(b: u8, k: u8, bitv: u8, m: u8)
    by (bit_vector)
    requires
        k < 8,
        m < 8,
        bitv <= 1,
    ensures
        byte_bit((b & !(1u8 << k)) | (bitv << k), m) == (if m == k {
            bitv == 1
        } else {
            byte_bit(b, m)
        }),
{
}

/// Writes the low `msb - lsb + 1` bits of `value` into bits `lsb..=msb`.
/// Higher bits of `value` are dropped; every other bit of `bytes` is kept.
pub fn set_bit_range(bytes: &mut [u8; 11], msb: usize, lsb: usize, value: u64)
    requires
        lsb <= msb < 88,
    ensures
        forall|j: int|
            0 <= j < 88 ==> #[trigger] bit_at(final(bytes)@, j) == (if lsb <= j <= msb {
                value_bit(value as nat, (j - lsb) as nat)
            } else {
                bit_at(old(bytes)@, j)
            }),
{
    let mut v: u64 = value;
    let mut i: usize = lsb;
    proof {
        lemma2_to64();
        assert(pow2(0) == 1);
        assert(value as nat / 1 == value as nat);
    }
    while i <= msb
        invariant
            lsb <= i <= msb + 1,
            msb < 88,
            v as nat == value as nat / pow2((i - lsb) as nat),
            forall|j: int|
                0 <= j < 88 ==> #[trigger] bit_at(bytes@, j) == (if lsb <= j < i {
                    value_bit(value as nat, (j - lsb) as nat)
                } else {
                    bit_at(old(bytes)@, j)
                }),
        decreases msb + 1 - i,
    {
        let k: u8 = (i % 8) as u8;
        let idx: usize = i / 8;
        let b: u8 = bytes[idx];
        let low: u8 = if v & 1 == 1 { 1 } else { 0 };
        let nb: u8 = (b & !(1u8 << k)) | (low << k);
        let ghost before = bytes@;
        bytes[idx] = nb;
        proof {
            let n = (i - lsb) as nat;
            assert((v & 1 == 1) == (v % 2 == 1)) by (bit_vector);
            assert(v >> 1 == v / 2) by (bit_vector);
            lemma_pow2_pos(n);
            lemma_div_denominator(value as int, pow2(n) as int, 2);
            lemma_pow2_unfold(n + 1);
            assert forall|j: int| 0 <= j < 88 implies #[trigger] bit_at(bytes@, j) == (if lsb <= j
                < i + 1 {
                value_bit(value as nat, (j - lsb) as nat)
            } else {
                bit_at(old(bytes)@, j)
            }) by {
                if j / 8 == idx as int {
                    lemma_byte_set_bit(b, k, low, (j % 8) as u8);
                    assert(bit_at(before, j) == byte_bit(b, (j % 8) as u8));
                } else {
                    assert(bit_at(bytes@, j) == bit_at(before, j));
                }
            }
        }
        v = v >> 1;
        i = i + 1;
    }
}

/// Bit `k` of `v / 2` is bit `k + 1` of `v`.
pub proof fn lemma_value_bit_shift(v: nat, k: nat)
    ensures
        value_bit(v / 2, k) == value_bit(v, k + 1),
{
    lemma_pow2_pos(k);
    lemma_pow2_unfold(k + 1);
    lemma_div_denominator(v as int, 2, pow2(k) as int);
    assert(2 * pow2(k) == pow2(k + 1));
}

/// Where bits `lsb .. lsb + w` are the low bits of `v`, the field they form
/// is `v` modulo `2^w`.
pub proof fn lemma_field_of_bits(bytes: Seq<u8>, lsb: int, w: nat, v: nat)
    requires
        forall|j: int|
            lsb <= j < lsb + w ==> #[trigger] bit_at(bytes, j) == value_bit(v, (j - lsb) as nat),
    ensures
        field(bytes, lsb, w) == v % pow2(w),
    decreases w,
{
    lemma2_to64();
    if w == 0 {
    } else {
        let half = v / 2;
        assert forall|j: int| lsb + 1 <= j < lsb + 1 + (w - 1) implies #[trigger] bit_at(bytes, j)
            == value_bit(half, (j - (lsb + 1)) as nat) by {
            lemma_value_bit_shift(v, (j - (lsb + 1)) as nat);
        }
        lemma_field_of_bits(bytes, lsb + 1, (w - 1) as nat, half);
        assert(bit_at(bytes, lsb) == value_bit(v, 0));
        assert(v / 1 == v);
        lemma_pow2_unfold(w);
        lemma_pow2_pos((w - 1) as nat);
        lemma_breakdown(v as int, 2, pow2((w - 1) as nat) as int);
    }
}

/// Two byte sequences that agree on bits `lsb .. lsb + w` hold the same
/// field there.
pub proof fn lemma_field_eq(a: Seq<u8>, b: Seq<u8>, lsb: int, w: nat)
    requires
        forall|j: int| lsb <= j < lsb + w ==> #[trigger] bit_at(a, j) == bit_at(b, j),
    ensures
        field(a, lsb, w) == field(b, lsb, w),
    decreases w,
{
    if w > 0 {
        assert(bit_at(a, lsb) == bit_at(b, lsb));
        lemma_field_eq(a, b, lsb + 1, (w - 1) as nat);
    }
}

/// Each bit of a field is the bit of the byte sequence at that place.
pub proof fn lemma_bits_of_field(bytes: Seq<u8>, lsb: int, w: nat, k: nat)
    requires
        k < w,
    ensures
        value_bit(field(bytes, lsb, w), k) == bit_at(bytes, lsb + k),
    decreases w,
{
    lemma2_to64();
    let rest = field(bytes, lsb + 1, (w - 1) as nat);
    let low = if bit_at(bytes, lsb) { 1nat } else { 0nat };
    assert(field(bytes, lsb, w) == low + 2 * rest);
    assert((low + 2 * rest) / 2 == rest);
    if k == 0 {
        assert((low + 2 * rest) / 1 == low + 2 * rest);
        assert((low + 2 * rest) % 2 == low);
    } else {
        lemma_value_bit_shift(low + 2 * rest, (k - 1) as nat);
        lemma_bits_of_field(bytes, lsb + 1, (w - 1) as nat, (k - 1) as nat);
    }
}

/// A byte is determined by its eight bits.
pub proof fn lemma_byte_ext(a: u8, b: u8)
    by (bit_vector)
    requires
        byte_bit(a, 0) == byte_bit(b, 0),
        byte_bit(a, 1) == byte_bit(b, 1),
        byte_bit(a, 2) == byte_bit(b, 2),
        byte_bit(a, 3) == byte_bit(b, 3),
        byte_bit(a, 4) == byte_bit(b, 4),
        byte_bit(a, 5) == byte_bit(b, 5),
        byte_bit(a, 6) == byte_bit(b, 6),
        byte_bit(a, 7) == byte_bit(b, 7),
    ensures
        a == b,
{
}

/// Two sequences of `n` bytes with the same bits are equal.
pub proof fn lemma_bytes_ext(a: Seq<u8>, b: Seq<u8>, n: nat)
    requires
        a.len() == n,
        b.len() == n,
        forall|j: int| 0 <= j < 8 * n ==> #[trigger] bit_at(a, j) == bit_at(b, j),
    ensures
        a == b,
{
    assert forall|i: int| 0 <= i < n implies a[i] == b[i] by {
        assert(bit_at(a, 8 * i + 0) == bit_at(b, 8 * i + 0));
        assert(bit_at(a, 8 * i + 1) == bit_at(b, 8 * i + 1));
        assert(bit_at(a, 8 * i + 2) == bit_at(b, 8 * i + 2));
        assert(bit_at(a, 8 * i + 3) == bit_at(b, 8 * i + 3));
        assert(bit_at(a, 8 * i + 4) == bit_at(b, 8 * i + 4));
        assert(bit_at(a, 8 * i + 5) == bit_at(b, 8 * i + 5));
        assert(bit_at(a, 8 * i + 6) == bit_at(b, 8 * i + 6));
        assert(bit_at(a, 8 * i + 7) == bit_at(b, 8 * i + 7));
        lemma_byte_ext(a[i], b[i]);
    }
    assert(a =~= b);
}

} // verus!
