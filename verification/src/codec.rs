//! The packed player snapshot: eleven bytes that carry a position, three
//! flags and a weapon identifier.
//!
//! Bits are numbered from the least significant bit of the first byte.
//! `x` is bits 0..10, `y` bits 10..20, `facing` bit 20, `shooting` bit 21,
//! `weapon` bits 22..86 and `dead` bit 86. Bit 87 is spare.

use vstd::prelude::*;
use vstd::arithmetic::power2::pow2;
use vstd::arithmetic::power2::lemma2_to64;
use vstd::arithmetic::div_mod::lemma_small_mod;
use crate::bits::bit_at;
use crate::bits::byte_bit;
use crate::bits::value_bit;
use crate::bits::field;
use crate::bits::bit_range;
use crate::bits::set_bit_range;
use crate::bits::lemma_field_bound;
use crate::bits::lemma_field_of_bits;
use crate::bits::lemma_field_eq;
use crate::bits::lemma_bits_of_field;
use crate::bits::lemma_bytes_ext;

verus! {

/// Number of bytes of an encoded snapshot.
pub const STATE_LEN: usize = 11;

/// What a peer broadcasts about its own player.
#[derive(Clone, Copy, Debug, PartialEq, Eq, Structural)]
pub struct PlayerSnapshot {
    /// Horizontal position, 0..=1023 on the wire.
    pub x: u32,
    /// Vertical position, 0..=1023 on the wire.
    pub y: u32,
    /// Which way the player looks.
    pub facing: bool,
    /// True only on the tick on which a shot started.
    pub shooting: bool,
    /// The item type held, 0 when unarmed.
    pub weapon: u64,
    /// Whether the player is dead.
    pub dead: bool,
}

impl PlayerSnapshot {
    /// The positions fit their ten bits.
    pub open spec fn in_range(self) -> bool {
        self.x < 1024 && self.y < 1024
    }

    /// The snapshot that survives encoding: positions reduced modulo 1024.
    pub open spec fn masked(self) -> PlayerSnapshot {
        PlayerSnapshot {
            x: (self.x % 1024) as u32,
            y: (self.y % 1024) as u32,
            facing: self.facing,
            shooting: self.shooting,
            weapon: self.weapon,
            dead: self.dead,
        }
    }
}

/// The `x` field of an encoded snapshot.
pub open spec fn snap_x(b: Seq<u8>) -> nat {
    field(b, 0, 10)
}

/// The `y` field of an encoded snapshot.
pub open spec fn snap_y(b: Seq<u8>) -> nat {
    field(b, 10, 10)
}

/// The `facing` flag of an encoded snapshot.
pub open spec fn snap_facing(b: Seq<u8>) -> bool {
    bit_at(b, 20)
}

/// The `shooting` flag of an encoded snapshot.
pub open spec fn snap_shooting(b: Seq<u8>) -> bool {
    bit_at(b, 21)
}

/// The `weapon` field of an encoded snapshot.
pub open spec fn snap_weapon(b: Seq<u8>) -> nat {
    field(b, 22, 64)
}

/// The `dead` flag of an encoded snapshot.
pub open spec fn snap_dead(b: Seq<u8>) -> bool {
    bit_at(b, 86)
}

/// The spare bit of an encoded snapshot.
pub open spec fn snap_spare(b: Seq<u8>) -> bool {
    bit_at(b, 87)
}

/// `b` is the encoding of `s`: eleven bytes whose fields hold the values of
/// `s`, positions reduced modulo 1024, and whose spare bit is clear.
pub open spec fn encodes(b: Seq<u8>, s: PlayerSnapshot) -> bool {
    &&& b.len() == 11
    &&& snap_x(b) == s.x % 1024
    &&& snap_y(b) == s.y % 1024
    &&& snap_facing(b) == s.facing
    &&& snap_shooting(b) == s.shooting
    &&& snap_weapon(b) == s.weapon
    &&& snap_dead(b) == s.dead
    &&& !snap_spare(b)
}

/// The encoding of a snapshot. There is exactly one: see
/// [`lemma_encoding_unique`] and [`encode`].
pub open spec fn spec_encode(s: PlayerSnapshot) -> Seq<u8> {
    choose|b: Seq<u8>| encodes(b, s)
}

/// The snapshot that eleven bytes stand for.
pub open spec fn spec_decode(b: Seq<u8>) -> PlayerSnapshot {
    PlayerSnapshot {
        x: snap_x(b) as u32,
        y: snap_y(b) as u32,
        facing: snap_facing(b),
        shooting: snap_shooting(b),
        weapon: snap_weapon(b) as u64,
        dead: snap_dead(b),
    }
}

/// Bits outside `lsb..=msb` are the same in `a` and `b`.
pub open spec fn same_outside(a: Seq<u8>, b: Seq<u8>, lsb: int, msb: int) -> bool {
    forall|j: int| 0 <= j < 88 && !(lsb <= j <= msb) ==> #[trigger] bit_at(b, j) == bit_at(a, j)
}

/// Fields that lie outside a rewritten bit range keep their values.
pub proof fn lemma_untouched(a: Seq<u8>, b: Seq<u8>, lsb: int, msb: int)
    requires
        same_outside(a, b, lsb, msb),
    ensures
        (msb < 0 || 9 < lsb) ==> snap_x(b) == snap_x(a),
        (msb < 10 || 19 < lsb) ==> snap_y(b) == snap_y(a),
        (msb < 20 || 20 < lsb) ==> snap_facing(b) == snap_facing(a),
        (msb < 21 || 21 < lsb) ==> snap_shooting(b) == snap_shooting(a),
        (msb < 22 || 85 < lsb) ==> snap_weapon(b) == snap_weapon(a),
        (msb < 86 || 86 < lsb) ==> snap_dead(b) == snap_dead(a),
        (msb < 87 || 87 < lsb) ==> snap_spare(b) == snap_spare(a),
{
    if msb < 0 || 9 < lsb {
        lemma_field_eq(b, a, 0, 10);
    }
    if msb < 10 || 19 < lsb {
        lemma_field_eq(b, a, 10, 10);
    }
    if msb < 22 || 85 < lsb {
        lemma_field_eq(b, a, 22, 64);
    }
}

/// The eleven bytes of a snapshot, read and written field by field.
#[derive(Clone, Copy, Debug)]
pub struct PlayerStateBits(pub [u8; 11]);

impl PlayerStateBits {
    /// The bytes held.
    pub open spec fn bytes(self) -> Seq<u8> {
        self.0@
    }

    /// Reads one bit.
    fn bit(&self, bit: usize) -> (r: bool)
        requires
            bit < 88,
        ensures
            r == bit_at(self.bytes(), bit as int),
    {
        proof {
            reveal_with_fuel(field, 2);
        }
        bit_range(&self.0, bit, bit) != 0
    }

    /// Writes one bit and keeps all others.
    fn set_bit(&mut self, bit: usize, value: bool)
        requires
            bit < 88,
        ensures
            bit_at(final(self).bytes(), bit as int) == value,
            same_outside(old(self).bytes(), final(self).bytes(), bit as int, bit as int),
    {
        proof {
            lemma2_to64();
            assert(1nat / 1 == 1);
            assert(0nat / 1 == 0);
        }
        set_bit_range(&mut self.0, bit, bit, if value { 1 } else { 0 });
    }

    /// Writes `value` into bits `lsb..=msb` and keeps all others.
    fn set_field(&mut self, msb: usize, lsb: usize, value: u64)
        requires
            lsb <= msb < 88,
        ensures
            field(final(self).bytes(), lsb as int, (msb - lsb + 1) as nat) == value as nat % pow2(
                (msb - lsb + 1) as nat,
            ),
            same_outside(old(self).bytes(), final(self).bytes(), lsb as int, msb as int),
    {
        set_bit_range(&mut self.0, msb, lsb, value);
        proof {
            lemma_field_of_bits(self.bytes(), lsb as int, (msb - lsb + 1) as nat, value as nat);
        }
    }

    /// The horizontal position.
    pub fn x(&self) -> (r: u32)
        ensures
            r == snap_x(self.bytes()),
            r < 1024,
    {
        proof {
            lemma_field_bound(self.bytes(), 0, 10);
            lemma2_to64();
        }
        bit_range(&self.0, 9, 0) as u32
    }

    /// Stores the low ten bits of `value` as the horizontal position.
    pub fn set_x(&mut self, value: u32)
        ensures
            snap_x(final(self).bytes()) == value % 1024,
            same_outside(old(self).bytes(), final(self).bytes(), 0, 9),
    {
        proof {
            lemma2_to64();
        }
        self.set_field(9, 0, value as u64);
    }

    /// The vertical position.
    pub fn y(&self) -> (r: u32)
        ensures
            r == snap_y(self.bytes()),
            r < 1024,
    {
        proof {
            lemma_field_bound(self.bytes(), 10, 10);
            lemma2_to64();
        }
        bit_range(&self.0, 19, 10) as u32
    }

    /// Stores the low ten bits of `value` as the vertical position.
    pub fn set_y(&mut self, value: u32)
        ensures
            snap_y(final(self).bytes()) == value % 1024,
            same_outside(old(self).bytes(), final(self).bytes(), 10, 19),
    {
        proof {
            lemma2_to64();
        }
        self.set_field(19, 10, value as u64);
    }

    /// The facing flag.
    pub fn facing(&self) -> (r: bool)
        ensures
            r == snap_facing(self.bytes()),
    {
        self.bit(20)
    }

    /// Stores the facing flag.
    pub fn set_facing(&mut self, value: bool)
        ensures
            snap_facing(final(self).bytes()) == value,
            same_outside(old(self).bytes(), final(self).bytes(), 20, 20),
    {
        self.set_bit(20, value);
    }

    /// The shooting flag.
    pub fn shooting(&self) -> (r: bool)
        ensures
            r == snap_shooting(self.bytes()),
    {
        self.bit(21)
    }

    /// Stores the shooting flag.
    pub fn set_shooting(&mut self, value: bool)
        ensures
            snap_shooting(final(self).bytes()) == value,
            same_outside(old(self).bytes(), final(self).bytes(), 21, 21),
    {
        self.set_bit(21, value);
    }

    /// The weapon identifier.
    pub fn weapon(&self) -> (r: u64)
        ensures
            r == snap_weapon(self.bytes()),
    {
        bit_range(&self.0, 85, 22)
    }

    /// Stores the weapon identifier.
    pub fn set_weapon(&mut self, value: u64)
        ensures
            snap_weapon(final(self).bytes()) == value,
            same_outside(old(self).bytes(), final(self).bytes(), 22, 85),
    {
        proof {
            lemma2_to64();
            lemma_small_mod(value as nat, pow2(64));
        }
        self.set_field(85, 22, value);
    }

    /// The dead flag.
    pub fn dead(&self) -> (r: bool)
        ensures
            r == snap_dead(self.bytes()),
    {
        self.bit(86)
    }

    /// Stores the dead flag.
    pub fn set_dead(&mut self, value: bool)
        ensures
            snap_dead(final(self).bytes()) == value,
            same_outside(old(self).bytes(), final(self).bytes(), 86, 86),
    {
        self.set_bit(86, value);
    }
}

/// Packs a snapshot into its eleven bytes. Positions above 1023 lose their
/// high bits; nothing is rejected.
pub fn encode(s: &PlayerSnapshot) -> (out: [u8; 11])
    ensures
        encodes(out@, *s),
        out@ == spec_encode(*s),
{
    let mut bits = PlayerStateBits([0u8; 11]);
    let ghost b0 = bits.bytes();
    proof {
        assert(b0[10] == 0u8);
        assert(!crate::bits::byte_bit(0u8, 7u8)) by (bit_vector);
    }
    bits.set_x(s.x);
    let ghost b1 = bits.bytes();
    bits.set_y(s.y);
    let ghost b2 = bits.bytes();
    bits.set_facing(s.facing);
    let ghost b3 = bits.bytes();
    bits.set_shooting(s.shooting);
    let ghost b4 = bits.bytes();
    bits.set_weapon(s.weapon);
    let ghost b5 = bits.bytes();
    bits.set_dead(s.dead);
    proof {
        lemma_untouched(b0, b1, 0, 9);
        lemma_untouched(b1, b2, 10, 19);
        lemma_untouched(b2, b3, 20, 20);
        lemma_untouched(b3, b4, 21, 21);
        lemma_untouched(b4, b5, 22, 85);
        lemma_untouched(b5, bits.bytes(), 86, 86);
        lemma_encoding_unique(bits.bytes(), spec_encode(*s), *s);
    }
    bits.0
}

/// Unpacks eleven bytes. Every input is a snapshot: there is no error.
pub fn decode(bytes: &[u8; 11]) -> (s: PlayerSnapshot)
    ensures
        s == spec_decode(bytes@),
        s.in_range(),
{
    let bits = PlayerStateBits(*bytes);
    PlayerSnapshot {
        x: bits.x(),
        y: bits.y(),
        facing: bits.facing(),
        shooting: bits.shooting(),
        weapon: bits.weapon(),
        dead: bits.dead(),
    }
}

/// Decoding an encoding gives the snapshot back, positions reduced modulo
/// 1024; a snapshot whose positions are in range comes back unchanged.
pub proof fn lemma_decode_encode(b: Seq<u8>, s: PlayerSnapshot)
    requires
        encodes(b, s),
    ensures
        spec_decode(b) == s.masked(),
        s.in_range() ==> spec_decode(b) == s,
{
}

/// A snapshot has one encoding only.
pub proof fn lemma_encoding_unique(b1: Seq<u8>, b2: Seq<u8>, s: PlayerSnapshot)
    requires
        encodes(b1, s),
        encodes(b2, s),
    ensures
        b1 == b2,
{
    assert forall|j: int| 0 <= j < 88 implies #[trigger] bit_at(b1, j) == bit_at(b2, j) by {
        if j < 10 {
            lemma_bits_of_field(b1, 0, 10, j as nat);
            lemma_bits_of_field(b2, 0, 10, j as nat);
        } else if j < 20 {
            lemma_bits_of_field(b1, 10, 10, (j - 10) as nat);
            lemma_bits_of_field(b2, 10, 10, (j - 10) as nat);
        } else if 22 <= j < 86 {
            lemma_bits_of_field(b1, 22, 64, (j - 22) as nat);
            lemma_bits_of_field(b2, 22, 64, (j - 22) as nat);
        }
    }
    lemma_bytes_ext(b1, b2, 11);
}

/// The bit that stands at place `j` of the encoding of `s`.
pub open spec fn layout_bit(s: PlayerSnapshot, j: int) -> bool {
    if j < 10 {
        value_bit(s.x as nat, j as nat)
    } else if j < 20 {
        value_bit(s.y as nat, (j - 10) as nat)
    } else if j == 20 {
        s.facing
    } else if j == 21 {
        s.shooting
    } else if j < 86 {
        value_bit(s.weapon as nat, (j - 22) as nat)
    } else if j == 86 {
        s.dead
    } else {
        false
    }
}

/// The byte whose bits, from the least significant, are the eight given.
spec fn byte_of(b0: bool, b1: bool, b2: bool, b3: bool, b4: bool, b5: bool, b6: bool, b7: bool) -> u8 {
    (if b0 { 1u8 } else { 0u8 }) | (if b1 { 2u8 } else { 0u8 }) | (if b2 { 4u8 } else { 0u8 }) | (if b3 {
        8u8
    } else {
        0u8
    }) | (if b4 { 16u8 } else { 0u8 }) | (if b5 { 32u8 } else { 0u8 }) | (if b6 { 64u8 } else { 0u8 })
        | (if b7 { 128u8 } else { 0u8 })
}

/// Each bit of [`byte_of`] is the one given for its place.
proof fn lemma_byte_of(
    b0: bool,
    b1: bool,
    b2: bool,
    b3: bool,
    b4: bool,
    b5: bool,
    b6: bool,
    b7: bool,
)
    by (bit_vector)
    ensures
        byte_bit(byte_of(b0, b1, b2, b3, b4, b5, b6, b7), 0) == b0,
        byte_bit(byte_of(b0, b1, b2, b3, b4, b5, b6, b7), 1) == b1,
        byte_bit(byte_of(b0, b1, b2, b3, b4, b5, b6, b7), 2) == b2,
        byte_bit(byte_of(b0, b1, b2, b3, b4, b5, b6, b7), 3) == b3,
        byte_bit(byte_of(b0, b1, b2, b3, b4, b5, b6, b7), 4) == b4,
        byte_bit(byte_of(b0, b1, b2, b3, b4, b5, b6, b7), 5) == b5,
        byte_bit(byte_of(b0, b1, b2, b3, b4, b5, b6, b7), 6) == b6,
        byte_bit(byte_of(b0, b1, b2, b3, b4, b5, b6, b7), 7) == b7,
{
}

/// Byte `i` of the encoding of `s`, made of its eight bits.
spec fn layout_byte(s: PlayerSnapshot, i: int) -> u8 {
    byte_of(
        layout_bit(s, 8 * i),
        layout_bit(s, 8 * i + 1),
        layout_bit(s, 8 * i + 2),
        layout_bit(s, 8 * i + 3),
        layout_bit(s, 8 * i + 4),
        layout_bit(s, 8 * i + 5),
        layout_bit(s, 8 * i + 6),
        layout_bit(s, 8 * i + 7),
    )
}

/// Every snapshot has an encoding, and [`spec_encode`] is it; its bit at
/// each place is the one that the layout names.
pub proof fn lemma_encoding_exists(s: PlayerSnapshot)
    ensures
        encodes(spec_encode(s), s),
        forall|j: int| 0 <= j < 88 ==> #[trigger] bit_at(spec_encode(s), j) == layout_bit(s, j),
{
    let b = Seq::new(11, |i: int| layout_byte(s, i));
    assert forall|j: int| 0 <= j < 88 implies #[trigger] bit_at(b, j) == layout_bit(s, j) by {
        let i = j / 8;
        assert(b[i] == layout_byte(s, i));
        lemma_byte_of(
            layout_bit(s, 8 * i),
            layout_bit(s, 8 * i + 1),
            layout_bit(s, 8 * i + 2),
            layout_bit(s, 8 * i + 3),
            layout_bit(s, 8 * i + 4),
            layout_bit(s, 8 * i + 5),
            layout_bit(s, 8 * i + 6),
            layout_bit(s, 8 * i + 7),
        );
    }
    lemma2_to64();
    lemma_field_of_bits(b, 0, 10, s.x as nat);
    lemma_field_of_bits(b, 10, 10, s.y as nat);
    lemma_field_of_bits(b, 22, 64, s.weapon as nat);
    lemma_small_mod(s.weapon as nat, pow2(64));
    assert(encodes(b, s));
    lemma_encoding_unique(b, spec_encode(s), s);
}

/// Eleven bytes whose spare bit is clear are the encoding of the snapshot
/// that they decode to.
pub proof fn lemma_encode_decode(b: Seq<u8>)
    requires
        b.len() == 11,
        !snap_spare(b),
    ensures
        encodes(b, spec_decode(b)),
{
    lemma2_to64();
    lemma_field_bound(b, 0, 10);
    lemma_field_bound(b, 10, 10);
    lemma_field_bound(b, 22, 64);
}

} // verus!
