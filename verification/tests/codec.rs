use fishgame::bits::{bit_range, set_bit_range};
use fishgame::codec::{decode, encode, PlayerSnapshot, PlayerStateBits};

#[test]
fn nakama_realtime_game_test_bitfield() {
    let mut bits = PlayerStateBits([0; 11]);

    bits.set_x(345);
    bits.set_y(567);
    bits.set_facing(true);
    bits.set_shooting(false);
    bits.set_weapon(11527428624421318257);

    assert_eq!(bits.x(), 345);
    assert_eq!(bits.y(), 567);
    assert_eq!(bits.facing(), true);
    assert_eq!(bits.shooting(), false);
    assert_eq!(bits.weapon(), 11527428624421318257);
    assert_eq!(bits.dead(), false);
    assert_eq!(std::mem::size_of_val(&bits), 11);
}

fn snapshot(x: u32, y: u32, facing: bool, shooting: bool, weapon: u64, dead: bool) -> PlayerSnapshot {
    PlayerSnapshot { x, y, facing, shooting, weapon, dead }
}

#[test]
fn concrete_vector_round_trips() {
    let s = snapshot(345, 567, true, false, 11527428624421318257, false);
    let bytes = encode(&s);
    assert_eq!(bytes.len(), 11);
    assert_eq!(bytes, [89, 221, 88, 156, 91, 19, 147, 208, 105, 254, 39]);
    assert_eq!(decode(&bytes), s);
}

#[test]
fn all_fields_at_their_maximum() {
    let s = snapshot(1023, 1023, true, true, u64::MAX, true);
    let bytes = encode(&s);
    assert_eq!(bytes, [255, 255, 255, 255, 255, 255, 255, 255, 255, 255, 127]);
    assert_eq!(decode(&bytes), s);
}

#[test]
fn all_fields_at_zero() {
    let s = snapshot(0, 0, false, false, 0, false);
    assert_eq!(encode(&s), [0u8; 11]);
    assert_eq!(decode(&[0u8; 11]), s);
}

#[test]
fn round_trip_at_boundary_values() {
    for &x in &[0u32, 1, 1023] {
        for &y in &[0u32, 512, 1023] {
            for &weapon in &[0u64, 1, u64::MAX] {
                for flags in 0..8u8 {
                    let s = snapshot(x, y, flags & 1 != 0, flags & 2 != 0, weapon, flags & 4 != 0);
                    assert_eq!(decode(&encode(&s)), s);
                }
            }
        }
    }
}

#[test]
fn positions_out_of_range_are_truncated() {
    let s = snapshot(1024 + 5, 4096 + 7, false, false, 9, false);
    let back = decode(&encode(&s));
    assert_eq!(back, snapshot(5, 7, false, false, 9, false));
}

#[test]
fn each_field_has_its_own_bits() {
    assert_eq!(encode(&snapshot(1, 0, false, false, 0, false)), [1, 0, 0, 0, 0, 0, 0, 0, 0, 0, 0]);
    assert_eq!(encode(&snapshot(0, 1, false, false, 0, false)), [0, 4, 0, 0, 0, 0, 0, 0, 0, 0, 0]);
    assert_eq!(encode(&snapshot(0, 0, true, false, 0, false)), [0, 0, 16, 0, 0, 0, 0, 0, 0, 0, 0]);
    assert_eq!(encode(&snapshot(0, 0, false, true, 0, false)), [0, 0, 32, 0, 0, 0, 0, 0, 0, 0, 0]);
    assert_eq!(encode(&snapshot(0, 0, false, false, 1, false)), [0, 0, 64, 0, 0, 0, 0, 0, 0, 0, 0]);
    assert_eq!(encode(&snapshot(0, 0, false, false, 0, true)), [0, 0, 0, 0, 0, 0, 0, 0, 0, 0, 64]);
}

#[test]
fn the_spare_bit_is_ignored_by_decode() {
    let mut bytes = encode(&snapshot(7, 8, true, false, 3, true));
    bytes[10] |= 0x80;
    assert_eq!(decode(&bytes), snapshot(7, 8, true, false, 3, true));
}

#[test]
fn setters_leave_other_fields_alone() {
    let mut bits = PlayerStateBits(encode(&snapshot(1023, 1023, true, true, u64::MAX, true)));
    bits.set_y(0);
    assert_eq!(bits.x(), 1023);
    assert_eq!(bits.y(), 0);
    assert_eq!(bits.weapon(), u64::MAX);
    bits.set_weapon(0);
    assert_eq!(bits.facing(), true);
    assert_eq!(bits.shooting(), true);
    assert_eq!(bits.dead(), true);
    bits.set_dead(false);
    assert_eq!(bits.0, [255, 3, 48, 0, 0, 0, 0, 0, 0, 0, 0]);
}

#[test]
fn bit_ranges_cross_byte_borders() {
    let mut bytes = [0u8; 11];
    set_bit_range(&mut bytes, 11, 4, 0xAB);
    assert_eq!(bytes[0], 0xB0);
    assert_eq!(bytes[1], 0x0A);
    assert_eq!(bit_range(&bytes, 11, 4), 0xAB);
    assert_eq!(bit_range(&bytes, 7, 4), 0xB);
    set_bit_range(&mut bytes, 11, 4, 0x1FF);
    assert_eq!(bit_range(&bytes, 11, 4), 0xFF);
    assert_eq!(bit_range(&bytes, 12, 12), 0);
}
