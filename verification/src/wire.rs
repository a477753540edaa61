//! The binary form of the primitive values that messages are made of:
//! integers in little-endian order, a truth value as one byte, a string as
//! its byte length in eight bytes followed by its UTF-8 bytes.
//!
//! The bytes are written and read by `nanoserde`; this module states what
//! each of its primitive encoders and decoders does.

use vstd::prelude::*;
use vstd::utf8::encode_utf8;
use vstd::utf8::valid_utf8;

verus! {

/// The little-endian value of the two bytes at `at`.
pub open spec fn le_u16(b: Seq<u8>, at: int) -> nat {
    (b[at] + 256 * b[at + 1]) as nat
}

/// The little-endian value of the four bytes at `at`.
pub open spec fn le_u32(b: Seq<u8>, at: int) -> nat {
    le_u16(b, at) + 65536 * le_u16(b, at + 2)
}

/// The little-endian value of the eight bytes at `at`.
pub open spec fn le_u64(b: Seq<u8>, at: int) -> nat {
    le_u32(b, at) + 4294967296 * le_u32(b, at + 4)
}

/// The two bytes of `v`, least significant first.
pub open spec fn u16_le(v: nat) -> Seq<u8> {
    seq![(v % 256) as u8, ((v / 256) % 256) as u8]
}

/// The four bytes of `v`, least significant first.
pub open spec fn u32_le(v: nat) -> Seq<u8> {
    u16_le(v % 65536) + u16_le(v / 65536)
}

/// The eight bytes of `v`, least significant first.
pub open spec fn u64_le(v: nat) -> Seq<u8> {
    u32_le(v % 4294967296) + u32_le(v / 4294967296)
}

/// The byte that stands for a truth value.
pub open spec fn bool_byte(v: bool) -> u8 {
    if v {
        1u8
    } else {
        0u8
    }
}

/// The length that an eight-byte prefix at `at` announces, as the reader
/// holds it in a `usize`.
pub open spec fn le_len(b: Seq<u8>, at: int) -> nat {
    le_u64(b, at) % (usize::MAX as nat + 1)
}

/// The binary form of a string: its byte length, then its UTF-8 bytes.
pub open spec fn string_wire(text: Seq<u8>) -> Seq<u8> {
    u64_le(text.len()) + text
}

/// Reading back what was written gives the value, for each width.
pub proof fn lemma_le_roundtrip(v: nat)
    ensures
        v < 65536 ==> le_u16(u16_le(v), 0) == v,
        v < 4294967296 ==> le_u32(u32_le(v), 0) == v,
        v < 18446744073709551616 ==> le_u64(u64_le(v), 0) == v,
        u16_le(v).len() == 2,
        u32_le(v).len() == 4,
        u64_le(v).len() == 8,
{
}

/// A value written in eight bytes is read back from the front of whatever
/// follows it.
pub proof fn lemma_le_u64_prefix(v: nat, rest: Seq<u8>)
    requires
        v < 18446744073709551616,
    ensures
        le_u64(u64_le(v) + rest, 0) == v,
        (u64_le(v) + rest).len() == 8 + rest.len(),
        (u64_le(v) + rest).subrange(8, 8 + rest.len() as int) == rest,
{
    let p = u64_le(v);
    let b = p + rest;
    lemma_le_roundtrip(v);
    assert(p.len() == 8);
    assert(b[0] == p[0] && b[1] == p[1] && b[2] == p[2] && b[3] == p[3]);
    assert(b[4] == p[4] && b[5] == p[5] && b[6] == p[6] && b[7] == p[7]);
    assert(le_u64(b, 0) == le_u64(p, 0));
    assert(b.subrange(8, 8 + rest.len() as int) =~= rest);
}

/// The error of `nanoserde`'s binary reader. Nothing of it is read here: it
/// is mapped to [`DecodeError`].
#[verifier::external_type_specification]
#[verifier::external_body]
pub struct ExDeBinErr(nanoserde::DeBinErr);

/// Why a payload was not understood.
#[derive(Clone, Copy, Debug, PartialEq, Eq, Structural)]
pub enum DecodeError {
    /// The payload ends before the value does.
    Truncated,
    /// A string's bytes are not UTF-8.
    BadText,
    /// An enum's variant number is not known.
    BadVariant,
}

/// `<u8 as DeBin>::de_bin`: with a byte left at the offset, returns it and
/// moves the offset past it; otherwise fails and leaves the offset.
#[verifier::external_body]
pub(crate) fn de_u8(offset: &mut usize, bytes: &[u8]) -> (r: Result<u8, nanoserde::DeBinErr>)
    requires
        *old(offset) <= bytes@.len(),
    ensures
        *old(offset) + 1 <= bytes@.len() ==> r is Ok && r->Ok_0 == bytes@[*old(offset) as int]
            && *final(offset) == *old(offset) + 1,
        *old(offset) + 1 > bytes@.len() ==> r is Err && *final(offset) == *old(offset),
{
    <u8 as nanoserde::DeBin>::de_bin(offset, bytes)
}

/// `<u16 as DeBin>::de_bin`: with two bytes left at the offset, returns
/// their little-endian value and moves the offset past them; otherwise
/// fails and leaves the offset.
#[verifier::external_body]
pub(crate) fn de_u16(offset: &mut usize, bytes: &[u8]) -> (r: Result<u16, nanoserde::DeBinErr>)
    requires
        *old(offset) <= bytes@.len(),
    ensures
        *old(offset) + 2 <= bytes@.len() ==> r is Ok && r->Ok_0 == le_u16(
            bytes@,
            *old(offset) as int,
        ) && *final(offset) == *old(offset) + 2,
        *old(offset) + 2 > bytes@.len() ==> r is Err && *final(offset) == *old(offset),
{
    <u16 as nanoserde::DeBin>::de_bin(offset, bytes)
}

/// `<u32 as DeBin>::de_bin`: with four bytes left at the offset, returns
/// their little-endian value and moves the offset past them; otherwise
/// fails and leaves the offset.
#[verifier::external_body]
pub(crate) fn de_u32(offset: &mut usize, bytes: &[u8]) -> (r: Result<u32, nanoserde::DeBinErr>)
    requires
        *old(offset) <= bytes@.len(),
    ensures
        *old(offset) + 4 <= bytes@.len() ==> r is Ok && r->Ok_0 == le_u32(
            bytes@,
            *old(offset) as int,
        ) && *final(offset) == *old(offset) + 4,
        *old(offset) + 4 > bytes@.len() ==> r is Err && *final(offset) == *old(offset),
{
    <u32 as nanoserde::DeBin>::de_bin(offset, bytes)
}

/// `<u64 as DeBin>::de_bin`: with eight bytes left at the offset, returns
/// their little-endian value and moves the offset past them; otherwise
/// fails and leaves the offset.
#[verifier::external_body]
pub(crate) fn de_u64(offset: &mut usize, bytes: &[u8]) -> (r: Result<u64, nanoserde::DeBinErr>)
    requires
        *old(offset) <= bytes@.len(),
    ensures
        *old(offset) + 8 <= bytes@.len() ==> r is Ok && r->Ok_0 == le_u64(
            bytes@,
            *old(offset) as int,
        ) && *final(offset) == *old(offset) + 8,
        *old(offset) + 8 > bytes@.len() ==> r is Err && *final(offset) == *old(offset),
{
    <u64 as nanoserde::DeBin>::de_bin(offset, bytes)
}

/// `<usize as DeBin>::de_bin`: reads eight bytes as `<u64>` does and
/// converts the value to `usize`, which keeps its low bits.
#[verifier::external_body]
pub(crate) fn de_usize(offset: &mut usize, bytes: &[u8]) -> (r: Result<
    usize,
    nanoserde::DeBinErr,
>)
    requires
        *old(offset) <= bytes@.len(),
    ensures
        *old(offset) + 8 <= bytes@.len() ==> r is Ok && r->Ok_0 == le_len(
            bytes@,
            *old(offset) as int,
        ) && *final(offset) == *old(offset) + 8,
        *old(offset) + 8 > bytes@.len() ==> r is Err && *final(offset) == *old(offset),
{
    <usize as nanoserde::DeBin>::de_bin(offset, bytes)
}

/// `<bool as DeBin>::de_bin`: with a byte left at the offset, returns
/// whether it is non-zero and moves the offset past it; otherwise fails and
/// leaves the offset.
#[verifier::external_body]
pub(crate) fn de_bool(offset: &mut usize, bytes: &[u8]) -> (r: Result<bool, nanoserde::DeBinErr>)
    requires
        *old(offset) <= bytes@.len(),
    ensures
        *old(offset) + 1 <= bytes@.len() ==> r is Ok && r->Ok_0 == (bytes@[*old(offset) as int]
            != 0) && *final(offset) == *old(offset) + 1,
        *old(offset) + 1 > bytes@.len() ==> r is Err && *final(offset) == *old(offset),
{
    <bool as nanoserde::DeBin>::de_bin(offset, bytes)
}

/// `<String as DeBin>::de_bin`, on the inputs on which it returns: a length
/// prefix is there, that many bytes follow it, and they are UTF-8. It then
/// succeeds with the string of those bytes and moves the offset past them.
#[verifier::external_body]
pub(crate) fn de_string(offset: &mut usize, bytes: &[u8]) -> (r: Result<
    String,
    nanoserde::DeBinErr,
>)
    requires
        *old(offset) + 8 + le_len(bytes@, *old(offset) as int) <= bytes@.len(),
        valid_utf8(
            bytes@.subrange(
                *old(offset) + 8,
                *old(offset) + 8 + le_len(bytes@, *old(offset) as int),
            ),
        ),
    ensures
        r is Ok,
        encode_utf8(r->Ok_0@) == bytes@.subrange(
            *old(offset) + 8,
            *old(offset) + 8 + le_len(bytes@, *old(offset) as int),
        ),
        *final(offset) == *old(offset) + 8 + le_len(bytes@, *old(offset) as int),
{
    <String as nanoserde::DeBin>::de_bin(offset, bytes)
}

/// `<[u8; 11] as DeBin>::de_bin`: with eleven bytes left at the offset,
/// returns them and moves the offset past them; otherwise fails.
#[verifier::external_body]
pub(crate) fn de_bytes11(offset: &mut usize, bytes: &[u8]) -> (r: Result<
    [u8; 11],
    nanoserde::DeBinErr,
>)
    requires
        *old(offset) <= bytes@.len(),
    ensures
        *old(offset) + 11 <= bytes@.len() ==> r is Ok && r->Ok_0@ == bytes@.subrange(
            *old(offset) as int,
            *old(offset) + 11,
        ) && *final(offset) == *old(offset) + 11,
        *old(offset) + 11 > bytes@.len() ==> r is Err,
{
    <[u8; 11] as nanoserde::DeBin>::de_bin(offset, bytes)
}

/// `core::str::from_utf8`: succeeds exactly on valid UTF-8.
#[verifier::external_body]
pub(crate) fn is_utf8(bytes: &[u8]) -> (r: bool)
    ensures
        r == valid_utf8(bytes@),
{
    core::str::from_utf8(bytes).is_ok()
}

/// `<u8 as SerBin>::ser_bin`: appends the byte.
#[verifier::external_body]
pub(crate) fn ser_u8(v: u8, out: &mut Vec<u8>)
    ensures
        final(out)@ == old(out)@.push(v),
{
    nanoserde::SerBin::ser_bin(&v, out)
}

/// `<u16 as SerBin>::ser_bin`: appends the two bytes, least significant
/// first.
#[verifier::external_body]
pub(crate) fn ser_u16(v: u16, out: &mut Vec<u8>)
    ensures
        final(out)@ == old(out)@ + u16_le(v as nat),
{
    nanoserde::SerBin::ser_bin(&v, out)
}

/// `<u32 as SerBin>::ser_bin`: appends the four bytes, least significant
/// first.
#[verifier::external_body]
pub(crate) fn ser_u32(v: u32, out: &mut Vec<u8>)
    ensures
        final(out)@ == old(out)@ + u32_le(v as nat),
{
    nanoserde::SerBin::ser_bin(&v, out)
}

/// `<u64 as SerBin>::ser_bin`: appends the eight bytes, least significant
/// first.
#[verifier::external_body]
pub(crate) fn ser_u64(v: u64, out: &mut Vec<u8>)
    ensures
        final(out)@ == old(out)@ + u64_le(v as nat),
{
    nanoserde::SerBin::ser_bin(&v, out)
}

/// `<usize as SerBin>::ser_bin`: appends the value as eight bytes, least
/// significant first.
#[verifier::external_body]
pub(crate) fn ser_usize(v: usize, out: &mut Vec<u8>)
    ensures
        final(out)@ == old(out)@ + u64_le(v as nat),
{
    nanoserde::SerBin::ser_bin(&v, out)
}

/// `<bool as SerBin>::ser_bin`: appends 1 for true and 0 for false.
#[verifier::external_body]
pub(crate) fn ser_bool(v: bool, out: &mut Vec<u8>)
    ensures
        final(out)@ == old(out)@.push(bool_byte(v)),
{
    nanoserde::SerBin::ser_bin(&v, out)
}

/// `<String as SerBin>::ser_bin`: appends the byte length as eight bytes,
/// then the UTF-8 bytes.
#[verifier::external_body]
pub(crate) fn ser_string(v: &String, out: &mut Vec<u8>)
    ensures
        final(out)@ == old(out)@ + string_wire(encode_utf8(v@)),
{
    nanoserde::SerBin::ser_bin(v, out)
}

/// `<[u8; 11] as SerBin>::ser_bin`: appends the eleven bytes.
#[verifier::external_body]
pub(crate) fn ser_bytes11(v: &[u8; 11], out: &mut Vec<u8>)
    ensures
        final(out)@ == old(out)@ + v@,
{
    nanoserde::SerBin::ser_bin(v, out)
}

} // verus!
