//! Fixed-width integers on the wire, in either byte order.
//!
//! The value of a field is defined arithmetically over the bytes that hold
//! it; the executable readers and writers are proved against those
//! definitions, and the two directions are proved to be inverse.

use byteorder::{BigEndian, LittleEndian, WriteBytesExt};
use byteorder_slice::result::ReadSlice;
use core::str::Utf8Error;
use vstd::prelude::*;
use vstd::slice::slice_subrange;
use vstd::utf8::{decode_utf8, encode_utf8, valid_utf8};

use crate::common::Endianness;

verus! {

/// The big-endian value of the two bytes of `s` at `i`.
pub open spec fn be_u16(s: Seq<u8>, i: int) -> u16 {
    (s[i] as int * 0x100 + s[i + 1] as int) as u16
}

/// The big-endian value of the four bytes of `s` at `i`.
pub open spec fn be_u32(s: Seq<u8>, i: int) -> u32 {
    (s[i] as int * 0x100_0000 + s[i + 1] as int * 0x1_0000 + s[i + 2] as int * 0x100 + s[i
        + 3] as int) as u32
}

/// The big-endian value of the eight bytes of `s` at `i`.
pub open spec fn be_u64(s: Seq<u8>, i: int) -> u64 {
    (be_u32(s, i) as int * 0x1_0000_0000 + be_u32(s, i + 4) as int) as u64
}

/// The little-endian value of the two bytes of `s` at `i`.
pub open spec fn le_u16(s: Seq<u8>, i: int) -> u16 {
    (s[i + 1] as int * 0x100 + s[i] as int) as u16
}

/// The little-endian value of the four bytes of `s` at `i`.
pub open spec fn le_u32(s: Seq<u8>, i: int) -> u32 {
    (s[i + 3] as int * 0x100_0000 + s[i + 2] as int * 0x1_0000 + s[i + 1] as int * 0x100 + s[i] as int) as u32
}

/// The little-endian value of the eight bytes of `s` at `i`.
pub open spec fn le_u64(s: Seq<u8>, i: int) -> u64 {
    (le_u32(s, i + 4) as int * 0x1_0000_0000 + le_u32(s, i) as int) as u64
}

/// The two bytes that hold `v`, most significant first.
pub open spec fn be_bytes_u16(v: u16) -> Seq<u8> {
    seq![(v / 0x100) as u8, (v % 0x100) as u8]
}

/// The four bytes that hold `v`, most significant first.
pub open spec fn be_bytes_u32(v: u32) -> Seq<u8> {
    seq![
        (v / 0x100_0000) as u8,
        (v / 0x1_0000 % 0x100) as u8,
        (v / 0x100 % 0x100) as u8,
        (v % 0x100) as u8,
    ]
}

/// The eight bytes that hold `v`, most significant first.
pub open spec fn be_bytes_u64(v: u64) -> Seq<u8> {
    be_bytes_u32((v / 0x1_0000_0000) as u32) + be_bytes_u32((v % 0x1_0000_0000) as u32)
}

/// The two bytes that hold `v`, least significant first.
pub open spec fn le_bytes_u16(v: u16) -> Seq<u8> {
    seq![(v % 0x100) as u8, (v / 0x100) as u8]
}

/// The four bytes that hold `v`, least significant first.
pub open spec fn le_bytes_u32(v: u32) -> Seq<u8> {
    seq![
        (v % 0x100) as u8,
        (v / 0x100 % 0x100) as u8,
        (v / 0x1_0000 % 0x100) as u8,
        (v / 0x100_0000) as u8,
    ]
}

/// The eight bytes that hold `v`, least significant first.
pub open spec fn le_bytes_u64(v: u64) -> Seq<u8> {
    le_bytes_u32((v % 0x1_0000_0000) as u32) + le_bytes_u32((v / 0x1_0000_0000) as u32)
}

/// The value of the two bytes of `s` at `i` in byte order `e`.
#[verifier::opaque]
pub open spec fn u16_at(e: Endianness, s: Seq<u8>, i: int) -> u16 {
    match e {
        Endianness::Big => be_u16(s, i),
        Endianness::Little => le_u16(s, i),
    }
}

/// The value of the four bytes of `s` at `i` in byte order `e`.
#[verifier::opaque]
pub open spec fn u32_at(e: Endianness, s: Seq<u8>, i: int) -> u32 {
    match e {
        Endianness::Big => be_u32(s, i),
        Endianness::Little => le_u32(s, i),
    }
}

/// The value of the eight bytes of `s` at `i` in byte order `e`.
#[verifier::opaque]
pub open spec fn u64_at(e: Endianness, s: Seq<u8>, i: int) -> u64 {
    match e {
        Endianness::Big => be_u64(s, i),
        Endianness::Little => le_u64(s, i),
    }
}

/// The two's complement reading of `v` as a signed number.
pub open spec fn as_signed32(v: u32) -> i32 {
    if v < 0x8000_0000 {
        v as i32
    } else {
        (v as int - 0x1_0000_0000) as i32
    }
}

/// The two's complement reading of `v` as a signed number.
pub open spec fn as_signed64(v: u64) -> i64 {
    if v < 0x8000_0000_0000_0000 {
        v as i64
    } else {
        (v as int - 0x1_0000_0000_0000_0000) as i64
    }
}

/// The unsigned number with the two's complement bits of `v`.
pub open spec fn as_unsigned32(v: i32) -> u32 {
    if v >= 0 {
        v as u32
    } else {
        (v as int + 0x1_0000_0000) as u32
    }
}

/// The unsigned number with the two's complement bits of `v`.
pub open spec fn as_unsigned64(v: i64) -> u64 {
    if v >= 0 {
        v as u64
    } else {
        (v as int + 0x1_0000_0000_0000_0000) as u64
    }
}

/// The signed value of the four bytes of `s` at `i` in byte order `e`.
pub open spec fn i32_at(e: Endianness, s: Seq<u8>, i: int) -> i32 {
    as_signed32(u32_at(e, s, i))
}

/// The signed value of the eight bytes of `s` at `i` in byte order `e`.
pub open spec fn i64_at(e: Endianness, s: Seq<u8>, i: int) -> i64 {
    as_signed64(u64_at(e, s, i))
}

/// The two bytes that hold `v` in byte order `e`.
#[verifier::opaque]
pub open spec fn bytes_u16(e: Endianness, v: u16) -> Seq<u8> {
    match e {
        Endianness::Big => be_bytes_u16(v),
        Endianness::Little => le_bytes_u16(v),
    }
}

/// The four bytes that hold `v` in byte order `e`.
#[verifier::opaque]
pub open spec fn bytes_u32(e: Endianness, v: u32) -> Seq<u8> {
    match e {
        Endianness::Big => be_bytes_u32(v),
        Endianness::Little => le_bytes_u32(v),
    }
}

/// The eight bytes that hold `v` in byte order `e`.
#[verifier::opaque]
pub open spec fn bytes_u64(e: Endianness, v: u64) -> Seq<u8> {
    match e {
        Endianness::Big => be_bytes_u64(v),
        Endianness::Little => le_bytes_u64(v),
    }
}

/// The four bytes that hold the signed `v` in byte order `e`.
pub open spec fn bytes_i32(e: Endianness, v: i32) -> Seq<u8> {
    bytes_u32(e, as_unsigned32(v))
}

/// The eight bytes that hold the signed `v` in byte order `e`.
pub open spec fn bytes_i64(e: Endianness, v: i64) -> Seq<u8> {
    bytes_u64(e, as_unsigned64(v))
}

/// Number of zero bytes that follow a field of `len` bytes to reach the next
/// 32-bit boundary.
pub open spec fn pad_len(len: int) -> int {
    (4 - len % 4) % 4
}

/// `n` zero bytes.
pub open spec fn zeros(n: int) -> Seq<u8> {
    Seq::new(n as nat, |i: int| 0u8)
}

/// The fields have their widths.
pub broadcast proof fn lemma_bytes_u16_len(e: Endianness, v: u16)
    ensures
        #[trigger] bytes_u16(e, v).len() == 2,
{
    reveal(bytes_u16);
}

/// The fields have their widths.
pub broadcast proof fn lemma_bytes_u32_len(e: Endianness, v: u32)
    ensures
        #[trigger] bytes_u32(e, v).len() == 4,
{
    reveal(bytes_u32);
}

/// The fields have their widths.
pub broadcast proof fn lemma_bytes_u64_len(e: Endianness, v: u64)
    ensures
        #[trigger] bytes_u64(e, v).len() == 8,
{
    reveal(bytes_u64);
}

/// Reading back what was written yields the value, in both byte orders.
pub broadcast proof fn lemma_u16_read_back(e: Endianness, v: u16)
    ensures
        #[trigger] u16_at(e, bytes_u16(e, v), 0) == v,
{
    reveal(bytes_u16);
    reveal(u16_at);
}

/// Reading back what was written yields the value, in both byte orders.
pub broadcast proof fn lemma_u32_read_back(e: Endianness, v: u32)
    ensures
        #[trigger] u32_at(e, bytes_u32(e, v), 0) == v,
{
    reveal(bytes_u32);
    reveal(u32_at);
}

/// Reading back what was written yields the value, in both byte orders.
pub broadcast proof fn lemma_u64_read_back(e: Endianness, v: u64)
    ensures
        #[trigger] u64_at(e, bytes_u64(e, v), 0) == v,
{
    reveal(bytes_u64);
    reveal(u64_at);
    let hi = (v / 0x1_0000_0000) as u32;
    let lo = (v % 0x1_0000_0000) as u32;
    lemma_u32_read_back(e, hi);
    lemma_u32_read_back(e, lo);
    reveal(bytes_u32);
    reveal(u32_at);
    let s = bytes_u64(e, v);
    match e {
        Endianness::Big => {
            assert(be_u32(s, 0) == be_u32(be_bytes_u32(hi), 0));
            assert(be_u32(s, 4) == be_u32(be_bytes_u32(lo), 0));
        },
        Endianness::Little => {
            assert(le_u32(s, 0) == le_u32(le_bytes_u32(lo), 0));
            assert(le_u32(s, 4) == le_u32(le_bytes_u32(hi), 0));
        },
    }
}

/// A field that lies within the first of two joined sequences is a field of
/// the first; one that lies behind it is a field of the second.
pub broadcast proof fn lemma_u16_at_concat(e: Endianness, a: Seq<u8>, b: Seq<u8>, i: int)
    ensures
        0 <= i && i + 2 <= a.len() ==> #[trigger] u16_at(e, a + b, i) == u16_at(e, a, i),
        a.len() <= i && i + 2 <= a.len() + b.len() ==> u16_at(e, a + b, i) == u16_at(
            e,
            b,
            i - a.len(),
        ),
{
    reveal(u16_at);
}

/// A field that lies within the first of two joined sequences is a field of
/// the first; one that lies behind it is a field of the second.
pub broadcast proof fn lemma_u32_at_concat(e: Endianness, a: Seq<u8>, b: Seq<u8>, i: int)
    ensures
        0 <= i && i + 4 <= a.len() ==> #[trigger] u32_at(e, a + b, i) == u32_at(e, a, i),
        a.len() <= i && i + 4 <= a.len() + b.len() ==> u32_at(e, a + b, i) == u32_at(
            e,
            b,
            i - a.len(),
        ),
{
    reveal(u32_at);
}

/// A field that lies within the first of two joined sequences is a field of
/// the first; one that lies behind it is a field of the second.
pub broadcast proof fn lemma_u64_at_concat(e: Endianness, a: Seq<u8>, b: Seq<u8>, i: int)
    ensures
        0 <= i && i + 8 <= a.len() ==> #[trigger] u64_at(e, a + b, i) == u64_at(e, a, i),
        a.len() <= i && i + 8 <= a.len() + b.len() ==> u64_at(e, a + b, i) == u64_at(
            e,
            b,
            i - a.len(),
        ),
{
    reveal(u64_at);
}

/// A field of a part of a sequence is a field of the sequence.
pub broadcast proof fn lemma_u16_at_subrange(e: Endianness, s: Seq<u8>, from: int, to: int, i: int)
    ensures
        0 <= from && 0 <= i && from + i + 2 <= to <= s.len() ==> #[trigger] u16_at(
            e,
            s.subrange(from, to),
            i,
        ) == u16_at(e, s, from + i),
{
    reveal(u16_at);
}

/// A field of a part of a sequence is a field of the sequence.
pub broadcast proof fn lemma_u32_at_subrange(e: Endianness, s: Seq<u8>, from: int, to: int, i: int)
    ensures
        0 <= from && 0 <= i && from + i + 4 <= to <= s.len() ==> #[trigger] u32_at(
            e,
            s.subrange(from, to),
            i,
        ) == u32_at(e, s, from + i),
{
    reveal(u32_at);
}

/// A field of a part of a sequence is a field of the sequence.
pub broadcast proof fn lemma_u64_at_subrange(e: Endianness, s: Seq<u8>, from: int, to: int, i: int)
    ensures
        0 <= from && 0 <= i && from + i + 8 <= to <= s.len() ==> #[trigger] u64_at(
            e,
            s.subrange(from, to),
            i,
        ) == u64_at(e, s, from + i),
{
    reveal(u64_at);
}

/// Writing the value that was read yields the bytes it was read from.
pub broadcast proof fn lemma_u16_write_back(e: Endianness, s: Seq<u8>, i: int)
    ensures
        0 <= i && i + 2 <= s.len() ==> #[trigger] bytes_u16(e, u16_at(e, s, i)) == s.subrange(
            i,
            i + 2,
        ),
{
    reveal(bytes_u16);
    reveal(u16_at);
    if 0 <= i && i + 2 <= s.len() {
        assert(bytes_u16(e, u16_at(e, s, i)) =~= s.subrange(i, i + 2));
    }
}

/// Writing the value that was read yields the bytes it was read from.
pub broadcast proof fn lemma_u32_write_back(e: Endianness, s: Seq<u8>, i: int)
    ensures
        0 <= i && i + 4 <= s.len() ==> #[trigger] bytes_u32(e, u32_at(e, s, i)) == s.subrange(
            i,
            i + 4,
        ),
{
    reveal(bytes_u32);
    reveal(u32_at);
    if 0 <= i && i + 4 <= s.len() {
        let (a, b, c, d) = match e {
            Endianness::Big => (s[i] as int, s[i + 1] as int, s[i + 2] as int, s[i + 3] as int),
            Endianness::Little => (s[i + 3] as int, s[i + 2] as int, s[i + 1] as int, s[i] as int),
        };
        let v = a * 0x100_0000 + b * 0x1_0000 + c * 0x100 + d;
        assert(u32_at(e, s, i) == v);
        assert(v / 0x100_0000 == a);
        assert(v / 0x1_0000 % 0x100 == b);
        assert(v / 0x100 % 0x100 == c);
        assert(v % 0x100 == d);
        assert(bytes_u32(e, u32_at(e, s, i)) =~= s.subrange(i, i + 4));
    }
}

/// Writing the value that was read yields the bytes it was read from.
pub broadcast proof fn lemma_u64_write_back(e: Endianness, s: Seq<u8>, i: int)
    ensures
        0 <= i && i + 8 <= s.len() ==> #[trigger] bytes_u64(e, u64_at(e, s, i)) == s.subrange(
            i,
            i + 8,
        ),
{
    if 0 <= i && i + 8 <= s.len() {
        lemma_u32_write_back(e, s, i);
        lemma_u32_write_back(e, s, i + 4);
        reveal(bytes_u64);
        reveal(u64_at);
        reveal(bytes_u32);
        reveal(u32_at);
        let (hi, lo) = match e {
            Endianness::Big => (u32_at(e, s, i), u32_at(e, s, i + 4)),
            Endianness::Little => (u32_at(e, s, i + 4), u32_at(e, s, i)),
        };
        let v = hi as int * 0x1_0000_0000 + lo as int;
        assert(u64_at(e, s, i) == v);
        assert(v / 0x1_0000_0000 == hi);
        assert(v % 0x1_0000_0000 == lo);
        assert(bytes_u64(e, u64_at(e, s, i)) =~= s.subrange(i, i + 4) + s.subrange(i + 4, i + 8));
        assert(s.subrange(i, i + 4) + s.subrange(i + 4, i + 8) =~= s.subrange(i, i + 8));
    }
}

/// The signed and the unsigned readings of a word are inverse.
pub broadcast proof fn lemma_signed32_unsigned(v: i32)
    ensures
        #[trigger] as_signed32(as_unsigned32(v)) == v,
{
}

/// The signed and the unsigned readings of a word are inverse.
pub broadcast proof fn lemma_unsigned32_signed(u: u32)
    ensures
        #[trigger] as_unsigned32(as_signed32(u)) == u,
{
}

/// The signed and the unsigned readings of a word are inverse.
pub broadcast proof fn lemma_signed64_unsigned(v: i64)
    ensures
        #[trigger] as_signed64(as_unsigned64(v)) == v,
{
}

/// The signed and the unsigned readings of a word are inverse.
pub broadcast proof fn lemma_unsigned64_signed(u: u64)
    ensures
        #[trigger] as_unsigned64(as_signed64(u)) == u,
{
}

/// What holds of fields in either byte order: their widths, that reading
/// and writing are inverse, and where a field of a joined or cut sequence
/// lies.
pub broadcast group group_codec {
    lemma_bytes_u16_len,
    lemma_bytes_u32_len,
    lemma_bytes_u64_len,
    lemma_u16_read_back,
    lemma_u32_read_back,
    lemma_u64_read_back,
    lemma_u16_at_concat,
    lemma_u32_at_concat,
    lemma_u64_at_concat,
    lemma_u16_at_subrange,
    lemma_u32_at_subrange,
    lemma_u64_at_subrange,
    lemma_u16_write_back,
    lemma_u32_write_back,
    lemma_u64_write_back,
    lemma_signed32_unsigned,
    lemma_unsigned32_signed,
    lemma_signed64_unsigned,
    lemma_unsigned64_signed,
    lemma_text_read_back,
    lemma_text_write_back,
}

/// `byteorder_slice::result::ReadSlice::read_u16::<BigEndian>` on a byte
/// slice: fails on fewer than two bytes, else gives the big-endian value of
/// the first two.
#[verifier::external_body]
fn be_read_u16(src: &[u8]) -> (r: Option<u16>)
    ensures
        r is Some <==> src@.len() >= 2,
        r matches Some(v) ==> v == be_u16(src@, 0),
{
    let mut cursor: &[u8] = src;
    cursor.read_u16::<BigEndian>().ok()
}

/// `byteorder_slice::result::ReadSlice::read_u16::<LittleEndian>` on a byte
/// slice: fails on fewer than two bytes, else gives the little-endian value
/// of the first two.
#[verifier::external_body]
fn le_read_u16(src: &[u8]) -> (r: Option<u16>)
    ensures
        r is Some <==> src@.len() >= 2,
        r matches Some(v) ==> v == le_u16(src@, 0),
{
    let mut cursor: &[u8] = src;
    cursor.read_u16::<LittleEndian>().ok()
}

/// `byteorder_slice::result::ReadSlice::read_u32::<BigEndian>` on a byte
/// slice: fails on fewer than four bytes, else gives the big-endian value of
/// the first four.
#[verifier::external_body]
fn be_read_u32(src: &[u8]) -> (r: Option<u32>)
    ensures
        r is Some <==> src@.len() >= 4,
        r matches Some(v) ==> v == be_u32(src@, 0),
{
    let mut cursor: &[u8] = src;
    cursor.read_u32::<BigEndian>().ok()
}

/// `byteorder_slice::result::ReadSlice::read_u32::<LittleEndian>` on a byte
/// slice: fails on fewer than four bytes, else gives the little-endian value
/// of the first four.
#[verifier::external_body]
fn le_read_u32(src: &[u8]) -> (r: Option<u32>)
    ensures
        r is Some <==> src@.len() >= 4,
        r matches Some(v) ==> v == le_u32(src@, 0),
{
    let mut cursor: &[u8] = src;
    cursor.read_u32::<LittleEndian>().ok()
}

/// `byteorder_slice::result::ReadSlice::read_u64::<BigEndian>` on a byte
/// slice: fails on fewer than eight bytes, else gives the big-endian value of
/// the first eight.
#[verifier::external_body]
fn be_read_u64(src: &[u8]) -> (r: Option<u64>)
    ensures
        r is Some <==> src@.len() >= 8,
        r matches Some(v) ==> v == be_u64(src@, 0),
{
    let mut cursor: &[u8] = src;
    cursor.read_u64::<BigEndian>().ok()
}

/// `byteorder_slice::result::ReadSlice::read_u64::<LittleEndian>` on a byte
/// slice: fails on fewer than eight bytes, else gives the little-endian value
/// of the first eight.
#[verifier::external_body]
fn le_read_u64(src: &[u8]) -> (r: Option<u64>)
    ensures
        r is Some <==> src@.len() >= 8,
        r matches Some(v) ==> v == le_u64(src@, 0),
{
    let mut cursor: &[u8] = src;
    cursor.read_u64::<LittleEndian>().ok()
}

/// `byteorder::WriteBytesExt::write_u16::<BigEndian>` on a vector: appends
/// the two bytes of `v`, most significant first.
#[verifier::external_body]
fn be_write_u16(out: &mut Vec<u8>, v: u16)
    ensures
        final(out)@ == old(out)@ + be_bytes_u16(v),
{
    let _ = out.write_u16::<BigEndian>(v);
}

/// `byteorder::WriteBytesExt::write_u16::<LittleEndian>` on a vector:
/// appends the two bytes of `v`, least significant first.
#[verifier::external_body]
fn le_write_u16(out: &mut Vec<u8>, v: u16)
    ensures
        final(out)@ == old(out)@ + le_bytes_u16(v),
{
    let _ = out.write_u16::<LittleEndian>(v);
}

/// `byteorder::WriteBytesExt::write_u32::<BigEndian>` on a vector: appends
/// the four bytes of `v`, most significant first.
#[verifier::external_body]
fn be_write_u32(out: &mut Vec<u8>, v: u32)
    ensures
        final(out)@ == old(out)@ + be_bytes_u32(v),
{
    let _ = out.write_u32::<BigEndian>(v);
}

/// `byteorder::WriteBytesExt::write_u32::<LittleEndian>` on a vector:
/// appends the four bytes of `v`, least significant first.
#[verifier::external_body]
fn le_write_u32(out: &mut Vec<u8>, v: u32)
    ensures
        final(out)@ == old(out)@ + le_bytes_u32(v),
{
    let _ = out.write_u32::<LittleEndian>(v);
}

/// `byteorder::WriteBytesExt::write_u64::<BigEndian>` on a vector: appends
/// the eight bytes of `v`, most significant first.
#[verifier::external_body]
fn be_write_u64(out: &mut Vec<u8>, v: u64)
    ensures
        final(out)@ == old(out)@ + be_bytes_u64(v),
{
    let _ = out.write_u64::<BigEndian>(v);
}

/// `byteorder::WriteBytesExt::write_u64::<LittleEndian>` on a vector:
/// appends the eight bytes of `v`, least significant first.
#[verifier::external_body]
fn le_write_u64(out: &mut Vec<u8>, v: u64)
    ensures
        final(out)@ == old(out)@ + le_bytes_u64(v),
{
    let _ = out.write_u64::<LittleEndian>(v);
}

/// `core::str::from_utf8`: succeeds on the byte sequences that are UTF-8 and
/// on no others, with a string slice made of the very bytes.
#[verifier::external_body]
fn str_from_utf8(bytes: &[u8]) -> (r: Result<&str, Utf8Error>)
    ensures
        r is Ok <==> valid_utf8(bytes@),
        r matches Ok(s) ==> encode_utf8(s@) == bytes@,
{
    core::str::from_utf8(bytes)
}

/// The text that the bytes encode in UTF-8, if they encode one.
pub open spec fn text_of(bytes: Seq<u8>) -> Option<Seq<char>> {
    if valid_utf8(bytes) {
        Some(decode_utf8(bytes))
    } else {
        None
    }
}

/// The bytes that encode `text` in UTF-8.
pub open spec fn text_bytes(text: Seq<char>) -> Seq<u8> {
    encode_utf8(text)
}

/// Decoding the bytes of a text yields the text.
pub broadcast proof fn lemma_text_read_back(text: Seq<char>)
    ensures
        #[trigger] text_of(text_bytes(text)) == Some(text),
{
    vstd::utf8::encode_utf8_valid_utf8(text);
    vstd::utf8::encode_utf8_decode_utf8(text);
}

/// Encoding the text of some bytes yields the bytes.
pub broadcast proof fn lemma_text_write_back(bytes: Seq<u8>)
    ensures
        #[trigger] text_of(bytes) matches Some(text) ==> text_bytes(text) == bytes,
{
    if valid_utf8(bytes) {
        vstd::utf8::decode_utf8_encode_utf8(bytes);
    }
}

/// Decodes `bytes` as UTF-8 into a string of its own.
pub fn string_from_utf8(bytes: &[u8]) -> (r: Result<String, Utf8Error>)
    ensures
        r is Ok <==> text_of(bytes@) is Some,
        r matches Ok(s) ==> Some(s@) == text_of(bytes@),
{
    match str_from_utf8(bytes) {
        Ok(s) => {
            proof {
                vstd::utf8::encode_utf8_decode_utf8(s@);
            }
            Ok(s.to_owned())
        },
        Err(e) => Err(e),
    }
}

/// Reads the byte of `src` at `at`.
pub fn read_u8(src: &[u8], at: usize) -> (r: Option<u8>)
    ensures
        r is Some <==> at < src@.len(),
        r matches Some(v) ==> v == src@[at as int],
{
    if at < src.len() {
        Some(src[at])
    } else {
        None
    }
}

/// Appends the byte `v`.
pub fn write_u8(out: &mut Vec<u8>, v: u8)
    ensures
        final(out)@ == old(out)@ + seq![v],
{
    out.push(v);
    assert(out@ =~= old(out)@ + seq![v]);
}

/// Reads the two-byte field of `src` at `at` in byte order `e`.
pub fn read_u16(e: Endianness, src: &[u8], at: usize) -> (r: Option<u16>)
    ensures
        r is Some <==> at + 2 <= src@.len(),
        r matches Some(v) ==> v == u16_at(e, src@, at as int),
{
    if at > src.len() || src.len() - at < 2 {
        return None;
    }
    let field = slice_subrange(src, at, at + 2);
    proof {
        reveal(u16_at);
    }
    match e {
        Endianness::Big => be_read_u16(field),
        Endianness::Little => le_read_u16(field),
    }
}

/// Reads the four-byte field of `src` at `at` in byte order `e`.
pub fn read_u32(e: Endianness, src: &[u8], at: usize) -> (r: Option<u32>)
    ensures
        r is Some <==> at + 4 <= src@.len(),
        r matches Some(v) ==> v == u32_at(e, src@, at as int),
{
    if at > src.len() || src.len() - at < 4 {
        return None;
    }
    let field = slice_subrange(src, at, at + 4);
    proof {
        reveal(u32_at);
    }
    match e {
        Endianness::Big => be_read_u32(field),
        Endianness::Little => le_read_u32(field),
    }
}

/// Reads the eight-byte field of `src` at `at` in byte order `e`.
pub fn read_u64(e: Endianness, src: &[u8], at: usize) -> (r: Option<u64>)
    ensures
        r is Some <==> at + 8 <= src@.len(),
        r matches Some(v) ==> v == u64_at(e, src@, at as int),
{
    if at > src.len() || src.len() - at < 8 {
        return None;
    }
    let field = slice_subrange(src, at, at + 8);
    proof {
        reveal(u64_at);
    }
    match e {
        Endianness::Big => be_read_u64(field),
        Endianness::Little => le_read_u64(field),
    }
}

/// Reads the signed four-byte field of `src` at `at` in byte order `e`.
pub fn read_i32(e: Endianness, src: &[u8], at: usize) -> (r: Option<i32>)
    ensures
        r is Some <==> at + 4 <= src@.len(),
        r matches Some(v) ==> v == i32_at(e, src@, at as int),
{
    match read_u32(e, src, at) {
        Some(v) => {
            if v < 0x8000_0000 {
                Some(v as i32)
            } else {
                Some(((v - 0x8000_0000) as i32) + i32::MIN)
            }
        },
        None => None,
    }
}

/// Reads the signed eight-byte field of `src` at `at` in byte order `e`.
pub fn read_i64(e: Endianness, src: &[u8], at: usize) -> (r: Option<i64>)
    ensures
        r is Some <==> at + 8 <= src@.len(),
        r matches Some(v) ==> v == i64_at(e, src@, at as int),
{
    match read_u64(e, src, at) {
        Some(v) => {
            if v < 0x8000_0000_0000_0000 {
                Some(v as i64)
            } else {
                Some(((v - 0x8000_0000_0000_0000) as i64) + i64::MIN)
            }
        },
        None => None,
    }
}

/// Appends the two bytes of `v` in byte order `e`.
pub fn write_u16(e: Endianness, out: &mut Vec<u8>, v: u16)
    ensures
        final(out)@ == old(out)@ + bytes_u16(e, v),
{
    proof {
        reveal(bytes_u16);
    }
    match e {
        Endianness::Big => be_write_u16(out, v),
        Endianness::Little => le_write_u16(out, v),
    }
}

/// Appends the four bytes of `v` in byte order `e`.
pub fn write_u32(e: Endianness, out: &mut Vec<u8>, v: u32)
    ensures
        final(out)@ == old(out)@ + bytes_u32(e, v),
{
    proof {
        reveal(bytes_u32);
    }
    match e {
        Endianness::Big => be_write_u32(out, v),
        Endianness::Little => le_write_u32(out, v),
    }
}

/// Appends the eight bytes of `v` in byte order `e`.
pub fn write_u64(e: Endianness, out: &mut Vec<u8>, v: u64)
    ensures
        final(out)@ == old(out)@ + bytes_u64(e, v),
{
    proof {
        reveal(bytes_u64);
    }
    match e {
        Endianness::Big => be_write_u64(out, v),
        Endianness::Little => le_write_u64(out, v),
    }
}

/// Appends the four bytes of the signed `v` in byte order `e`.
pub fn write_i32(e: Endianness, out: &mut Vec<u8>, v: i32)
    ensures
        final(out)@ == old(out)@ + bytes_i32(e, v),
{
    let bits: u32 = if v >= 0 {
        v as u32
    } else {
        ((v - i32::MIN) as u32) + 0x8000_0000
    };
    write_u32(e, out, bits)
}

/// Appends the eight bytes of the signed `v` in byte order `e`.
pub fn write_i64(e: Endianness, out: &mut Vec<u8>, v: i64)
    ensures
        final(out)@ == old(out)@ + bytes_i64(e, v),
{
    let bits: u64 = if v >= 0 {
        v as u64
    } else {
        ((v - i64::MIN) as u64) + 0x8000_0000_0000_0000
    };
    write_u64(e, out, bits)
}

/// Number of padding bytes after a field of `len` bytes.
pub fn padding(len: usize) -> (r: usize)
    ensures
        r == pad_len(len as int),
        r < 4,
        (len + r) % 4 == 0,
{
    (4 - len % 4) % 4
}

/// Appends `n` zero bytes.
pub fn write_zeros(out: &mut Vec<u8>, n: usize)
    ensures
        final(out)@ == old(out)@ + zeros(n as int),
{
    let mut i: usize = 0;
    while i < n
        invariant
            i <= n,
            out@ == old(out)@ + zeros(i as int),
        decreases n - i,
    {
        out.push(0u8);
        i += 1;
        assert(out@ =~= old(out)@ + zeros(i as int));
    }
    assert(out@ =~= old(out)@ + zeros(n as int));
}

/// Appends the bytes of `data`.
pub fn write_bytes(out: &mut Vec<u8>, data: &[u8])
    ensures
        final(out)@ == old(out)@ + data@,
{
    out.extend_from_slice(data);
}

} // verus!
