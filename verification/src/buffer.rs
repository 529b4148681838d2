//! Byte buffers of the `bytes` crate as the codec sees them: a `Bytes` or a
//! `BytesMut` is a finite sequence of octets, read and written in network
//! (big-endian) byte order.

use bytes::{Buf, BufMut, Bytes, BytesMut};
use vstd::prelude::*;

verus! {

/// `bytes::Bytes`, a shared buffer that is read. Nothing is known of it
/// here but the octets it holds, `bytes_seq`.
#[verifier::external_type_specification]
#[verifier::external_body]
pub struct ExBytes(bytes::Bytes);

/// `bytes::BytesMut`, a buffer that is written. Nothing is known of it
/// here but the octets it holds, `buf_seq`.
#[verifier::external_type_specification]
#[verifier::external_body]
pub struct ExBytesMut(bytes::BytesMut);

/// The octets that a `Bytes` holds, first to last.
pub uninterp spec fn bytes_seq(b: Bytes) -> Seq<u8>;

/// The octets that a `BytesMut` holds, first to last.
pub uninterp spec fn buf_seq(b: BytesMut) -> Seq<u8>;

/// The number that two octets spell in network byte order.
pub open spec fn be16(b0: u8, b1: u8) -> u16 {
    (b0 as int * 256 + b1 as int) as u16
}

/// The number that four octets spell in network byte order.
pub open spec fn be32(b0: u8, b1: u8, b2: u8, b3: u8) -> u32 {
    (be16(b0, b1) as int * 65536 + be16(b2, b3) as int) as u32
}

/// The 16-bit number at offset `i` of `s`.
pub open spec fn u16_at(s: Seq<u8>, i: int) -> u16 {
    be16(s[i], s[i + 1])
}

/// The 32-bit number at offset `i` of `s`.
pub open spec fn u32_at(s: Seq<u8>, i: int) -> u32 {
    be32(s[i], s[i + 1], s[i + 2], s[i + 3])
}

/// The 64-bit number at offset `i` of `s`.
pub open spec fn u64_at(s: Seq<u8>, i: int) -> u64 {
    (u32_at(s, i) as int * 0x1_0000_0000 + u32_at(s, i + 4) as int) as u64
}

/// The 128-bit number at offset `i` of `s`.
pub open spec fn u128_at(s: Seq<u8>, i: int) -> u128 {
    (u64_at(s, i) as int * 0x1_0000_0000_0000_0000 + u64_at(s, i + 8) as int) as u128
}

/// The two octets of `v`, most significant first.
pub open spec fn u16_bytes(v: u16) -> Seq<u8> {
    seq![(v / 256) as u8, (v % 256) as u8]
}

/// The four octets of `v`, most significant first.
pub open spec fn u32_bytes(v: u32) -> Seq<u8> {
    u16_bytes((v / 65536) as u16) + u16_bytes((v % 65536) as u16)
}

/// The eight octets of `v`, most significant first.
pub open spec fn u64_bytes(v: u64) -> Seq<u8> {
    u32_bytes((v / 0x1_0000_0000) as u32) + u32_bytes((v % 0x1_0000_0000) as u32)
}

/// The sixteen octets of `v`, most significant first.
pub open spec fn u128_bytes(v: u128) -> Seq<u8> {
    u64_bytes((v / 0x1_0000_0000_0000_0000) as u64) + u64_bytes(
        (v % 0x1_0000_0000_0000_0000) as u64,
    )
}

/// How many octets each number takes.
pub proof fn lemma_int_bytes_len()
    ensures
        forall|v: u16| (#[trigger] u16_bytes(v)).len() == 2,
        forall|v: u32| (#[trigger] u32_bytes(v)).len() == 4,
        forall|v: u64| (#[trigger] u64_bytes(v)).len() == 8,
        forall|v: u128| (#[trigger] u128_bytes(v)).len() == 16,
{
}

/// A 16-bit number that is written and read again is the same number.
pub proof fn lemma_u16_round_trip(s: Seq<u8>, pos: int, v: u16)
    requires
        0 <= pos,
        pos + 2 <= s.len(),
        s.subrange(pos, pos + 2) == u16_bytes(v),
    ensures
        u16_at(s, pos) == v,
{
    let piece = s.subrange(pos, pos + 2);
    assert(s[pos] == piece[0]);
    assert(s[pos + 1] == piece[1]);
}

/// A 32-bit number that is written and read again is the same number.
pub proof fn lemma_u32_round_trip(s: Seq<u8>, pos: int, v: u32)
    requires
        0 <= pos,
        pos + 4 <= s.len(),
        s.subrange(pos, pos + 4) == u32_bytes(v),
    ensures
        u32_at(s, pos) == v,
{
    let piece = s.subrange(pos, pos + 4);
    assert(s[pos] == piece[0]);
    assert(s[pos + 1] == piece[1]);
    assert(s[pos + 2] == piece[2]);
    assert(s[pos + 3] == piece[3]);
}

/// A 64-bit number that is written and read again is the same number.
pub proof fn lemma_u64_round_trip(s: Seq<u8>, pos: int, v: u64)
    requires
        0 <= pos,
        pos + 8 <= s.len(),
        s.subrange(pos, pos + 8) == u64_bytes(v),
    ensures
        u64_at(s, pos) == v,
{
    let piece = s.subrange(pos, pos + 8);
    lemma_int_bytes_len();
    assert(s.subrange(pos, pos + 4) =~= u32_bytes((v / 0x1_0000_0000) as u32)) by {
        let high = u32_bytes((v / 0x1_0000_0000) as u32);
        assert forall|j: int| 0 <= j < 4 implies #[trigger] s.subrange(pos, pos + 4)[j]
            == high[j] by {
            assert(s[pos + j] == piece[j]);
        }
    }
    assert(s.subrange(pos + 4, pos + 8) =~= u32_bytes((v % 0x1_0000_0000) as u32)) by {
        let low = u32_bytes((v % 0x1_0000_0000) as u32);
        assert forall|j: int| 0 <= j < 4 implies #[trigger] s.subrange(pos + 4, pos + 8)[j]
            == low[j] by {
            assert(s[pos + 4 + j] == piece[4 + j]);
        }
    }
    lemma_u32_round_trip(s, pos, (v / 0x1_0000_0000) as u32);
    lemma_u32_round_trip(s, pos + 4, (v % 0x1_0000_0000) as u32);
}

/// A 128-bit number that is written and read again is the same number.
pub proof fn lemma_u128_round_trip(s: Seq<u8>, pos: int, v: u128)
    requires
        0 <= pos,
        pos + 16 <= s.len(),
        s.subrange(pos, pos + 16) == u128_bytes(v),
    ensures
        u128_at(s, pos) == v,
{
    let piece = s.subrange(pos, pos + 16);
    lemma_int_bytes_len();
    assert(s.subrange(pos, pos + 8) =~= u64_bytes((v / 0x1_0000_0000_0000_0000) as u64)) by {
        let high = u64_bytes((v / 0x1_0000_0000_0000_0000) as u64);
        assert forall|j: int| 0 <= j < 8 implies #[trigger] s.subrange(pos, pos + 8)[j]
            == high[j] by {
            assert(s[pos + j] == piece[j]);
        }
    }
    assert(s.subrange(pos + 8, pos + 16) =~= u64_bytes((v % 0x1_0000_0000_0000_0000) as u64))
        by {
        let low = u64_bytes((v % 0x1_0000_0000_0000_0000) as u64);
        assert forall|j: int| 0 <= j < 8 implies #[trigger] s.subrange(pos + 8, pos + 16)[j]
            == low[j] by {
            assert(s[pos + 8 + j] == piece[8 + j]);
        }
    }
    lemma_u64_round_trip(s, pos, (v / 0x1_0000_0000_0000_0000) as u64);
    lemma_u64_round_trip(s, pos + 8, (v % 0x1_0000_0000_0000_0000) as u64);
}

/// `Bytes::len`: the number of octets held.
pub assume_specification[ Bytes::len ](b: &Bytes) -> (n: usize)
    ensures
        n == bytes_seq(*b).len(),
;

/// `Bytes::clone`: a second handle on the same octets.
pub assume_specification[ <Bytes as Clone>::clone ](b: &Bytes) -> (r: Bytes)
    ensures
        bytes_seq(r) == bytes_seq(*b),
;

/// `Bytes::from(Vec<u8>)`: the vector's octets, in order.
pub assume_specification[ <Bytes as From<Vec<u8>>>::from ](v: Vec<u8>) -> (r: Bytes)
    ensures
        bytes_seq(r) == v@,
;

/// `Bytes::from(BytesMut)`: the octets written so far, in order.
pub assume_specification[ <Bytes as From<BytesMut>>::from ](b: BytesMut) -> (r: Bytes)
    ensures
        bytes_seq(r) == buf_seq(b),
;

/// `Bytes::copy_from_slice`: a copy of the slice's octets, in order.
pub assume_specification[ Bytes::copy_from_slice ](data: &[u8]) -> (r: Bytes)
    ensures
        bytes_seq(r) == data@,
;

/// `AsRef<[u8]>` of `Bytes`: the octets as a slice.
#[verifier::external_body]
pub(crate) fn bytes_as_slice(b: &Bytes) -> (s: &[u8])
    ensures
        s@ == bytes_seq(*b),
{
    b.as_ref()
}

/// `Buf::advance` on `Bytes`: drops the first `n` octets. The crate panics
/// when fewer than `n` are left, which the precondition rules out.
#[verifier::external_body]
pub(crate) fn bytes_advance(b: &mut Bytes, n: usize)
    requires
        n <= bytes_seq(*old(b)).len(),
    ensures
        bytes_seq(*final(b)) == bytes_seq(*old(b)).skip(n as int),
{
    b.advance(n)
}

/// `Buf::get_u8` on `Bytes`: reads the first octet and drops it.
#[verifier::external_body]
pub(crate) fn bytes_get_u8(b: &mut Bytes) -> (r: u8)
    requires
        bytes_seq(*old(b)).len() >= 1,
    ensures
        r == bytes_seq(*old(b))[0],
        bytes_seq(*final(b)) == bytes_seq(*old(b)).skip(1),
{
    b.get_u8()
}

/// `Buf::get_u16` on `Bytes`: reads a big-endian 16-bit number from the
/// front and drops its two octets.
#[verifier::external_body]
pub(crate) fn bytes_get_u16(b: &mut Bytes) -> (r: u16)
    requires
        bytes_seq(*old(b)).len() >= 2,
    ensures
        r == u16_at(bytes_seq(*old(b)), 0),
        bytes_seq(*final(b)) == bytes_seq(*old(b)).skip(2),
{
    b.get_u16()
}

/// `Buf::get_u32` on `Bytes`: reads a big-endian 32-bit number from the
/// front and drops its four octets.
#[verifier::external_body]
pub(crate) fn bytes_get_u32(b: &mut Bytes) -> (r: u32)
    requires
        bytes_seq(*old(b)).len() >= 4,
    ensures
        r == u32_at(bytes_seq(*old(b)), 0),
        bytes_seq(*final(b)) == bytes_seq(*old(b)).skip(4),
{
    b.get_u32()
}

/// `Buf::get_u128` on `Bytes`: reads a big-endian 128-bit number from the
/// front and drops its sixteen octets.
#[verifier::external_body]
pub(crate) fn bytes_get_u128(b: &mut Bytes) -> (r: u128)
    requires
        bytes_seq(*old(b)).len() >= 16,
    ensures
        r == u128_at(bytes_seq(*old(b)), 0),
        bytes_seq(*final(b)) == bytes_seq(*old(b)).skip(16),
{
    b.get_u128()
}

/// `BytesMut::new`: an empty buffer.
pub assume_specification[ BytesMut::new ]() -> (r: BytesMut)
    ensures
        buf_seq(r) == Seq::<u8>::empty(),
;

/// `BytesMut::with_capacity`: an empty buffer, whatever room it reserves.
/// The crate panics when asked for more room than an allocation can
/// have, which the precondition rules out.
pub assume_specification[ BytesMut::with_capacity ](capacity: usize) -> (r: BytesMut)
    requires
        capacity <= isize::MAX,
    ensures
        buf_seq(r) == Seq::<u8>::empty(),
;

/// `BytesMut::len`: the number of octets written so far.
pub assume_specification[ BytesMut::len ](b: &BytesMut) -> (n: usize)
    ensures
        n == buf_seq(*b).len(),
;

/// `AsRef<[u8]>` of `BytesMut`: the octets written so far as a slice.
#[verifier::external_body]
pub(crate) fn buf_as_slice(b: &BytesMut) -> (s: &[u8])
    ensures
        s@ == buf_seq(*b),
{
    b.as_ref()
}

/// `BufMut::put_u8` on `BytesMut`: appends one octet.
#[verifier::external_body]
pub(crate) fn buf_put_u8(b: &mut BytesMut, v: u8)
    ensures
        buf_seq(*final(b)) == buf_seq(*old(b)).push(v),
{
    b.put_u8(v)
}

/// `BufMut::put_u16` on `BytesMut`: appends the two octets of `v`, most
/// significant first.
#[verifier::external_body]
pub(crate) fn buf_put_u16(b: &mut BytesMut, v: u16)
    ensures
        buf_seq(*final(b)) == buf_seq(*old(b)) + u16_bytes(v),
{
    b.put_u16(v)
}

/// `BufMut::put_u32` on `BytesMut`: appends the four octets of `v`, most
/// significant first.
#[verifier::external_body]
pub(crate) fn buf_put_u32(b: &mut BytesMut, v: u32)
    ensures
        buf_seq(*final(b)) == buf_seq(*old(b)) + u32_bytes(v),
{
    b.put_u32(v)
}

/// `BufMut::put_u128` on `BytesMut`: appends the sixteen octets of `v`,
/// most significant first.
#[verifier::external_body]
pub(crate) fn buf_put_u128(b: &mut BytesMut, v: u128)
    ensures
        buf_seq(*final(b)) == buf_seq(*old(b)) + u128_bytes(v),
{
    b.put_u128(v)
}

/// `BufMut::put_slice` on `BytesMut`: appends the octets of `src`.
#[verifier::external_body]
pub(crate) fn buf_put_slice(b: &mut BytesMut, src: &[u8])
    ensures
        buf_seq(*final(b)) == buf_seq(*old(b)) + src@,
{
    b.put_slice(src)
}

/// Reads the octet at `pos`, if the buffer reaches that far.
pub fn read_u8(packet: &Bytes, pos: usize) -> (r: Option<u8>)
    ensures
        bytes_seq(*packet).len() <= usize::MAX,
        r == (if pos < bytes_seq(*packet).len() {
            Some(bytes_seq(*packet)[pos as int])
        } else {
            None
        }),
{
    let len = packet.len();
    if pos >= len {
        return None;
    }
    let mut p = packet.clone();
    bytes_advance(&mut p, pos);
    Some(bytes_get_u8(&mut p))
}

/// Reads the 16-bit number at `pos`, if the buffer reaches that far.
pub fn read_u16(packet: &Bytes, pos: usize) -> (r: Option<u16>)
    ensures
        bytes_seq(*packet).len() <= usize::MAX,
        r == (if pos + 2 <= bytes_seq(*packet).len() {
            Some(u16_at(bytes_seq(*packet), pos as int))
        } else {
            None
        }),
{
    let len = packet.len();
    if pos > len || len - pos < 2 {
        return None;
    }
    let mut p = packet.clone();
    bytes_advance(&mut p, pos);
    Some(bytes_get_u16(&mut p))
}

/// Reads the 32-bit number at `pos`, if the buffer reaches that far.
pub fn read_u32(packet: &Bytes, pos: usize) -> (r: Option<u32>)
    ensures
        bytes_seq(*packet).len() <= usize::MAX,
        r == (if pos + 4 <= bytes_seq(*packet).len() {
            Some(u32_at(bytes_seq(*packet), pos as int))
        } else {
            None
        }),
{
    let len = packet.len();
    if pos > len || len - pos < 4 {
        return None;
    }
    let mut p = packet.clone();
    bytes_advance(&mut p, pos);
    Some(bytes_get_u32(&mut p))
}

/// Reads the 128-bit number at `pos`, if the buffer reaches that far.
pub fn read_u128(packet: &Bytes, pos: usize) -> (r: Option<u128>)
    ensures
        bytes_seq(*packet).len() <= usize::MAX,
        r == (if pos + 16 <= bytes_seq(*packet).len() {
            Some(u128_at(bytes_seq(*packet), pos as int))
        } else {
            None
        }),
{
    let len = packet.len();
    if pos > len || len - pos < 16 {
        return None;
    }
    let mut p = packet.clone();
    bytes_advance(&mut p, pos);
    Some(bytes_get_u128(&mut p))
}

/// Copies the octets from `begin` up to `end` out of the buffer.
pub fn copy_range(packet: &Bytes, begin: usize, end: usize) -> (r: Vec<u8>)
    requires
        begin <= end <= bytes_seq(*packet).len(),
    ensures
        r@ == bytes_seq(*packet).subrange(begin as int, end as int),
{
    let all = bytes_as_slice(packet);
    vstd::slice::slice_to_vec(vstd::slice::slice_subrange(all, begin, end))
}

} // verus!
