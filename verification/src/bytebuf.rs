//! Growable output buffer, backed by `bytes::BytesMut`, together with the
//! byte-level models of the big-endian integer encodings that the container
//! format uses.
//!
//! Verified code never looks inside a `bytes::BytesMut`; it reaches it only
//! through the small trusted wrappers below, whose contracts are stated over
//! the abstract contents `buf_contents`.
use bytes::BufMut as _;
use vstd::prelude::*;

verus! {

#[verifier::external_type_specification]
#[verifier::external_body]
pub struct ExBytesMut(bytes::BytesMut);

/// The bytes held by a `bytes::BytesMut`, oldest first.
pub uninterp spec fn buf_contents(b: bytes::BytesMut) -> Seq<u8>;

/// Big-endian encoding of a `u16`.
pub open spec fn u16_be_bytes(v: u16) -> Seq<u8> {
    seq![(v >> 8) as u8, v as u8]
}

/// Little-endian encoding of a `u16`.
pub open spec fn u16_le_bytes(v: u16) -> Seq<u8> {
    seq![v as u8, (v >> 8) as u8]
}

/// Big-endian encoding of a `u32`.
pub open spec fn u32_be_bytes(v: u32) -> Seq<u8> {
    seq![(v >> 24) as u8, (v >> 16) as u8, (v >> 8) as u8, v as u8]
}

/// Big-endian encoding of an `i32` (two's complement).
pub open spec fn i32_be_bytes(v: i32) -> Seq<u8> {
    u32_be_bytes(v as u32)
}

/// Big-endian encoding of a `u64`.
pub open spec fn u64_be_bytes(v: u64) -> Seq<u8> {
    seq![
        (v >> 56) as u8,
        (v >> 48) as u8,
        (v >> 40) as u8,
        (v >> 32) as u8,
        (v >> 24) as u8,
        (v >> 16) as u8,
        (v >> 8) as u8,
        v as u8,
    ]
}

/// The value of four big-endian bytes.
pub open spec fn u32_of_be(b0: u8, b1: u8, b2: u8, b3: u8) -> int {
    b0 * 0x1000000 + b1 * 0x10000 + b2 * 0x100 + b3
}

/// Reading back the four bytes of a big-endian `u32` yields the value again.
pub proof fn lemma_u32_be_round_trip(v: u32)
    ensures
        u32_of_be(u32_be_bytes(v)[0], u32_be_bytes(v)[1], u32_be_bytes(v)[2], u32_be_bytes(v)[3])
            == v,
{
    let b0 = (v >> 24) as u8;
    let b1 = (v >> 16) as u8;
    let b2 = (v >> 8) as u8;
    let b3 = v as u8;
    assert(b0 * 0x1000000 + b1 * 0x10000 + b2 * 0x100 + b3 == v) by (bit_vector)
        requires
            b0 == (v >> 24) as u8,
            b1 == (v >> 16) as u8,
            b2 == (v >> 8) as u8,
            b3 == v as u8,
    ;
}

/// Prepending an empty sequence changes nothing: the shape a buffer's
/// contents take after two appends.
pub proof fn lemma_empty_concat2<T>(a: Seq<T>, b: Seq<T>)
    ensures
        (Seq::<T>::empty() + a) + b == a + b,
{
    assert((Seq::<T>::empty() + a) + b =~= a + b);
}

/// The same for three appends.
pub proof fn lemma_empty_concat3<T>(a: Seq<T>, b: Seq<T>, c: Seq<T>)
    ensures
        ((Seq::<T>::empty() + a) + b) + c == (a + b) + c,
{
    assert(((Seq::<T>::empty() + a) + b) + c =~= (a + b) + c);
}

/// Relies on `bytes::BytesMut::new`: it returns an empty buffer.
#[verifier::external_body]
pub fn buf_new() -> (r: bytes::BytesMut)
    ensures
        buf_contents(r) == Seq::<u8>::empty(),
{
    bytes::BytesMut::new()
}

/// Relies on `bytes::BytesMut::len`: the number of bytes held.
#[verifier::external_body]
pub fn buf_len(b: &bytes::BytesMut) -> (r: usize)
    ensures
        r == buf_contents(*b).len(),
{
    b.len()
}

/// Relies on `bytes::BufMut::put_u8`: it appends the byte.
/// The write panics when the buffer would outgrow `isize::MAX`.
#[verifier::external_body]
pub fn buf_put_u8(b: &mut bytes::BytesMut, v: u8)
    requires
        buf_contents(*old(b)).len() + 1 <= isize::MAX,
    ensures
        buf_contents(*final(b)) == buf_contents(*old(b)) + seq![v],
{
    b.put_u8(v)
}

/// Relies on `bytes::BufMut::put_u16`: it appends two big-endian bytes.
/// The write panics when the buffer would outgrow `isize::MAX`.
#[verifier::external_body]
pub fn buf_put_u16(b: &mut bytes::BytesMut, v: u16)
    requires
        buf_contents(*old(b)).len() + 2 <= isize::MAX,
    ensures
        buf_contents(*final(b)) == buf_contents(*old(b)) + u16_be_bytes(v),
{
    b.put_u16(v)
}

/// Relies on `bytes::BufMut::put_u16_le`: it appends two little-endian bytes.
/// The write panics when the buffer would outgrow `isize::MAX`.
#[verifier::external_body]
pub fn buf_put_u16_le(b: &mut bytes::BytesMut, v: u16)
    requires
        buf_contents(*old(b)).len() + 2 <= isize::MAX,
    ensures
        buf_contents(*final(b)) == buf_contents(*old(b)) + u16_le_bytes(v),
{
    b.put_u16_le(v)
}

/// Relies on `bytes::BufMut::put_u32`: it appends four big-endian bytes.
/// The write panics when the buffer would outgrow `isize::MAX`.
#[verifier::external_body]
pub fn buf_put_u32(b: &mut bytes::BytesMut, v: u32)
    requires
        buf_contents(*old(b)).len() + 4 <= isize::MAX,
    ensures
        buf_contents(*final(b)) == buf_contents(*old(b)) + u32_be_bytes(v),
{
    b.put_u32(v)
}

/// Relies on `bytes::BufMut::put_i32`: it appends four big-endian bytes of
/// the two's-complement representation.
/// The write panics when the buffer would outgrow `isize::MAX`.
#[verifier::external_body]
pub fn buf_put_i32(b: &mut bytes::BytesMut, v: i32)
    requires
        buf_contents(*old(b)).len() + 4 <= isize::MAX,
    ensures
        buf_contents(*final(b)) == buf_contents(*old(b)) + i32_be_bytes(v),
{
    b.put_i32(v)
}

/// Relies on `bytes::BufMut::put_u64`: it appends eight big-endian bytes.
/// The write panics when the buffer would outgrow `isize::MAX`.
#[verifier::external_body]
pub fn buf_put_u64(b: &mut bytes::BytesMut, v: u64)
    requires
        buf_contents(*old(b)).len() + 8 <= isize::MAX,
    ensures
        buf_contents(*final(b)) == buf_contents(*old(b)) + u64_be_bytes(v),
{
    b.put_u64(v)
}

/// Relies on `bytes::BufMut::put_slice`: it appends the slice's bytes.
/// The write panics when the buffer would outgrow `isize::MAX`.
#[verifier::external_body]
pub fn buf_put_slice(b: &mut bytes::BytesMut, s: &[u8])
    requires
        buf_contents(*old(b)).len() + s@.len() <= isize::MAX,
    ensures
        buf_contents(*final(b)) == buf_contents(*old(b)) + s@,
{
    b.put_slice(s)
}

/// Relies on `<bytes::BytesMut as AsRef<[u8]>>::as_ref`: the slice of the
/// bytes held.
#[verifier::external_body]
pub fn buf_as_slice(b: &bytes::BytesMut) -> (r: &[u8])
    ensures
        r@ == buf_contents(*b),
{
    b.as_ref()
}

} // verus!
