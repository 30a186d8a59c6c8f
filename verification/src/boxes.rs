//! The generic box (atom) serializer: every box of the container is a
//! length-prefixed record `u32(payload.len() + 8) ++ tag ++ payload`, with
//! the tag a four-character code carried as a big-endian `u32`.
use vstd::prelude::*;

use crate::bytebuf::{
    buf_as_slice, buf_contents, buf_len, buf_put_slice, buf_put_u32, lemma_u32_be_round_trip,
    u32_be_bytes, u32_of_be,
};

verus! {

pub const TAG_FTYP: u32 = 0x66747970;

pub const TAG_MOOV: u32 = 0x6D6F6F76;

pub const TAG_MOOF: u32 = 0x6D6F6F66;

pub const TAG_MDAT: u32 = 0x6D646174;

pub const TAG_MFRA: u32 = 0x6D667261;

pub const TAG_MFHD: u32 = 0x6D666864;

pub const TAG_TRAF: u32 = 0x74726166;

pub const TAG_TFHD: u32 = 0x74666864;

pub const TAG_TFDT: u32 = 0x74666474;

pub const TAG_TRUN: u32 = 0x7472756E;

/// The four-character code of a box tag as a big-endian `u32`.
pub fn u8_slice_to_u32(id: &[u8; 4]) -> (r: u32)
    ensures
        r == u32_of_be(id[0], id[1], id[2], id[3]),
{
    let r = ((((((0u32 | (id[0] as u32)) << 8) | (id[1] as u32)) << 8) | (id[2] as u32)) << 8)
        | (id[3] as u32);
    proof {
        let b0 = id[0];
        let b1 = id[1];
        let b2 = id[2];
        let b3 = id[3];
        assert(((((((0u32 | (b0 as u32)) << 8) | (b1 as u32)) << 8) | (b2 as u32)) << 8) | (
        b3 as u32) == b0 * 0x1000000 + b1 * 0x10000 + b2 * 0x100 + b3) by (bit_vector);
    }
    r
}

/// The serialized form of one box: a big-endian length covering the whole
/// record, the tag, then the payload.
pub open spec fn box_bytes(tag: u32, payload: Seq<u8>) -> Seq<u8> {
    u32_be_bytes((payload.len() + 8) as u32) + u32_be_bytes(tag) + payload
}

/// The box length invariant: the declared length field of any produced box
/// equals eight plus the actual payload length, and the record is never
/// truncated or padded.
pub proof fn lemma_box_length(tag: u32, payload: Seq<u8>)
    requires
        payload.len() + 8 <= u32::MAX,
    ensures
        box_bytes(tag, payload).len() == payload.len() + 8,
        u32_of_be(
            box_bytes(tag, payload)[0],
            box_bytes(tag, payload)[1],
            box_bytes(tag, payload)[2],
            box_bytes(tag, payload)[3],
        ) == payload.len() + 8,
        box_bytes(tag, payload).subrange(8, box_bytes(tag, payload).len() as int) == payload,
{
    let v = (payload.len() + 8) as u32;
    lemma_u32_be_round_trip(v);
    assert(box_bytes(tag, payload).subrange(8, box_bytes(tag, payload).len() as int) =~= payload);
}

/// Appends one box to `parent`: the length prefix, the tag, then the payload
/// held by `atom`.
pub fn write_atom(parent: &mut bytes::BytesMut, id: u32, atom: &bytes::BytesMut)
    requires
        buf_contents(*atom).len() + 8 <= u32::MAX,
        buf_contents(*old(parent)).len() + 8 + buf_contents(*atom).len() <= isize::MAX,
    ensures
        buf_contents(*final(parent)) == buf_contents(*old(parent)) + box_bytes(
            id,
            buf_contents(*atom),
        ),
{
    let n = buf_len(atom);
    buf_put_u32(parent, (n + 8) as u32);
    buf_put_u32(parent, id);
    buf_put_slice(parent, buf_as_slice(atom));
    proof {
        assert(buf_contents(*parent) =~= buf_contents(*old(parent)) + box_bytes(
            id,
            buf_contents(*atom),
        ));
    }
}

} // verus!
