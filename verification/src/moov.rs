//! The static container header: the `moov` box tree built once from the
//! stream's parameter sets, picture dimensions, resolution and timescale,
//! and appended before the first fragment.
use vstd::prelude::*;

use crate::boxes::{box_bytes, write_atom};
use crate::bytebuf::{
    buf_contents, buf_new, buf_put_slice, buf_put_u16, buf_put_u16_le, buf_put_u32, buf_put_u64,
    buf_put_u8, lemma_empty_concat2, lemma_empty_concat3, u16_be_bytes, u16_le_bytes,
    u32_be_bytes, u64_be_bytes,
};

verus! {

pub const TAG_MVHD: u32 = 0x6D766864;

pub const TAG_TRAK: u32 = 0x7472616B;

pub const TAG_TKHD: u32 = 0x746B6864;

pub const TAG_MDIA: u32 = 0x6D646961;

pub const TAG_MDHD: u32 = 0x6D646864;

pub const TAG_HDLR: u32 = 0x68646C72;

pub const TAG_MINF: u32 = 0x6D696E66;

pub const TAG_VMHD: u32 = 0x766D6864;

pub const TAG_DINF: u32 = 0x64696E66;

pub const TAG_DREF: u32 = 0x64726566;

pub const TAG_URL: u32 = 0x75726C20;

pub const TAG_STBL: u32 = 0x7374626C;

pub const TAG_STSD: u32 = 0x73747364;

pub const TAG_AVC1: u32 = 0x61766331;

pub const TAG_AVCC: u32 = 0x61766343;

pub const TAG_STTS: u32 = 0x73747473;

pub const TAG_STSC: u32 = 0x73747363;

pub const TAG_STSZ: u32 = 0x7374737A;

pub const TAG_STCO: u32 = 0x7374636F;

pub const TAG_MVEX: u32 = 0x6D766578;

pub const TAG_TREX: u32 = 0x74726578;

pub const TAG_UDTA: u32 = 0x75647461;

pub const TAG_META: u32 = 0x6D657461;

pub const TAG_ILST: u32 = 0x696C7374;

/// What the container initializer needs: the stream's parameter sets,
/// picture dimensions, resolution, creation time and timescale.
pub struct MoovInfo {
    pub sps: Vec<u8>,
    pub pps: Vec<u8>,
    pub width: u16,
    pub height: u16,
    pub horizontal_resolution: u32,
    pub vertical_resolution: u32,
    pub creation_time: u32,
    pub timescale: u32,
}

/// The fixed 3x3 transformation matrix (identity at 16.16 / 2.30 fixed
/// point) that `mvhd` and `tkhd` carry.
pub open spec fn matrix_bytes() -> Seq<u8> {
    u32_be_bytes(65536) + u32_be_bytes(0) + u32_be_bytes(0) + u32_be_bytes(0) + u32_be_bytes(65536)
        + u32_be_bytes(0) + u32_be_bytes(0) + u32_be_bytes(0) + u32_be_bytes(1073741824)
}

fn write_matrix(buf: &mut bytes::BytesMut)
    requires
        buf_contents(*old(buf)).len() + 36 <= isize::MAX,
    ensures
        buf_contents(*final(buf)) == buf_contents(*old(buf)) + matrix_bytes(),
{
    buf_put_u32(buf, 65536);
    buf_put_u32(buf, 0);
    buf_put_u32(buf, 0);
    buf_put_u32(buf, 0);
    buf_put_u32(buf, 65536);
    buf_put_u32(buf, 0);
    buf_put_u32(buf, 0);
    buf_put_u32(buf, 0);
    buf_put_u32(buf, 1073741824);
    proof {
        assert(buf_contents(*buf) =~= buf_contents(*old(buf)) + matrix_bytes());
    }
}

/// The `mvhd` payload: timing fields, rate and volume, the fixed matrix,
/// the preview fields, and the next track id.
pub open spec fn mvhd_payload(creation_time: u32, timescale: u32) -> Seq<u8> {
    seq![0u8] + seq![0u8, 0u8, 0u8] + u32_be_bytes(creation_time) + u32_be_bytes(0) + u32_be_bytes(
        timescale,
    ) + u32_be_bytes(0) + u32_be_bytes(65536) + u16_le_bytes(1) + u16_be_bytes(0) + u32_be_bytes(0)
        + u32_be_bytes(0) + matrix_bytes() + u32_be_bytes(0) + u32_be_bytes(0) + u32_be_bytes(0)
        + u32_be_bytes(0) + u32_be_bytes(0) + u32_be_bytes(0) + u32_be_bytes(2)
}

pub fn write_mvhd(parent: &mut bytes::BytesMut, moov_info: &MoovInfo)
    requires
        buf_contents(*old(parent)).len() + 116 <= isize::MAX,
    ensures
        buf_contents(*final(parent)) == buf_contents(*old(parent)) + box_bytes(
            TAG_MVHD,
            mvhd_payload(moov_info.creation_time, moov_info.timescale),
        ),
{
    let mut buf = buf_new();
    buf_put_u8(&mut buf, 0);
    buf_put_u8(&mut buf, 0);
    buf_put_u8(&mut buf, 0);
    buf_put_u8(&mut buf, 0);
    buf_put_u32(&mut buf, moov_info.creation_time);
    buf_put_u32(&mut buf, 0);
    buf_put_u32(&mut buf, moov_info.timescale);
    buf_put_u32(&mut buf, 0);
    buf_put_u32(&mut buf, 65536);
    buf_put_u16_le(&mut buf, 1);
    buf_put_u16(&mut buf, 0);
    buf_put_u32(&mut buf, 0);
    buf_put_u32(&mut buf, 0);
    write_matrix(&mut buf);
    buf_put_u32(&mut buf, 0);
    buf_put_u32(&mut buf, 0);
    buf_put_u32(&mut buf, 0);
    buf_put_u32(&mut buf, 0);
    buf_put_u32(&mut buf, 0);
    buf_put_u32(&mut buf, 0);
    buf_put_u32(&mut buf, 2);
    proof {
        assert(buf_contents(buf) =~= mvhd_payload(moov_info.creation_time, moov_info.timescale));
    }
    write_atom(parent, TAG_MVHD, &buf);
}

/// The `tkhd` payload: track 1, zero timing, the fixed matrix, and the
/// fixed track presentation size.
pub open spec fn tkhd_payload(creation_time: u32) -> Seq<u8> {
    seq![0u8] + seq![0u8, 0u8, 3u8] + u32_be_bytes(creation_time) + u32_be_bytes(0) + u32_be_bytes(
        1,
    ) + u32_be_bytes(0) + u32_be_bytes(0) + u64_be_bytes(0) + u16_be_bytes(0) + u16_be_bytes(0)
        + u16_be_bytes(0) + u16_be_bytes(0) + matrix_bytes() + u32_be_bytes(125829120)
        + u32_be_bytes(70778880)
}

pub fn write_tkhd(parent: &mut bytes::BytesMut, moov_info: &MoovInfo)
    requires
        buf_contents(*old(parent)).len() + 100 <= isize::MAX,
    ensures
        buf_contents(*final(parent)) == buf_contents(*old(parent)) + box_bytes(
            TAG_TKHD,
            tkhd_payload(moov_info.creation_time),
        ),
{
    let mut buf = buf_new();
    buf_put_u8(&mut buf, 0);
    buf_put_u8(&mut buf, 0);
    buf_put_u8(&mut buf, 0);
    buf_put_u8(&mut buf, 3);
    buf_put_u32(&mut buf, moov_info.creation_time);
    buf_put_u32(&mut buf, 0);
    buf_put_u32(&mut buf, 1);
    buf_put_u32(&mut buf, 0);
    buf_put_u32(&mut buf, 0);
    buf_put_u64(&mut buf, 0);
    buf_put_u16(&mut buf, 0);
    buf_put_u16(&mut buf, 0);
    buf_put_u16(&mut buf, 0);
    buf_put_u16(&mut buf, 0);
    write_matrix(&mut buf);
    buf_put_u32(&mut buf, 125829120);
    buf_put_u32(&mut buf, 70778880);
    proof {
        assert(buf_contents(buf) =~= tkhd_payload(moov_info.creation_time));
    }
    write_atom(parent, TAG_TKHD, &buf);
}

/// The `mdhd` payload: the media timescale and the fixed language code.
pub open spec fn mdhd_payload(timescale: u32) -> Seq<u8> {
    seq![0u8] + seq![0u8, 0u8, 0u8] + u32_be_bytes(0) + u32_be_bytes(0) + u32_be_bytes(timescale)
        + u32_be_bytes(0) + u16_be_bytes(21956) + u16_be_bytes(0)
}

pub fn write_mdhd(parent: &mut bytes::BytesMut, moov_info: &MoovInfo)
    requires
        buf_contents(*old(parent)).len() + 32 <= isize::MAX,
    ensures
        buf_contents(*final(parent)) == buf_contents(*old(parent)) + box_bytes(
            TAG_MDHD,
            mdhd_payload(moov_info.timescale),
        ),
{
    let mut buf = buf_new();
    buf_put_u8(&mut buf, 0);
    buf_put_u8(&mut buf, 0);
    buf_put_u8(&mut buf, 0);
    buf_put_u8(&mut buf, 0);
    buf_put_u32(&mut buf, 0);
    buf_put_u32(&mut buf, 0);
    buf_put_u32(&mut buf, moov_info.timescale);
    buf_put_u32(&mut buf, 0);
    buf_put_u16(&mut buf, 21956);
    buf_put_u16(&mut buf, 0);
    proof {
        assert(buf_contents(buf) =~= mdhd_payload(moov_info.timescale));
    }
    write_atom(parent, TAG_MDHD, &buf);
}

/// The `hdlr` payload: the component subtype and manufacturer codes and
/// the handler name, zero-terminated.
pub open spec fn hdlr_payload(subtype: u32, manufacturer: u32, name: Seq<u8>) -> Seq<u8> {
    seq![0u8] + seq![0u8, 0u8, 0u8] + u32_be_bytes(0) + u32_be_bytes(subtype) + u32_be_bytes(
        manufacturer,
    ) + u32_be_bytes(0) + u32_be_bytes(0) + name + seq![0u8]
}

pub fn write_hdlr(parent: &mut bytes::BytesMut, subtype: u32, manufacturer: u32, name: &Vec<u8>)
    requires
        buf_contents(*old(parent)).len() + 33 + name@.len() <= isize::MAX,
        name@.len() + 33 <= u32::MAX,
    ensures
        buf_contents(*final(parent)) == buf_contents(*old(parent)) + box_bytes(
            TAG_HDLR,
            hdlr_payload(subtype, manufacturer, name@),
        ),
{
    let mut buf = buf_new();
    buf_put_u8(&mut buf, 0);
    buf_put_u8(&mut buf, 0);
    buf_put_u8(&mut buf, 0);
    buf_put_u8(&mut buf, 0);
    buf_put_u32(&mut buf, 0);
    buf_put_u32(&mut buf, subtype);
    buf_put_u32(&mut buf, manufacturer);
    buf_put_u32(&mut buf, 0);
    buf_put_u32(&mut buf, 0);
    buf_put_slice(&mut buf, name.as_slice());
    buf_put_u8(&mut buf, 0);
    proof {
        assert(buf_contents(buf) =~= hdlr_payload(subtype, manufacturer, name@));
    }
    write_atom(parent, TAG_HDLR, &buf);
}

/// The `vmhd` payload: graphics mode copy with zero opcolor.
pub open spec fn vmhd_payload() -> Seq<u8> {
    seq![0u8] + seq![0u8, 0u8, 1u8] + u16_be_bytes(0) + u16_be_bytes(0) + u16_be_bytes(0)
        + u16_be_bytes(0)
}

pub fn write_vmhd(parent: &mut bytes::BytesMut)
    requires
        buf_contents(*old(parent)).len() + 20 <= isize::MAX,
    ensures
        buf_contents(*final(parent)) == buf_contents(*old(parent)) + box_bytes(
            TAG_VMHD,
            vmhd_payload(),
        ),
{
    let mut buf = buf_new();
    buf_put_u8(&mut buf, 0);
    buf_put_u8(&mut buf, 0);
    buf_put_u8(&mut buf, 0);
    buf_put_u8(&mut buf, 1);
    buf_put_u16(&mut buf, 0);
    buf_put_u16(&mut buf, 0);
    buf_put_u16(&mut buf, 0);
    buf_put_u16(&mut buf, 0);
    proof {
        assert(buf_contents(buf) =~= vmhd_payload());
    }
    write_atom(parent, TAG_VMHD, &buf);
}

/// The `url ` payload: the self-contained flag alone.
pub open spec fn url_payload() -> Seq<u8> {
    seq![0u8] + seq![0u8, 0u8, 1u8]
}

pub fn write_url(parent: &mut bytes::BytesMut)
    requires
        buf_contents(*old(parent)).len() + 12 <= isize::MAX,
    ensures
        buf_contents(*final(parent)) == buf_contents(*old(parent)) + box_bytes(
            TAG_URL,
            url_payload(),
        ),
{
    let mut buf = buf_new();
    buf_put_u8(&mut buf, 0);
    buf_put_u8(&mut buf, 0);
    buf_put_u8(&mut buf, 0);
    buf_put_u8(&mut buf, 1);
    proof {
        assert(buf_contents(buf) =~= url_payload());
    }
    write_atom(parent, TAG_URL, &buf);
}

/// The `dref` payload: one entry, the `url ` box.
pub open spec fn dref_payload() -> Seq<u8> {
    seq![0u8] + seq![0u8, 0u8, 0u8] + u32_be_bytes(1) + box_bytes(TAG_URL, url_payload())
}

pub fn write_dref(parent: &mut bytes::BytesMut)
    requires
        buf_contents(*old(parent)).len() + 28 <= isize::MAX,
    ensures
        buf_contents(*final(parent)) == buf_contents(*old(parent)) + box_bytes(
            TAG_DREF,
            dref_payload(),
        ),
{
    let mut buf = buf_new();
    buf_put_u8(&mut buf, 0);
    buf_put_u8(&mut buf, 0);
    buf_put_u8(&mut buf, 0);
    buf_put_u8(&mut buf, 0);
    buf_put_u32(&mut buf, 1);
    write_url(&mut buf);
    proof {
        assert(buf_contents(buf) =~= dref_payload());
    }
    write_atom(parent, TAG_DREF, &buf);
}

/// The `dinf` payload: the `dref` box.
pub open spec fn dinf_payload() -> Seq<u8> {
    box_bytes(TAG_DREF, dref_payload())
}

pub fn write_dinf(parent: &mut bytes::BytesMut)
    requires
        buf_contents(*old(parent)).len() + 36 <= isize::MAX,
    ensures
        buf_contents(*final(parent)) == buf_contents(*old(parent)) + box_bytes(
            TAG_DINF,
            dinf_payload(),
        ),
{
    let mut buf = buf_new();
    write_dref(&mut buf);
    proof {
        assert(buf_contents(buf) =~= dinf_payload());
    }
    write_atom(parent, TAG_DINF, &buf);
}

/// The `avcC` payload: profile, level, the NAL length size, then the SPS
/// and PPS with their two-byte lengths.
pub open spec fn avcc_payload(sps: Seq<u8>, pps: Seq<u8>) -> Seq<u8> {
    seq![1u8] + seq![66u8] + seq![0u8] + seq![42u8] + seq![0xFFu8] + seq![0xE1u8] + u16_be_bytes(
        sps.len() as u16,
    ) + sps + seq![1u8] + u16_be_bytes(pps.len() as u16) + pps
}

#[allow(non_snake_case)]
pub fn write_avcC(parent: &mut bytes::BytesMut, moov_info: &MoovInfo)
    requires
        moov_info.sps@.len() <= 0xFFFF,
        moov_info.pps@.len() <= 0xFFFF,
        buf_contents(*old(parent)).len() + 19 + moov_info.sps@.len() + moov_info.pps@.len()
            <= isize::MAX,
    ensures
        buf_contents(*final(parent)) == buf_contents(*old(parent)) + box_bytes(
            TAG_AVCC,
            avcc_payload(moov_info.sps@, moov_info.pps@),
        ),
{
    let mut buf = buf_new();
    buf_put_u8(&mut buf, 1);
    buf_put_u8(&mut buf, 66);
    buf_put_u8(&mut buf, 0);
    buf_put_u8(&mut buf, 42);
    buf_put_u8(&mut buf, 0xFF);
    buf_put_u8(&mut buf, 0xE1);
    buf_put_u16(&mut buf, moov_info.sps.len() as u16);
    buf_put_slice(&mut buf, moov_info.sps.as_slice());
    buf_put_u8(&mut buf, 1);
    buf_put_u16(&mut buf, moov_info.pps.len() as u16);
    buf_put_slice(&mut buf, moov_info.pps.as_slice());
    proof {
        assert(buf_contents(buf) =~= avcc_payload(moov_info.sps@, moov_info.pps@));
    }
    write_atom(parent, TAG_AVCC, &buf);
}

/// The `avc1` sample entry payload: the visual sample entry fields, the
/// picture dimensions and resolution, the empty compressor name, then the
/// `avcC` box.
pub open spec fn avc1_payload(
    width: u16,
    height: u16,
    horizontal_resolution: u32,
    vertical_resolution: u32,
    sps: Seq<u8>,
    pps: Seq<u8>,
) -> Seq<u8> {
    seq![0u8, 0u8, 0u8] + seq![0u8, 0u8, 0u8] + u16_be_bytes(1) + u16_be_bytes(0) + u16_be_bytes(0)
        + u32_be_bytes(0) + u32_be_bytes(0) + u32_be_bytes(0) + u16_be_bytes(width) + u16_be_bytes(
        height,
    ) + u32_be_bytes(horizontal_resolution) + u32_be_bytes(vertical_resolution) + u32_be_bytes(0)
        + u16_be_bytes(1) + seq![0u8] + u32_be_bytes(0) + u32_be_bytes(0) + u32_be_bytes(0)
        + u32_be_bytes(0) + u32_be_bytes(0) + u32_be_bytes(0) + u32_be_bytes(0) + seq![
        0u8,
        0u8,
        0u8,
    ] + u16_be_bytes(24) + u16_be_bytes(0xFFFF) + box_bytes(TAG_AVCC, avcc_payload(sps, pps))
}

pub fn write_avc1(parent: &mut bytes::BytesMut, moov_info: &MoovInfo)
    requires
        moov_info.sps@.len() <= 0xFFFF,
        moov_info.pps@.len() <= 0xFFFF,
        buf_contents(*old(parent)).len() + 113 + moov_info.sps@.len() + moov_info.pps@.len()
            <= isize::MAX,
    ensures
        buf_contents(*final(parent)) == buf_contents(*old(parent)) + box_bytes(
            TAG_AVC1,
            avc1_payload(
                moov_info.width,
                moov_info.height,
                moov_info.horizontal_resolution,
                moov_info.vertical_resolution,
                moov_info.sps@,
                moov_info.pps@,
            ),
        ),
{
    let mut buf = buf_new();
    buf_put_u8(&mut buf, 0);
    buf_put_u8(&mut buf, 0);
    buf_put_u8(&mut buf, 0);
    buf_put_u8(&mut buf, 0);
    buf_put_u8(&mut buf, 0);
    buf_put_u8(&mut buf, 0);
    buf_put_u16(&mut buf, 1);
    buf_put_u16(&mut buf, 0);
    buf_put_u16(&mut buf, 0);
    buf_put_u32(&mut buf, 0);
    buf_put_u32(&mut buf, 0);
    buf_put_u32(&mut buf, 0);
    buf_put_u16(&mut buf, moov_info.width);
    buf_put_u16(&mut buf, moov_info.height);
    buf_put_u32(&mut buf, moov_info.horizontal_resolution);
    buf_put_u32(&mut buf, moov_info.vertical_resolution);
    buf_put_u32(&mut buf, 0);
    buf_put_u16(&mut buf, 1);
    // The 32-byte compressor name: a zero length byte and 31 zero bytes.
    buf_put_u8(&mut buf, 0);
    buf_put_u32(&mut buf, 0);
    buf_put_u32(&mut buf, 0);
    buf_put_u32(&mut buf, 0);
    buf_put_u32(&mut buf, 0);
    buf_put_u32(&mut buf, 0);
    buf_put_u32(&mut buf, 0);
    buf_put_u32(&mut buf, 0);
    buf_put_u8(&mut buf, 0);
    buf_put_u8(&mut buf, 0);
    buf_put_u8(&mut buf, 0);
    buf_put_u16(&mut buf, 24);
    buf_put_u16(&mut buf, 0xFFFF);
    write_avcC(&mut buf, moov_info);
    proof {
        assert(buf_contents(buf) =~= avc1_payload(
            moov_info.width,
            moov_info.height,
            moov_info.horizontal_resolution,
            moov_info.vertical_resolution,
            moov_info.sps@,
            moov_info.pps@,
        ));
    }
    write_atom(parent, TAG_AVC1, &buf);
}

/// The `stsd` payload: one entry, the `avc1` box.
pub open spec fn stsd_payload(moov_info: MoovInfo) -> Seq<u8> {
    seq![0u8] + seq![0u8, 0u8, 0u8] + u32_be_bytes(1) + box_bytes(
        TAG_AVC1,
        avc1_payload(
            moov_info.width,
            moov_info.height,
            moov_info.horizontal_resolution,
            moov_info.vertical_resolution,
            moov_info.sps@,
            moov_info.pps@,
        ),
    )
}

pub fn write_stsd(parent: &mut bytes::BytesMut, moov_info: &MoovInfo)
    requires
        moov_info.sps@.len() <= 0xFFFF,
        moov_info.pps@.len() <= 0xFFFF,
        buf_contents(*old(parent)).len() + 129 + moov_info.sps@.len() + moov_info.pps@.len()
            <= isize::MAX,
    ensures
        buf_contents(*final(parent)) == buf_contents(*old(parent)) + box_bytes(
            TAG_STSD,
            stsd_payload(*moov_info),
        ),
{
    let mut buf = buf_new();
    buf_put_u8(&mut buf, 0);
    buf_put_u8(&mut buf, 0);
    buf_put_u8(&mut buf, 0);
    buf_put_u8(&mut buf, 0);
    buf_put_u32(&mut buf, 1);
    write_avc1(&mut buf, moov_info);
    proof {
        assert(buf_contents(buf) =~= stsd_payload(*moov_info));
    }
    write_atom(parent, TAG_STSD, &buf);
}

/// An empty full-box table payload: version, zero flags, zero entries.
pub open spec fn empty_table_payload() -> Seq<u8> {
    seq![0u8] + seq![0u8, 0u8, 0u8] + u32_be_bytes(0)
}

pub fn write_stts(parent: &mut bytes::BytesMut)
    requires
        buf_contents(*old(parent)).len() + 16 <= isize::MAX,
    ensures
        buf_contents(*final(parent)) == buf_contents(*old(parent)) + box_bytes(
            TAG_STTS,
            empty_table_payload(),
        ),
{
    let mut buf = buf_new();
    buf_put_u8(&mut buf, 0);
    buf_put_u8(&mut buf, 0);
    buf_put_u8(&mut buf, 0);
    buf_put_u8(&mut buf, 0);
    buf_put_u32(&mut buf, 0);
    proof {
        assert(buf_contents(buf) =~= empty_table_payload());
    }
    write_atom(parent, TAG_STTS, &buf);
}

pub fn write_stsc(parent: &mut bytes::BytesMut)
    requires
        buf_contents(*old(parent)).len() + 16 <= isize::MAX,
    ensures
        buf_contents(*final(parent)) == buf_contents(*old(parent)) + box_bytes(
            TAG_STSC,
            empty_table_payload(),
        ),
{
    let mut buf = buf_new();
    buf_put_u8(&mut buf, 0);
    buf_put_u8(&mut buf, 0);
    buf_put_u8(&mut buf, 0);
    buf_put_u8(&mut buf, 0);
    buf_put_u32(&mut buf, 0);
    proof {
        assert(buf_contents(buf) =~= empty_table_payload());
    }
    write_atom(parent, TAG_STSC, &buf);
}

/// The `stsz` payload: zero sample size and zero entries.
pub open spec fn stsz_payload() -> Seq<u8> {
    seq![0u8] + seq![0u8, 0u8, 0u8] + u32_be_bytes(0) + u32_be_bytes(0)
}

pub fn write_stsz(parent: &mut bytes::BytesMut)
    requires
        buf_contents(*old(parent)).len() + 20 <= isize::MAX,
    ensures
        buf_contents(*final(parent)) == buf_contents(*old(parent)) + box_bytes(
            TAG_STSZ,
            stsz_payload(),
        ),
{
    let mut buf = buf_new();
    buf_put_u8(&mut buf, 0);
    buf_put_u8(&mut buf, 0);
    buf_put_u8(&mut buf, 0);
    buf_put_u8(&mut buf, 0);
    buf_put_u32(&mut buf, 0);
    buf_put_u32(&mut buf, 0);
    proof {
        assert(buf_contents(buf) =~= stsz_payload());
    }
    write_atom(parent, TAG_STSZ, &buf);
}

pub fn write_stco(parent: &mut bytes::BytesMut)
    requires
        buf_contents(*old(parent)).len() + 16 <= isize::MAX,
    ensures
        buf_contents(*final(parent)) == buf_contents(*old(parent)) + box_bytes(
            TAG_STCO,
            empty_table_payload(),
        ),
{
    let mut buf = buf_new();
    buf_put_u8(&mut buf, 0);
    buf_put_u8(&mut buf, 0);
    buf_put_u8(&mut buf, 0);
    buf_put_u8(&mut buf, 0);
    buf_put_u32(&mut buf, 0);
    proof {
        assert(buf_contents(buf) =~= empty_table_payload());
    }
    write_atom(parent, TAG_STCO, &buf);
}

/// The `stbl` payload: the sample description and the four empty tables.
pub open spec fn stbl_payload(moov_info: MoovInfo) -> Seq<u8> {
    box_bytes(TAG_STSD, stsd_payload(moov_info)) + box_bytes(TAG_STTS, empty_table_payload())
        + box_bytes(TAG_STSC, empty_table_payload()) + box_bytes(TAG_STSZ, stsz_payload())
        + box_bytes(TAG_STCO, empty_table_payload())
}

pub fn write_stbl(parent: &mut bytes::BytesMut, moov_info: &MoovInfo)
    requires
        moov_info.sps@.len() <= 0xFFFF,
        moov_info.pps@.len() <= 0xFFFF,
        buf_contents(*old(parent)).len() + 205 + moov_info.sps@.len() + moov_info.pps@.len()
            <= isize::MAX,
    ensures
        buf_contents(*final(parent)) == buf_contents(*old(parent)) + box_bytes(
            TAG_STBL,
            stbl_payload(*moov_info),
        ),
{
    let mut buf = buf_new();
    write_stsd(&mut buf, moov_info);
    write_stts(&mut buf);
    write_stsc(&mut buf);
    write_stsz(&mut buf);
    write_stco(&mut buf);
    proof {
        assert(buf_contents(buf) =~= stbl_payload(*moov_info));
    }
    write_atom(parent, TAG_STBL, &buf);
}

/// The `minf` payload: `vmhd`, `dinf`, `stbl`.
pub open spec fn minf_payload(moov_info: MoovInfo) -> Seq<u8> {
    box_bytes(TAG_VMHD, vmhd_payload()) + box_bytes(TAG_DINF, dinf_payload()) + box_bytes(
        TAG_STBL,
        stbl_payload(moov_info),
    )
}

pub fn write_minf(parent: &mut bytes::BytesMut, moov_info: &MoovInfo)
    requires
        moov_info.sps@.len() <= 0xFFFF,
        moov_info.pps@.len() <= 0xFFFF,
        buf_contents(*old(parent)).len() + 269 + moov_info.sps@.len() + moov_info.pps@.len()
            <= isize::MAX,
    ensures
        buf_contents(*final(parent)) == buf_contents(*old(parent)) + box_bytes(
            TAG_MINF,
            minf_payload(*moov_info),
        ),
{
    let mut buf = buf_new();
    write_vmhd(&mut buf);
    write_dinf(&mut buf);
    write_stbl(&mut buf, moov_info);
    proof {
        assert(buf_contents(buf) =~= minf_payload(*moov_info));
    }
    write_atom(parent, TAG_MINF, &buf);
}

/// The video handler's name.
pub open spec fn video_handler_name() -> Seq<u8> {
    seq![0x56u8, 0x69u8, 0x64u8, 0x65u8, 0x6Fu8, 0x48u8, 0x61u8, 0x6Eu8, 0x64u8, 0x6Cu8, 0x65u8, 0x72u8]
}

/// The `mdia` payload: `mdhd`, the video `hdlr`, `minf`.
#[verifier::opaque]
pub open spec fn mdia_payload(moov_info: MoovInfo) -> Seq<u8> {
    box_bytes(TAG_MDHD, mdhd_payload(moov_info.timescale)) + box_bytes(
        TAG_HDLR,
        hdlr_payload(0x76696465, 0, video_handler_name()),
    ) + box_bytes(TAG_MINF, minf_payload(moov_info))
}

#[verifier::rlimit(60)]
pub proof fn lemma_mdia_payload_len(moov_info: MoovInfo)
    ensures
        mdia_payload(moov_info).len() == 338 + moov_info.sps@.len() + moov_info.pps@.len(),
{
    reveal(mdia_payload);
}

pub fn write_mdia(parent: &mut bytes::BytesMut, moov_info: &MoovInfo)
    requires
        moov_info.sps@.len() <= 0xFFFF,
        moov_info.pps@.len() <= 0xFFFF,
        buf_contents(*old(parent)).len() + 362 + moov_info.sps@.len() + moov_info.pps@.len()
            <= isize::MAX,
    ensures
        buf_contents(*final(parent)) == buf_contents(*old(parent)) + box_bytes(
            TAG_MDIA,
            mdia_payload(*moov_info),
        ),
{
    let mut buf = buf_new();
    write_mdhd(&mut buf, moov_info);
    let mut name: Vec<u8> = Vec::new();
    name.push(0x56);
    name.push(0x69);
    name.push(0x64);
    name.push(0x65);
    name.push(0x6F);
    name.push(0x48);
    name.push(0x61);
    name.push(0x6E);
    name.push(0x64);
    name.push(0x6C);
    name.push(0x65);
    name.push(0x72);
    proof {
        assert(name@ =~= video_handler_name());
    }
    write_hdlr(&mut buf, 0x76696465, 0, &name);
    write_minf(&mut buf, moov_info);
    proof {
        lemma_mdia_payload_len(*moov_info);
        reveal(mdia_payload);
        lemma_empty_concat3(
            box_bytes(TAG_MDHD, mdhd_payload(moov_info.timescale)),
            box_bytes(TAG_HDLR, hdlr_payload(0x76696465, 0, name@)),
            box_bytes(TAG_MINF, minf_payload(*moov_info)),
        );
        assert(buf_contents(buf) == mdia_payload(*moov_info));
    }
    write_atom(parent, TAG_MDIA, &buf);
}

/// The `trak` payload: `tkhd` then `mdia`.
#[verifier::opaque]
pub open spec fn trak_payload(moov_info: MoovInfo) -> Seq<u8> {
    box_bytes(TAG_TKHD, tkhd_payload(moov_info.creation_time)) + box_bytes(
        TAG_MDIA,
        mdia_payload(moov_info),
    )
}

pub proof fn lemma_trak_payload_len(moov_info: MoovInfo)
    ensures
        trak_payload(moov_info).len() == 438 + moov_info.sps@.len() + moov_info.pps@.len(),
{
    reveal(trak_payload);
    lemma_mdia_payload_len(moov_info);
}

pub fn write_trak(parent: &mut bytes::BytesMut, moov_info: &MoovInfo)
    requires
        moov_info.sps@.len() <= 0xFFFF,
        moov_info.pps@.len() <= 0xFFFF,
        buf_contents(*old(parent)).len() + 470 + moov_info.sps@.len() + moov_info.pps@.len()
            <= isize::MAX,
    ensures
        buf_contents(*final(parent)) == buf_contents(*old(parent)) + box_bytes(
            TAG_TRAK,
            trak_payload(*moov_info),
        ),
{
    let mut buf = buf_new();
    write_tkhd(&mut buf, moov_info);
    write_mdia(&mut buf, moov_info);
    proof {
        lemma_mdia_payload_len(*moov_info);
        lemma_trak_payload_len(*moov_info);
        reveal(trak_payload);
        lemma_empty_concat2(
            box_bytes(TAG_TKHD, tkhd_payload(moov_info.creation_time)),
            box_bytes(TAG_MDIA, mdia_payload(*moov_info)),
        );
        assert(buf_contents(buf) == trak_payload(*moov_info));
    }
    write_atom(parent, TAG_TRAK, &buf);
}

/// The `trex` payload: track 1 with default sample description 1 and zero
/// defaults.
pub open spec fn trex_payload() -> Seq<u8> {
    seq![0u8] + seq![0u8, 0u8, 0u8] + u32_be_bytes(1) + u32_be_bytes(1) + u32_be_bytes(0)
        + u32_be_bytes(0) + u32_be_bytes(0)
}

pub fn write_trex(parent: &mut bytes::BytesMut)
    requires
        buf_contents(*old(parent)).len() + 32 <= isize::MAX,
    ensures
        buf_contents(*final(parent)) == buf_contents(*old(parent)) + box_bytes(
            TAG_TREX,
            trex_payload(),
        ),
{
    let mut buf = buf_new();
    buf_put_u8(&mut buf, 0);
    buf_put_u8(&mut buf, 0);
    buf_put_u8(&mut buf, 0);
    buf_put_u8(&mut buf, 0);
    buf_put_u32(&mut buf, 1);
    buf_put_u32(&mut buf, 1);
    buf_put_u32(&mut buf, 0);
    buf_put_u32(&mut buf, 0);
    buf_put_u32(&mut buf, 0);
    proof {
        assert(buf_contents(buf) =~= trex_payload());
    }
    write_atom(parent, TAG_TREX, &buf);
}

/// The `mvex` payload: the `trex` box.
pub open spec fn mvex_payload() -> Seq<u8> {
    box_bytes(TAG_TREX, trex_payload())
}

pub fn write_mvex(parent: &mut bytes::BytesMut)
    requires
        buf_contents(*old(parent)).len() + 40 <= isize::MAX,
    ensures
        buf_contents(*final(parent)) == buf_contents(*old(parent)) + box_bytes(
            TAG_MVEX,
            mvex_payload(),
        ),
{
    let mut buf = buf_new();
    write_trex(&mut buf);
    proof {
        assert(buf_contents(buf) =~= mvex_payload());
    }
    write_atom(parent, TAG_MVEX, &buf);
}

/// The whole `moov` payload: `mvhd`, `trak`, `mvex`.
#[verifier::opaque]
pub open spec fn moov_payload(moov_info: MoovInfo) -> Seq<u8> {
    box_bytes(TAG_MVHD, mvhd_payload(moov_info.creation_time, moov_info.timescale)) + box_bytes(
        TAG_TRAK,
        trak_payload(moov_info),
    ) + box_bytes(TAG_MVEX, mvex_payload())
}

pub proof fn lemma_moov_payload_len(moov_info: MoovInfo)
    ensures
        moov_payload(moov_info).len() == 594 + moov_info.sps@.len() + moov_info.pps@.len(),
{
    reveal(moov_payload);
    lemma_trak_payload_len(moov_info);
}

/// Writes the whole static `moov` box from the stream parameters.
pub fn write_moov(parent: &mut bytes::BytesMut, moov_info: &MoovInfo)
    requires
        moov_info.sps@.len() <= 0xFFFF,
        moov_info.pps@.len() <= 0xFFFF,
        buf_contents(*old(parent)).len() + 642 + moov_info.sps@.len() + moov_info.pps@.len()
            <= isize::MAX,
    ensures
        buf_contents(*final(parent)) == buf_contents(*old(parent)) + box_bytes(
            crate::boxes::TAG_MOOV,
            moov_payload(*moov_info),
        ),
{
    let mut buf = buf_new();
    write_mvhd(&mut buf, moov_info);
    write_trak(&mut buf, moov_info);
    proof {
        lemma_trak_payload_len(*moov_info);
    }
    write_mvex(&mut buf);
    proof {
        lemma_moov_payload_len(*moov_info);
        reveal(moov_payload);
        lemma_empty_concat3(
            box_bytes(TAG_MVHD, mvhd_payload(moov_info.creation_time, moov_info.timescale)),
            box_bytes(TAG_TRAK, trak_payload(*moov_info)),
            box_bytes(TAG_MVEX, mvex_payload()),
        );
        assert(buf_contents(buf) == moov_payload(*moov_info));
    }
    write_atom(parent, crate::boxes::TAG_MOOV, &buf);
}

/// The `ilst` payload: the raw item list bytes.
pub open spec fn ilst_payload(arr: Seq<u8>) -> Seq<u8> {
    arr
}

pub fn write_ilst(parent: &mut bytes::BytesMut, arr: &Vec<u8>)
    requires
        arr@.len() + 8 <= u32::MAX,
        buf_contents(*old(parent)).len() + 8 + arr@.len() <= isize::MAX,
    ensures
        buf_contents(*final(parent)) == buf_contents(*old(parent)) + box_bytes(TAG_ILST, arr@),
{
    let mut buf = buf_new();
    buf_put_slice(&mut buf, arr.as_slice());
    proof {
        assert(buf_contents(buf) =~= arr@);
    }
    write_atom(parent, TAG_ILST, &buf);
}

/// The `meta` payload: a `mdir`/`appl` handler with an empty name, then
/// the item list.
pub open spec fn meta_payload(arr: Seq<u8>) -> Seq<u8> {
    seq![0u8] + seq![0u8, 0u8, 0u8] + box_bytes(
        TAG_HDLR,
        hdlr_payload(0x6D646972, 0x6170706C, Seq::empty()),
    ) + box_bytes(TAG_ILST, arr)
}

pub fn write_meta(parent: &mut bytes::BytesMut, arr: &Vec<u8>)
    requires
        arr@.len() + 61 <= u32::MAX,
        buf_contents(*old(parent)).len() + 61 + arr@.len() <= isize::MAX,
    ensures
        buf_contents(*final(parent)) == buf_contents(*old(parent)) + box_bytes(
            TAG_META,
            meta_payload(arr@),
        ),
{
    let mut buf = buf_new();
    buf_put_u8(&mut buf, 0);
    buf_put_u8(&mut buf, 0);
    buf_put_u8(&mut buf, 0);
    buf_put_u8(&mut buf, 0);
    let name: Vec<u8> = Vec::new();
    proof {
        assert(name@ =~= Seq::<u8>::empty());
    }
    write_hdlr(&mut buf, 0x6D646972, 0x6170706C, &name);
    write_ilst(&mut buf, arr);
    proof {
        assert(buf_contents(buf) =~= meta_payload(arr@));
    }
    write_atom(parent, TAG_META, &buf);
}

/// The `udta` payload: the `meta` box.
pub open spec fn udta_payload(arr: Seq<u8>) -> Seq<u8> {
    box_bytes(TAG_META, meta_payload(arr))
}

pub fn write_udta(parent: &mut bytes::BytesMut, arr: &Vec<u8>)
    requires
        arr@.len() + 69 <= u32::MAX,
        buf_contents(*old(parent)).len() + 69 + arr@.len() <= isize::MAX,
    ensures
        buf_contents(*final(parent)) == buf_contents(*old(parent)) + box_bytes(
            TAG_UDTA,
            udta_payload(arr@),
        ),
{
    let mut buf = buf_new();
    write_meta(&mut buf, arr);
    proof {
        assert(buf_contents(buf) =~= udta_payload(arr@));
    }
    write_atom(parent, TAG_UDTA, &buf);
}

} // verus!
