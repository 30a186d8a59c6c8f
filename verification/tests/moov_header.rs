use fmp4::bytebuf::{buf_as_slice, buf_new};
use fmp4::moov::{
    write_avcC, write_mdhd, write_moov, write_mvhd, write_tkhd, write_udta, MoovInfo,
};
use fmp4::mp4_parser::{read_atom, AtomType};

fn be32(b: &[u8], off: usize) -> u32 {
    ((b[off] as u32) << 24) | ((b[off + 1] as u32) << 16) | ((b[off + 2] as u32) << 8) | (b[off
        + 3] as u32)
}

fn info() -> MoovInfo {
    MoovInfo {
        sps: vec![1, 2, 3],
        pps: vec![4, 5],
        width: 1920,
        height: 1080,
        horizontal_resolution: 0x00480000,
        vertical_resolution: 0x00480000,
        creation_time: 3_600_000_000,
        timescale: 48000,
    }
}

#[test]
fn moov_structure() {
    let mut out = buf_new();
    write_moov(&mut out, &info());
    let data = buf_as_slice(&out).to_vec();
    // moov carries 602 fixed bytes plus the two parameter sets.
    assert_eq!(data.len(), 602 + 3 + 2);
    let (moov, next) = read_atom(&data, 0).unwrap();
    assert_eq!(moov.typeid, AtomType::MOOV);
    assert_eq!(next, data.len());

    // Its children: mvhd, trak, mvex, in order.
    let inner = moov.data;
    let (mvhd, n1) = read_atom(&inner, 0).unwrap();
    assert_eq!(mvhd.typeid, AtomType::Other(0x6D766864));
    assert_eq!(mvhd.data.len(), 100);
    let (trak, n2) = read_atom(&inner, n1).unwrap();
    assert_eq!(trak.typeid, AtomType::Other(0x7472616B));
    assert_eq!(trak.data.len(), 438 + 5);
    let (mvex, n3) = read_atom(&inner, n2).unwrap();
    assert_eq!(mvex.typeid, AtomType::Other(0x6D766578));
    assert_eq!(mvex.data.len(), 32);
    assert_eq!(n3, inner.len());
}

#[test]
fn mvhd_fields() {
    let mut out = buf_new();
    write_mvhd(&mut out, &info());
    let b = buf_as_slice(&out);
    assert_eq!(b.len(), 108);
    assert_eq!(be32(b, 0), 108);
    assert_eq!(&b[4..8], b"mvhd");
    assert_eq!(be32(b, 12), 3_600_000_000); // creation time
    assert_eq!(be32(b, 20), 48000); // timescale
    assert_eq!(be32(b, 28), 65536); // preferred rate
    assert_eq!(&b[32..34], &[1, 0]); // preferred volume, little endian
    assert_eq!(be32(b, 44), 65536); // matrix a
    assert_eq!(be32(b, 76), 1073741824); // matrix w
    assert_eq!(be32(b, 104), 2); // next track id
}

#[test]
fn tkhd_fields() {
    let mut out = buf_new();
    write_tkhd(&mut out, &info());
    let b = buf_as_slice(&out);
    assert_eq!(b.len(), 92);
    assert_eq!(&b[4..8], b"tkhd");
    assert_eq!(&b[8..12], &[0, 0, 0, 3]); // version + flags
    assert_eq!(be32(b, 20), 1); // track id
    assert_eq!(be32(b, 84), 125829120); // track width, 16.16
    assert_eq!(be32(b, 88), 70778880); // track height, 16.16
}

#[test]
fn mdhd_fields() {
    let mut out = buf_new();
    write_mdhd(&mut out, &info());
    let b = buf_as_slice(&out);
    assert_eq!(b.len(), 32);
    assert_eq!(&b[4..8], b"mdhd");
    assert_eq!(be32(b, 20), 48000); // timescale
    assert_eq!(&b[28..30], &[0x55, 0xC4]); // language 21956
}

#[test]
fn avcc_carries_parameter_sets() {
    let mut out = buf_new();
    write_avcC(&mut out, &info());
    let b = buf_as_slice(&out);
    assert_eq!(b.len(), 8 + 11 + 3 + 2);
    assert_eq!(&b[4..8], b"avcC");
    assert_eq!(&b[8..12], &[1, 66, 0, 42]); // version, profile, compat, level
    assert_eq!(&b[12..14], &[0xFF, 0xE1]);
    assert_eq!(&b[14..16], &[0, 3]); // sps length
    assert_eq!(&b[16..19], &[1, 2, 3]); // sps
    assert_eq!(b[19], 1); // pps count
    assert_eq!(&b[20..22], &[0, 2]); // pps length
    assert_eq!(&b[22..24], &[4, 5]); // pps
}

#[test]
fn udta_tree() {
    let arr: Vec<u8> = vec![
        0, 0, 0, 37, 169, 116, 111, 111, 0, 0, 0, 29, 100, 97, 116, 97, 0, 0, 0, 1, 0, 0, 0, 0,
        76, 97, 118, 102, 53, 55, 46, 56, 51, 46, 49, 48, 48,
    ];
    let mut out = buf_new();
    write_udta(&mut out, &arr);
    let b = buf_as_slice(&out);
    assert_eq!(b.len(), 98);
    assert_eq!(be32(b, 0), 98);
    assert_eq!(&b[4..8], b"udta");
    assert_eq!(&b[12..16], b"meta");
    assert_eq!(&b[24..28], b"hdlr");
    assert_eq!(&b[57..61], b"ilst");
}
