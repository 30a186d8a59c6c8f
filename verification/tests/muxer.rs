use fmp4::bytebuf::{buf_as_slice, buf_new};
use fmp4::h264::{demux, scan, segment, IDR, NalUnitType};
use fmp4::moof::{write_mfhd, write_moof, write_tfdt, write_tfhd, write_trun, SampleInfo};
use fmp4::moov::{write_moov, MoovInfo};
use fmp4::mp4_parser::{read_atoms, read_samples, AtomType};
use fmp4::mux::{write_fragment, write_fragments, write_ftyp, write_samples};
use fmp4::Mp4Error;

fn be32(b: &[u8], off: usize) -> u32 {
    ((b[off] as u32) << 24) | ((b[off + 1] as u32) << 16) | ((b[off + 2] as u32) << 8) | (b[off
        + 3] as u32)
}

fn be64(b: &[u8], off: usize) -> u64 {
    ((be32(b, off) as u64) << 32) | (be32(b, off + 4) as u64)
}

fn infos(sizes: &[u32]) -> Vec<SampleInfo> {
    sizes.iter().map(|s| SampleInfo { duration: 0, size: *s, flags: 0 }).collect()
}

#[test]
fn ftyp_exact_bytes() {
    let mut out = buf_new();
    write_ftyp(&mut out);
    let b = buf_as_slice(&out);
    let mut expected = vec![0, 0, 0, 36];
    expected.extend_from_slice(b"ftyp");
    expected.extend_from_slice(b"isom");
    expected.extend_from_slice(&[0, 0, 2, 0]);
    expected.extend_from_slice(b"isom");
    expected.extend_from_slice(b"iso2");
    expected.extend_from_slice(b"avc1");
    expected.extend_from_slice(b"iso6");
    expected.extend_from_slice(b"mp41");
    assert_eq!(b, expected.as_slice());
}

#[test]
fn mfhd_exact_bytes() {
    let mut out = buf_new();
    write_mfhd(&mut out, 7);
    let b = buf_as_slice(&out);
    assert_eq!(b, &[0, 0, 0, 16, 0x6D, 0x66, 0x68, 0x64, 0, 0, 0, 0, 0, 0, 0, 7]);
}

#[test]
fn tfdt_exact_bytes() {
    let mut out = buf_new();
    write_tfdt(&mut out, 0x0102030405060708);
    let b = buf_as_slice(&out);
    assert_eq!(
        b,
        &[0, 0, 0, 20, 0x74, 0x66, 0x64, 0x74, 1, 0, 0, 0, 1, 2, 3, 4, 5, 6, 7, 8]
    );
}

#[test]
fn tfhd_exact_bytes() {
    let mut out = buf_new();
    write_tfhd(&mut out, 0x1122334455667788, 100, 200);
    let b = buf_as_slice(&out);
    let mut expected = vec![0, 0, 0, 36];
    expected.extend_from_slice(b"tfhd");
    expected.extend_from_slice(&[0, 0, 0, 0x39]); // version + presence flags
    expected.extend_from_slice(&[0, 0, 0, 1]); // track id
    expected.extend_from_slice(&[0x11, 0x22, 0x33, 0x44, 0x55, 0x66, 0x77, 0x88]);
    expected.extend_from_slice(&[0, 0, 0, 100]); // default sample duration
    expected.extend_from_slice(&[0, 0, 0, 200]); // default sample size
    expected.extend_from_slice(&[0x01, 0x01, 0, 0]); // default sample flags
    assert_eq!(b, expected.as_slice());
}

#[test]
fn trun_offset_formula() {
    let mut out = buf_new();
    write_trun(&mut out, &infos(&[10, 20]), 72);
    let b = buf_as_slice(&out);
    let mut expected = vec![0, 0, 0, 32];
    expected.extend_from_slice(b"trun");
    expected.extend_from_slice(&[0, 0, 0x02, 0x05]); // version + presence flags
    expected.extend_from_slice(&[0, 0, 0, 2]); // sample count
    expected.extend_from_slice(&[0, 0, 0, 128]); // 72 + 48 + 4 * 2
    expected.extend_from_slice(&[0x02, 0, 0, 0]); // first sample flags
    expected.extend_from_slice(&[0, 0, 0, 10]);
    expected.extend_from_slice(&[0, 0, 0, 20]);
    assert_eq!(b, expected.as_slice());
}

#[test]
fn moof_layout() {
    let mut out = buf_new();
    write_moof(&mut out, 1, 0, 0, 100, &infos(&[10, 20, 30, 40]));
    let b = buf_as_slice(&out);
    // The moof length depends on the sample count alone: 112 + 4 * 4.
    assert_eq!(b.len(), 128);
    assert_eq!(be32(b, 0), 128);
    assert_eq!(&b[4..8], b"moof");
    assert_eq!(be32(b, 8), 16); // mfhd
    assert_eq!(&b[12..16], b"mfhd");
    assert_eq!(be32(b, 24), 104); // traf
    assert_eq!(&b[28..32], b"traf");
    // The trun data offset points one mdat header past the moof box.
    assert_eq!(be32(b, 104), 136);
    // One size entry per sample.
    assert_eq!(be32(b, 112), 10);
    assert_eq!(be32(b, 116), 20);
    assert_eq!(be32(b, 120), 30);
    assert_eq!(be32(b, 124), 40);
}

fn sample(t: NalUnitType, data: &[u8]) -> (NalUnitType, Vec<u8>) {
    (t, data.to_vec())
}

#[test]
fn write_samples_coalesces_leading_sizes() {
    let samples = vec![
        sample(NalUnitType::SPS, &[0x67, 1]),
        sample(NalUnitType::PPS, &[0x68, 2]),
        sample(NalUnitType::CodedSliceIdr, &[0x65, 3, 3]),
        sample(NalUnitType::CodedSliceNonIdr, &[0x41, 4, 4, 4]),
    ];
    let (sizes, mdat) = write_samples(&samples).unwrap();
    assert_eq!(sizes, vec![19, 8]);
    let m = buf_as_slice(&mdat);
    let mut expected = Vec::new();
    expected.extend_from_slice(&[0, 0, 0, 2, 0x67, 1]);
    expected.extend_from_slice(&[0, 0, 0, 2, 0x68, 2]);
    expected.extend_from_slice(&[0, 0, 0, 3, 0x65, 3, 3]);
    expected.extend_from_slice(&[0, 0, 0, 4, 0x41, 4, 4, 4]);
    assert_eq!(m, expected.as_slice());
}

#[test]
fn write_samples_rejects_small_fragment() {
    let samples = vec![
        sample(NalUnitType::SPS, &[0x67, 1]),
        sample(NalUnitType::PPS, &[0x68, 2]),
        sample(NalUnitType::CodedSliceIdr, &[0x65, 3]),
    ];
    assert!(matches!(write_samples(&samples), Err(Mp4Error::FragmentTooSmall)));
}

#[test]
fn fragment_offset_round_trip() {
    // Offset correctness: base_data_offset + data_offset + (sizes + 4 of
    // the preceding samples) + 4 addresses each sample's payload bytes.
    let mut out = buf_new();
    write_ftyp(&mut out); // 36 bytes of preceding output
    let idr = IDR {
        samples: vec![
            sample(NalUnitType::SPS, &[0x67, 1]),
            sample(NalUnitType::PPS, &[0x68, 2]),
            sample(NalUnitType::CodedSliceIdr, &[0x65, 3, 3]),
            sample(NalUnitType::CodedSliceNonIdr, &[0x41, 4, 4, 4]),
        ],
    };
    write_fragment(&mut out, &idr, 1, 48000, 100).unwrap();
    let b = buf_as_slice(&out);
    assert_eq!(b.len(), 191);

    // The tfhd base_data_offset is the output length at the moof start.
    let base = 36u64;
    assert_eq!(be64(b, 36 + 48), base);
    // The trun data offset covers the moof box and the mdat header.
    let data_offset = be32(b, 36 + 104);
    assert_eq!(data_offset, 128); // moof is 112 + 4 * 2 = 120, + 8

    let payloads: [&[u8]; 4] = [&[0x67, 1], &[0x68, 2], &[0x65, 3, 3], &[0x41, 4, 4, 4]];
    let mut preceding = 0usize;
    for p in payloads {
        let pos = base as usize + data_offset as usize + preceding + 4;
        assert_eq!(&b[pos..pos + p.len()], p);
        // The four bytes before the payload declare its length.
        assert_eq!(be32(b, pos - 4) as usize, p.len());
        preceding += p.len() + 4;
    }
}

#[test]
fn fragment_too_small_emits_nothing() {
    // A fragment of three or fewer samples raises FragmentTooSmall and
    // nothing is appended for it.
    let mut out = buf_new();
    write_ftyp(&mut out);
    let before = buf_as_slice(&out).to_vec();
    let idr = IDR {
        samples: vec![
            sample(NalUnitType::SPS, &[0x67, 1]),
            sample(NalUnitType::PPS, &[0x68, 2]),
            sample(NalUnitType::CodedSliceIdr, &[0x65, 3]),
        ],
    };
    assert!(matches!(
        write_fragment(&mut out, &idr, 1, 48000, 100),
        Err(Mp4Error::FragmentTooSmall)
    ));
    assert_eq!(buf_as_slice(&out), before.as_slice());
}

/// Builds the concrete scenario stream: NAL types
/// [SPS, PPS, IDR, nonIDR, nonIDR, nonIDR, SPS, PPS, IDR, nonIDR, nonIDR,
/// nonIDR, nonIDR] with data lengths {10,5,100,50,60,70} and
/// {12,6,110,40,45,55,65}.
fn scenario_stream() -> Vec<u8> {
    let headers_lens: [(u8, usize); 13] = [
        (0x67, 10),
        (0x68, 5),
        (0x65, 100),
        (0x41, 50),
        (0x41, 60),
        (0x41, 70),
        (0x67, 12),
        (0x68, 6),
        (0x65, 110),
        (0x41, 40),
        (0x41, 45),
        (0x41, 55),
        (0x41, 65),
    ];
    let mut buf = Vec::new();
    for (i, (h, len)) in headers_lens.iter().enumerate() {
        if i % 2 == 0 {
            buf.extend_from_slice(&[0, 0, 1]);
        } else {
            buf.extend_from_slice(&[0, 0, 0, 1]);
        }
        buf.push(*h);
        for _ in 1..*len {
            buf.push(0xAA);
        }
    }
    buf.extend_from_slice(&[0, 0, 0, 1, 0xAA]);
    buf
}

#[test]
fn concrete_scenario_two_fragments() {
    let stream = scenario_stream();
    let units = scan(&stream);
    assert_eq!(units.len(), 13);
    let frags = segment(&units);
    assert_eq!(frags.len(), 2);
    assert_eq!(frags[0].samples.len(), 6);
    assert_eq!(frags[1].samples.len(), 7);

    // Fragment 1: the SPS, PPS and IDR coalesce into the leading entry
    // ((10+4) + (5+4) + (100+4)), each non-IDR slice gets its own.
    let (sizes1, _) = write_samples(&frags[0].samples).unwrap();
    assert_eq!(sizes1, vec![127, 54, 64, 74]);
    assert_eq!(sizes1.len(), 4); // sample_count = 1 + three slices

    let (sizes2, _) = write_samples(&frags[1].samples).unwrap();
    assert_eq!(sizes2, vec![140, 44, 49, 59, 69]);
    assert_eq!(sizes2.len(), 5);
}

#[test]
fn fragments_sequence_and_decode_time() {
    let stream = scenario_stream();
    let units = scan(&stream);
    let frags = segment(&units);
    let mut out = buf_new();
    write_fragments(&mut out, &frags, 48000, 100).unwrap();
    let b = buf_as_slice(&out);

    // Fragment 1: moof of 4 entries (128 bytes), mdat of the six samples.
    let mdat1_payload: u32 = (10 + 4) + (5 + 4) + (100 + 4) + (50 + 4) + (60 + 4) + (70 + 4);
    assert_eq!(be32(b, 0), 128);
    assert_eq!(be32(b, 16 + 4), 1); // sequence number 1
    assert_eq!(be64(b, 68 + 12), 0); // decode time of the first fragment
    assert_eq!(be64(b, 48), 0); // base_data_offset of the first fragment
    assert_eq!(be32(b, 128), mdat1_payload + 8);
    assert_eq!(&b[132..136], b"mdat");

    // Fragment 2 starts right after; sequence 2, decode time
    // timescale * samples_per_fragment * (sequence - 1) = 48000 * 5 * 1.
    let f2 = (128 + 8 + mdat1_payload) as usize;
    assert_eq!(be32(b, f2), 112 + 4 * 5);
    assert_eq!(&b[f2 + 4..f2 + 8], b"moof");
    assert_eq!(be32(b, f2 + 16 + 4), 2);
    assert_eq!(be64(b, f2 + 48), f2 as u64); // base_data_offset
    assert_eq!(be64(b, f2 + 68 + 12), 240000);
    assert_eq!(b.len(), f2 + 132 + ((12 + 4) + (6 + 4) + (110 + 4) + (40 + 4) + (45 + 4) + (55
        + 4) + (65 + 4)) as usize + 8);
}

#[test]
fn end_to_end_container_reparses() {
    // The whole conversion on the scenario stream, then a read-back of the
    // produced container: box tree intact, every mdat sample record intact.
    let stream = scenario_stream();
    let (frags, sps, pps) = demux(&stream);
    assert_eq!(frags.len(), 2);
    let moov_info = MoovInfo {
        sps: sps.unwrap(),
        pps: pps.unwrap(),
        width: 1280,
        height: 720,
        horizontal_resolution: 0x0048_0000,
        vertical_resolution: 0x0048_0000,
        creation_time: 0,
        timescale: 48000,
    };
    let mut out = buf_new();
    write_ftyp(&mut out);
    write_moov(&mut out, &moov_info);
    write_fragments(&mut out, &frags, 48000, 1920).unwrap();

    let data = buf_as_slice(&out).to_vec();
    let atoms = read_atoms(&data).unwrap();
    let types: Vec<AtomType> = atoms.iter().map(|a| a.typeid).collect();
    assert_eq!(
        types,
        vec![
            AtomType::FTYP,
            AtomType::MOOV,
            AtomType::MOOF,
            AtomType::MDAT,
            AtomType::MOOF,
            AtomType::MDAT,
        ]
    );

    // Each mdat holds its fragment's NAL data, framed record by record.
    let units = scan(&stream);
    let mut unit_index = 0usize;
    for (atom, frag) in atoms.iter().filter(|a| a.typeid == AtomType::MDAT).zip(&frags) {
        let samples = read_samples(&atom.data).unwrap();
        assert_eq!(samples.len(), frag.samples.len());
        for s in &samples {
            assert_eq!(s.data, units[unit_index].data);
            unit_index += 1;
        }
    }
    assert_eq!(unit_index, units.len());
}
