use fmp4::h264::{
    demux, find_nal, get_forbidden_zero_bit, get_nal, get_nal_ref_idc, get_nal_unit_type,
    nal_from_data, scan, segment, NalUnitType,
};

/// Builds an Annex-B buffer: each entry is (use_4_byte_code, nal_data);
/// a 4-byte terminating start code plus one filler byte closes the last
/// unit without adding one.
fn annexb(units: &[(bool, Vec<u8>)]) -> Vec<u8> {
    let mut buf = Vec::new();
    for (wide, data) in units {
        if *wide {
            buf.extend_from_slice(&[0, 0, 0, 1]);
        } else {
            buf.extend_from_slice(&[0, 0, 1]);
        }
        buf.extend_from_slice(data);
    }
    buf.extend_from_slice(&[0, 0, 0, 1, 0xAA]);
    buf
}

fn nal_data(header: u8, len: usize) -> Vec<u8> {
    let mut d = vec![header];
    while d.len() < len {
        d.push(0xAA);
    }
    d
}

#[test]
fn scan_mixed_start_codes() {
    // Scanner correctness: payloads interleaved with a mix of 3- and
    // 4-byte start codes come back exactly, spans excluding the codes.
    let p1 = nal_data(0x67, 4); // SPS
    let p2 = nal_data(0x68, 3); // PPS
    let p3 = nal_data(0x65, 6); // IDR slice
    let buf = annexb(&[(false, p1.clone()), (true, p2.clone()), (false, p3.clone())]);
    let units = scan(&buf);
    assert_eq!(units.len(), 3);
    assert_eq!(units[0].start, 3);
    assert_eq!(units[0].end, 7);
    assert_eq!(units[0].unit_type, NalUnitType::SPS);
    assert_eq!(units[0].data, p1);
    assert_eq!(units[1].start, 11);
    assert_eq!(units[1].end, 14);
    assert_eq!(units[1].unit_type, NalUnitType::PPS);
    assert_eq!(units[1].data, p2);
    assert_eq!(units[2].start, 17);
    assert_eq!(units[2].end, 23);
    assert_eq!(units[2].unit_type, NalUnitType::CodedSliceIdr);
    assert_eq!(units[2].data, p3);
}

#[test]
fn scan_empty_and_truncated() {
    assert_eq!(scan(&Vec::new()).len(), 0);
    // A lone start code with no closing code yields nothing.
    assert_eq!(scan(&vec![0, 0, 1, 0x67, 0xAA]).len(), 0);
    assert!(get_nal(&Vec::new(), 0).is_none());
    // No start code at the offset itself.
    assert!(get_nal(&vec![9, 9, 9, 9, 9, 9, 9, 9, 9, 9], 0).is_none());
}

#[test]
fn get_nal_reads_one_unit() {
    let buf = annexb(&[(false, nal_data(0x41, 5))]);
    let n = get_nal(&buf, 0).unwrap();
    assert_eq!(n.start, 3);
    assert_eq!(n.end, 8);
    assert_eq!(n.unit_type, NalUnitType::CodedSliceNonIdr);
    assert_eq!(n.data, nal_data(0x41, 5));
}

#[test]
fn find_nal_searches_forward() {
    let mut buf = vec![0x55, 0x66];
    buf.extend_from_slice(&annexb(&[(true, nal_data(0x67, 4))]));
    let n = find_nal(&buf, 0).unwrap();
    assert_eq!(n.start, 6);
    assert_eq!(n.end, 10);
    assert_eq!(n.unit_type, NalUnitType::Unspecified);
    assert!(n.data.is_empty());
}

#[test]
fn from_u8_covers_table_and_reserved() {
    assert_eq!(NalUnitType::from_u8(0), Some(NalUnitType::Unspecified));
    assert_eq!(NalUnitType::from_u8(1), Some(NalUnitType::CodedSliceNonIdr));
    assert_eq!(NalUnitType::from_u8(5), Some(NalUnitType::CodedSliceIdr));
    assert_eq!(NalUnitType::from_u8(6), Some(NalUnitType::SEI));
    assert_eq!(NalUnitType::from_u8(7), Some(NalUnitType::SPS));
    assert_eq!(NalUnitType::from_u8(8), Some(NalUnitType::PPS));
    assert_eq!(NalUnitType::from_u8(9), Some(NalUnitType::AUD));
    assert_eq!(NalUnitType::from_u8(13), Some(NalUnitType::SpsExt));
    assert_eq!(NalUnitType::from_u8(19), Some(NalUnitType::NalUnitTypeCodedSliceAux));
    assert_eq!(NalUnitType::from_u8(14), Some(NalUnitType::Reserved(14)));
    assert_eq!(NalUnitType::from_u8(31), Some(NalUnitType::Reserved(31)));
    assert_eq!(NalUnitType::from_u8(32), None);
    assert_eq!(NalUnitType::from_u8(255), None);
}

#[test]
fn nal_from_data_reads_header() {
    assert!(nal_from_data(&Vec::new()).is_none());
    let n = nal_from_data(&vec![0x65, 1, 2, 3]).unwrap();
    assert_eq!(n.unit_type, NalUnitType::CodedSliceIdr);
    // The reserved range comes back as data, not a failure.
    let n = nal_from_data(&vec![0x0E]).unwrap();
    assert_eq!(n.unit_type, NalUnitType::Reserved(14));
}

#[test]
fn header_bit_fields() {
    // 0x67 = 0b0110_0111: forbidden 0, ref idc 3, type 7.
    assert_eq!(get_forbidden_zero_bit(0x67), 0);
    assert_eq!(get_nal_ref_idc(0x67), 3);
    assert_eq!(get_nal_unit_type(0x67), 7);
    assert_eq!(get_forbidden_zero_bit(0x80), 1);
    assert_eq!(get_nal_ref_idc(0x1F), 0);
    assert_eq!(get_nal_unit_type(0xFF), 31);
}

#[test]
fn segment_splits_at_sps_with_predecessor() {
    // The first SPS opens no new fragment; the second does.
    let buf = annexb(&[
        (false, nal_data(0x67, 4)),
        (false, nal_data(0x68, 3)),
        (false, nal_data(0x65, 6)),
        (false, nal_data(0x41, 5)),
        (true, nal_data(0x67, 4)),
        (false, nal_data(0x41, 5)),
    ]);
    let units = scan(&buf);
    assert_eq!(units.len(), 6);
    let frags = segment(&units);
    assert_eq!(frags.len(), 2);
    assert_eq!(frags[0].samples.len(), 4);
    assert_eq!(frags[1].samples.len(), 2);
    assert_eq!(frags[0].samples[0].0, NalUnitType::SPS);
    assert_eq!(frags[1].samples[0].0, NalUnitType::SPS);
}

#[test]
fn segment_emits_open_fragment_at_end() {
    let buf = annexb(&[(false, nal_data(0x41, 5)), (false, nal_data(0x41, 6))]);
    let units = scan(&buf);
    let frags = segment(&units);
    assert_eq!(frags.len(), 1);
    assert_eq!(frags[0].samples.len(), 2);
}

#[test]
fn demux_picks_parameter_sets_by_type() {
    let sps = nal_data(0x67, 4);
    let pps = nal_data(0x68, 3);
    let buf = annexb(&[
        (false, sps.clone()),
        (false, pps.clone()),
        (false, nal_data(0x65, 6)),
        (false, nal_data(0x41, 5)),
    ]);
    let (frags, got_sps, got_pps) = demux(&buf);
    assert_eq!(frags.len(), 1);
    // The PPS reference really is the first PPS-typed unit, not the SPS.
    assert_eq!(got_sps.unwrap(), sps);
    assert_eq!(got_pps.unwrap(), pps);
}

#[test]
fn demux_without_parameter_sets() {
    let buf = annexb(&[(false, nal_data(0x41, 5))]);
    let (frags, sps, pps) = demux(&buf);
    assert_eq!(frags.len(), 1);
    assert!(sps.is_none());
    assert!(pps.is_none());
}
