use fmp4::boxes::{u8_slice_to_u32, write_atom, TAG_MDAT, TAG_MOOF};
use fmp4::bytebuf::{buf_as_slice, buf_new, buf_put_slice, buf_put_u32};
use fmp4::mp4_parser::{read_atom, read_atoms, read_sample, read_samples, AtomType};
use fmp4::Mp4Error;

#[test]
fn four_character_codes() {
    assert_eq!(u8_slice_to_u32(b"ftyp"), 0x66747970);
    assert_eq!(u8_slice_to_u32(b"moov"), 0x6D6F6F76);
    assert_eq!(u8_slice_to_u32(b"moof"), TAG_MOOF);
    assert_eq!(u8_slice_to_u32(b"mdat"), TAG_MDAT);
    assert_eq!(u8_slice_to_u32(b"mfra"), 0x6D667261);
}

#[test]
fn atom_type_from_u32() {
    assert_eq!(AtomType::from_u32(u8_slice_to_u32(b"ftyp")), Some(AtomType::FTYP));
    assert_eq!(AtomType::from_u32(u8_slice_to_u32(b"moov")), Some(AtomType::MOOV));
    assert_eq!(AtomType::from_u32(u8_slice_to_u32(b"moof")), Some(AtomType::MOOF));
    assert_eq!(AtomType::from_u32(u8_slice_to_u32(b"mdat")), Some(AtomType::MDAT));
    assert_eq!(AtomType::from_u32(u8_slice_to_u32(b"mfra")), Some(AtomType::MFRA));
    assert_eq!(AtomType::from_u32(u8_slice_to_u32(b"free")), None);
}

#[test]
fn write_atom_length_prefix() {
    // The box length invariant on a produced record: declared length is
    // eight plus the payload, with the tag and payload verbatim.
    let mut parent = buf_new();
    let mut child = buf_new();
    buf_put_slice(&mut child, &[0xDE, 0xAD, 0xBE]);
    write_atom(&mut parent, TAG_MDAT, &child);
    let out = buf_as_slice(&parent);
    assert_eq!(out, &[0, 0, 0, 11, 0x6D, 0x64, 0x61, 0x74, 0xDE, 0xAD, 0xBE]);
}

#[test]
fn read_atom_round_trip() {
    let mut parent = buf_new();
    let mut child = buf_new();
    buf_put_u32(&mut child, 0xCAFEBABE);
    write_atom(&mut parent, TAG_MOOF, &child);
    // A second box follows; parsing must stop at the first one's end.
    let mut child2 = buf_new();
    buf_put_slice(&mut child2, &[1, 2]);
    write_atom(&mut parent, TAG_MDAT, &child2);

    let data = buf_as_slice(&parent).to_vec();
    let (atom, next) = read_atom(&data, 0).unwrap();
    assert_eq!(atom.start, 0);
    assert_eq!(atom.end, 12);
    assert_eq!(next, 12);
    assert_eq!(atom.typeid, AtomType::MOOF);
    assert_eq!(atom.data, vec![0xCA, 0xFE, 0xBA, 0xBE]);

    let (atom2, next2) = read_atom(&data, next).unwrap();
    assert_eq!(atom2.typeid, AtomType::MDAT);
    assert_eq!(atom2.data, vec![1, 2]);
    assert_eq!(next2, data.len());
}

#[test]
fn read_atom_unknown_type_is_data() {
    let data = vec![0, 0, 0, 8, 0x66, 0x72, 0x65, 0x65]; // "free", empty payload
    let (atom, next) = read_atom(&data, 0).unwrap();
    assert_eq!(atom.typeid, AtomType::Other(0x66726565));
    assert!(atom.data.is_empty());
    assert_eq!(next, 8);
}

#[test]
fn read_atom_truncated_record() {
    // Fewer than eight header bytes.
    assert!(matches!(read_atom(&vec![0, 0, 0, 9], 0), Err(Mp4Error::TruncatedRecord)));
    // A declared length below the header size.
    assert!(matches!(
        read_atom(&vec![0, 0, 0, 7, 0x66, 0x72, 0x65, 0x65], 0),
        Err(Mp4Error::TruncatedRecord)
    ));
    // A declared length past the end of the buffer.
    assert!(matches!(
        read_atom(&vec![0, 0, 0, 9, 0x66, 0x72, 0x65, 0x65], 0),
        Err(Mp4Error::TruncatedRecord)
    ));
}

#[test]
fn read_sample_round_trip_and_truncation() {
    let data = vec![0, 0, 0, 3, 0x65, 7, 8, 0, 0, 0, 1, 0x41];
    let (s, next) = read_sample(&data, 0).unwrap();
    assert_eq!(s.data, vec![0x65, 7, 8]);
    assert_eq!(next, 7);
    let (s2, next2) = read_sample(&data, next).unwrap();
    assert_eq!(s2.data, vec![0x41]);
    assert_eq!(next2, data.len());
    // A record declaring more bytes than remain.
    assert!(matches!(read_sample(&vec![0, 0, 0, 5, 1, 2], 0), Err(Mp4Error::TruncatedRecord)));
    assert!(matches!(read_sample(&vec![0, 0, 0], 0), Err(Mp4Error::TruncatedRecord)));
}

#[test]
fn read_atoms_walks_whole_buffer() {
    let mut parent = buf_new();
    let mut child = buf_new();
    buf_put_u32(&mut child, 0xCAFEBABE);
    write_atom(&mut parent, TAG_MOOF, &child);
    let mut child2 = buf_new();
    buf_put_slice(&mut child2, &[1, 2]);
    write_atom(&mut parent, TAG_MDAT, &child2);
    let data = buf_as_slice(&parent).to_vec();
    let atoms = read_atoms(&data).unwrap();
    assert_eq!(atoms.len(), 2);
    assert_eq!(atoms[0].typeid, AtomType::MOOF);
    assert_eq!(atoms[1].typeid, AtomType::MDAT);
    assert_eq!(atoms[1].data, vec![1, 2]);
    assert!(read_atoms(&Vec::new()).unwrap().is_empty());
    // A trailing half-record fails the whole walk.
    let mut bad = data.clone();
    bad.push(0);
    assert!(matches!(read_atoms(&bad), Err(Mp4Error::TruncatedRecord)));
}

#[test]
fn read_samples_walks_whole_payload() {
    let data = vec![0, 0, 0, 3, 0x65, 7, 8, 0, 0, 0, 1, 0x41];
    let samples = read_samples(&data).unwrap();
    assert_eq!(samples.len(), 2);
    assert_eq!(samples[0].data, vec![0x65, 7, 8]);
    assert_eq!(samples[1].data, vec![0x41]);
    assert!(matches!(
        read_samples(&vec![0, 0, 0, 3, 0x65]),
        Err(Mp4Error::TruncatedRecord)
    ));
}
