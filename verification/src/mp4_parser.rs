//! The read-back parser: walks a produced file's box (atom) tree and the
//! length-prefixed sample records inside `mdat`, for diagnostics. Every
//! read is bounds-checked; a record that declares more bytes than remain
//! is a `TruncatedRecord` error.
use vstd::prelude::*;

use crate::boxes::box_bytes;
use crate::bytebuf::{lemma_u32_be_round_trip, u32_be_bytes, u32_of_be};
use crate::Mp4Error;

verus! {

/// The box types the read-back walker distinguishes; any other
/// four-character code is carried as `Other` data.
#[derive(Clone, Copy, Debug, PartialEq, Eq, Structural)]
#[allow(non_camel_case_types)]
pub enum AtomType {
    FTYP,
    MOOV,
    MOOF,
    MDAT,
    MFRA,
    Other(u32),
}

/// The classification of a four-character code.
pub open spec fn atom_type_of(v: u32) -> AtomType {
    if v == 0x66747970 {
        AtomType::FTYP
    } else if v == 0x6D6F6F76 {
        AtomType::MOOV
    } else if v == 0x6D6F6F66 {
        AtomType::MOOF
    } else if v == 0x6D646174 {
        AtomType::MDAT
    } else if v == 0x6D667261 {
        AtomType::MFRA
    } else {
        AtomType::Other(v)
    }
}

impl AtomType {
    /// Classifies a four-character code; `None` for a code outside the
    /// known table.
    pub fn from_u32(v: u32) -> (r: Option<AtomType>)
        ensures
            (atom_type_of(v) is Other <==> r is None),
            r matches Some(t) ==> t == atom_type_of(v),
    {
        if v == 0x66747970 {
            return Some(AtomType::FTYP);
        }
        if v == 0x6D6F6F76 {
            return Some(AtomType::MOOV);
        }
        if v == 0x6D6F6F66 {
            return Some(AtomType::MOOF);
        }
        if v == 0x6D646174 {
            return Some(AtomType::MDAT);
        }
        if v == 0x6D667261 {
            return Some(AtomType::MFRA);
        }
        None
    }
}

/// One parsed box: its byte span in the buffer, its type, and its payload.
pub struct Atom {
    pub start: usize,
    pub end: usize,
    pub typeid: AtomType,
    pub data: Vec<u8>,
}

/// One parsed `mdat` sample record: its payload bytes.
pub struct Sample {
    pub data: Vec<u8>,
}

/// Reads the big-endian `u32` at `i`.
fn read_u32_at(data: &Vec<u8>, i: usize) -> (r: u32)
    requires
        i + 4 <= data@.len(),
    ensures
        r == u32_of_be(data@[i as int], data@[i as int + 1], data@[i as int + 2], data@[i as int
            + 3]),
{
    let n = data.len();
    proof {
        assert(i + 4 <= n);
    }
    let b0 = data[i];
    let b1 = data[i + 1];
    let b2 = data[i + 2];
    let b3 = data[i + 3];
    let r = ((b0 as u32) << 24) | ((b1 as u32) << 16) | ((b2 as u32) << 8) | (b3 as u32);
    proof {
        assert(((b0 as u32) << 24) | ((b1 as u32) << 16) | ((b2 as u32) << 8) | (b3 as u32) == b0
            * 0x1000000 + b1 * 0x10000 + b2 * 0x100 + b3) by (bit_vector);
    }
    r
}

/// Whether a whole box record can be read at `offset`: its eight header
/// bytes are present, its declared length covers at least the header, and
/// the declared span lies inside the buffer.
pub open spec fn atom_readable(b: Seq<u8>, offset: int) -> bool {
    &&& offset + 8 <= b.len()
    &&& u32_of_be(b[offset], b[offset + 1], b[offset + 2], b[offset + 3]) >= 8
    &&& offset + u32_of_be(b[offset], b[offset + 1], b[offset + 2], b[offset + 3]) <= b.len()
}

/// The declared length of the box at `offset`.
pub open spec fn atom_declared_len(b: Seq<u8>, offset: int) -> int {
    u32_of_be(b[offset], b[offset + 1], b[offset + 2], b[offset + 3])
}

/// Reads the length-prefixed, tagged box record at `offset`; yields the
/// parsed box and the offset just past it. A record whose declared length
/// is impossible or reaches past the buffer is a `TruncatedRecord` error.
pub fn read_atom(data: &Vec<u8>, offset: usize) -> (r: Result<(Atom, usize), Mp4Error>)
    ensures
        r is Ok <==> atom_readable(data@, offset as int),
        r is Err ==> r == Err::<(Atom, usize), Mp4Error>(Mp4Error::TruncatedRecord),
        r matches Ok(p) ==> {
            let l = atom_declared_len(data@, offset as int);
            &&& p.0.start == offset
            &&& p.0.end == offset + l
            &&& p.1 == offset + l
            &&& p.0.typeid == atom_type_of(
                u32_of_be(
                    data@[offset as int + 4],
                    data@[offset as int + 5],
                    data@[offset as int + 6],
                    data@[offset as int + 7],
                ) as u32,
            )
            &&& p.0.data@ == data@.subrange(offset as int + 8, offset as int + l)
        },
{
    if data.len() < 8 || offset > data.len() - 8 {
        return Err(Mp4Error::TruncatedRecord);
    }
    let declared = read_u32_at(data, offset);
    if declared < 8 {
        return Err(Mp4Error::TruncatedRecord);
    }
    let remaining = data.len() - offset;
    if (declared as usize) > remaining {
        return Err(Mp4Error::TruncatedRecord);
    }
    let typeid_raw = read_u32_at(data, offset + 4);
    proof {
        assert(u32_of_be(
            data@[offset as int + 4],
            data@[offset as int + 5],
            data@[offset as int + 6],
            data@[offset as int + 7],
        ) <= u32::MAX) by {
            assert(typeid_raw == u32_of_be(
                data@[offset as int + 4],
                data@[offset as int + 5],
                data@[offset as int + 6],
                data@[offset as int + 7],
            ));
        }
    }
    let typeid = match AtomType::from_u32(typeid_raw) {
        Option::Some(t) => t,
        Option::None => AtomType::Other(typeid_raw),
    };
    let end = offset + (declared as usize);
    let payload = crate::h264::copy_span(data, offset + 8, end);
    Ok((Atom { start: offset, end, typeid, data: payload }, end))
}

/// Whether a whole sample record can be read at `offset`: its four-byte
/// length prefix is present and the declared payload lies in the buffer.
pub open spec fn sample_readable(b: Seq<u8>, offset: int) -> bool {
    &&& offset + 4 <= b.len()
    &&& offset + 4 + u32_of_be(b[offset], b[offset + 1], b[offset + 2], b[offset + 3]) <= b.len()
}

/// The declared payload length of the sample record at `offset`.
pub open spec fn sample_declared_len(b: Seq<u8>, offset: int) -> int {
    u32_of_be(b[offset], b[offset + 1], b[offset + 2], b[offset + 3])
}

/// Reads the length-prefixed sample record at `offset` inside an `mdat`
/// payload; yields the sample and the offset just past it.
pub fn read_sample(data: &Vec<u8>, offset: usize) -> (r: Result<(Sample, usize), Mp4Error>)
    ensures
        r is Ok <==> sample_readable(data@, offset as int),
        r is Err ==> r == Err::<(Sample, usize), Mp4Error>(Mp4Error::TruncatedRecord),
        r matches Ok(p) ==> {
            let l = sample_declared_len(data@, offset as int);
            &&& p.1 == offset + 4 + l
            &&& p.0.data@ == data@.subrange(offset as int + 4, offset as int + 4 + l)
        },
{
    if data.len() < 4 || offset > data.len() - 4 {
        return Err(Mp4Error::TruncatedRecord);
    }
    let declared = read_u32_at(data, offset);
    let remaining = data.len() - offset - 4;
    if (declared as usize) > remaining {
        return Err(Mp4Error::TruncatedRecord);
    }
    let end = offset + 4 + (declared as usize);
    let payload = crate::h264::copy_span(data, offset + 4, end);
    Ok((Sample { data: payload }, end))
}

/// The boxes of a whole buffer, walked front to back: the walk succeeds
/// only when record after record covers the buffer exactly; a record that
/// cannot be read where one must start fails the whole walk.
pub open spec fn atoms_spec(b: Seq<u8>, offset: int) -> Result<
    Seq<(int, int, AtomType, Seq<u8>)>,
    Mp4Error,
>
    decreases b.len() - offset,
    via atoms_spec_decreases
{
    if offset >= b.len() {
        Ok(Seq::empty())
    } else if !atom_readable(b, offset) {
        Err(Mp4Error::TruncatedRecord)
    } else {
        let l = atom_declared_len(b, offset);
        let u = (
            offset,
            offset + l,
            atom_type_of(
                u32_of_be(b[offset + 4], b[offset + 5], b[offset + 6], b[offset + 7]) as u32,
            ),
            b.subrange(offset + 8, offset + l),
        );
        match atoms_spec(b, offset + l) {
            Result::Err(e) => Err(e),
            Result::Ok(rest) => Ok(seq![u] + rest),
        }
    }
}

#[via_fn]
proof fn atoms_spec_decreases(b: Seq<u8>, offset: int) {
}

/// An executable atom carries exactly a walked record.
pub open spec fn atom_matches(a: Atom, u: (int, int, AtomType, Seq<u8>)) -> bool {
    a.start == u.0 && a.end == u.1 && a.typeid == u.2 && a.data@ == u.3
}

pub open spec fn atoms_match(rs: Seq<Atom>, us: Seq<(int, int, AtomType, Seq<u8>)>) -> bool {
    rs.len() == us.len() && forall|i: int|
        0 <= i < rs.len() ==> #[trigger] atom_matches(rs[i], us[i])
}

/// Walks the whole buffer into its ordered box sequence.
pub fn read_atoms(data: &Vec<u8>) -> (r: Result<Vec<Atom>, Mp4Error>)
    ensures
        match r {
            Result::Ok(v) => atoms_spec(data@, 0) matches Ok(us) && atoms_match(v@, us),
            Result::Err(e) => atoms_spec(data@, 0) == Err::<
                Seq<(int, int, AtomType, Seq<u8>)>,
                Mp4Error,
            >(e),
        },
{
    let mut result: Vec<Atom> = Vec::new();
    let ghost done: Seq<(int, int, AtomType, Seq<u8>)> = Seq::empty();
    let ghost mut done = done;
    let mut offset: usize = 0;
    loop
        invariant
            atoms_match(result@, done),
            offset <= data@.len(),
            (match atoms_spec(data@, offset as int) {
                Result::Ok(rest) => atoms_spec(data@, 0) == Ok::<
                    Seq<(int, int, AtomType, Seq<u8>)>,
                    Mp4Error,
                >(done + rest),
                Result::Err(e) => atoms_spec(data@, 0) == Err::<
                    Seq<(int, int, AtomType, Seq<u8>)>,
                    Mp4Error,
                >(e),
            }),
        decreases data@.len() - offset,
    {
        if offset >= data.len() {
            proof {
                assert(done + Seq::<(int, int, AtomType, Seq<u8>)>::empty() =~= done);
            }
            return Ok(result);
        }
        match read_atom(data, offset) {
            Result::Err(e) => {
                return Err(e);
            },
            Result::Ok((atom, next)) => {
                let ghost u = (atom.start as int, atom.end as int, atom.typeid, atom.data@);
                proof {
                    match atoms_spec(data@, next as int) {
                        Result::Ok(rest) => {
                            assert(done + (seq![u] + rest) =~= (done + seq![u]) + rest);
                        },
                        Result::Err(_) => {},
                    }
                    done = done + seq![u];
                }
                result.push(atom);
                offset = next;
            },
        }
    }
}

/// The sample records of a whole `mdat` payload, walked front to back.
pub open spec fn samples_spec(b: Seq<u8>, offset: int) -> Result<Seq<Seq<u8>>, Mp4Error>
    decreases b.len() - offset,
{
    if offset >= b.len() {
        Ok(Seq::empty())
    } else if !sample_readable(b, offset) {
        Err(Mp4Error::TruncatedRecord)
    } else {
        let l = sample_declared_len(b, offset);
        match samples_spec(b, offset + 4 + l) {
            Result::Err(e) => Err(e),
            Result::Ok(rest) => Ok(seq![b.subrange(offset + 4, offset + 4 + l)] + rest),
        }
    }
}

pub open spec fn samples_match(rs: Seq<Sample>, us: Seq<Seq<u8>>) -> bool {
    rs.len() == us.len() && forall|i: int| 0 <= i < rs.len() ==> (#[trigger] rs[i].data@) == us[i]
}

/// Walks a whole `mdat` payload into its ordered sample records.
pub fn read_samples(data: &Vec<u8>) -> (r: Result<Vec<Sample>, Mp4Error>)
    ensures
        match r {
            Result::Ok(v) => samples_spec(data@, 0) matches Ok(us) && samples_match(v@, us),
            Result::Err(e) => samples_spec(data@, 0) == Err::<Seq<Seq<u8>>, Mp4Error>(e),
        },
{
    let mut result: Vec<Sample> = Vec::new();
    let ghost done: Seq<Seq<u8>> = Seq::empty();
    let ghost mut done = done;
    let mut offset: usize = 0;
    loop
        invariant
            samples_match(result@, done),
            offset <= data@.len(),
            (match samples_spec(data@, offset as int) {
                Result::Ok(rest) => samples_spec(data@, 0) == Ok::<Seq<Seq<u8>>, Mp4Error>(
                    done + rest,
                ),
                Result::Err(e) => samples_spec(data@, 0) == Err::<Seq<Seq<u8>>, Mp4Error>(e),
            }),
        decreases data@.len() - offset,
    {
        if offset >= data.len() {
            proof {
                assert(done + Seq::<Seq<u8>>::empty() =~= done);
            }
            return Ok(result);
        }
        match read_sample(data, offset) {
            Result::Err(e) => {
                return Err(e);
            },
            Result::Ok((sample, next)) => {
                let ghost u = sample.data@;
                proof {
                    match samples_spec(data@, next as int) {
                        Result::Ok(rest) => {
                            assert(done + (seq![u] + rest) =~= (done + seq![u]) + rest);
                        },
                        Result::Err(_) => {},
                    }
                    done = done + seq![u];
                }
                result.push(sample);
                offset = next;
            },
        }
    }
}

/// The box length invariant, read back: any buffer that opens with a
/// produced box record parses to exactly the declared length the
/// serializer computed (eight plus the payload), the tag that was written,
/// and the payload bytes, whatever follows the record.
pub proof fn lemma_box_parse_round_trip(tag: u32, payload: Seq<u8>, rest: Seq<u8>)
    requires
        payload.len() + 8 <= u32::MAX,
    ensures
        ({
            let b = box_bytes(tag, payload) + rest;
            &&& atom_readable(b, 0)
            &&& atom_declared_len(b, 0) == payload.len() + 8
            &&& u32_of_be(b[4], b[5], b[6], b[7]) == tag
            &&& b.subrange(8, payload.len() as int + 8) == payload
        }),
{
    let b = box_bytes(tag, payload) + rest;
    let lw = (payload.len() + 8) as u32;
    lemma_u32_be_round_trip(lw);
    lemma_u32_be_round_trip(tag);
    assert(b[0] == u32_be_bytes(lw)[0] && b[1] == u32_be_bytes(lw)[1] && b[2] == u32_be_bytes(
        lw,
    )[2] && b[3] == u32_be_bytes(lw)[3]);
    assert(b[4] == u32_be_bytes(tag)[0] && b[5] == u32_be_bytes(tag)[1] && b[6] == u32_be_bytes(
        tag,
    )[2] && b[7] == u32_be_bytes(tag)[3]);
    assert(b.subrange(8, payload.len() as int + 8) =~= payload);
}

} // verus!
