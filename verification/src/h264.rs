//! The Annex-B demultiplexer: start-code scanning, NAL unit records, and the
//! segmenter that groups the NAL sequence into decode fragments.
//!
//! A scanned unit is modelled in specifications as the tuple
//! `(start, end, type, data)`: the unit's byte span `[start, end)` in the
//! input (start codes excluded), its classified type, and its raw bytes.
use vstd::prelude::*;

verus! {

/// One decode fragment: every NAL between two keyframe (SPS) boundaries,
/// each unit kept as `(type, bytes)`.
pub struct IDR {
    pub samples: Vec<(NalUnitType, Vec<u8>)>,
}

/// NAL unit type codes. Values in the reserved or unspecified ranges are
/// carried as `Reserved` data rather than treated as a failure, so the
/// scanner fails only on genuinely malformed framing.
#[derive(Clone, Copy, Debug, PartialEq, Eq, Structural)]
pub enum NalUnitType {
    Unspecified,
    CodedSliceNonIdr,
    CodedSliceDataPartitionA,
    CodedSliceDataPartitionB,
    CodedSliceDataPartitionC,
    CodedSliceIdr,
    SEI,
    SPS,
    PPS,
    AUD,
    EndOfSequence,
    EndOfStream,
    Filler,
    SpsExt,
    NalUnitTypeCodedSliceAux,
    Reserved(u8),
}

/// The classification of a five-bit NAL type field.
pub open spec fn nal_type_of(v: u8) -> NalUnitType {
    if v == 0 {
        NalUnitType::Unspecified
    } else if v == 1 {
        NalUnitType::CodedSliceNonIdr
    } else if v == 2 {
        NalUnitType::CodedSliceDataPartitionA
    } else if v == 3 {
        NalUnitType::CodedSliceDataPartitionB
    } else if v == 4 {
        NalUnitType::CodedSliceDataPartitionC
    } else if v == 5 {
        NalUnitType::CodedSliceIdr
    } else if v == 6 {
        NalUnitType::SEI
    } else if v == 7 {
        NalUnitType::SPS
    } else if v == 8 {
        NalUnitType::PPS
    } else if v == 9 {
        NalUnitType::AUD
    } else if v == 10 {
        NalUnitType::EndOfSequence
    } else if v == 11 {
        NalUnitType::EndOfStream
    } else if v == 12 {
        NalUnitType::Filler
    } else if v == 13 {
        NalUnitType::SpsExt
    } else if v == 19 {
        NalUnitType::NalUnitTypeCodedSliceAux
    } else {
        NalUnitType::Reserved(v)
    }
}

impl NalUnitType {
    /// Classifies a NAL type value. Only five-bit values are meaningful;
    /// larger ones are not a type field and yield `None`.
    pub fn from_u8(v: u8) -> (r: Option<NalUnitType>)
        ensures
            v <= 31 ==> r == Some(nal_type_of(v)),
            v > 31 ==> r is None,
    {
        if v > 31 {
            return None;
        }
        Some(
            match v {
                0 => NalUnitType::Unspecified,
                1 => NalUnitType::CodedSliceNonIdr,
                2 => NalUnitType::CodedSliceDataPartitionA,
                3 => NalUnitType::CodedSliceDataPartitionB,
                4 => NalUnitType::CodedSliceDataPartitionC,
                5 => NalUnitType::CodedSliceIdr,
                6 => NalUnitType::SEI,
                7 => NalUnitType::SPS,
                8 => NalUnitType::PPS,
                9 => NalUnitType::AUD,
                10 => NalUnitType::EndOfSequence,
                11 => NalUnitType::EndOfStream,
                12 => NalUnitType::Filler,
                13 => NalUnitType::SpsExt,
                19 => NalUnitType::NalUnitTypeCodedSliceAux,
                _ => NalUnitType::Reserved(v),
            },
        )
    }
}

/// One NAL unit record: its byte span in the scanned buffer (start codes
/// excluded) and its payload, emulation-prevention bytes kept verbatim.
#[derive(Debug, Clone)]
pub struct NAL {
    pub start: usize,
    pub unit_type: NalUnitType,
    pub end: usize,
    pub data: Vec<u8>,
}

pub fn get_forbidden_zero_bit(b: u8) -> (r: u8)
    ensures
        r == (b & 0b10000000) >> 7,
{
    (b & 0b10000000) >> 7
}

pub fn get_nal_ref_idc(b: u8) -> (r: u8)
    ensures
        r == (b & 0b01100000) >> 5,
{
    (b & 0b01100000) >> 5
}

pub fn get_nal_unit_type(b: u8) -> (r: u8)
    ensures
        r == (b & 0b00011111),
{
    b & 0b00011111
}

/// A three-byte start code `00 00 01` at position `i`.
pub open spec fn is_code3(b: Seq<u8>, i: int) -> bool {
    0 <= i && i + 3 <= b.len() && b[i] == 0 && b[i + 1] == 0 && b[i + 2] == 1
}

/// A four-byte start code `00 00 00 01` at position `i`.
pub open spec fn is_code4(b: Seq<u8>, i: int) -> bool {
    0 <= i && i + 4 <= b.len() && b[i] == 0 && b[i + 1] == 0 && b[i + 2] == 0 && b[i + 3] == 1
}

/// The first position at or after `i` that carries a start code, provided
/// the scan guard (at least five bytes must remain) lets it be examined.
pub open spec fn next_code(b: Seq<u8>, i: int) -> Option<int>
    decreases b.len() - i,
{
    if i + 4 >= b.len() {
        None
    } else if is_code3(b, i) || is_code4(b, i) {
        Some(i)
    } else {
        next_code(b, i + 1)
    }
}

/// What a found start-code position satisfies.
pub proof fn lemma_next_code_some(b: Seq<u8>, i: int, e: int)
    requires
        next_code(b, i) == Some(e),
    ensures
        i <= e,
        e + 4 < b.len(),
        is_code3(b, e) || is_code4(b, e),
        forall|j: int| i <= j < e ==> !is_code3(b, j) && !is_code4(b, j),
    decreases b.len() - i,
{
    if i + 4 >= b.len() {
    } else if is_code3(b, i) || is_code4(b, i) {
    } else {
        lemma_next_code_some(b, i + 1, e);
    }
}

/// The unit the scanner yields at `offset`, if a start code stands exactly
/// there and a later start code closes the unit: its span, its type read
/// from the five low bits of the header byte, and its bytes.
pub open spec fn scan_unit_at(b: Seq<u8>, offset: int) -> Option<(int, int, NalUnitType, Seq<u8>)> {
    if offset + 4 >= b.len() {
        None
    } else {
        let start = if is_code3(b, offset) {
            offset + 3
        } else if is_code4(b, offset) {
            offset + 4
        } else {
            0
        };
        if start == 0 {
            None
        } else {
            match next_code(b, start) {
                Option::None => None,
                Option::Some(e) => Some(
                    (start, e, nal_type_of(b[start] & 0x1F), b.subrange(start, e)),
                ),
            }
        }
    }
}

/// The whole sequence of units the scanner yields walking from `offset`:
/// each unit starts right after its start code and ends where the next
/// start code begins; scanning stops at the first position where no unit
/// can be closed (a truncated tail is dropped).
pub open spec fn scan_units(b: Seq<u8>, offset: int) -> Seq<(int, int, NalUnitType, Seq<u8>)>
    decreases b.len() - offset,
    via scan_units_decreases
{
    match scan_unit_at(b, offset) {
        Option::None => Seq::empty(),
        Option::Some(u) => seq![u] + scan_units(b, u.1),
    }
}

#[via_fn]
proof fn scan_units_decreases(b: Seq<u8>, offset: int) {
    match scan_unit_at(b, offset) {
        Option::None => {},
        Option::Some(u) => {
            let start = if is_code3(b, offset) {
                offset + 3
            } else {
                offset + 4
            };
            lemma_next_code_some(b, start, u.1);
        },
    }
}

/// Finds the first start code at or after `from`; the search refuses to
/// look into the last four bytes, as the scanner's closing guard does.
fn find_next_code(buf: &Vec<u8>, from: usize) -> (r: Option<usize>)
    ensures
        match r {
            Option::Some(e) => next_code(buf@, from as int) == Some(e as int),
            Option::None => next_code(buf@, from as int) is None,
        },
{
    let mut i = from;
    loop
        invariant
            from <= i,
            next_code(buf@, from as int) == next_code(buf@, i as int),
        decreases buf@.len() - i,
    {
        if buf.len() <= 4 || i >= buf.len() - 4 {
            return None;
        }
        if buf[i] == 0 && buf[i + 1] == 0 && buf[i + 2] == 1 {
            return Some(i);
        }
        if buf[i] == 0 && buf[i + 1] == 0 && buf[i + 2] == 0 && buf[i + 3] == 1 {
            return Some(i);
        }
        i = i + 1;
    }
}

/// Copies the byte span `[start, end)` out of the buffer.
pub(crate) fn copy_span(buf: &Vec<u8>, start: usize, end: usize) -> (r: Vec<u8>)
    requires
        start <= end <= buf@.len(),
    ensures
        r@ == buf@.subrange(start as int, end as int),
{
    let mut r: Vec<u8> = Vec::new();
    let mut j = start;
    while j < end
        invariant
            start <= j <= end <= buf@.len(),
            r@ == buf@.subrange(start as int, j as int),
        decreases end - j,
    {
        r.push(buf[j]);
        j = j + 1;
        proof {
            assert(r@ =~= buf@.subrange(start as int, j as int));
        }
    }
    r
}

/// Searches for the next start-code-delimited span at or after `offset`.
/// Only the span is filled in; the type is left `Unspecified` and no bytes
/// are copied.
pub fn find_nal(buf: &Vec<u8>, offset: usize) -> (r: Option<NAL>)
    ensures
        match r {
            Option::Some(n) => {
                &&& next_code(buf@, offset as int) matches Some(m)
                &&& n.start == m + (if is_code3(buf@, m) {
                    3int
                } else {
                    4int
                })
                &&& next_code(buf@, n.start as int) == Some(n.end as int)
                &&& n.unit_type == NalUnitType::Unspecified
                &&& n.data@ == Seq::<u8>::empty()
            },
            Option::None => next_code(buf@, offset as int) matches Some(m) ==> next_code(
                buf@,
                m + (if is_code3(buf@, m) {
                    3int
                } else {
                    4int
                }),
            ) is None,
        },
{
    let m = match find_next_code(buf, offset) {
        Option::Some(m) => m,
        Option::None => { return None },
    };
    let n = buf.len();
    proof {
        lemma_next_code_some(buf@, offset as int, m as int);
        assert(m + 4 < n);
    }
    let start = if buf[m] == 0 && buf[m + 1] == 0 && buf[m + 2] == 1 {
        m + 3
    } else {
        m + 4
    };
    match find_next_code(buf, start) {
        Option::Some(e) => Some(
            NAL { start, unit_type: NalUnitType::Unspecified, end: e, data: Vec::new() },
        ),
        Option::None => None,
    }
}

/// Reads a NAL's type out of a detached payload buffer (as the read-back
/// parser sees one inside `mdat`); only the header byte is consumed.
pub fn nal_from_data(buf: &Vec<u8>) -> (r: Option<NAL>)
    ensures
        r is Some <==> buf@.len() > 0,
        r matches Some(n) ==> {
            &&& n.start == 0
            &&& n.end == 0
            &&& n.unit_type == nal_type_of(buf@[0] & 0x1F)
            &&& n.data@ == Seq::<u8>::empty()
        },
{
    if buf.len() == 0 {
        return None;
    }
    let b = buf[0];
    let nal_unit_type = get_nal_unit_type(b);
    proof {
        assert(b & 0x1F <= 31) by (bit_vector);
    }
    let unit_type = NalUnitType::from_u8(nal_unit_type).unwrap();
    Some(NAL { start: 0, unit_type, end: 0, data: Vec::new() })
}

/// Scans the unit that starts exactly at `offset`: the start code must
/// stand there, and the unit runs to the next start code. Yields `None`
/// where no unit can be formed (end of data, no start code at `offset`,
/// or a truncated tail).
pub fn get_nal(buf: &Vec<u8>, offset: usize) -> (r: Option<NAL>)
    ensures
        match r {
            Option::Some(n) => scan_unit_at(buf@, offset as int) == Some(
                (n.start as int, n.end as int, n.unit_type, n.data@),
            ),
            Option::None => scan_unit_at(buf@, offset as int) is None,
        },
{
    if buf.len() <= 4 || offset >= buf.len() - 4 {
        return None;
    }
    let mut start: usize = 0;
    if buf[offset] == 0 && buf[offset + 1] == 0 && buf[offset + 2] == 1 {
        start = offset + 3;
    }
    if buf[offset] == 0 && buf[offset + 1] == 0 && buf[offset + 2] == 0 && buf[offset + 3] == 1 {
        start = offset + 4;
    }
    if start == 0 {
        return None;
    }
    let b = buf[start];
    let nal_unit_type = get_nal_unit_type(b);
    proof {
        assert(b & 0x1F <= 31) by (bit_vector);
    }
    let unit_type = NalUnitType::from_u8(nal_unit_type).unwrap();
    match find_next_code(buf, start) {
        Option::Some(e) => {
            proof {
                lemma_next_code_some(buf@, start as int, e as int);
            }
            let data = copy_span(buf, start, e);
            Some(NAL { start, unit_type, end: e, data })
        },
        Option::None => None,
    }
}

/// An executable NAL record carries exactly a scanned unit.
pub open spec fn nal_matches(n: NAL, u: (int, int, NalUnitType, Seq<u8>)) -> bool {
    n.start == u.0 && n.end == u.1 && n.unit_type == u.2 && n.data@ == u.3
}

pub open spec fn nals_match(ns: Seq<NAL>, us: Seq<(int, int, NalUnitType, Seq<u8>)>) -> bool {
    ns.len() == us.len() && forall|i: int|
        0 <= i < ns.len() ==> #[trigger] nal_matches(ns[i], us[i])
}

/// What a successfully scanned unit satisfies.
pub proof fn lemma_scan_unit_at_some(b: Seq<u8>, offset: int, u: (int, int, NalUnitType, Seq<u8>))
    requires
        scan_unit_at(b, offset) == Some(u),
    ensures
        offset + 3 <= u.0 <= offset + 4,
        u.0 <= u.1,
        u.1 + 4 < b.len(),
        u.3 == b.subrange(u.0, u.1),
{
    let start = if is_code3(b, offset) {
        offset + 3
    } else {
        offset + 4
    };
    lemma_next_code_some(b, start, u.1);
}

/// Scans the whole buffer into its ordered NAL sequence, walking from the
/// front; each unit's span excludes its start code, and scanning stops at
/// the first position where no further unit can be closed.
pub fn scan(buf: &Vec<u8>) -> (r: Vec<NAL>)
    ensures
        nals_match(r@, scan_units(buf@, 0)),
{
    let mut r: Vec<NAL> = Vec::new();
    let ghost mut done: Seq<(int, int, NalUnitType, Seq<u8>)> = Seq::empty();
    let mut offset: usize = 0;
    loop
        invariant
            nals_match(r@, done),
            scan_units(buf@, 0) == done + scan_units(buf@, offset as int),
        decreases buf@.len() - offset,
    {
        match get_nal(buf, offset) {
            Option::None => {
                proof {
                    assert(scan_units(buf@, offset as int) =~= Seq::empty());
                    assert(done + Seq::empty() =~= done);
                }
                return r;
            },
            Option::Some(nal) => {
                let ghost u = (nal.start as int, nal.end as int, nal.unit_type, nal.data@);
                proof {
                    lemma_scan_unit_at_some(buf@, offset as int, u);
                    assert(scan_units(buf@, offset as int) == seq![u] + scan_units(buf@, u.1));
                    assert(done + scan_units(buf@, offset as int) =~= (done + seq![u])
                        + scan_units(buf@, u.1));
                    done = done + seq![u];
                }
                let next = nal.end;
                r.push(nal);
                offset = next;
            },
        }
    }
}

/// The `(type, bytes)` content of a NAL sequence, spans dropped.
pub open spec fn nal_pairs(ns: Seq<NAL>) -> Seq<(NalUnitType, Seq<u8>)> {
    ns.map(|i: int, n: NAL| (n.unit_type, n.data@))
}

/// The `(type, bytes)` content of a sample list.
pub open spec fn pair_views(s: Seq<(NalUnitType, Vec<u8>)>) -> Seq<(NalUnitType, Seq<u8>)> {
    s.map(|i: int, p: (NalUnitType, Vec<u8>)| (p.0, p.1@))
}

/// The content of one fragment.
pub open spec fn idr_view(f: IDR) -> Seq<(NalUnitType, Seq<u8>)> {
    pair_views(f.samples@)
}

pub open spec fn idr_views(fs: Seq<IDR>) -> Seq<Seq<(NalUnitType, Seq<u8>)>> {
    fs.map(|i: int, f: IDR| idr_view(f))
}

/// The segmenter's state after a walk: the closed fragments and the one
/// still in progress.
pub open spec fn seg_state(units: Seq<(NalUnitType, Seq<u8>)>) -> (
    Seq<Seq<(NalUnitType, Seq<u8>)>>,
    Seq<(NalUnitType, Seq<u8>)>,
)
    decreases units.len(),
{
    if units.len() == 0 {
        (Seq::empty(), Seq::empty())
    } else {
        let prev = seg_state(units.drop_last());
        let u = units.last();
        if u.0 == NalUnitType::SPS && prev.1.len() > 0 {
            (prev.0.push(prev.1), seq![u])
        } else {
            (prev.0, prev.1.push(u))
        }
    }
}

/// The fragments of a unit sequence: a new fragment begins at every SPS
/// unit that already has a predecessor sample, every unit joins the open
/// fragment, and the in-progress fragment is emitted when the units run
/// out.
pub open spec fn segment_spec(units: Seq<(NalUnitType, Seq<u8>)>) -> Seq<
    Seq<(NalUnitType, Seq<u8>)>,
> {
    let s = seg_state(units);
    if s.1.len() > 0 {
        s.0.push(s.1)
    } else {
        s.0
    }
}

/// Groups the scanned NAL sequence into decode fragments.
pub fn segment(units: &Vec<NAL>) -> (r: Vec<IDR>)
    ensures
        idr_views(r@) == segment_spec(nal_pairs(units@)),
{
    let ghost pairs = nal_pairs(units@);
    let mut frags: Vec<IDR> = Vec::new();
    let mut cur = IDR { samples: Vec::new() };
    let mut i: usize = 0;
    while i < units.len()
        invariant
            i <= units@.len(),
            pairs == nal_pairs(units@),
            idr_views(frags@) == seg_state(pairs.take(i as int)).0,
            idr_view(cur) == seg_state(pairs.take(i as int)).1,
        decreases units@.len() - i,
    {
        let ghost pre = pairs.take(i as int);
        let ghost pre2 = pairs.take(i as int + 1);
        proof {
            assert(pre2.drop_last() =~= pre);
            assert(pre2.last() == pairs[i as int]);
        }
        let n = &units[i];
        if n.unit_type == NalUnitType::SPS && cur.samples.len() > 0 {
            let closed = cur;
            proof {
                assert(idr_views(frags@.push(closed)) =~~= idr_views(frags@).push(
                    idr_view(closed),
                ));
            }
            frags.push(closed);
            cur = IDR { samples: Vec::new() };
            proof {
                assert(idr_view(cur) =~= Seq::<(NalUnitType, Seq<u8>)>::empty());
            }
        }
        let data = copy_span(&n.data, 0, n.data.len());
        proof {
            assert(data@ =~= n.data@);
        }
        let ghost before = idr_view(cur);
        cur.samples.push((n.unit_type, data));
        proof {
            assert(idr_view(cur) =~~= before.push((n.unit_type, n.data@)));
        }
        i = i + 1;
    }
    proof {
        assert(pairs.take(i as int) =~= pairs);
    }
    if cur.samples.len() > 0 {
        proof {
            assert(idr_views(frags@.push(cur)) =~~= idr_views(frags@).push(idr_view(cur)));
        }
        frags.push(cur);
        return frags;
    }
    frags
}

/// The smallest index of a unit of the given type, if one exists.
pub open spec fn first_index_of_type(us: Seq<(NalUnitType, Seq<u8>)>, t: NalUnitType) -> Option<
    int,
>
    decreases us.len(),
{
    if us.len() == 0 {
        None
    } else if us[0].0 == t {
        Some(0int)
    } else {
        match first_index_of_type(us.skip(1), t) {
            Option::None => None,
            Option::Some(i) => Some(i + 1),
        }
    }
}

/// Finds the first NAL of the given type; the stream's parameter sets (SPS
/// and PPS) are selected this way, each by its own type, rather than both
/// from the first unit alone.
pub fn first_nal_of_type(units: &Vec<NAL>, t: NalUnitType) -> (r: Option<usize>)
    ensures
        match r {
            Option::Some(i) => {
                &&& first_index_of_type(nal_pairs(units@), t) == Some(i as int)
                &&& i < units@.len()
                &&& units@[i as int].unit_type == t
            },
            Option::None => first_index_of_type(nal_pairs(units@), t) is None,
        },
{
    let ghost pairs = nal_pairs(units@);
    proof {
        assert(pairs.skip(0) =~= pairs);
    }
    let mut i: usize = 0;
    while i < units.len()
        invariant
            i <= units@.len(),
            pairs == nal_pairs(units@),
            forall|j: int| 0 <= j < i ==> pairs[j].0 != t,
            first_index_of_type(pairs, t) == (match first_index_of_type(pairs.skip(i as int), t) {
                Option::None => None::<int>,
                Option::Some(k) => Some(k + i),
            }),
        decreases units@.len() - i,
    {
        let n = &units[i];
        if n.unit_type == t {
            proof {
                assert(pairs.skip(i as int)[0] == pairs[i as int]);
                assert(first_index_of_type(pairs.skip(i as int), t) == Some(0int));
            }
            return Some(i);
        }
        proof {
            assert(pairs.skip(i as int)[0] == pairs[i as int]);
            assert(pairs.skip(i as int).skip(1) =~= pairs.skip(i as int + 1));
        }
        i = i + 1;
    }
    proof {
        assert(pairs.skip(i as int) =~= Seq::<(NalUnitType, Seq<u8>)>::empty());
    }
    None
}

/// The `(type, bytes)` content of a scanned unit sequence.
pub open spec fn unit_pairs(us: Seq<(int, int, NalUnitType, Seq<u8>)>) -> Seq<
    (NalUnitType, Seq<u8>),
> {
    us.map(|i: int, u: (int, int, NalUnitType, Seq<u8>)| (u.2, u.3))
}

/// Matching NAL records carry the same types and bytes.
pub proof fn lemma_nals_match_pairs(ns: Seq<NAL>, us: Seq<(int, int, NalUnitType, Seq<u8>)>)
    requires
        nals_match(ns, us),
    ensures
        nal_pairs(ns) == unit_pairs(us),
{
    assert forall|i: int| 0 <= i < ns.len() implies nal_pairs(ns)[i] == unit_pairs(us)[i] by {
        assert(nal_matches(ns[i], us[i]));
    }
    assert(nal_pairs(ns) =~= unit_pairs(us));
}

/// The demultiplexer: scans the buffer into NAL units, groups them into
/// decode fragments, and picks the stream's parameter sets -- the first
/// NAL of SPS type and the first NAL of PPS type, each selected by its own
/// type. (Selecting both references from one leading unit would leave the
/// PPS wrong; each is searched for independently.)
pub fn demux(input: &Vec<u8>) -> (r: (Vec<IDR>, Option<Vec<u8>>, Option<Vec<u8>>))
    ensures
        ({
            let units = scan_units(input@, 0);
            &&& idr_views(r.0@) == segment_spec(unit_pairs(units))
            &&& (r.1 is Some <==> first_index_of_type(unit_pairs(units), NalUnitType::SPS)
                is Some)
            &&& (r.1 matches Some(d) ==> {
                &&& first_index_of_type(unit_pairs(units), NalUnitType::SPS) matches Some(i)
                &&& d@ == units[i].3
            })
            &&& (r.2 is Some <==> first_index_of_type(unit_pairs(units), NalUnitType::PPS)
                is Some)
            &&& (r.2 matches Some(d) ==> {
                &&& first_index_of_type(unit_pairs(units), NalUnitType::PPS) matches Some(i)
                &&& d@ == units[i].3
            })
        }),
{
    let units = scan(input);
    proof {
        lemma_nals_match_pairs(units@, scan_units(input@, 0));
    }
    let frags = segment(&units);
    let sps = match first_nal_of_type(&units, NalUnitType::SPS) {
        Option::Some(i) => {
            let d = copy_span(&units[i].data, 0, units[i].data.len());
            proof {
                assert(nal_matches(units@[i as int], scan_units(input@, 0)[i as int]));
                assert(d@ =~= units@[i as int].data@);
            }
            Some(d)
        },
        Option::None => None,
    };
    let pps = match first_nal_of_type(&units, NalUnitType::PPS) {
        Option::Some(i) => {
            let d = copy_span(&units[i].data, 0, units[i].data.len());
            proof {
                assert(nal_matches(units@[i as int], scan_units(input@, 0)[i as int]));
                assert(d@ =~= units@[i as int].data@);
            }
            Some(d)
        },
        Option::None => None,
    };
    (frags, sps, pps)
}

/// No start code (of either width) begins anywhere in `[lo, hi)`.
pub open spec fn code_free(b: Seq<u8>, lo: int, hi: int) -> bool {
    forall|j: int|
        #![trigger is_code3(b, j)]
        #![trigger is_code4(b, j)]
        lo <= j < hi ==> !is_code3(b, j) && !is_code4(b, j)
}

/// The search started inside a code-free stretch finds exactly the start
/// code that closes it.
proof fn lemma_next_code_exact(b: Seq<u8>, j: int, m: int)
    requires
        j <= m,
        m + 4 < b.len(),
        is_code3(b, m) || is_code4(b, m),
        code_free(b, j, m),
    ensures
        next_code(b, j) == Some(m),
    decreases m - j,
{
    if j == m {
    } else {
        assert(!is_code3(b, j) && !is_code4(b, j));
        lemma_next_code_exact(b, j + 1, m);
    }
}

/// The search started past the last start code finds nothing.
proof fn lemma_next_code_none(b: Seq<u8>, j: int, lo: int)
    requires
        lo <= j,
        code_free(b, lo, b.len() as int),
    ensures
        next_code(b, j) is None,
    decreases b.len() - j,
{
    if j + 4 >= b.len() {
    } else {
        assert(!is_code3(b, j) && !is_code4(b, j));
        lemma_next_code_none(b, j + 1, lo);
    }
}

/// The unit the scanner is expected to yield for the payload between
/// marker `i` and marker `i + 1`.
pub open spec fn synthetic_unit(b: Seq<u8>, markers: Seq<int>, msizes: Seq<int>, i: int) -> (
    int,
    int,
    NalUnitType,
    Seq<u8>,
) {
    let start = markers[i] + msizes[i];
    (start, markers[i + 1], nal_type_of(b[start] & 0x1F), b.subrange(start, markers[i + 1]))
}

/// A synthetic Annex-B buffer: `markers` are the positions of its start
/// codes (each three or four bytes wide, per `msizes`), the first at
/// offset zero, each followed by a non-empty payload free of start codes,
/// and nothing after the last marker ever reads as a start code. The last
/// marker only closes the last payload; no unit follows it.
pub open spec fn synthetic_layout(b: Seq<u8>, markers: Seq<int>, msizes: Seq<int>) -> bool {
    &&& markers.len() >= 1
    &&& msizes.len() == markers.len()
    &&& markers[0] == 0
    &&& forall|i: int|
        0 <= i < markers.len() ==> ((#[trigger] msizes[i]) == 3 || msizes[i] == 4)
    &&& forall|i: int|
        0 <= i < markers.len() ==> if msizes[i] == 3 {
            is_code3(b, #[trigger] markers[i])
        } else {
            is_code4(b, markers[i])
        }
    &&& forall|i: int|
        0 <= i < markers.len() - 1 ==> (#[trigger] markers[i]) + msizes[i] < markers[i + 1]
    &&& forall|i: int| 1 <= i < markers.len() ==> (#[trigger] markers[i]) + 4 < b.len()
    &&& forall|i: int|
        0 <= i < markers.len() - 1 ==> code_free(
            b,
            (#[trigger] markers[i]) + msizes[i],
            markers[i + 1],
        )
    &&& code_free(b, markers.last() + msizes.last(), b.len() as int)
}

#[verifier::rlimit(80)]
#[verifier::spinoff_prover]
proof fn lemma_scan_synthetic_from(b: Seq<u8>, markers: Seq<int>, msizes: Seq<int>, i: int)
    requires
        synthetic_layout(b, markers, msizes),
        0 <= i < markers.len(),
    ensures
        scan_units(b, markers[i]).len() == markers.len() - 1 - i,
        forall|k: int|
            0 <= k < markers.len() - 1 - i ==> #[trigger] scan_units(b, markers[i])[k]
                == synthetic_unit(b, markers, msizes, i + k),
    decreases markers.len() - i,
{
    let n = markers.len() - 1;
    if i == n {
        // The last marker opens no unit: either it stands too close to the
        // end for the guard, or no start code ever closes it.
        if markers[i] + 4 >= b.len() {
        } else {
            let start = markers[i] + msizes[i];
            lemma_next_code_none(b, start, start);
            if is_code3(b, markers[i]) {
            } else {
            }
        }
        assert(scan_unit_at(b, markers[i]) is None);
    } else {
        let start = markers[i] + msizes[i];
        assert(markers[i] + 4 < b.len()) by {
            if i == 0 {
                assert(markers[1] + 4 < b.len());
                assert(markers[0] + msizes[0] < markers[1]);
            }
        }
        lemma_next_code_exact(b, start, markers[i + 1]);
        let u = synthetic_unit(b, markers, msizes, i);
        assert(scan_unit_at(b, markers[i]) == Some(u));
        lemma_scan_synthetic_from(b, markers, msizes, i + 1);
        assert(scan_units(b, markers[i]) == seq![u] + scan_units(b, markers[i + 1]));
        assert forall|k: int| 0 <= k < n - i implies #[trigger] scan_units(b, markers[i])[k]
            == synthetic_unit(b, markers, msizes, i + k) by {
            if k == 0 {
            } else {
                assert(scan_units(b, markers[i])[k] == scan_units(b, markers[i + 1])[k - 1]);
                assert(scan_units(b, markers[i + 1])[k - 1] == synthetic_unit(
                    b,
                    markers,
                    msizes,
                    i + k,
                ));
            }
        }
    }
}

/// Scanner correctness on a synthetic buffer: for payloads interleaved
/// with a mix of three- and four-byte start codes, the scan yields exactly
/// one unit per payload, whose span excludes the start codes, whose type
/// is the five low bits of the payload's first byte, and whose bytes are
/// the payload.
pub proof fn lemma_scan_synthetic(b: Seq<u8>, markers: Seq<int>, msizes: Seq<int>)
    requires
        synthetic_layout(b, markers, msizes),
    ensures
        scan_units(b, 0).len() == markers.len() - 1,
        forall|i: int|
            0 <= i < markers.len() - 1 ==> #[trigger] scan_units(b, 0)[i] == synthetic_unit(
                b,
                markers,
                msizes,
                i,
            ),
{
    lemma_scan_synthetic_from(b, markers, msizes, 0);
}

} // verus!
