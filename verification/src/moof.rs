//! The movie-fragment (`moof`) metadata: the bit-packed sample-flags codec
//! and the writers of the `mfhd`, `traf`, `tfhd`, `tfdt` and `trun` boxes.
use vstd::prelude::*;

use crate::boxes::{box_bytes, write_atom, TAG_MFHD, TAG_MOOF, TAG_TFDT, TAG_TFHD, TAG_TRAF, TAG_TRUN};
use crate::bytebuf::{
    buf_contents, buf_len, buf_new, buf_put_i32, buf_put_u32, buf_put_u64, buf_put_u8,
    i32_be_bytes, u32_be_bytes, u64_be_bytes,
};

verus! {

/// Per-sample entry of a track run: only `size` is carried into the output
/// with the presence-flag configuration this muxer uses.
pub struct SampleInfo {
    pub duration: u32,
    pub size: u32,
    pub flags: u32,
}

#[allow(non_camel_case_types)]
#[derive(Clone, Copy, Debug, PartialEq, Eq, Structural)]
pub enum SampleLeading {
    UNKNOWN,
    LEADINGDEP,
    NOTLEADING,
    LEADINGNODEP,
}

#[allow(non_camel_case_types)]
#[derive(Clone, Copy, Debug, PartialEq, Eq, Structural)]
pub enum SampleDepends {
    UNKNOWN,
    DEPENDS,
    NOTDEPENDS,
    RESERVED,
}

#[allow(non_camel_case_types)]
#[derive(Clone, Copy, Debug, PartialEq, Eq, Structural)]
pub enum SampleDepended {
    UNKNOWN,
    NOTDISPOSABLE,
    DISPOSABLE,
    RESERVED,
}

#[allow(non_camel_case_types)]
#[derive(Clone, Copy, Debug, PartialEq, Eq, Structural)]
pub enum SampleRedundancy {
    UNKNOWN,
    REDUNDANT,
    NOTREDUNDANT,
    RESERVED,
}

/// The bit-packed descriptor of a sample's leading / dependency / redundancy
/// / sync-point properties, plus its degradation priority.
#[derive(Clone, Copy, Debug, PartialEq, Eq, Structural)]
pub struct SampleFlags {
    pub is_leading: SampleLeading,
    pub depends_on: SampleDepends,
    pub is_depended_on: SampleDepended,
    pub has_redundancy: SampleRedundancy,
    pub is_non_sync_sample: bool,
    pub degradation_priority: u16,
}

pub open spec fn leading_value(l: SampleLeading) -> u32 {
    match l {
        SampleLeading::UNKNOWN => 0,
        SampleLeading::LEADINGDEP => 1,
        SampleLeading::NOTLEADING => 2,
        SampleLeading::LEADINGNODEP => 3,
    }
}

pub open spec fn depends_value(d: SampleDepends) -> u32 {
    match d {
        SampleDepends::UNKNOWN => 0,
        SampleDepends::DEPENDS => 1,
        SampleDepends::NOTDEPENDS => 2,
        SampleDepends::RESERVED => 3,
    }
}

pub open spec fn depended_value(d: SampleDepended) -> u32 {
    match d {
        SampleDepended::UNKNOWN => 0,
        SampleDepended::NOTDISPOSABLE => 1,
        SampleDepended::DISPOSABLE => 2,
        SampleDepended::RESERVED => 3,
    }
}

pub open spec fn redundancy_value(r: SampleRedundancy) -> u32 {
    match r {
        SampleRedundancy::UNKNOWN => 0,
        SampleRedundancy::REDUNDANT => 1,
        SampleRedundancy::NOTREDUNDANT => 2,
        SampleRedundancy::RESERVED => 3,
    }
}

/// The packed 32-bit word: four reserved bits (zero), then the four 2-bit
/// sub-fields, three padding bits, the non-sync bit, and the 16-bit
/// degradation priority.
pub open spec fn serialize_spec(f: SampleFlags) -> u32 {
    (((((((leading_value(f.is_leading) << 2) | depends_value(f.depends_on)) << 2) | depended_value(
        f.is_depended_on,
    )) << 2) | redundancy_value(f.has_redundancy)) << 20) | (
    if f.is_non_sync_sample {
        0x10000u32
    } else {
        0u32
    }) | (f.degradation_priority as u32)
}

/// The decoded form of a packed word; `None` exactly on the reserved
/// dependency sub-field values, which are a hard failure on parse.
pub open spec fn parse_spec(flags: u32) -> Option<SampleFlags> {
    let leading_bits = (flags & 0x0C000000) >> 26;
    let depends_bits = (flags & 0x03000000) >> 24;
    let depended_bits = (flags & 0x00C00000) >> 22;
    let redundancy_bits = (flags & 0x00300000) >> 20;
    if depends_bits == 3 || depended_bits == 3 || redundancy_bits == 3 {
        None
    } else {
        Some(
            SampleFlags {
                is_leading: leading_of(leading_bits),
                depends_on: depends_of(depends_bits),
                is_depended_on: depended_of(depended_bits),
                has_redundancy: redundancy_of(redundancy_bits),
                is_non_sync_sample: (flags & 0x00010000) >> 16 == 1,
                degradation_priority: (flags & 0x0000FFFF) as u16,
            },
        )
    }
}

pub open spec fn leading_of(b: u32) -> SampleLeading {
    if b == 0 {
        SampleLeading::UNKNOWN
    } else if b == 1 {
        SampleLeading::LEADINGDEP
    } else if b == 2 {
        SampleLeading::NOTLEADING
    } else {
        SampleLeading::LEADINGNODEP
    }
}

pub open spec fn depends_of(b: u32) -> SampleDepends {
    if b == 0 {
        SampleDepends::UNKNOWN
    } else if b == 1 {
        SampleDepends::DEPENDS
    } else if b == 2 {
        SampleDepends::NOTDEPENDS
    } else {
        SampleDepends::RESERVED
    }
}

pub open spec fn depended_of(b: u32) -> SampleDepended {
    if b == 0 {
        SampleDepended::UNKNOWN
    } else if b == 1 {
        SampleDepended::NOTDISPOSABLE
    } else if b == 2 {
        SampleDepended::DISPOSABLE
    } else {
        SampleDepended::RESERVED
    }
}

pub open spec fn redundancy_of(b: u32) -> SampleRedundancy {
    if b == 0 {
        SampleRedundancy::UNKNOWN
    } else if b == 1 {
        SampleRedundancy::REDUNDANT
    } else if b == 2 {
        SampleRedundancy::NOTREDUNDANT
    } else {
        SampleRedundancy::RESERVED
    }
}

impl SampleFlags {
    /// Decodes a packed sample-flags word; a reserved dependency sub-field
    /// value is rejected rather than silently defaulted.
    pub fn parse(flags: u32) -> (r: Option<SampleFlags>)
        ensures
            r == parse_spec(flags),
    {
        let leading_bits = (flags & 0x0C000000) >> 26;
        let depends_bits = (flags & 0x03000000) >> 24;
        let depended_bits = (flags & 0x00C00000) >> 22;
        let redundancy_bits = (flags & 0x00300000) >> 20;
        proof {
            assert((flags & 0x0C000000) >> 26 <= 3 && (flags & 0x03000000) >> 24 <= 3 && (flags
                & 0x00C00000) >> 22 <= 3 && (flags & 0x00300000) >> 20 <= 3 && (flags & 0x0000FFFF)
                <= 0xFFFF) by (bit_vector);
        }
        if depends_bits == 3 || depended_bits == 3 || redundancy_bits == 3 {
            return None;
        }
        let is_leading = if leading_bits == 0 {
            SampleLeading::UNKNOWN
        } else if leading_bits == 1 {
            SampleLeading::LEADINGDEP
        } else if leading_bits == 2 {
            SampleLeading::NOTLEADING
        } else {
            SampleLeading::LEADINGNODEP
        };
        let depends_on = if depends_bits == 0 {
            SampleDepends::UNKNOWN
        } else if depends_bits == 1 {
            SampleDepends::DEPENDS
        } else {
            SampleDepends::NOTDEPENDS
        };
        let is_depended_on = if depended_bits == 0 {
            SampleDepended::UNKNOWN
        } else if depended_bits == 1 {
            SampleDepended::NOTDISPOSABLE
        } else {
            SampleDepended::DISPOSABLE
        };
        let has_redundancy = if redundancy_bits == 0 {
            SampleRedundancy::UNKNOWN
        } else if redundancy_bits == 1 {
            SampleRedundancy::REDUNDANT
        } else {
            SampleRedundancy::NOTREDUNDANT
        };
        Some(
            SampleFlags {
                is_leading,
                depends_on,
                is_depended_on,
                has_redundancy,
                is_non_sync_sample: (flags & 0x00010000) >> 16 == 1,
                degradation_priority: (flags & 0x0000FFFF) as u16,
            },
        )
    }

    /// Packs the flags into their 32-bit word.
    pub fn serialize(&self) -> (r: u32)
        ensures
            r == serialize_spec(*self),
    {
        let mut f: u32 = 0;
        f = f | leading_bits_of(self.is_leading);
        f = f << 2;
        f = f | depends_bits_of(self.depends_on);
        f = f << 2;
        f = f | depended_bits_of(self.is_depended_on);
        f = f << 2;
        f = f | redundancy_bits_of(self.has_redundancy);
        f = f << 3;
        f = f << 1;
        f = f | (if self.is_non_sync_sample {
            1
        } else {
            0
        });
        f = f << 16;
        f = f | (self.degradation_priority as u32);
        proof {
            let lv = leading_value(self.is_leading);
            let dv = depends_value(self.depends_on);
            let sv = depended_value(self.is_depended_on);
            let rv = redundancy_value(self.has_redundancy);
            let ns: u32 = if self.is_non_sync_sample {
                1
            } else {
                0
            };
            let dp = self.degradation_priority;
            assert(((((((((((((0u32 | lv) << 2) | dv) << 2) | sv) << 2) | rv) << 3) << 1) | ns)
                << 16) | (dp as u32)) == (((((((lv << 2) | dv) << 2) | sv) << 2) | rv) << 20) | (
            if ns == 1 {
                0x10000u32
            } else {
                0u32
            }) | (dp as u32)) by (bit_vector)
                requires
                    ns == 0 || ns == 1,
            ;
        }
        f
    }
}

/// The flag codec inverse law: decoding an encoded `SampleFlags` value gives
/// the value back, for every value whose dependency sub-fields are not the
/// reserved code (those are rejected on parse by design).
pub proof fn lemma_flags_round_trip(f: SampleFlags)
    requires
        f.depends_on != SampleDepends::RESERVED,
        f.is_depended_on != SampleDepended::RESERVED,
        f.has_redundancy != SampleRedundancy::RESERVED,
    ensures
        parse_spec(serialize_spec(f)) == Some(f),
{
    let lv = leading_value(f.is_leading);
    let dv = depends_value(f.depends_on);
    let sv = depended_value(f.is_depended_on);
    let rv = redundancy_value(f.has_redundancy);
    let ns: u32 = if f.is_non_sync_sample {
        0x10000u32
    } else {
        0u32
    };
    let dp = f.degradation_priority;
    let w = (((((((lv << 2) | dv) << 2) | sv) << 2) | rv) << 20) | ns | (dp as u32);
    assert(lv <= 3 && dv <= 3 && sv <= 3 && rv <= 3) by {
        lemma_value_bounds(f);
    }
    assert((w & 0x0C000000) >> 26 == lv && (w & 0x03000000) >> 24 == dv && (w & 0x00C00000) >> 22
        == sv && (w & 0x00300000) >> 20 == rv && (w & 0x00010000) >> 16 == (
    if ns == 0x10000u32 {
        1u32
    } else {
        0u32
    }) && (w & 0x0000FFFF) as u16 == dp) by (bit_vector)
        requires
            lv <= 3,
            dv <= 3,
            sv <= 3,
            rv <= 3,
            ns == 0x10000u32 || ns == 0u32,
            w == (((((((lv << 2) | dv) << 2) | sv) << 2) | rv) << 20) | ns | (dp as u32),
    ;
    lemma_sub_field_inverses(f);
}

proof fn lemma_value_bounds(f: SampleFlags)
    ensures
        leading_value(f.is_leading) <= 3,
        depends_value(f.depends_on) <= 3,
        depended_value(f.is_depended_on) <= 3,
        redundancy_value(f.has_redundancy) <= 3,
        f.depends_on != SampleDepends::RESERVED ==> depends_value(f.depends_on) != 3,
        f.is_depended_on != SampleDepended::RESERVED ==> depended_value(f.is_depended_on) != 3,
        f.has_redundancy != SampleRedundancy::RESERVED ==> redundancy_value(f.has_redundancy) != 3,
{
    match f.is_leading {
        SampleLeading::UNKNOWN => {},
        SampleLeading::LEADINGDEP => {},
        SampleLeading::NOTLEADING => {},
        SampleLeading::LEADINGNODEP => {},
    }
    match f.depends_on {
        SampleDepends::UNKNOWN => {},
        SampleDepends::DEPENDS => {},
        SampleDepends::NOTDEPENDS => {},
        SampleDepends::RESERVED => {},
    }
    match f.is_depended_on {
        SampleDepended::UNKNOWN => {},
        SampleDepended::NOTDISPOSABLE => {},
        SampleDepended::DISPOSABLE => {},
        SampleDepended::RESERVED => {},
    }
    match f.has_redundancy {
        SampleRedundancy::UNKNOWN => {},
        SampleRedundancy::REDUNDANT => {},
        SampleRedundancy::NOTREDUNDANT => {},
        SampleRedundancy::RESERVED => {},
    }
}

proof fn lemma_sub_field_inverses(f: SampleFlags)
    ensures
        leading_of(leading_value(f.is_leading)) == f.is_leading,
        depends_of(depends_value(f.depends_on)) == f.depends_on,
        depended_of(depended_value(f.is_depended_on)) == f.is_depended_on,
        redundancy_of(redundancy_value(f.has_redundancy)) == f.has_redundancy,
{
    lemma_value_bounds(f);
    match f.is_leading {
        SampleLeading::UNKNOWN => {},
        SampleLeading::LEADINGDEP => {},
        SampleLeading::NOTLEADING => {},
        SampleLeading::LEADINGNODEP => {},
    }
    match f.depends_on {
        SampleDepends::UNKNOWN => {},
        SampleDepends::DEPENDS => {},
        SampleDepends::NOTDEPENDS => {},
        SampleDepends::RESERVED => {},
    }
    match f.is_depended_on {
        SampleDepended::UNKNOWN => {},
        SampleDepended::NOTDISPOSABLE => {},
        SampleDepended::DISPOSABLE => {},
        SampleDepended::RESERVED => {},
    }
    match f.has_redundancy {
        SampleRedundancy::UNKNOWN => {},
        SampleRedundancy::REDUNDANT => {},
        SampleRedundancy::NOTREDUNDANT => {},
        SampleRedundancy::RESERVED => {},
    }
}

/// The default sample flags every fragment header carries: a sample that
/// depends on others and is not a sync point.
pub open spec fn default_sample_flags() -> SampleFlags {
    SampleFlags {
        is_leading: SampleLeading::UNKNOWN,
        depends_on: SampleDepends::DEPENDS,
        is_depended_on: SampleDepended::UNKNOWN,
        has_redundancy: SampleRedundancy::UNKNOWN,
        is_non_sync_sample: true,
        degradation_priority: 0,
    }
}

/// The flags of each fragment's first sample: a sync point that depends on
/// no other sample.
pub open spec fn first_sample_flags() -> SampleFlags {
    SampleFlags {
        is_leading: SampleLeading::UNKNOWN,
        depends_on: SampleDepends::NOTDEPENDS,
        is_depended_on: SampleDepended::UNKNOWN,
        has_redundancy: SampleRedundancy::UNKNOWN,
        is_non_sync_sample: false,
        degradation_priority: 0,
    }
}

/// The packed word of `default_sample_flags`, derived through the codec.
pub fn default_sample_flags_word() -> (r: u32)
    ensures
        r == serialize_spec(default_sample_flags()),
        r == 0x01010000u32,
{
    let f = SampleFlags {
        is_leading: SampleLeading::UNKNOWN,
        depends_on: SampleDepends::DEPENDS,
        is_depended_on: SampleDepended::UNKNOWN,
        has_redundancy: SampleRedundancy::UNKNOWN,
        is_non_sync_sample: true,
        degradation_priority: 0,
    };
    let r = f.serialize();
    proof {
        assert((((((((0u32 << 2) | 1) << 2) | 0) << 2) | 0) << 20) | 0x10000u32 | 0u32
            == 0x01010000u32) by (bit_vector);
    }
    r
}

/// The packed word of `first_sample_flags`, derived through the codec.
pub fn first_sample_flags_word() -> (r: u32)
    ensures
        r == serialize_spec(first_sample_flags()),
        r == 0x02000000u32,
{
    let f = SampleFlags {
        is_leading: SampleLeading::UNKNOWN,
        depends_on: SampleDepends::NOTDEPENDS,
        is_depended_on: SampleDepended::UNKNOWN,
        has_redundancy: SampleRedundancy::UNKNOWN,
        is_non_sync_sample: false,
        degradation_priority: 0,
    };
    let r = f.serialize();
    proof {
        assert((((((((0u32 << 2) | 2) << 2) | 0) << 2) | 0) << 20) | 0u32 | 0u32 == 0x02000000u32)
            by (bit_vector);
    }
    r
}

/// The `mfhd` payload: version, zero flags, the fragment's sequence number.
pub open spec fn mfhd_payload(sequence_number: u32) -> Seq<u8> {
    seq![0u8] + seq![0u8, 0u8, 0u8] + u32_be_bytes(sequence_number)
}

/// The `tfhd` payload under this muxer's presence bits (`0x000039`):
/// track 1, the absolute base data offset, the default sample duration,
/// the default (leading) sample size, and the default sample flags.
pub open spec fn tfhd_payload(
    base_data_offset: u64,
    default_sample_duration: u32,
    default_sample_size: u32,
) -> Seq<u8> {
    seq![0u8] + seq![0u8, 0u8, 0x39u8] + u32_be_bytes(1) + u64_be_bytes(base_data_offset)
        + u32_be_bytes(default_sample_duration) + u32_be_bytes(default_sample_size) + u32_be_bytes(
        serialize_spec(default_sample_flags()),
    )
}

/// The `tfdt` payload: version 1, zero flags, the 64-bit decode time.
pub open spec fn tfdt_payload(base_media_decode_time: u64) -> Seq<u8> {
    seq![1u8] + seq![0u8, 0u8, 0u8] + u64_be_bytes(base_media_decode_time)
}

/// One four-byte size entry per sample, in order.
pub open spec fn size_entries(sizes: Seq<u32>) -> Seq<u8>
    decreases sizes.len(),
{
    if sizes.len() == 0 {
        Seq::empty()
    } else {
        size_entries(sizes.drop_last()) + u32_be_bytes(sizes.last())
    }
}

pub proof fn lemma_size_entries_len(sizes: Seq<u32>)
    ensures
        size_entries(sizes).len() == 4 * sizes.len(),
    decreases sizes.len(),
{
    if sizes.len() > 0 {
        lemma_size_entries_len(sizes.drop_last());
    }
}

/// The `trun` payload under this muxer's presence bits (`0x000205`): the
/// sample count, the data offset relative to the `moof` start, the first
/// sample's flags, then one size per sample.
pub open spec fn trun_payload(sizes: Seq<u32>, data_offset: i32) -> Seq<u8> {
    seq![0u8] + seq![0u8, 0x02u8, 0x05u8] + u32_be_bytes(sizes.len() as u32) + i32_be_bytes(
        data_offset,
    ) + u32_be_bytes(serialize_spec(first_sample_flags())) + size_entries(sizes)
}

/// The `traf` payload: the `tfhd`, `tfdt` and `trun` boxes in order.
/// `lead` is the number of `moof` payload bytes that precede the `traf`
/// box; the `trun` data offset counts from the start of the `moof` box.
pub open spec fn traf_payload(
    default_sample_duration: u32,
    sizes: Seq<u32>,
    base_data_offset: u64,
    base_media_decode_time: u64,
    lead: int,
) -> Seq<u8> {
    box_bytes(TAG_TFHD, tfhd_payload(base_data_offset, default_sample_duration, sizes[0]))
        + box_bytes(TAG_TFDT, tfdt_payload(base_media_decode_time)) + box_bytes(
        TAG_TRUN,
        trun_payload(sizes, (lead + 104 + 4 * sizes.len()) as i32),
    )
}

/// The value the `trun` data-offset field carries for a run of `n` size
/// entries: the whole `moof` box plus the `mdat` header.
pub open spec fn trun_offset_value(n: int) -> int {
    120 + 4 * n
}

/// The full `moof` payload: the `mfhd` box then the `traf` box.
pub open spec fn moof_payload(
    sequence_number: u32,
    base_data_offset: u64,
    base_media_decode_time: u64,
    default_sample_duration: u32,
    sizes: Seq<u32>,
) -> Seq<u8> {
    box_bytes(TAG_MFHD, mfhd_payload(sequence_number)) + box_bytes(
        TAG_TRAF,
        traf_payload(default_sample_duration, sizes, base_data_offset, base_media_decode_time, 16),
    )
}

/// The full `moof` box of one fragment.
pub open spec fn moof_bytes(
    sequence_number: u32,
    base_data_offset: u64,
    base_media_decode_time: u64,
    default_sample_duration: u32,
    sizes: Seq<u32>,
) -> Seq<u8> {
    box_bytes(
        TAG_MOOF,
        moof_payload(
            sequence_number,
            base_data_offset,
            base_media_decode_time,
            default_sample_duration,
            sizes,
        ),
    )
}

/// The `moof` box length is determined by the sample count alone, and the
/// stored data offset points exactly one `mdat` header past its end.
pub proof fn lemma_moof_len(
    sequence_number: u32,
    base_data_offset: u64,
    base_media_decode_time: u64,
    default_sample_duration: u32,
    sizes: Seq<u32>,
)
    ensures
        moof_bytes(
            sequence_number,
            base_data_offset,
            base_media_decode_time,
            default_sample_duration,
            sizes,
        ).len() == 112 + 4 * sizes.len(),
        trun_offset_value(sizes.len() as int) == moof_bytes(
            sequence_number,
            base_data_offset,
            base_media_decode_time,
            default_sample_duration,
            sizes,
        ).len() + 8,
{
    lemma_size_entries_len(sizes);
}

/// Writes the `mfhd` box.
pub fn write_mfhd(parent: &mut bytes::BytesMut, sequence_number: u32)
    requires
        buf_contents(*old(parent)).len() + 16 <= isize::MAX,
    ensures
        buf_contents(*final(parent)) == buf_contents(*old(parent)) + box_bytes(
            TAG_MFHD,
            mfhd_payload(sequence_number),
        ),
{
    let mut buf = buf_new();
    buf_put_u8(&mut buf, 0);
    buf_put_u8(&mut buf, 0);
    buf_put_u8(&mut buf, 0);
    buf_put_u8(&mut buf, 0);
    buf_put_u32(&mut buf, sequence_number);
    proof {
        assert(buf_contents(buf) =~= mfhd_payload(sequence_number));
    }
    write_atom(parent, TAG_MFHD, &buf);
}

/// Writes the `tfdt` box.
pub fn write_tfdt(parent: &mut bytes::BytesMut, base_media_decode_time: u64)
    requires
        buf_contents(*old(parent)).len() + 20 <= isize::MAX,
    ensures
        buf_contents(*final(parent)) == buf_contents(*old(parent)) + box_bytes(
            TAG_TFDT,
            tfdt_payload(base_media_decode_time),
        ),
{
    let mut buf = buf_new();
    buf_put_u8(&mut buf, 1);
    buf_put_u8(&mut buf, 0);
    buf_put_u8(&mut buf, 0);
    buf_put_u8(&mut buf, 0);
    buf_put_u64(&mut buf, base_media_decode_time);
    proof {
        assert(buf_contents(buf) =~= tfdt_payload(base_media_decode_time));
    }
    write_atom(parent, TAG_TFDT, &buf);
}

/// Writes the `tfhd` box. The flags word is assembled from the six
/// presence booleans this muxer fixes; only the fields whose presence bit
/// is set are emitted.
pub fn write_tfhd(
    parent: &mut bytes::BytesMut,
    base_data_offset: u64,
    default_sample_duration: u32,
    default_sample_size: u32,
)
    requires
        buf_contents(*old(parent)).len() + 36 <= isize::MAX,
    ensures
        buf_contents(*final(parent)) == buf_contents(*old(parent)) + box_bytes(
            TAG_TFHD,
            tfhd_payload(base_data_offset, default_sample_duration, default_sample_size),
        ),
{
    let mut buf = buf_new();
    buf_put_u8(&mut buf, 0);

    let mut flags: u32 = 0;
    let base_data_offset_present = true;
    let sample_description_index_present = false;
    let default_sample_duration_present = true;
    let default_sample_size_present = true;
    let default_sample_flags_present = true;
    let duration_is_empty = false;
    let default_base_is_moof = false;

    if base_data_offset_present {
        flags = flags | 0x000001;
    }
    if sample_description_index_present {
        flags = flags | 0x000002;
    }
    if default_sample_duration_present {
        flags = flags | 0x000008;
    }
    if default_sample_size_present {
        flags = flags | 0x000010;
    }
    if default_sample_flags_present {
        flags = flags | 0x000020;
    }
    if duration_is_empty {
        flags = flags | 0x010000;
    }
    if default_base_is_moof {
        flags = flags | 0x020000;
    }
    proof {
        assert((((0u32 | 0x000001) | 0x000008) | 0x000010) | 0x000020 == 0x39u32) by (bit_vector);
        assert((0x39u32 >> 16) as u8 == 0 && (0x39u32 >> 8) as u8 == 0 && (0x39u32 >> 0) as u8
            == 0x39) by (bit_vector);
    }
    buf_put_u8(&mut buf, (flags >> 16) as u8);
    buf_put_u8(&mut buf, (flags >> 8) as u8);
    buf_put_u8(&mut buf, (flags >> 0) as u8);

    buf_put_u32(&mut buf, 1);
    if base_data_offset_present {
        buf_put_u64(&mut buf, base_data_offset);
    }
    if default_sample_duration_present {
        buf_put_u32(&mut buf, default_sample_duration);
    }
    if default_sample_size_present {
        buf_put_u32(&mut buf, default_sample_size);
    }
    if default_sample_flags_present {
        let w = default_sample_flags_word();
        buf_put_u32(&mut buf, w);
    }
    proof {
        assert(buf_contents(buf) =~= tfhd_payload(
            base_data_offset,
            default_sample_duration,
            default_sample_size,
        ));
    }
    write_atom(parent, TAG_TFHD, &buf);
}

/// Writes the `trun` box. `data_offset` is the number of `moof` payload
/// bytes written before the enclosing `traf`'s own payload began plus the
/// `tfhd` and `tfdt` boxes; the stored offset extends it over the `trun`
/// body and the four box headers that precede the sample data.
pub fn write_trun(parent: &mut bytes::BytesMut, samples_info: &Vec<SampleInfo>, data_offset: usize)
    requires
        data_offset + 48 + 4 * samples_info@.len() <= i32::MAX,
        buf_contents(*old(parent)).len() + 24 + 4 * samples_info@.len() <= isize::MAX,
    ensures
        buf_contents(*final(parent)) == buf_contents(*old(parent)) + box_bytes(
            TAG_TRUN,
            trun_payload(
                sizes_of(samples_info@),
                (data_offset + 48 + 4 * samples_info@.len()) as i32,
            ),
        ),
{
    let mut buf = buf_new();
    let version: u8 = 0;
    buf_put_u8(&mut buf, version);

    let data_offset_present = true;
    let first_sample_flags_present = true;
    let sample_duration_present = false;
    let sample_size_present = true;
    let sample_flags_present = false;

    let mut flags: u32 = 0;
    if data_offset_present {
        flags = flags | 0x000001;
    }
    if first_sample_flags_present {
        flags = flags | 0x000004;
    }
    if sample_duration_present {
        flags = flags | 0x000100;
    }
    if sample_size_present {
        flags = flags | 0x000200;
    }
    if sample_flags_present {
        flags = flags | 0x000400;
    }
    proof {
        assert(((0u32 | 0x000001) | 0x000004) | 0x000200 == 0x205u32) by (bit_vector);
        assert((0x205u32 >> 16) as u8 == 0 && (0x205u32 >> 8) as u8 == 0x02 && (0x205u32 >> 0) as u8
            == 0x05) by (bit_vector);
    }
    buf_put_u8(&mut buf, (flags >> 16) as u8);
    buf_put_u8(&mut buf, (flags >> 8) as u8);
    buf_put_u8(&mut buf, (flags >> 0) as u8);

    let sample_count = samples_info.len();
    proof {
        assert(samples_info@.len() as u32 == sample_count as u32);
    }
    buf_put_u32(&mut buf, sample_count as u32);

    let mut final_offset = data_offset + buf_len(&buf);
    if data_offset_present {
        final_offset = final_offset + 4;
    }
    if first_sample_flags_present {
        final_offset = final_offset + 4;
    }
    if sample_duration_present {
        final_offset = final_offset + sample_count * 4;
    }
    if sample_size_present {
        final_offset = final_offset + sample_count * 4;
    }
    if sample_flags_present {
        final_offset = final_offset + sample_count * 4;
    }
    final_offset = final_offset + 8;  // trun box header
    final_offset = final_offset + 8;  // traf box header
    final_offset = final_offset + 8;  // moof box header
    final_offset = final_offset + 8;  // mdat box header
    if data_offset_present {
        buf_put_i32(&mut buf, final_offset as i32);
    }

    if first_sample_flags_present {
        let w = first_sample_flags_word();
        buf_put_u32(&mut buf, w);
    }

    let ghost sizes = sizes_of(samples_info@);
    let ghost fixed = buf_contents(buf);
    let mut s: usize = 0;
    while s < samples_info.len()
        invariant
            s <= samples_info@.len(),
            sizes == sizes_of(samples_info@),
            fixed.len() + 4 * samples_info@.len() <= isize::MAX,
            buf_contents(buf) == fixed + size_entries(sizes.take(s as int)),
        decreases samples_info@.len() - s,
    {
        proof {
            lemma_size_entries_len(sizes.take(s as int));
            assert(sizes.take(s as int + 1).drop_last() =~= sizes.take(s as int));
        }
        buf_put_u32(&mut buf, samples_info[s].size);
        proof {
            assert(buf_contents(buf) =~= fixed + size_entries(sizes.take(s as int + 1)));
        }
        s = s + 1;
    }
    proof {
        assert(sizes.take(s as int) =~= sizes);
        assert(buf_contents(buf) =~= trun_payload(
            sizes,
            (data_offset + 48 + 4 * samples_info@.len()) as i32,
        ));
        lemma_size_entries_len(sizes);
    }
    write_atom(parent, TAG_TRUN, &buf);
}

/// The per-sample size column of a run.
pub open spec fn sizes_of(infos: Seq<SampleInfo>) -> Seq<u32> {
    infos.map(|i: int, s: SampleInfo| s.size)
}

/// Writes the `traf` box: `tfhd`, `tfdt`, then `trun`. `data_offset` is
/// the number of `moof` payload bytes written before this box.
pub fn write_traf(
    parent: &mut bytes::BytesMut,
    default_sample_duration: u32,
    samples_info: &Vec<SampleInfo>,
    base_data_offset: u64,
    base_media_decode_time: u64,
    data_offset: usize,
)
    requires
        samples_info@.len() >= 1,
        data_offset + 104 + 4 * samples_info@.len() <= i32::MAX,
        buf_contents(*old(parent)).len() + 88 + 4 * samples_info@.len() <= isize::MAX,
    ensures
        buf_contents(*final(parent)) == buf_contents(*old(parent)) + box_bytes(
            TAG_TRAF,
            traf_payload(
                default_sample_duration,
                sizes_of(samples_info@),
                base_data_offset,
                base_media_decode_time,
                data_offset as int,
            ),
        ),
{
    let mut buf = buf_new();
    write_tfhd(&mut buf, base_data_offset, default_sample_duration, samples_info[0].size);
    write_tfdt(&mut buf, base_media_decode_time);
    let inner_offset = data_offset + buf_len(&buf);
    write_trun(&mut buf, samples_info, inner_offset);
    proof {
        lemma_size_entries_len(sizes_of(samples_info@));
        assert(sizes_of(samples_info@)[0] == samples_info@[0].size);
        assert(buf_contents(buf) =~= traf_payload(
            default_sample_duration,
            sizes_of(samples_info@),
            base_data_offset,
            base_media_decode_time,
            data_offset as int,
        ));
    }
    write_atom(parent, TAG_TRAF, &buf);
}

/// Writes one fragment's `moof` box: `mfhd` then `traf`, with the `trun`
/// data offset computed forward from the fixed box layout, never measured
/// after the fact.
pub fn write_moof(
    parent: &mut bytes::BytesMut,
    sequence_number: u32,
    base_data_offset: u64,
    base_media_decode_time: u64,
    default_sample_duration: u32,
    samples_info: &Vec<SampleInfo>,
)
    requires
        samples_info@.len() >= 1,
        120 + 4 * samples_info@.len() <= i32::MAX,
        buf_contents(*old(parent)).len() + 112 + 4 * samples_info@.len() <= isize::MAX,
    ensures
        buf_contents(*final(parent)) == buf_contents(*old(parent)) + moof_bytes(
            sequence_number,
            base_data_offset,
            base_media_decode_time,
            default_sample_duration,
            sizes_of(samples_info@),
        ),
{
    let mut buf = buf_new();
    write_mfhd(&mut buf, sequence_number);
    let data_offset = buf_len(&buf);
    write_traf(
        &mut buf,
        default_sample_duration,
        samples_info,
        base_data_offset,
        base_media_decode_time,
        data_offset,
    );
    proof {
        lemma_size_entries_len(sizes_of(samples_info@));
        assert(buf_contents(buf) =~= moof_payload(
            sequence_number,
            base_data_offset,
            base_media_decode_time,
            default_sample_duration,
            sizes_of(samples_info@),
        ));
    }
    write_atom(parent, TAG_MOOF, &buf);
}

/// Exec form of `leading_value`.
fn leading_bits_of(l: SampleLeading) -> (r: u32)
    ensures
        r == leading_value(l),
{
    match l {
        SampleLeading::UNKNOWN => 0,
        SampleLeading::LEADINGDEP => 1,
        SampleLeading::NOTLEADING => 2,
        SampleLeading::LEADINGNODEP => 3,
    }
}

/// Exec form of `depends_value`.
fn depends_bits_of(d: SampleDepends) -> (r: u32)
    ensures
        r == depends_value(d),
{
    match d {
        SampleDepends::UNKNOWN => 0,
        SampleDepends::DEPENDS => 1,
        SampleDepends::NOTDEPENDS => 2,
        SampleDepends::RESERVED => 3,
    }
}

/// Exec form of `depended_value`.
fn depended_bits_of(d: SampleDepended) -> (r: u32)
    ensures
        r == depended_value(d),
{
    match d {
        SampleDepended::UNKNOWN => 0,
        SampleDepended::NOTDISPOSABLE => 1,
        SampleDepended::DISPOSABLE => 2,
        SampleDepended::RESERVED => 3,
    }
}

/// Exec form of `redundancy_value`.
fn redundancy_bits_of(r: SampleRedundancy) -> (v: u32)
    ensures
        v == redundancy_value(r),
{
    match r {
        SampleRedundancy::UNKNOWN => 0,
        SampleRedundancy::REDUNDANT => 1,
        SampleRedundancy::NOTREDUNDANT => 2,
        SampleRedundancy::RESERVED => 3,
    }
}

} // verus!
