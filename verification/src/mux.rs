//! The fragment muxer: turns each decode fragment into its `moof` + `mdat`
//! box pair, appended to the single growing output buffer after the static
//! header, with every offset computed forward rather than backpatched.
use vstd::prelude::*;

use crate::boxes::{box_bytes, write_atom, TAG_FTYP, TAG_MDAT};
use crate::bytebuf::{
    buf_contents, buf_len, buf_new, buf_put_slice, buf_put_u32, u32_be_bytes,
};
use crate::h264::{idr_view, NalUnitType, IDR};
use crate::moof::{
    moof_bytes, sizes_of, trun_offset_value, write_moof, SampleInfo,
};
use crate::Mp4Error;

verus! {

/// The `ftyp` payload: major brand `isom`, minor version, then the
/// compatible brands `isom`, `iso2`, `avc1`, `iso6`, `mp41`, each a
/// four-character code.
pub open spec fn ftyp_payload() -> Seq<u8> {
    u32_be_bytes(0x69736F6D) + u32_be_bytes(0x00000200) + u32_be_bytes(0x69736F6D) + u32_be_bytes(
        0x69736F32,
    ) + u32_be_bytes(0x61766331) + u32_be_bytes(0x69736F36) + u32_be_bytes(0x6D703431)
}

/// Writes the `ftyp` box that opens every produced file.
pub fn write_ftyp(parent: &mut bytes::BytesMut)
    requires
        buf_contents(*old(parent)).len() + 36 <= isize::MAX,
    ensures
        buf_contents(*final(parent)) == buf_contents(*old(parent)) + box_bytes(
            TAG_FTYP,
            ftyp_payload(),
        ),
{
    let mut buf = buf_new();
    buf_put_u32(&mut buf, 0x69736F6D);
    buf_put_u32(&mut buf, 0x00000200);
    buf_put_u32(&mut buf, 0x69736F6D);
    buf_put_u32(&mut buf, 0x69736F32);
    buf_put_u32(&mut buf, 0x61766331);
    buf_put_u32(&mut buf, 0x69736F36);
    buf_put_u32(&mut buf, 0x6D703431);
    proof {
        assert(buf_contents(buf) =~= ftyp_payload());
    }
    write_atom(parent, TAG_FTYP, &buf);
}

/// Writes the `mdat` box around already-framed sample data.
pub fn write_mdat(parent: &mut bytes::BytesMut, data: &bytes::BytesMut)
    requires
        buf_contents(*data).len() + 8 <= u32::MAX,
        buf_contents(*old(parent)).len() + 8 + buf_contents(*data).len() <= isize::MAX,
    ensures
        buf_contents(*final(parent)) == buf_contents(*old(parent)) + box_bytes(
            TAG_MDAT,
            buf_contents(*data),
        ),
{
    write_atom(parent, TAG_MDAT, data);
}

/// The on-disk footprint of a fragment's samples: each sample costs its
/// length plus its four-byte length prefix.
pub open spec fn total_size(us: Seq<(NalUnitType, Seq<u8>)>) -> int
    decreases us.len(),
{
    if us.len() == 0 {
        0
    } else {
        total_size(us.drop_last()) + us.last().1.len() + 4
    }
}

/// The coalesced leading size entry: every NAL that is not a non-IDR coded
/// slice contributes its on-disk size to the fragment's first size slot.
pub open spec fn lead_size(us: Seq<(NalUnitType, Seq<u8>)>) -> int
    decreases us.len(),
{
    if us.len() == 0 {
        0
    } else {
        lead_size(us.drop_last()) + (if us.last().0 != NalUnitType::CodedSliceNonIdr {
            us.last().1.len() + 4
        } else {
            0
        })
    }
}

/// One size entry per non-IDR coded slice, in stream order.
pub open spec fn slice_sizes(us: Seq<(NalUnitType, Seq<u8>)>) -> Seq<u32>
    decreases us.len(),
{
    if us.len() == 0 {
        Seq::empty()
    } else {
        slice_sizes(us.drop_last()) + (if us.last().0 == NalUnitType::CodedSliceNonIdr {
            seq![(us.last().1.len() + 4) as u32]
        } else {
            Seq::empty()
        })
    }
}

/// The fragment's sample-size table: the coalesced leading entry, then one
/// entry per non-IDR coded slice.
pub open spec fn size_list(us: Seq<(NalUnitType, Seq<u8>)>) -> Seq<u32> {
    seq![(lead_size(us) as u32)] + slice_sizes(us)
}

/// The `mdat` payload: each sample's four-byte big-endian length prefix
/// followed by its bytes, in stream order.
pub open spec fn mdat_payload(us: Seq<(NalUnitType, Seq<u8>)>) -> Seq<u8>
    decreases us.len(),
{
    if us.len() == 0 {
        Seq::empty()
    } else {
        mdat_payload(us.drop_last()) + u32_be_bytes(us.last().1.len() as u32) + us.last().1
    }
}

/// The bounds under which a fragment's sample table can be emitted: every
/// size entry and the coalesced leading entry fit their 32-bit fields, and
/// the framed data fits the address space.
pub open spec fn samples_fit(us: Seq<(NalUnitType, Seq<u8>)>) -> bool {
    &&& forall|i: int| 0 <= i < us.len() ==> (#[trigger] us[i].1.len()) + 4 <= u32::MAX
    &&& lead_size(us) <= u32::MAX
    &&& total_size(us) <= isize::MAX
}

pub proof fn lemma_sizes_nonneg(us: Seq<(NalUnitType, Seq<u8>)>)
    ensures
        total_size(us) >= 0,
        lead_size(us) >= 0,
        lead_size(us) <= total_size(us),
        slice_sizes(us).len() <= us.len(),
        mdat_payload(us).len() == total_size(us),
    decreases us.len(),
{
    if us.len() > 0 {
        lemma_sizes_nonneg(us.drop_last());
    }
}

pub proof fn lemma_sizes_take(us: Seq<(NalUnitType, Seq<u8>)>, k: int)
    requires
        0 <= k <= us.len(),
    ensures
        total_size(us.take(k)) <= total_size(us),
        lead_size(us.take(k)) <= lead_size(us),
    decreases us.len() - k,
{
    if k == us.len() {
        assert(us.take(k) =~= us);
    } else {
        lemma_sizes_take(us, k + 1);
        assert(us.take(k + 1).drop_last() =~= us.take(k));
        assert(us.take(k + 1).last() == us[k]);
        lemma_sizes_nonneg(us.take(k));
    }
}

/// Frames a fragment's samples: computes the coalesced sample-size table
/// and the `mdat` payload buffer. The fragment must hold at least four
/// samples, and each record must fit its length fields.
pub fn write_samples(samples: &Vec<(NalUnitType, Vec<u8>)>) -> (r: Result<
    (Vec<u32>, bytes::BytesMut),
    Mp4Error,
>)
    ensures
        ({
            let us = crate::h264::pair_views(samples@);
            &&& (r == Err::<(Vec<u32>, bytes::BytesMut), Mp4Error>(Mp4Error::FragmentTooSmall)
                <==> us.len() < 4)
            &&& (r == Err::<(Vec<u32>, bytes::BytesMut), Mp4Error>(Mp4Error::TruncatedRecord)
                <==> us.len() >= 4 && !samples_fit(us))
            &&& (r matches Ok(p) ==> us.len() >= 4 && samples_fit(us) && p.0@ == size_list(us)
                && buf_contents(p.1) == mdat_payload(us))
        }),
{
    let ghost us = crate::h264::pair_views(samples@);
    if samples.len() < 4 {
        return Err(Mp4Error::FragmentTooSmall);
    }

    // Validate the bounds, then build the size table and the framed data.
    let mut lead: u64 = 0;
    let mut total: u64 = 0;
    let mut i: usize = 0;
    while i < samples.len()
        invariant
            i <= us.len(),
            us == crate::h264::pair_views(samples@),
            us.len() == samples@.len(),
            us.len() >= 4,
            forall|j: int| 0 <= j < i ==> (#[trigger] us[j].1.len()) + 4 <= u32::MAX,
            lead == lead_size(us.take(i as int)),
            total == total_size(us.take(i as int)),
            lead <= u32::MAX,
            total <= isize::MAX,
        decreases us.len() - i,
    {
        proof {
            assert(us.take(i as int + 1).drop_last() =~= us.take(i as int));
            assert(us.take(i as int + 1).last() == us[i as int]);
        }
        proof {
            assert(us[i as int] == (samples@[i as int].0, samples@[i as int].1@));
        }
        let n = samples[i].1.len();
        if n > (u32::MAX - 4) as usize {
            proof {
                assert(us[i as int].1.len() + 4 > u32::MAX);
                assert(!samples_fit(us));
            }
            return Err(Mp4Error::TruncatedRecord);
        }
        let sz = (n + 4) as u64;
        if samples[i].0 != NalUnitType::CodedSliceNonIdr {
            if lead + sz > u32::MAX as u64 {
                proof {
                    assert(lead_size(us.take(i as int + 1)) > u32::MAX);
                    lemma_sizes_take(us, i as int + 1);
                    assert(!samples_fit(us));
                }
                return Err(Mp4Error::TruncatedRecord);
            }
            lead = lead + sz;
        }
        if total + sz > isize::MAX as u64 {
            proof {
                lemma_sizes_nonneg(us.take(i as int));
                assert(total_size(us.take(i as int + 1)) > isize::MAX);
                lemma_sizes_take(us, i as int + 1);
                assert(!samples_fit(us));
            }
            return Err(Mp4Error::TruncatedRecord);
        }
        total = total + sz;
        i = i + 1;
    }
    proof {
        assert(us.take(i as int) =~= us);
    }

    // The size table: the coalesced leading entry, then the slice entries.
    let mut sizes: Vec<u32> = Vec::new();
    sizes.push(0);
    let mut lead32: u32 = 0;
    let mut i: usize = 0;
    while i < samples.len()
        invariant
            i <= us.len(),
            us == crate::h264::pair_views(samples@),
            us.len() == samples@.len(),
            us.len() >= 4,
            samples_fit(us),
            lead32 == lead_size(us.take(i as int)),
            sizes@ == seq![lead32] + slice_sizes(us.take(i as int)),
        decreases us.len() - i,
    {
        proof {
            assert(us.take(i as int + 1).drop_last() =~= us.take(i as int));
            assert(us.take(i as int + 1).last() == us[i as int]);
            lemma_sizes_take(us, i as int + 1);
            lemma_sizes_nonneg(us.take(i as int + 1));
            lemma_sizes_nonneg(us.take(i as int));
        }
        let n = samples[i].1.len();
        let sz = (n + 4) as u32;
        if samples[i].0 != NalUnitType::CodedSliceNonIdr {
            lead32 = lead32 + sz;
            let ghost old_sizes = sizes@;
            let first = sizes[0];
            sizes.remove(0);
            sizes.insert(0, first + sz);
            proof {
                assert(sizes@ =~= seq![lead32] + slice_sizes(us.take(i as int + 1)));
            }
        } else {
            sizes.push(sz);
            proof {
                assert(sizes@ =~= seq![lead32] + slice_sizes(us.take(i as int + 1)));
            }
        }
        i = i + 1;
    }
    proof {
        assert(us.take(i as int) =~= us);
        assert(sizes@ =~= size_list(us));
    }

    // The framed sample data.
    let mut mdat_buf = buf_new();
    let mut i: usize = 0;
    while i < samples.len()
        invariant
            i <= us.len(),
            us == crate::h264::pair_views(samples@),
            us.len() == samples@.len(),
            us.len() >= 4,
            samples_fit(us),
            buf_contents(mdat_buf) == mdat_payload(us.take(i as int)),
        decreases us.len() - i,
    {
        proof {
            assert(us.take(i as int + 1).drop_last() =~= us.take(i as int));
            assert(us.take(i as int + 1).last() == us[i as int]);
            lemma_sizes_take(us, i as int + 1);
            lemma_sizes_nonneg(us.take(i as int + 1));
            lemma_sizes_nonneg(us.take(i as int));
            lemma_sizes_nonneg(us);
        }
        let n = samples[i].1.len();
        buf_put_u32(&mut mdat_buf, n as u32);
        buf_put_slice(&mut mdat_buf, samples[i].1.as_slice());
        proof {
            assert(buf_contents(mdat_buf) =~= mdat_payload(us.take(i as int + 1)));
        }
        i = i + 1;
    }
    proof {
        assert(us.take(i as int) =~= us);
    }
    Ok((sizes, mdat_buf))
}

/// Where one sample's payload stands inside the `mdat` payload: after the
/// records of the samples before it and its own four-byte length prefix.
pub proof fn lemma_mdat_record(us: Seq<(NalUnitType, Seq<u8>)>, k: int)
    requires
        0 <= k < us.len(),
    ensures
        total_size(us.take(k)) + 4 + us[k].1.len() <= mdat_payload(us).len(),
        mdat_payload(us).subrange(
            total_size(us.take(k)) + 4,
            total_size(us.take(k)) + 4 + us[k].1.len(),
        ) == us[k].1,
    decreases us.len(),
{
    lemma_sizes_nonneg(us);
    lemma_sizes_nonneg(us.take(k));
    lemma_sizes_nonneg(us.drop_last());
    let p = total_size(us.take(k)) + 4;
    let q = total_size(us.take(k)) + 4 + us[k].1.len();
    if k == us.len() - 1 {
        assert(us.take(k) =~= us.drop_last());
        assert(mdat_payload(us).subrange(p, q) =~= us[k].1);
    } else {
        assert(us.drop_last().take(k) =~= us.take(k));
        lemma_mdat_record(us.drop_last(), k);
        assert(mdat_payload(us).subrange(p, q) =~= mdat_payload(us.drop_last()).subrange(p, q));
    }
}

/// Offset correctness inside one fragment: the `trun` data offset, plus
/// the on-disk sizes of the samples before sample `k`, plus the four-byte
/// length prefix, is exactly where sample `k`'s payload bytes stand,
/// counted from the start of the `moof` box.
pub proof fn lemma_offset_round_trip(
    sequence_number: u32,
    base_data_offset: u64,
    base_media_decode_time: u64,
    default_sample_duration: u32,
    us: Seq<(NalUnitType, Seq<u8>)>,
    k: int,
)
    requires
        0 <= k < us.len(),
    ensures
        ({
            let frag = fragment_bytes(
                sequence_number,
                base_data_offset,
                base_media_decode_time,
                default_sample_duration,
                us,
            );
            let pos = trun_offset_value(size_list(us).len() as int) + total_size(us.take(k)) + 4;
            &&& pos + us[k].1.len() <= frag.len()
            &&& frag.subrange(pos, pos + us[k].1.len()) == us[k].1
        }),
{
    let frag = fragment_bytes(
        sequence_number,
        base_data_offset,
        base_media_decode_time,
        default_sample_duration,
        us,
    );
    let pos = trun_offset_value(size_list(us).len() as int) + total_size(us.take(k)) + 4;
    crate::moof::lemma_moof_len(
        sequence_number,
        base_data_offset,
        base_media_decode_time,
        default_sample_duration,
        size_list(us),
    );
    lemma_mdat_record(us, k);
    lemma_sizes_nonneg(us);
    lemma_sizes_nonneg(us.take(k));
    lemma_sizes_take(us, k);
    assert(frag.subrange(pos, pos + us[k].1.len()) =~= mdat_payload(us).subrange(
        total_size(us.take(k)) + 4,
        total_size(us.take(k)) + 4 + us[k].1.len(),
    ));
}

/// The absolute form of offset correctness: in an output that carries this
/// fragment right after a prefix whose length the fragment's
/// `base_data_offset` records, `base_data_offset` plus the `trun` data
/// offset plus the preceding samples' disk sizes plus four is the exact
/// file offset of the sample's payload bytes.
pub proof fn lemma_absolute_offset(
    out: Seq<u8>,
    pre: Seq<u8>,
    sequence_number: u32,
    base_media_decode_time: u64,
    default_sample_duration: u32,
    us: Seq<(NalUnitType, Seq<u8>)>,
    k: int,
)
    requires
        0 <= k < us.len(),
        out == pre + fragment_bytes(
            sequence_number,
            pre.len() as u64,
            base_media_decode_time,
            default_sample_duration,
            us,
        ),
        pre.len() <= u64::MAX,
    ensures
        ({
            let pos = pre.len() + trun_offset_value(size_list(us).len() as int) + total_size(
                us.take(k),
            ) + 4;
            &&& pos + us[k].1.len() <= out.len()
            &&& out.subrange(pos, pos + us[k].1.len()) == us[k].1
        }),
{
    let frag = fragment_bytes(
        sequence_number,
        pre.len() as u64,
        base_media_decode_time,
        default_sample_duration,
        us,
    );
    let inner = trun_offset_value(size_list(us).len() as int) + total_size(us.take(k)) + 4;
    lemma_offset_round_trip(
        sequence_number,
        pre.len() as u64,
        base_media_decode_time,
        default_sample_duration,
        us,
        k,
    );
    lemma_sizes_nonneg(us);
    lemma_sizes_nonneg(us.take(k));
    lemma_sizes_take(us, k);
    crate::moof::lemma_moof_len(
        sequence_number,
        pre.len() as u64,
        base_media_decode_time,
        default_sample_duration,
        size_list(us),
    );
    assert(out.subrange(pre.len() + inner, pre.len() + inner + us[k].1.len()) =~= frag.subrange(
        inner,
        inner + us[k].1.len(),
    ));
}

/// The fragment's decode time: a running counter that assumes uniform
/// per-fragment sample counts, in media-timescale ticks.
pub open spec fn bmdt_value(
    us: Seq<(NalUnitType, Seq<u8>)>,
    timescale: u32,
    sequence_number: u32,
) -> int {
    timescale * size_list(us).len() * (sequence_number - 1)
}

/// The bounds under which a whole fragment can be emitted: its sample
/// table fits, the `trun` offset fits its signed 32-bit field, the decode
/// time fits 64 bits, the `mdat` length fits its field, and the output
/// buffer stays addressable.
pub open spec fn fragment_fits(
    us: Seq<(NalUnitType, Seq<u8>)>,
    out_len: int,
    timescale: u32,
    sequence_number: u32,
) -> bool {
    &&& samples_fit(us)
    &&& trun_offset_value(size_list(us).len() as int) <= i32::MAX
    &&& bmdt_value(us, timescale, sequence_number) <= u64::MAX
    &&& total_size(us) + 8 <= u32::MAX
    &&& out_len + 112 + 4 * size_list(us).len() + 16 + total_size(us) <= isize::MAX
}

/// One fragment's bytes: its `moof` box followed by its `mdat` box.
pub open spec fn fragment_bytes(
    sequence_number: u32,
    base_data_offset: u64,
    base_media_decode_time: u64,
    default_sample_duration: u32,
    us: Seq<(NalUnitType, Seq<u8>)>,
) -> Seq<u8> {
    moof_bytes(
        sequence_number,
        base_data_offset,
        base_media_decode_time,
        default_sample_duration,
        size_list(us),
    ) + box_bytes(TAG_MDAT, mdat_payload(us))
}

/// Appends one fragment to the output: its `moof` box, whose
/// `base_data_offset` is the output length at this moment and whose `trun`
/// data offset is computed forward, then its `mdat` box. A fragment of
/// fewer than four samples is rejected and nothing is emitted for it; a
/// fragment whose records cannot fit their length fields is likewise
/// rejected unwritten.
pub fn write_fragment(
    out: &mut bytes::BytesMut,
    idr: &IDR,
    sequence_number: u32,
    timescale: u32,
    default_sample_duration: u32,
) -> (r: Result<(), Mp4Error>)
    requires
        sequence_number >= 1,
    ensures
        ({
            let us = idr_view(*idr);
            let out0 = buf_contents(*old(out));
            &&& (r == Err::<(), Mp4Error>(Mp4Error::FragmentTooSmall) <==> us.len() < 4)
            &&& (r == Err::<(), Mp4Error>(Mp4Error::TruncatedRecord) <==> us.len() >= 4
                && !fragment_fits(us, out0.len() as int, timescale, sequence_number))
            &&& (r is Err ==> buf_contents(*final(out)) == out0)
            &&& (r is Ok ==> fragment_fits(us, out0.len() as int, timescale, sequence_number)
                && buf_contents(*final(out)) == out0 + fragment_bytes(
                sequence_number,
                out0.len() as u64,
                bmdt_value(us, timescale, sequence_number) as u64,
                default_sample_duration,
                us,
            ))
        }),
{
    let ghost us = idr_view(*idr);
    let ghost out0 = buf_contents(*out);
    let (sizes, mdat_buf) = match write_samples(&idr.samples) {
        Result::Ok(p) => p,
        Result::Err(e) => { return Err(e) },
    };
    proof {
        lemma_sizes_nonneg(us);
    }

    let count = sizes.len();
    let max_entries: usize = ((i32::MAX as usize) - 120) / 4;
    if count > max_entries {
        return Err(Mp4Error::TruncatedRecord);
    }

    proof {
        assert(count as int <= 536870881);
        assert((timescale as int) * (count as int) <= u64::MAX as int) by (nonlinear_arith)
            requires
                timescale as int <= 0xFFFF_FFFF,
                0 <= count as int <= 536870881,
        ;
    }
    let tc = (timescale as u64) * (count as u64);
    let s1 = (sequence_number - 1) as u64;
    proof {
        assert((tc as int) * (s1 as int) <= u128::MAX as int) by (nonlinear_arith)
            requires
                0 <= tc as int <= u64::MAX as int,
                0 <= s1 as int <= 0xFFFF_FFFF,
        ;
    }
    if (tc as u128) * (s1 as u128) > u64::MAX as u128 {
        proof {
            assert((timescale as int) * (count as int) * (s1 as int) == (tc as int) * (s1 as int))
                by (nonlinear_arith)
                requires
                    tc as int == (timescale as int) * (count as int),
            ;
        }
        return Err(Mp4Error::TruncatedRecord);
    }
    proof {
        assert((tc as int) * (s1 as int) == (tc as u128) as int * (s1 as u128) as int);
        assert((timescale as int) * (count as int) * (s1 as int) == (tc as int) * (s1 as int))
            by (nonlinear_arith)
            requires
                tc as int == (timescale as int) * (count as int),
        ;
    }
    let bmdt = tc * s1;

    let mdat_len = buf_len(&mdat_buf);
    if mdat_len > ((u32::MAX - 8) as usize) {
        return Err(Mp4Error::TruncatedRecord);
    }

    let out_len = buf_len(out);
    let need: u128 = (out_len as u128) + 112 + 4 * (count as u128) + 16 + (mdat_len as u128);
    if need > (isize::MAX as u128) {
        return Err(Mp4Error::TruncatedRecord);
    }

    // All bounds hold; emit the pair.
    let mut infos: Vec<SampleInfo> = Vec::new();
    let mut k: usize = 0;
    while k < sizes.len()
        invariant
            k <= sizes@.len(),
            sizes_of(infos@) == sizes@.take(k as int),
            infos@.len() == k,
        decreases sizes@.len() - k,
    {
        infos.push(SampleInfo { duration: default_sample_duration, size: sizes[k], flags: 0 });
        proof {
            assert(sizes_of(infos@) =~= sizes@.take(k as int + 1));
        }
        k = k + 1;
    }
    proof {
        assert(sizes@.take(sizes@.len() as int) =~= sizes@);
    }

    let base_data_offset = out_len as u64;
    proof {
        crate::moof::lemma_moof_len(
            sequence_number,
            base_data_offset,
            bmdt,
            default_sample_duration,
            sizes@,
        );
    }
    write_moof(out, sequence_number, base_data_offset, bmdt, default_sample_duration, &infos);
    write_mdat(out, &mdat_buf);
    proof {
        assert(buf_contents(*out) =~= out0 + fragment_bytes(
            sequence_number,
            out0.len() as u64,
            bmdt_value(us, timescale, sequence_number) as u64,
            default_sample_duration,
            us,
        ));
    }
    Ok(())
}

/// The outcome of appending a run of fragments in order, numbering them
/// from `seq0`: the final output bytes and the error that stopped the run,
/// if one did. A failing fragment stops the run with nothing of it
/// emitted.
pub open spec fn write_frags_spec(
    frs: Seq<Seq<(NalUnitType, Seq<u8>)>>,
    acc: Seq<u8>,
    timescale: u32,
    default_sample_duration: u32,
    seq0: int,
) -> (Seq<u8>, Option<Mp4Error>)
    decreases frs.len(),
{
    if frs.len() == 0 {
        (acc, None)
    } else {
        let us = frs[0];
        if us.len() < 4 {
            (acc, Some(Mp4Error::FragmentTooSmall))
        } else if !fragment_fits(us, acc.len() as int, timescale, seq0 as u32) {
            (acc, Some(Mp4Error::TruncatedRecord))
        } else {
            write_frags_spec(
                frs.skip(1),
                acc + fragment_bytes(
                    seq0 as u32,
                    acc.len() as u64,
                    bmdt_value(us, timescale, seq0 as u32) as u64,
                    default_sample_duration,
                    us,
                ),
                timescale,
                default_sample_duration,
                seq0 + 1,
            )
        }
    }
}

/// Appends every fragment as a `moof` + `mdat` pair, numbering them from
/// one; the first rejected fragment aborts the conversion with everything
/// before it written and nothing of it or its successors.
pub fn write_fragments(
    out: &mut bytes::BytesMut,
    idrs: &Vec<IDR>,
    timescale: u32,
    default_sample_duration: u32,
) -> (r: Result<(), Mp4Error>)
    requires
        idrs@.len() <= u32::MAX,
    ensures
        ({
            let sr = write_frags_spec(
                crate::h264::idr_views(idrs@),
                buf_contents(*old(out)),
                timescale,
                default_sample_duration,
                1,
            );
            &&& buf_contents(*final(out)) == sr.0
            &&& (match r {
                Result::Ok(()) => sr.1 is None,
                Result::Err(e) => sr.1 == Some(e),
            })
        }),
{
    let ghost views = crate::h264::idr_views(idrs@);
    let ghost out0 = buf_contents(*out);
    proof {
        assert(views.skip(0) =~= views);
    }
    let mut k: usize = 0;
    while k < idrs.len()
        invariant
            k <= views.len(),
            views == crate::h264::idr_views(idrs@),
            views.len() == idrs@.len() <= u32::MAX,
            out0 == buf_contents(*old(out)),
            write_frags_spec(views, out0, timescale, default_sample_duration, 1)
                == write_frags_spec(
                views.skip(k as int),
                buf_contents(*out),
                timescale,
                default_sample_duration,
                k + 1,
            ),
        decreases views.len() - k,
    {
        let ghost pre = buf_contents(*out);
        let seq_no = (k + 1) as u32;
        proof {
            assert(views.skip(k as int)[0] == views[k as int]);
            assert(views[k as int] == idr_view(idrs@[k as int]));
        }
        match write_fragment(out, &idrs[k], seq_no, timescale, default_sample_duration) {
            Result::Ok(()) => {},
            Result::Err(e) => {
                proof {
                    assert(write_frags_spec(
                        views.skip(k as int),
                        pre,
                        timescale,
                        default_sample_duration,
                        k + 1,
                    ) == (pre, Some(e)));
                }
                return Err(e);
            },
        }
        proof {
            assert(views.skip(k as int).skip(1) =~= views.skip(k as int + 1));
        }
        k = k + 1;
    }
    proof {
        assert(views.skip(k as int) =~= Seq::<Seq<(NalUnitType, Seq<u8>)>>::empty());
    }
    Ok(())
}

} // verus!
