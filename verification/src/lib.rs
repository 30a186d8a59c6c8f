//! Conversion of a raw H.264 Annex-B elementary stream into a fragmented
//! ISO base media (MP4) container.
//!
//! The pipeline is: input bytes -> NAL scanner -> segmenter (one fragment per
//! keyframe boundary) -> fragment muxer, which serialises each fragment as a
//! `moof` + `mdat` box pair with forward-computed offsets, appended after a
//! static `ftyp` + `moov` header.
use vstd::prelude::*;

pub mod boxes;
pub mod bytebuf;
pub mod h264;
pub mod moof;
pub mod moov;
pub mod mp4_parser;
pub mod mux;

verus! {

/// The error kinds of the conversion. Every error is fatal to the whole
/// conversion: no partial output is produced.
#[derive(Clone, Copy, Debug, PartialEq, Eq, Structural)]
pub enum Mp4Error {
    /// A segmented fragment holds fewer than four samples.
    FragmentTooSmall,
    /// A length-prefixed record (box or sample) declares more bytes than
    /// remain in the buffer, or an emitted record would not fit its
    /// 32-bit length field.
    TruncatedRecord,
}

} // verus!
