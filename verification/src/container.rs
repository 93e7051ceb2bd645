//! The JPEG container, as `img_parts` reads and writes it.
//!
//! A container is a list of segments. Of each segment the library looks at
//! three things: the marker byte, the bytes of its content, and the
//! entropy-coded data that follows a start-of-scan. Parsing and rendering are
//! left to `img_parts`; what is taken on trust about them is written on the
//! functions of this file, and nowhere else.

use vstd::prelude::*;

verus! {

/// A segment as the contracts see it: marker, content, entropy-coded data.
pub type Segment = (u8, Seq<u8>, Seq<u8>);

/// Marker of a start-of-scan segment, the one that carries entropy-coded data.
pub const START_OF_SCAN: u8 = 0xDA;

/// Marker that closes a picture. It is never kept as a segment.
pub const END_OF_IMAGE: u8 = 0xD9;

/// The byte that announces a marker.
pub const MARKER_PREFIX: u8 = 0xFF;

/// Longest content of a segment whose length is written in two bytes.
pub const MAX_CONTENT_LEN: usize = 65533;

/// Why a byte string is no JPEG container.
#[derive(Clone, Copy, Debug, PartialEq, Eq, Structural)]
pub enum ContainerError {
    /// The first two bytes are not the start-of-image marker.
    WrongSignature,
    /// A checksum did not match.
    BadChecksum,
    /// The bytes end in the middle of a segment, or before the picture is closed.
    Truncated,
}

#[verifier::external_type_specification]
#[verifier::external_body]
pub struct ExJpeg(img_parts::jpeg::Jpeg);

/// The segments that a `Jpeg` holds, first to last.
pub uninterp spec fn jpeg_segments(jpeg: img_parts::jpeg::Jpeg) -> Seq<(u8, Seq<u8>, Seq<u8>)>;

/// What `Jpeg::from_bytes` makes of a byte string: its segments, or the reason
/// why it has none.
pub uninterp spec fn container_parsing(bytes: Seq<u8>) -> Result<
    Seq<(u8, Seq<u8>, Seq<u8>)>,
    ContainerError,
>;

/// The bytes that the encoder of a `Jpeg` with these segments gives.
pub uninterp spec fn container_rendering(segments: Seq<(u8, Seq<u8>, Seq<u8>)>) -> Seq<u8>;

/// The bytes parse, and these are their segments.
pub open spec fn parses_as(bytes: Seq<u8>, segments: Seq<Segment>) -> bool {
    container_parsing(bytes) == Ok::<Seq<Segment>, ContainerError>(segments)
}

/// Whether a segment with this marker is written with a two-byte length.
pub open spec fn has_length(marker: u8) -> bool {
    ||| 0xC0 <= marker <= 0xCF
    ||| 0xD0 <= marker <= 0xD7
    ||| 0xE0 <= marker <= 0xEF
    ||| marker == 0xDA
    ||| marker == 0xDB
    ||| marker == 0xDD
    ||| marker == 0xFE
}

/// What holds of a segment that came out of parsing. `last` says whether it is
/// the last one of its container.
pub open spec fn segment_shape(segment: Segment, last: bool) -> bool {
    &&& segment.0 != MARKER_PREFIX
    &&& segment.0 != END_OF_IMAGE
    &&& if has_length(segment.0) {
        segment.1.len() <= MAX_CONTENT_LEN
    } else {
        segment.1.len() == 0
    }
    &&& if segment.0 == START_OF_SCAN {
        last && segment.2.len() > 0
    } else {
        segment.2.len() == 0
    }
}

/// What holds of every list of segments that came out of parsing.
pub open spec fn parsed_shape(segments: Seq<Segment>) -> bool {
    forall|i: int|
        0 <= i < segments.len() ==> segment_shape(#[trigger] segments[i], i == segments.len() - 1)
}

/// The encoder can write these segments: each length fits in two bytes.
pub open spec fn renderable(segments: Seq<Segment>) -> bool {
    forall|i: int|
        0 <= i < segments.len() ==> (#[trigger] segments[i]).1.len() + (if has_length(
            segments[i].0,
        ) {
            2int
        } else {
            0int
        }) <= 65535
}

/// The container ends in its scan: the last segment is a start-of-scan with
/// content, and entropy-coded data follows it. Every picture that a decoder
/// can show is of this kind.
pub open spec fn ends_in_scan(segments: Seq<Segment>) -> bool {
    &&& segments.len() > 0
    &&& segments.last().0 == START_OF_SCAN
    &&& segments.last().1.len() > 0
    &&& segments.last().2.len() > 0
}

/// Segments that read back as themselves once written.
pub open spec fn reparses(segments: Seq<Segment>) -> bool {
    parsed_shape(segments) && ends_in_scan(segments)
}

/// A segment is the first of its list to carry `marker`.
pub open spec fn is_first_with(segments: Seq<Segment>, marker: u8, i: int) -> bool {
    &&& 0 <= i < segments.len()
    &&& segments[i].0 == marker
    &&& forall|j: int| 0 <= j < i ==> (#[trigger] segments[j]).0 != marker
}

/// Some segment of the list carries `marker`.
pub open spec fn has_marker(segments: Seq<Segment>, marker: u8) -> bool {
    exists|i: int| 0 <= i < segments.len() && (#[trigger] segments[i]).0 == marker
}

/// Trusted: `Jpeg::from_bytes` of `img_parts`, on a copy of `bytes`.
///
/// Claims that the outcome is a function of the bytes alone, and that a list
/// of segments that comes out has the shape that the parser's loop gives it:
/// no marker is `0xFF` or end-of-image; content is at most 65533 bytes where
/// the marker has a length and empty where it has none; only a start-of-scan
/// has entropy-coded data, it has some, and it is the last segment. The
/// parser's three errors are handed on one for one.
#[verifier::external_body]
pub(crate) fn parse_container(bytes: &[u8]) -> (out: Result<img_parts::jpeg::Jpeg, ContainerError>)
    ensures
        match out {
            Ok(jpeg) => parsed_shape(jpeg_segments(jpeg)) && (container_parsing(bytes@) matches Ok(
                segments,
            ) && segments == jpeg_segments(jpeg)),
            Err(e) => container_parsing(bytes@) matches Err(reason) && reason == e,
        },
{
    match img_parts::jpeg::Jpeg::from_bytes(img_parts::Bytes::copy_from_slice(bytes)) {
        Ok(jpeg) => Ok(jpeg),
        Err(img_parts::Error::WrongSignature) => Err(ContainerError::WrongSignature),
        Err(img_parts::Error::BadCRC) => Err(ContainerError::BadChecksum),
        Err(img_parts::Error::Truncated) => Err(ContainerError::Truncated),
    }
}

/// Trusted: `Jpeg::segments` of `img_parts`, and the length of the vector it
/// returns. Claims that this is the number of segments.
#[verifier::external_body]
pub(crate) fn segment_count(jpeg: &img_parts::jpeg::Jpeg) -> (n: usize)
    ensures
        n == jpeg_segments(*jpeg).len(),
{
    jpeg.segments().len()
}

/// Trusted: `JpegSegment::marker` of `img_parts`, on the segment at `i`.
/// Claims that it returns that segment's marker byte.
#[verifier::external_body]
pub(crate) fn segment_marker(jpeg: &img_parts::jpeg::Jpeg, i: usize) -> (marker: u8)
    requires
        i < jpeg_segments(*jpeg).len(),
    ensures
        marker == jpeg_segments(*jpeg)[i as int].0,
{
    jpeg.segments()[i].marker()
}

/// Trusted: `Jpeg::segment_by_marker` of `img_parts`, then
/// `JpegSegment::contents`, copied out. Claims what the documentation says:
/// the content of the first segment with that marker, or nothing if no segment
/// has it.
#[verifier::external_body]
pub(crate) fn contents_by_marker(jpeg: &img_parts::jpeg::Jpeg, marker: u8) -> (out: Option<Vec<u8>>)
    ensures
        match out {
            Some(contents) => exists|i: int|
                is_first_with(jpeg_segments(*jpeg), marker, i) && contents@ == jpeg_segments(
                    *jpeg,
                )[i].1,
            None => !has_marker(jpeg_segments(*jpeg), marker),
        },
{
    match jpeg.segment_by_marker(marker) {
        Some(segment) => Some(segment.contents().to_vec()),
        None => None,
    }
}

/// Trusted: `JpegSegment::new_with_contents` of `img_parts`, assigned over the
/// segment at `i` through `Jpeg::segments_mut`. Claims that the segment at `i`
/// becomes one with this marker, a copy of `contents` and no entropy-coded
/// data, and that the others stay.
#[verifier::external_body]
pub(crate) fn replace_segment(jpeg: &mut img_parts::jpeg::Jpeg, i: usize, marker: u8, contents: &[u8])
    requires
        i < jpeg_segments(*old(jpeg)).len(),
    ensures
        jpeg_segments(*final(jpeg)) == jpeg_segments(*old(jpeg)).update(
            i as int,
            (marker, contents@, Seq::<u8>::empty()),
        ),
{
    jpeg.segments_mut()[i] = img_parts::jpeg::JpegSegment::new_with_contents(
        marker,
        img_parts::Bytes::copy_from_slice(contents),
    );
}

/// Trusted: `JpegSegment::new_with_contents` of `img_parts`, put in at `pos`
/// with `Vec::insert` through `Jpeg::segments_mut`. Claims that a segment with
/// this marker, a copy of `contents` and no entropy-coded data stands at `pos`
/// afterwards, with the segments from `pos` on moved one place up.
#[verifier::external_body]
pub(crate) fn insert_segment(jpeg: &mut img_parts::jpeg::Jpeg, pos: usize, marker: u8, contents: &[u8])
    requires
        pos <= jpeg_segments(*old(jpeg)).len(),
    ensures
        jpeg_segments(*final(jpeg)) == jpeg_segments(*old(jpeg)).insert(
            pos as int,
            (marker, contents@, Seq::<u8>::empty()),
        ),
{
    jpeg.segments_mut().insert(
        pos,
        img_parts::jpeg::JpegSegment::new_with_contents(
            marker,
            img_parts::Bytes::copy_from_slice(contents),
        ),
    );
}

/// Trusted: `Jpeg::remove_segments_by_marker` of `img_parts`. Claims what the
/// documentation says: every segment with that marker goes, the others stay in
/// their order.
#[verifier::external_body]
pub(crate) fn remove_segments_by_marker(jpeg: &mut img_parts::jpeg::Jpeg, marker: u8)
    ensures
        jpeg_segments(*final(jpeg)) == jpeg_segments(*old(jpeg)).filter(
            |segment: Segment| segment.0 != marker,
        ),
{
    jpeg.remove_segments_by_marker(marker);
}

/// Trusted: `Jpeg::encoder` of `img_parts` and `ImageEncoder::bytes`, copied
/// into a vector.
///
/// The encoder stops the program on a segment whose length does not fit in two
/// bytes, so such segments are kept out. Claims that the bytes are a function
/// of the segments alone, and that segments of the shape that parsing gives,
/// ending in a scan, are what parsing finds in those bytes again: each
/// segment is written as `0xFF`, its marker, a two-byte length and its
/// content, the scan's data comes last, and the parser reads exactly that.
#[verifier::external_body]
pub(crate) fn render_container(jpeg: img_parts::jpeg::Jpeg) -> (out: Vec<u8>)
    requires
        renderable(jpeg_segments(jpeg)),
    ensures
        out@ == container_rendering(jpeg_segments(jpeg)),
        reparses(jpeg_segments(jpeg)) ==> parses_as(out@, jpeg_segments(jpeg)),
{
    jpeg.encoder().bytes().to_vec()
}

} // verus!
