//! Keeping a crop record inside the photograph's own file.
//!
//! The record travels as the content of one application segment with a
//! reserved marker. Reading looks for the first segment with that marker.
//! Writing replaces that segment where it stands, or, where there is none,
//! puts a new one in just before the container's last segment. No other
//! segment is touched.

use crate::container::{
    container_parsing, container_rendering, contents_by_marker, ends_in_scan, has_length,
    has_marker, insert_segment, is_first_with, jpeg_segments, parse_container, parsed_shape,
    parses_as, remove_segments_by_marker, render_container, renderable, reparses,
    replace_segment, segment_count, segment_marker, segment_shape, ContainerError, Segment,
    MAX_CONTENT_LEN,
};
use crate::record::{decode_fields, decoded, encode_fields, encoded, CropRecord, RecordView};
use img_parts::jpeg::Jpeg;
use vstd::prelude::*;

verus! {

/// The marker of the segment that holds the record: application segment 14.
pub const RESERVED_MARKER: u8 = 0xEE;

/// Why a record could not be read or written.
#[derive(Clone, Copy, Debug, PartialEq, Eq, Structural)]
pub enum CodecError {
    /// The bytes are no JPEG container.
    Container(ContainerError),
    /// The reserved segment is there, but its content is no record.
    Decode,
    /// The container has no segment at all, so there is no place for the record.
    EmptyContainer,
    /// The record's payload does not fit in one segment.
    RecordTooLarge,
}

/// The segment that carries a payload.
pub open spec fn record_segment(payload: Seq<u8>) -> Segment {
    (RESERVED_MARKER, payload, Seq::<u8>::empty())
}

/// Position of the first segment with `marker`, where there is one.
pub open spec fn first_with(segments: Seq<Segment>, marker: u8) -> int {
    choose|i: int| is_first_with(segments, marker, i)
}

/// Content of the first segment with the reserved marker, if any segment has it.
pub open spec fn stored_payload(segments: Seq<Segment>) -> Option<Seq<u8>> {
    if has_marker(segments, RESERVED_MARKER) {
        Some(segments[first_with(segments, RESERVED_MARKER)].1)
    } else {
        None
    }
}

/// The record that a list of segments holds: none where no segment has the
/// reserved marker, an error where the first such segment is no record.
pub open spec fn stored_record(segments: Seq<Segment>) -> Result<Option<RecordView>, CodecError> {
    match stored_payload(segments) {
        None => Ok(None),
        Some(payload) => match decoded(payload) {
            Some(record) => Ok(Some(record)),
            None => Err(CodecError::Decode),
        },
    }
}

/// The segments with the payload put in: over the first reserved segment, or
/// else just before the last segment.
pub open spec fn with_record(segments: Seq<Segment>, payload: Seq<u8>) -> Seq<Segment> {
    if has_marker(segments, RESERVED_MARKER) {
        segments.update(first_with(segments, RESERVED_MARKER), record_segment(payload))
    } else {
        segments.insert(segments.len() - 1, record_segment(payload))
    }
}

/// Why a payload cannot be put into these segments, if it cannot.
pub open spec fn placement_error(segments: Seq<Segment>, payload: Seq<u8>) -> Option<CodecError> {
    if segments.len() == 0 {
        Some(CodecError::EmptyContainer)
    } else if payload.len() > MAX_CONTENT_LEN {
        Some(CodecError::RecordTooLarge)
    } else {
        None
    }
}

/// The segments that are not the library's own.
pub open spec fn other_segments(segments: Seq<Segment>) -> Seq<Segment> {
    segments.filter(|segment: Segment| segment.0 != RESERVED_MARKER)
}

/// What reading a record from a byte string gives.
pub open spec fn decode_spec(bytes: Seq<u8>) -> Result<Option<RecordView>, CodecError> {
    match container_parsing(bytes) {
        Err(e) => Err(CodecError::Container(e)),
        Ok(segments) => stored_record(segments),
    }
}

/// What writing a record into a byte string gives.
pub open spec fn write_record_spec(bytes: Seq<u8>, record: RecordView) -> Result<Seq<u8>, CodecError> {
    match container_parsing(bytes) {
        Err(e) => Err(CodecError::Container(e)),
        Ok(segments) => match placement_error(segments, encoded(record)) {
            Some(e) => Err(e),
            None => Ok(container_rendering(with_record(segments, encoded(record)))),
        },
    }
}

/// An outcome of reading, with the record by its view.
pub open spec fn read_view(out: Result<Option<CropRecord>, CodecError>) -> Result<
    Option<RecordView>,
    CodecError,
> {
    match out {
        Ok(Some(record)) => Ok(Some(record@)),
        Ok(None) => Ok(None),
        Err(e) => Err(e),
    }
}

/// An outcome of writing, with the bytes by their view.
pub open spec fn written_view(out: Result<Vec<u8>, CodecError>) -> Result<Seq<u8>, CodecError> {
    match out {
        Ok(bytes) => Ok(bytes@),
        Err(e) => Err(e),
    }
}

/// Among the segments up to `k` that carry `marker` one is the first.
proof fn lemma_least_with(segments: Seq<Segment>, marker: u8, k: int)
    requires
        0 <= k < segments.len(),
        segments[k].0 == marker,
    ensures
        exists|i: int| is_first_with(segments, marker, i),
    decreases k,
{
    if exists|j: int| 0 <= j < k && (#[trigger] segments[j]).0 == marker {
        let j = choose|j: int| 0 <= j < k && (#[trigger] segments[j]).0 == marker;
        lemma_least_with(segments, marker, j);
    } else {
        assert(is_first_with(segments, marker, k));
    }
}

/// Where some segment carries the marker, `first_with` is the place of the
/// first that does, and no other place is.
pub proof fn lemma_first_with(segments: Seq<Segment>, marker: u8)
    requires
        has_marker(segments, marker),
    ensures
        is_first_with(segments, marker, first_with(segments, marker)),
        forall|i: int| is_first_with(segments, marker, i) ==> i == first_with(segments, marker),
{
    let k = choose|k: int| 0 <= k < segments.len() && (#[trigger] segments[k]).0 == marker;
    lemma_least_with(segments, marker, k);
    let f = first_with(segments, marker);
    assert forall|i: int| is_first_with(segments, marker, i) implies i == f by {
        if i < f {
            assert(segments[i].0 != marker);
        } else if f < i {
            assert(segments[f].0 != marker);
        }
    }
}

/// A payload that was put in is the payload that is found: the reserved
/// segment of `with_record` holds it.
pub proof fn lemma_with_record_stores(segments: Seq<Segment>, payload: Seq<u8>)
    requires
        segments.len() > 0,
    ensures
        has_marker(with_record(segments, payload), RESERVED_MARKER),
        stored_payload(with_record(segments, payload)) == Some(payload),
{
    let after = with_record(segments, payload);
    if has_marker(segments, RESERVED_MARKER) {
        lemma_first_with(segments, RESERVED_MARKER);
        let f = first_with(segments, RESERVED_MARKER);
        assert(after[f] == record_segment(payload));
        assert(is_first_with(after, RESERVED_MARKER, f)) by {
            assert forall|j: int| 0 <= j < f implies (#[trigger] after[j]).0 != RESERVED_MARKER by {
                assert(segments[j].0 != RESERVED_MARKER);
            }
        }
        lemma_first_with(after, RESERVED_MARKER);
    } else {
        let p = segments.len() - 1;
        assert(after[p] == record_segment(payload));
        assert(is_first_with(after, RESERVED_MARKER, p)) by {
            assert forall|j: int| 0 <= j < p implies (#[trigger] after[j]).0 != RESERVED_MARKER by {
                assert(after[j] == segments[j]);
            }
        }
        lemma_first_with(after, RESERVED_MARKER);
    }
}

/// Putting the same payload in twice gives what putting it in once gives.
pub proof fn lemma_with_record_idempotent(segments: Seq<Segment>, payload: Seq<u8>)
    requires
        segments.len() > 0,
    ensures
        with_record(with_record(segments, payload), payload) == with_record(segments, payload),
{
    let after = with_record(segments, payload);
    lemma_with_record_stores(segments, payload);
    lemma_first_with(after, RESERVED_MARKER);
    let f = first_with(after, RESERVED_MARKER);
    if has_marker(segments, RESERVED_MARKER) {
        lemma_first_with(segments, RESERVED_MARKER);
        let g = first_with(segments, RESERVED_MARKER);
        assert(is_first_with(after, RESERVED_MARKER, g)) by {
            assert forall|j: int| 0 <= j < g implies (#[trigger] after[j]).0 != RESERVED_MARKER by {
                assert(segments[j].0 != RESERVED_MARKER);
            }
        }
    } else {
        let p = segments.len() - 1;
        assert(is_first_with(after, RESERVED_MARKER, p)) by {
            assert forall|j: int| 0 <= j < p implies (#[trigger] after[j]).0 != RESERVED_MARKER by {
                assert(after[j] == segments[j]);
            }
        }
    }
    assert(after[f] == record_segment(payload));
    assert(after.update(f, record_segment(payload)) =~= after);
}

/// Putting a payload in leaves every segment that is not the library's own
/// as it was, and in its place among the others.
pub proof fn lemma_with_record_keeps_others(segments: Seq<Segment>, payload: Seq<u8>)
    requires
        segments.len() > 0,
    ensures
        other_segments(with_record(segments, payload)) == other_segments(segments),
{
    broadcast use Seq::filter_distributes_over_add;

    let pred = |segment: Segment| segment.0 != RESERVED_MARKER;
    let after = with_record(segments, payload);
    let one = seq![record_segment(payload)];
    assert(one.filter(pred) =~= Seq::<Segment>::empty()) by {
        reveal_with_fuel(Seq::filter, 2);
        assert(one.drop_last() =~= Seq::<Segment>::empty());
    }
    if has_marker(segments, RESERVED_MARKER) {
        lemma_first_with(segments, RESERVED_MARKER);
        let f = first_with(segments, RESERVED_MARKER);
        let head = segments.subrange(0, f);
        let tail = segments.subrange(f + 1, segments.len() as int);
        let old_one = seq![segments[f]];
        assert(old_one.filter(pred) =~= Seq::<Segment>::empty()) by {
            reveal_with_fuel(Seq::filter, 2);
            assert(old_one.drop_last() =~= Seq::<Segment>::empty());
        }
        assert(segments =~= (head + old_one) + tail);
        assert(after =~= (head + one) + tail);
        assert((head + old_one).filter(pred) == head.filter(pred) + old_one.filter(pred));
        assert((head + one).filter(pred) == head.filter(pred) + one.filter(pred));
        assert(((head + old_one) + tail).filter(pred) == (head + old_one).filter(pred) + tail.filter(
            pred,
        ));
        assert(((head + one) + tail).filter(pred) == (head + one).filter(pred) + tail.filter(pred));
        assert(head.filter(pred) + Seq::<Segment>::empty() =~= head.filter(pred));
    } else {
        let p = segments.len() - 1;
        let head = segments.subrange(0, p);
        let tail = segments.subrange(p, segments.len() as int);
        assert(segments =~= head + tail);
        assert(after =~= (head + one) + tail);
        assert((head + tail).filter(pred) == head.filter(pred) + tail.filter(pred));
        assert((head + one).filter(pred) == head.filter(pred) + one.filter(pred));
        assert(((head + one) + tail).filter(pred) == (head + one).filter(pred) + tail.filter(pred));
        assert(head.filter(pred) + Seq::<Segment>::empty() =~= head.filter(pred));
    }
}

/// Segments that came out of parsing can be written again.
pub proof fn lemma_parsed_is_renderable(segments: Seq<Segment>)
    requires
        parsed_shape(segments),
    ensures
        renderable(segments),
{
    assert forall|i: int| 0 <= i < segments.len() implies (#[trigger] segments[i]).1.len() + (
    if has_length(segments[i].0) {
        2int
    } else {
        0int
    }) <= 65535 by {
        assert(segment_shape(segments[i], i == segments.len() - 1));
    }
}

/// Putting in a payload that fits one segment keeps the segments writable.
pub proof fn lemma_with_record_renderable(segments: Seq<Segment>, payload: Seq<u8>)
    requires
        renderable(segments),
        segments.len() > 0,
        payload.len() <= MAX_CONTENT_LEN,
    ensures
        renderable(with_record(segments, payload)),
{
    let after = with_record(segments, payload);
    if has_marker(segments, RESERVED_MARKER) {
        lemma_first_with(segments, RESERVED_MARKER);
        let f = first_with(segments, RESERVED_MARKER);
        assert forall|i: int| 0 <= i < after.len() implies (#[trigger] after[i]).1.len() + (
        if has_length(after[i].0) {
            2int
        } else {
            0int
        }) <= 65535 by {
            if i != f {
                assert(after[i] == segments[i]);
            }
        }
    } else {
        let p = segments.len() - 1;
        assert forall|i: int| 0 <= i < after.len() implies (#[trigger] after[i]).1.len() + (
        if has_length(after[i].0) {
            2int
        } else {
            0int
        }) <= 65535 by {
            if i < p {
                assert(after[i] == segments[i]);
            } else if i > p {
                assert(after[i] == segments[i - 1]);
            }
        }
    }
}

/// Putting a payload that fits one segment into a container that ends in its
/// scan gives segments that read back as themselves once written.
pub proof fn lemma_with_record_reparses(segments: Seq<Segment>, payload: Seq<u8>)
    requires
        reparses(segments),
        payload.len() <= MAX_CONTENT_LEN,
    ensures
        reparses(with_record(segments, payload)),
{
    let after = with_record(segments, payload);
    let n = segments.len() as int;
    assert(segment_shape(segments[n - 1], true));
    if has_marker(segments, RESERVED_MARKER) {
        lemma_first_with(segments, RESERVED_MARKER);
        let f = first_with(segments, RESERVED_MARKER);
        assert(f != n - 1);
        assert forall|i: int| 0 <= i < after.len() implies segment_shape(
            #[trigger] after[i],
            i == after.len() - 1,
        ) by {
            if i != f {
                assert(after[i] == segments[i]);
                assert(segment_shape(segments[i], i == n - 1));
            }
        }
        assert(after.last() == segments.last());
    } else {
        let p = n - 1;
        assert forall|i: int| 0 <= i < after.len() implies segment_shape(
            #[trigger] after[i],
            i == after.len() - 1,
        ) by {
            if i < p {
                assert(after[i] == segments[i]);
                assert(segment_shape(segments[i], i == n - 1));
            } else if i > p {
                assert(after[i] == segments[i - 1]);
            }
        }
        assert(after.last() == segments.last());
    }
}

/// The payload of a record: the bytes that go into the reserved segment.
pub fn encode(record: &CropRecord) -> (out: Vec<u8>)
    ensures
        out@ == encoded(record@),
        decoded(out@) == Some(record@),
{
    encode_fields(record)
}

/// The record that a payload holds, if it holds one.
pub fn decode_payload(payload: &[u8]) -> (out: Result<CropRecord, CodecError>)
    ensures
        match decoded(payload@) {
            Some(record) => out matches Ok(r) && r@ == record,
            None => out == Err::<CropRecord, CodecError>(CodecError::Decode),
        },
{
    match decode_fields(payload) {
        Ok(record) => Ok(record),
        Err(_) => Err(CodecError::Decode),
    }
}

/// Position of the first segment with the reserved marker.
pub fn find_record_segment(jpeg: &Jpeg) -> (out: Option<usize>)
    ensures
        match out {
            Some(i) => has_marker(jpeg_segments(*jpeg), RESERVED_MARKER) && i == first_with(
                jpeg_segments(*jpeg),
                RESERVED_MARKER,
            ),
            None => !has_marker(jpeg_segments(*jpeg), RESERVED_MARKER),
        },
{
    let n = segment_count(jpeg);
    let mut i: usize = 0;
    while i < n
        invariant
            i <= n,
            n == jpeg_segments(*jpeg).len(),
            forall|j: int| 0 <= j < i ==> (#[trigger] jpeg_segments(*jpeg)[j]).0 != RESERVED_MARKER,
        decreases n - i,
    {
        if segment_marker(jpeg, i) == RESERVED_MARKER {
            proof {
                assert(is_first_with(jpeg_segments(*jpeg), RESERVED_MARKER, i as int));
                lemma_first_with(jpeg_segments(*jpeg), RESERVED_MARKER);
            }
            return Some(i);
        }
        i += 1;
    }
    None
}

/// Reads the record that a parsed container holds.
pub fn read_record(jpeg: &Jpeg) -> (out: Result<Option<CropRecord>, CodecError>)
    ensures
        read_view(out) == stored_record(jpeg_segments(*jpeg)),
{
    match contents_by_marker(jpeg, RESERVED_MARKER) {
        None => Ok(None),
        Some(payload) => {
            proof {
                lemma_first_with(jpeg_segments(*jpeg), RESERVED_MARKER);
            }
            match decode_payload(payload.as_slice()) {
                Ok(record) => Ok(Some(record)),
                Err(e) => Err(e),
            }
        },
    }
}

/// Takes every segment with the reserved marker out of a parsed container.
pub fn strip_records(jpeg: &mut Jpeg)
    ensures
        jpeg_segments(*final(jpeg)) == other_segments(jpeg_segments(*old(jpeg))),
        !has_marker(jpeg_segments(*final(jpeg)), RESERVED_MARKER),
        stored_record(jpeg_segments(*final(jpeg))) == Ok::<Option<RecordView>, CodecError>(None),
{
    remove_segments_by_marker(jpeg, RESERVED_MARKER);
    proof {
        let before = jpeg_segments(*old(jpeg));
        let pred = |segment: Segment| segment.0 != RESERVED_MARKER;
        let after = before.filter(pred);
        assert forall|i: int| 0 <= i < after.len() implies (#[trigger] after[i]).0
            != RESERVED_MARKER by {
            before.lemma_filter_pred(pred, i);
        }
    }
}

/// Puts a payload into a parsed container: over the first segment with the
/// reserved marker, or else just before the last segment.
///
/// An empty container has no place for it, and a payload of more than 65533
/// bytes fits no segment: both are errors, and the container stays as it was.
pub fn place_record(jpeg: &mut Jpeg, payload: &[u8]) -> (out: Result<(), CodecError>)
    ensures
        match placement_error(jpeg_segments(*old(jpeg)), payload@) {
            Some(e) => out == Err::<(), CodecError>(e) && jpeg_segments(*final(jpeg))
                == jpeg_segments(*old(jpeg)),
            None => out is Ok && jpeg_segments(*final(jpeg)) == with_record(
                jpeg_segments(*old(jpeg)),
                payload@,
            ),
        },
{
    let n = segment_count(jpeg);
    if n == 0 {
        return Err(CodecError::EmptyContainer);
    }
    if payload.len() > MAX_CONTENT_LEN {
        return Err(CodecError::RecordTooLarge);
    }
    match find_record_segment(jpeg) {
        Some(i) => {
            proof {
                lemma_first_with(jpeg_segments(*jpeg), RESERVED_MARKER);
            }
            replace_segment(jpeg, i, RESERVED_MARKER, payload);
        },
        None => {
            insert_segment(jpeg, n - 1, RESERVED_MARKER, payload);
        },
    }
    Ok(())
}

/// Reads the record that a photograph's bytes hold.
///
/// Nothing where no segment has the reserved marker; an error where the bytes
/// are no JPEG container, or where the reserved segment is no record.
pub fn decode(jpeg_bytes: &[u8]) -> (out: Result<Option<CropRecord>, CodecError>)
    ensures
        read_view(out) == decode_spec(jpeg_bytes@),
{
    match parse_container(jpeg_bytes) {
        Ok(jpeg) => read_record(&jpeg),
        Err(e) => Err(CodecError::Container(e)),
    }
}

/// Writes a record into a photograph's bytes and returns the new bytes.
///
/// Where the photograph ends in its scan, as every picture that can be shown
/// does, the new bytes hold the record, hold every other segment as before,
/// and writing the same record into them again gives the same bytes.
pub fn write_record(jpeg_bytes: &[u8], record: &CropRecord) -> (out: Result<Vec<u8>, CodecError>)
    ensures
        written_view(out) == write_record_spec(jpeg_bytes@, record@),
        out matches Ok(bytes) ==> (container_parsing(jpeg_bytes@) matches Ok(segments) && (
        ends_in_scan(segments) ==> {
            &&& decode_spec(bytes@) matches Ok(Some(r)) && r == record@
            &&& write_record_spec(bytes@, record@) matches Ok(again) && again == bytes@
            &&& container_parsing(bytes@) matches Ok(after) && other_segments(after)
                == other_segments(segments)
        })),
{
    let mut jpeg = match parse_container(jpeg_bytes) {
        Ok(jpeg) => jpeg,
        Err(e) => {
            return Err(CodecError::Container(e));
        },
    };
    let payload = encode(record);
    let ghost segments = jpeg_segments(jpeg);
    match place_record(&mut jpeg, payload.as_slice()) {
        Ok(()) => {},
        Err(e) => {
            return Err(e);
        },
    }
    proof {
        lemma_parsed_is_renderable(segments);
        lemma_with_record_renderable(segments, payload@);
    }
    let ghost after = jpeg_segments(jpeg);
    let bytes = render_container(jpeg);
    proof {
        if ends_in_scan(segments) {
            lemma_with_record_reparses(segments, payload@);
            assert(parses_as(bytes@, after));
            lemma_with_record_stores(segments, payload@);
            lemma_with_record_idempotent(segments, payload@);
            lemma_with_record_keeps_others(segments, payload@);
        }
    }
    Ok(bytes)
}

} // verus!
