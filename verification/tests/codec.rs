use img_parts::jpeg::Jpeg;
use img_parts::Bytes;
use trombinoscope::codec::{
    decode, decode_payload, encode, find_record_segment, place_record, read_record,
    strip_records, write_record, CodecError, RESERVED_MARKER,
};
use trombinoscope::container::ContainerError;
use trombinoscope::record::CropRecord;

const APP0: [u8; 6] = [0xFF, 0xE0, 0x00, 0x04, 0x4A, 0x46];
const DQT: [u8; 7] = [0xFF, 0xDB, 0x00, 0x05, 0x01, 0x02, 0x03];
const SCAN: [u8; 13] = [
    0xFF, 0xDA, 0x00, 0x04, 0x09, 0x08, 0x11, 0x22, 0xFF, 0x00, 0x33, 0xFF, 0xD9,
];

fn record(given: &str, family: &str, x: i32, y: i32, w: i32, rotation: i8) -> CropRecord {
    CropRecord { given: given.to_string(), family: family.to_string(), x, y, w, rotation }
}

fn alice() -> CropRecord {
    record("Alice", "Dupont", 500, 400, 200, 1)
}

fn reserved_segment(payload: &[u8]) -> Vec<u8> {
    let len = (payload.len() + 2) as u16;
    let mut out = vec![0xFF, RESERVED_MARKER];
    out.extend_from_slice(&len.to_be_bytes());
    out.extend_from_slice(payload);
    out
}

fn container(parts: &[&[u8]]) -> Vec<u8> {
    let mut out = vec![0xFF, 0xD8];
    for part in parts {
        out.extend_from_slice(part);
    }
    out
}

fn picture() -> Vec<u8> {
    container(&[&APP0, &DQT, &SCAN])
}

fn parsed(bytes: &[u8]) -> Jpeg {
    Jpeg::from_bytes(Bytes::copy_from_slice(bytes)).unwrap()
}

fn markers(jpeg: &Jpeg) -> Vec<u8> {
    jpeg.segments().iter().map(|segment| segment.marker()).collect()
}

#[test]
fn the_reserved_marker_is_application_segment_14() {
    assert_eq!(RESERVED_MARKER, 0xEE);
    assert_eq!(RESERVED_MARKER, img_parts::jpeg::markers::APP14);
}

#[test]
fn a_payload_reads_back_as_its_record() {
    let records = [
        alice(),
        record("", "", 0, 0, 0, 0),
        record("", "Dupont", 0, 0, 0, 1),
        record("Zoé", "", 1, 2, 3, 2),
        record("a", "b", -1, -2, -3, 3),
        record("x", "y", i32::MAX, i32::MIN, 7, -1),
        record("x", "y", 7, 8, 9, i8::MAX),
        record("x", "y", 7, 8, 9, i8::MIN),
        record("Séparer prénom du nom par un `@`", "日本語", 10, 20, 30, 0),
    ];
    for r in records {
        let payload = encode(&r);
        assert_eq!(decode_payload(&payload), Ok(r));
    }
}

#[test]
fn the_payload_is_that_of_the_six_fields_in_order() {
    let r = alice();
    let expected = bitcode::encode(&(
        "Alice".to_string(),
        "Dupont".to_string(),
        500i32,
        400i32,
        200i32,
        1i8,
    ));
    assert_eq!(encode(&r), expected);
    assert_ne!(encode(&r), encode(&record("Alice", "Dupont", 500, 400, 200, 2)));
    assert_ne!(encode(&r), encode(&record("Dupont", "Alice", 500, 400, 200, 1)));
    let fields: (String, String, i32, i32, i32, i8) = bitcode::decode(&encode(&r)).unwrap();
    assert_eq!(fields, ("Alice".to_string(), "Dupont".to_string(), 500, 400, 200, 1));
}

#[test]
fn bytes_that_are_no_payload_are_an_error() {
    assert_eq!(decode_payload(&[]), Err(CodecError::Decode));
    let mut payload = encode(&alice());
    payload.push(0);
    assert_eq!(decode_payload(&payload), Err(CodecError::Decode));
    let payload = encode(&alice());
    assert_eq!(decode_payload(&payload[..payload.len() - 1]), Err(CodecError::Decode));
}

#[test]
fn a_picture_without_record_holds_none() {
    assert_eq!(decode(&picture()), Ok(None));
    assert_eq!(decode(&[0xFF, 0xD8, 0xFF, 0xD9]), Ok(None));
}

#[test]
fn bytes_that_are_no_container_are_an_error() {
    assert_eq!(
        decode(b"hello"),
        Err(CodecError::Container(ContainerError::WrongSignature))
    );
    assert_eq!(decode(&[]), Err(CodecError::Container(ContainerError::Truncated)));
    assert_eq!(decode(&[0xFF, 0xD8]), Err(CodecError::Container(ContainerError::Truncated)));
    assert_eq!(
        decode(&container(&[&APP0, &[0xFF, 0xDB, 0x00, 0x09, 0x01]])),
        Err(CodecError::Container(ContainerError::Truncated))
    );
    assert_eq!(
        write_record(b"hello", &alice()),
        Err(CodecError::Container(ContainerError::WrongSignature))
    );
    assert_eq!(
        write_record(&[0xFF, 0xD8, 0xFF], &alice()),
        Err(CodecError::Container(ContainerError::Truncated))
    );
}

#[test]
fn a_reserved_segment_that_is_no_record_is_an_error() {
    let bytes = container(&[&APP0, &reserved_segment(&[]), &SCAN]);
    assert_eq!(decode(&bytes), Err(CodecError::Decode));
    let mut payload = encode(&alice());
    payload.push(7);
    let bytes = container(&[&APP0, &reserved_segment(&payload), &SCAN]);
    assert_eq!(decode(&bytes), Err(CodecError::Decode));
}

#[test]
fn a_new_record_goes_in_before_the_last_segment() {
    let r = alice();
    let written = write_record(&picture(), &r).unwrap();
    let expected = container(&[&APP0, &DQT, &reserved_segment(&encode(&r)), &SCAN]);
    assert_eq!(written, expected);
    assert_eq!(markers(&parsed(&written)), vec![0xE0, 0xDB, 0xEE, 0xDA]);
}

#[test]
fn a_record_that_is_there_is_replaced_where_it_stands() {
    let old = record("Old", "Name", 1, 2, 3, 0);
    let bytes = container(&[&APP0, &reserved_segment(&encode(&old)), &DQT, &SCAN]);
    assert_eq!(decode(&bytes), Ok(Some(old)));
    let r = alice();
    let written = write_record(&bytes, &r).unwrap();
    let expected = container(&[&APP0, &reserved_segment(&encode(&r)), &DQT, &SCAN]);
    assert_eq!(written, expected);
    assert_eq!(decode(&written), Ok(Some(r)));
}

#[test]
fn only_the_first_reserved_segment_is_read_and_replaced() {
    let first = record("First", "One", 1, 1, 1, 1);
    let second = record("Second", "Two", 2, 2, 2, 2);
    let bytes = container(&[
        &reserved_segment(&encode(&first)),
        &APP0,
        &reserved_segment(&encode(&second)),
        &SCAN,
    ]);
    assert_eq!(decode(&bytes), Ok(Some(first)));
    let r = alice();
    let written = write_record(&bytes, &r).unwrap();
    let expected = container(&[
        &reserved_segment(&encode(&r)),
        &APP0,
        &reserved_segment(&encode(&second)),
        &SCAN,
    ]);
    assert_eq!(written, expected);
}

#[test]
fn what_was_written_reads_back() {
    let records = [
        alice(),
        record("", "", 0, 0, 0, 0),
        record("", "", 0, 0, 0, 1),
        record("", "", 0, 0, 0, 2),
        record("", "", 0, 0, 0, 3),
        record("Zoé", "Müller", -5, 70000, 1, 3),
    ];
    for r in records {
        let written = write_record(&picture(), &r).unwrap();
        assert_eq!(decode(&written), Ok(Some(r)));
    }
}

#[test]
fn the_other_segments_stay_as_they_were() {
    let before = parsed(&picture());
    let written = write_record(&picture(), &alice()).unwrap();
    let after = parsed(&written);
    let others: Vec<_> = after
        .segments()
        .iter()
        .filter(|segment| segment.marker() != RESERVED_MARKER)
        .cloned()
        .collect();
    assert_eq!(&others, before.segments());
    let again = write_record(&written, &record("Bob", "Martin", 9, 9, 9, 0)).unwrap();
    let after = parsed(&again);
    let others: Vec<_> = after
        .segments()
        .iter()
        .filter(|segment| segment.marker() != RESERVED_MARKER)
        .cloned()
        .collect();
    assert_eq!(&others, before.segments());
}

#[test]
fn writing_the_same_record_twice_gives_the_same_bytes() {
    let r = alice();
    let once = write_record(&picture(), &r).unwrap();
    let twice = write_record(&once, &r).unwrap();
    assert_eq!(once, twice);
    let thrice = write_record(&twice, &r).unwrap();
    assert_eq!(twice, thrice);
}

#[test]
fn a_later_record_takes_the_place_of_an_earlier_one() {
    let once = write_record(&picture(), &alice()).unwrap();
    let bob = record("Bob", "Martin", 9, 9, 9, 0);
    let twice = write_record(&once, &bob).unwrap();
    assert_eq!(decode(&twice), Ok(Some(bob.clone())));
    assert_eq!(twice, write_record(&picture(), &bob).unwrap());
}

#[test]
fn a_container_without_segments_has_no_place_for_a_record() {
    assert_eq!(
        write_record(&[0xFF, 0xD8, 0xFF, 0xD9], &alice()),
        Err(CodecError::EmptyContainer)
    );
}

#[test]
fn a_record_that_fits_no_segment_is_an_error() {
    let long = "x".repeat(70000);
    let r = record(&long, "y", 1, 2, 3, 0);
    assert!(encode(&r).len() > 65533);
    assert_eq!(write_record(&picture(), &r), Err(CodecError::RecordTooLarge));
    let bytes = container(&[&APP0, &reserved_segment(&encode(&alice())), &SCAN]);
    assert_eq!(write_record(&bytes, &r), Err(CodecError::RecordTooLarge));
    assert_eq!(
        write_record(&[0xFF, 0xD8, 0xFF, 0xD9], &r),
        Err(CodecError::EmptyContainer)
    );
}

#[test]
fn a_payload_of_the_largest_size_still_goes_in() {
    let payload = vec![0x5A; 65533];
    let mut jpeg = parsed(&picture());
    assert_eq!(place_record(&mut jpeg, &payload), Ok(()));
    let bytes = jpeg.encoder().bytes().to_vec();
    let back = parsed(&bytes);
    assert_eq!(markers(&back), vec![0xE0, 0xDB, 0xEE, 0xDA]);
    assert_eq!(back.segments()[2].contents().to_vec(), payload);
    let mut jpeg = parsed(&picture());
    let before = jpeg.clone();
    assert_eq!(place_record(&mut jpeg, &vec![0x5A; 65534]), Err(CodecError::RecordTooLarge));
    assert_eq!(jpeg, before);
}

#[test]
fn a_container_that_does_not_end_in_its_scan_is_written_without_its_end() {
    let bytes = container(&[&APP0, &[0xFF, 0xD9]]);
    assert_eq!(decode(&bytes), Ok(None));
    let written = write_record(&bytes, &alice()).unwrap();
    let expected = container(&[&reserved_segment(&encode(&alice())), &APP0]);
    assert_eq!(written, expected);
    assert_eq!(decode(&written), Err(CodecError::Container(ContainerError::Truncated)));
}

#[test]
fn placing_works_on_the_parsed_container() {
    let mut jpeg = parsed(&picture());
    assert_eq!(find_record_segment(&jpeg), None);
    assert_eq!(read_record(&jpeg), Ok(None));
    assert_eq!(place_record(&mut jpeg, &encode(&alice())), Ok(()));
    assert_eq!(markers(&jpeg), vec![0xE0, 0xDB, 0xEE, 0xDA]);
    assert_eq!(find_record_segment(&jpeg), Some(2));
    assert_eq!(read_record(&jpeg), Ok(Some(alice())));
    let bob = record("Bob", "Martin", 9, 9, 9, 0);
    assert_eq!(place_record(&mut jpeg, &encode(&bob)), Ok(()));
    assert_eq!(markers(&jpeg), vec![0xE0, 0xDB, 0xEE, 0xDA]);
    assert_eq!(read_record(&jpeg), Ok(Some(bob)));
    assert_eq!(jpeg.segments()[0], parsed(&picture()).segments()[0]);
    assert_eq!(jpeg.segments()[3], parsed(&picture()).segments()[2]);
}

#[test]
fn placing_into_a_container_of_one_segment_puts_the_record_first() {
    let mut jpeg = parsed(&container(&[&SCAN]));
    assert_eq!(place_record(&mut jpeg, &[1, 2, 3]), Ok(()));
    assert_eq!(markers(&jpeg), vec![0xEE, 0xDA]);
    assert_eq!(jpeg.segments()[0].contents().to_vec(), vec![1, 2, 3]);
    assert!(!jpeg.segments()[0].has_entropy());
}

#[test]
fn placing_into_an_empty_container_is_an_error() {
    let mut jpeg = parsed(&[0xFF, 0xD8, 0xFF, 0xD9]);
    assert_eq!(place_record(&mut jpeg, &[1, 2, 3]), Err(CodecError::EmptyContainer));
    assert!(jpeg.segments().is_empty());
}

#[test]
fn stripping_takes_every_reserved_segment_out() {
    let bytes = container(&[
        &reserved_segment(&encode(&alice())),
        &APP0,
        &reserved_segment(&[1, 2, 3]),
        &DQT,
        &SCAN,
    ]);
    let mut jpeg = parsed(&bytes);
    assert_eq!(find_record_segment(&jpeg), Some(0));
    strip_records(&mut jpeg);
    assert_eq!(markers(&jpeg), vec![0xE0, 0xDB, 0xDA]);
    assert_eq!(find_record_segment(&jpeg), None);
    assert_eq!(read_record(&jpeg), Ok(None));
    assert_eq!(jpeg, parsed(&picture()));
}

#[test]
fn reading_finds_the_first_reserved_segment() {
    let bytes = container(&[
        &APP0,
        &reserved_segment(&[1, 2, 3]),
        &reserved_segment(&encode(&alice())),
        &SCAN,
    ]);
    let jpeg = parsed(&bytes);
    assert_eq!(find_record_segment(&jpeg), Some(1));
    assert_eq!(read_record(&jpeg), Err(CodecError::Decode));
}

#[test]
fn a_segment_without_length_is_written_with_an_empty_one_and_reads_back() {
    let bytes = container(&[&[0xFF, 0x01], &APP0, &SCAN]);
    let r = alice();
    let written = write_record(&bytes, &r).unwrap();
    let expected = container(&[
        &[0xFF, 0x01, 0x00, 0x00],
        &APP0,
        &reserved_segment(&encode(&r)),
        &SCAN,
    ]);
    assert_eq!(written, expected);
    assert_eq!(decode(&written), Ok(Some(r.clone())));
    assert_eq!(write_record(&written, &r).unwrap(), written);
    assert_eq!(parsed(&written).segments()[0], parsed(&bytes).segments()[0]);
}

#[test]
fn fill_bytes_between_segments_are_not_kept() {
    let bytes = container(&[&[0x00, 0x12], &APP0, &[0xFF, 0xFF], &DQT[1..], &[0x34], &SCAN]);
    assert_eq!(markers(&parsed(&bytes)), vec![0xE0, 0xDB, 0xDA]);
    let r = alice();
    let written = write_record(&bytes, &r).unwrap();
    assert_eq!(written, write_record(&picture(), &r).unwrap());
    assert_eq!(decode(&written), Ok(Some(r)));
}

#[test]
fn segments_come_out_of_parsing_in_the_shape_that_writing_relies_on() {
    let samples = [
        picture(),
        container(&[&[0xFF, 0x01], &APP0, &[0xFF, 0xD0, 0x00, 0x03, 0x07], &SCAN]),
        container(&[&APP0, &[0xFF, 0xD9]]),
        container(&[&reserved_segment(&[9; 300]), &SCAN]),
    ];
    for bytes in samples {
        let jpeg = parsed(&bytes);
        let n = jpeg.segments().len();
        for (i, segment) in jpeg.segments().iter().enumerate() {
            let marker = segment.marker();
            assert!(marker != 0xFF && marker != 0xD9);
            assert!(segment.contents().len() <= 65533);
            if marker == 0xDA {
                assert!(segment.has_entropy());
                assert_eq!(i, n - 1);
            } else {
                assert!(!segment.has_entropy());
            }
        }
    }
}

#[test]
fn a_scan_without_data_after_it_is_no_container() {
    let bytes = container(&[&APP0, &SCAN[..6]]);
    assert_eq!(decode(&bytes), Err(CodecError::Container(ContainerError::Truncated)));
    assert_eq!(
        write_record(&bytes, &alice()),
        Err(CodecError::Container(ContainerError::Truncated))
    );
}
