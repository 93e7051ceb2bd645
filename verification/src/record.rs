//! The durable record of one crop, and its payload bytes.
//!
//! The payload is what `bitcode` makes of the six fields, in their order:
//! given name, family name, centre `x`, centre `y`, width, rotation.

use vstd::prelude::*;

verus! {

/// What is kept of a crop between two sittings.
#[derive(Clone, Debug, PartialEq, Eq)]
pub struct CropRecord {
    pub given: String,
    pub family: String,
    pub x: i32,
    pub y: i32,
    pub w: i32,
    pub rotation: i8,
}

/// A record as the contracts see it.
pub struct RecordView {
    pub given: Seq<char>,
    pub family: Seq<char>,
    pub x: int,
    pub y: int,
    pub w: int,
    pub rotation: int,
}

impl View for CropRecord {
    type V = RecordView;

    open spec fn view(&self) -> RecordView {
        RecordView {
            given: self.given@,
            family: self.family@,
            x: self.x as int,
            y: self.y as int,
            w: self.w as int,
            rotation: self.rotation as int,
        }
    }
}

#[verifier::external_type_specification]
#[verifier::external_body]
pub struct ExPayloadError(bitcode::Error);

/// The bytes that `bitcode::encode` gives for the six fields of a record.
pub uninterp spec fn payload_encoding(
    given: Seq<char>,
    family: Seq<char>,
    x: i32,
    y: i32,
    w: i32,
    rotation: i8,
) -> Seq<u8>;

/// The six fields that `bitcode::decode` reads from a payload, or nothing
/// where it reports an error.
pub uninterp spec fn payload_decoding(bytes: Seq<u8>) -> Option<
    (Seq<char>, Seq<char>, i32, i32, i32, i8),
>;

/// The six fields of a decoded payload, as a record.
pub open spec fn record_of(fields: (Seq<char>, Seq<char>, i32, i32, i32, i8)) -> RecordView {
    RecordView {
        given: fields.0,
        family: fields.1,
        x: fields.2 as int,
        y: fields.3 as int,
        w: fields.4 as int,
        rotation: fields.5 as int,
    }
}

/// The payload of a record.
pub open spec fn encoded(record: RecordView) -> Seq<u8> {
    payload_encoding(
        record.given,
        record.family,
        record.x as i32,
        record.y as i32,
        record.w as i32,
        record.rotation as i8,
    )
}

/// What a payload decodes to: a record, or nothing.
pub open spec fn decoded(bytes: Seq<u8>) -> Option<RecordView> {
    match payload_decoding(bytes) {
        Some(fields) => Some(record_of(fields)),
        None => None,
    }
}

/// The payload reads back as this record.
pub open spec fn decodes_as(bytes: Seq<u8>, record: RecordView) -> bool {
    decoded(bytes) == Some(record)
}

/// Trusted: `bitcode::encode`, on the tuple of the record's six fields.
///
/// Claims that the bytes are a function of the six fields alone, and that
/// `bitcode::decode` reads the same six fields back from them, as the
/// crate's documentation shows for any value it encodes.
#[verifier::external_body]
pub(crate) fn encode_fields(record: &CropRecord) -> (out: Vec<u8>)
    ensures
        out@ == payload_encoding(
            record.given@,
            record.family@,
            record.x,
            record.y,
            record.w,
            record.rotation,
        ),
        decodes_as(out@, record@),
{
    bitcode::encode(
        &(record.given.as_str(), record.family.as_str(), record.x, record.y, record.w, record.rotation),
    )
}

/// Trusted: `bitcode::decode`, to the tuple of a record's six fields.
///
/// Claims that the outcome is a function of the bytes alone; `bitcode`
/// answers bytes that it cannot read with an error, not by stopping.
#[verifier::external_body]
pub(crate) fn decode_fields(bytes: &[u8]) -> (out: Result<CropRecord, bitcode::Error>)
    ensures
        match out {
            Ok(record) => payload_decoding(bytes@) == Some(
                (record.given@, record.family@, record.x, record.y, record.w, record.rotation),
            ),
            Err(_) => payload_decoding(bytes@) is None,
        },
{
    match bitcode::decode::<(String, String, i32, i32, i32, i8)>(bytes) {
        Ok((given, family, x, y, w, rotation)) => Ok(CropRecord { given, family, x, y, w, rotation }),
        Err(e) => Err(e),
    }
}

} // verus!
