//! What a photograph's embedded metadata says of its orientation and of the
//! time it was taken.

use crate::naming::{named, resolve_naming, Naming, NamingView};
use crate::orientation::Orientation;
use crate::timestamp::{find_unread_fields, text_of, unread_fields, DateField};
use exif::{In, Reader, Tag};
use std::io::Cursor;
use vstd::prelude::*;

verus! {

/// The first unsigned integer of the orientation field in the primary image
/// directory of the metadata that the `exif` crate finds in a file, or `None`
/// where it finds no metadata, no such field or no such integer.
pub uninterp spec fn exif_orientation(bytes: Seq<u8>) -> Option<u32>;

/// The text that the `exif` crate displays for the field with the given tag
/// number in the primary image directory of the metadata that it finds in a
/// file, or `None` where it finds no metadata or no such field.
pub uninterp spec fn exif_datetime(bytes: Seq<u8>, tag: int) -> Option<Seq<char>>;

/// Calls `Reader::read_from_container` on the bytes, `Exif::get_field` for
/// the orientation and `Value::get_uint` for its first integer. Claims that
/// the outcome is a function of the bytes.
#[verifier::external_body]
pub(crate) fn embedded_orientation(bytes: &[u8]) -> (r: Option<u32>)
    ensures
        r == exif_orientation(bytes@),
{
    let found = Reader::new().read_from_container(&mut Cursor::new(bytes)).ok()?;
    found.get_field(Tag::Orientation, In::PRIMARY)?.value.get_uint(0)
}

/// Calls `Reader::read_from_container` on the bytes, `Exif::get_field` for a
/// date-time field and `Field::display_value` for its text. Claims that the
/// outcome is a function of the bytes and the field.
#[verifier::external_body]
pub(crate) fn embedded_datetime(bytes: &[u8], field: DateField) -> (r: Option<String>)
    ensures
        match r {
            Some(text) => exif_datetime(bytes@, field.tag()) == Some(text@),
            None => exif_datetime(bytes@, field.tag()) is None,
        },
{
    let found = Reader::new().read_from_container(&mut Cursor::new(bytes)).ok()?;
    let tag = match field {
        DateField::Original => Tag::DateTimeOriginal,
        DateField::Digitized => Tag::DateTimeDigitized,
        DateField::Changed => Tag::DateTime,
    };
    Some(found.get_field(tag, In::PRIMARY)?.display_value().to_string())
}

/// The orientation that the metadata of a file records.
pub open spec fn recorded_orientation(bytes: Seq<u8>) -> Orientation {
    Orientation::of_raw(exif_orientation(bytes))
}

/// What the converted file of a photograph is named after, given the bytes of
/// its file, the seconds since 1970 at which the file was last modified, and
/// the name of the file without the extension, the last two as far as known.
pub open spec fn recorded_naming(
    bytes: Seq<u8>,
    modified: Option<u64>,
    base_name: Option<Seq<char>>,
) -> NamingView {
    named(
        exif_datetime(bytes, DateField::Original.tag()),
        exif_datetime(bytes, DateField::Digitized.tag()),
        exif_datetime(bytes, DateField::Changed.tag()),
        modified,
        base_name,
    )
}

/// The date-time fields of a file that the search for the capture time looks
/// at and cannot read.
pub open spec fn recorded_unread(bytes: Seq<u8>) -> Seq<DateField> {
    unread_fields(
        exif_datetime(bytes, DateField::Original.tag()),
        exif_datetime(bytes, DateField::Digitized.tag()),
        exif_datetime(bytes, DateField::Changed.tag()),
    )
}

/// Reads the orientation of a photograph from its file. A file without
/// metadata, without the field or with a value outside one to eight is
/// upright.
pub fn read_orientation(bytes: &[u8]) -> (o: Orientation)
    ensures
        o == recorded_orientation(bytes@),
{
    Orientation::from_raw(embedded_orientation(bytes))
}

/// Decides what the converted file of a photograph is named after, from its
/// file, the seconds since 1970 at which the file was last modified, and the
/// name of the file without the extension, the last two as far as known.
pub fn read_naming(bytes: &[u8], modified: Option<u64>, base_name: Option<&str>) -> (naming:
    Naming)
    ensures
        naming@ == recorded_naming(bytes@, modified, text_of(base_name)),
        naming@.wf(),
{
    let original = embedded_datetime(bytes, DateField::Original);
    let digitized = embedded_datetime(bytes, DateField::Digitized);
    let changed = embedded_datetime(bytes, DateField::Changed);
    resolve_naming(
        as_text(&original),
        as_text(&digitized),
        as_text(&changed),
        modified,
        base_name,
    )
}

/// Lists the date-time fields of a file that the search for the capture time
/// looked at and could not read.
pub fn read_unread_fields(bytes: &[u8]) -> (fields: Vec<DateField>)
    ensures
        fields@ == recorded_unread(bytes@),
{
    let original = embedded_datetime(bytes, DateField::Original);
    let digitized = embedded_datetime(bytes, DateField::Digitized);
    let changed = embedded_datetime(bytes, DateField::Changed);
    find_unread_fields(as_text(&original), as_text(&digitized), as_text(&changed))
}

/// Borrows the text of an optional string.
fn as_text(field: &Option<String>) -> (r: Option<&str>)
    ensures
        text_of(r) == match *field {
            Some(text) => Some(text@),
            None => None,
        },
{
    match field {
        Some(text) => Some(text.as_str()),
        None => None,
    }
}

/// Reads from the file of a photograph what its conversion needs to know:
/// the orientation, and what the converted file is named after.
pub fn resolve(bytes: &[u8], modified: Option<u64>, base_name: Option<&str>) -> (r: (
    Orientation,
    Naming,
))
    ensures
        r.0 == recorded_orientation(bytes@),
        r.1@ == recorded_naming(bytes@, modified, text_of(base_name)),
        r.1@.wf(),
{
    (read_orientation(bytes), read_naming(bytes, modified, base_name))
}

} // verus!
