//! The creation date of a file: the capture date embedded in its image
//! metadata, else the filesystem's creation time in local time.
use crate::date_format::Timestamp;
use chrono::{Datelike, TimeZone, Timelike};
use vstd::prelude::*;

verus! {

/// Exif tag number of the date and time when the image was captured.
pub const DATE_TIME_ORIGINAL: u16 = 0x9003;

/// Exif tag number of the date and time when the image was digitized.
pub const DATE_TIME_DIGITIZED: u16 = 0x9004;

/// The layout in which Exif date fields are displayed: `YYYY-MM-DD HH:MM:SS`.
pub open spec fn exif_date_pattern() -> Seq<char> {
    "%Y-%m-%d %H:%M:%S"@
}

/// What chrono's `NaiveDateTime::parse_from_str` makes of `text` under `pattern`.
pub uninterp spec fn parsed_date_time(text: Seq<char>, pattern: Seq<char>) -> Option<Timestamp>;

/// Relies on chrono's `NaiveDateTime::parse_from_str`: its outcome depends on
/// the text and the pattern alone, and a parsed value has its month in 1..=12,
/// its day in 1..=31, its hour in 0..=23 and its minute and second in 0..=59.
#[verifier::external_body]
fn parse_date_time(text: &str, pattern: &str) -> (r: Option<Timestamp>)
    ensures
        r == parsed_date_time(text@, pattern@),
        r matches Some(t) ==> t.wf(),
{
    chrono::NaiveDateTime::parse_from_str(text, pattern).ok().map(|d| Timestamp {
        year: d.year(),
        month: d.month(),
        day: d.day(),
        hour: d.hour(),
        minute: d.minute(),
        second: d.second(),
    })
}

/// Instants in seconds and nanoseconds since the Unix epoch that lie well
/// inside chrono's range of dates (about 262,000 years each way), more than a
/// day from either end.
pub open spec fn instant_in_range(secs: i64, nanos: u32) -> bool {
    -8_000_000_000_000 <= secs <= 8_000_000_000_000 && nanos < 1_000_000_000
}

/// Relies on chrono's `DateTime::from_timestamp` (the UTC time of an instant;
/// `None` out of range or for nanoseconds of 10^9 and more),
/// `Local::offset_from_utc_datetime` (the machine's offset at that time, under
/// a day) and `NaiveDateTime::checked_add_offset` (`None` where the sum leaves
/// chrono's range). The result depends on the machine's time zone, so only the
/// ranges of chrono's fields and when a date comes back are stated.
#[verifier::external_body]
fn local_date_time(secs: i64, nanos: u32) -> (r: Option<Timestamp>)
    ensures
        r matches Some(t) ==> t.wf(),
        instant_in_range(secs, nanos) ==> r is Some,
{
    let utc = chrono::DateTime::from_timestamp(secs, nanos)?.naive_utc();
    let offset = chrono::Local.offset_from_utc_datetime(&utc);
    utc.checked_add_offset(offset).map(|d| Timestamp {
        year: d.year(),
        month: d.month(),
        day: d.day(),
        hour: d.hour(),
        minute: d.minute(),
        second: d.second(),
    })
}

/// The displayed text of the Exif field with tag number `tag` of the primary
/// image held in `data`, as the `exif` crate reads it.
pub uninterp spec fn exif_field_text(data: Seq<u8>, tag: u16) -> Option<Seq<char>>;

/// Relies on `exif::Reader::read_from_container` (the Exif attributes of a
/// TIFF, JPEG, HEIF, PNG or WebP image held in memory), `Exif::get_field` for
/// the primary image and `Field::display_value`: the text depends on the bytes
/// and the tag alone; `None` where there are no attributes or no such field.
#[verifier::external_body]
fn capture_field_text(data: &[u8], tag: u16) -> (r: Option<String>)
    ensures
        text_view(r) == exif_field_text(data@, tag),
{
    let exif = exif::Reader::new().read_from_container(&mut std::io::Cursor::new(data)).ok()?;
    exif.get_field(exif::Tag(exif::Context::Exif, tag), exif::In::PRIMARY).map(
        |f| f.display_value().to_string(),
    )
}

/// The date that the texts of the capture-date fields give: the original
/// capture date where the field is there, else the digitized date; a text
/// that does not parse gives none.
pub open spec fn date_of_fields(original: Option<Seq<char>>, digitized: Option<Seq<char>>) -> Option<
    Timestamp,
> {
    match original {
        Some(text) => parsed_date_time(text, exif_date_pattern()),
        None => match digitized {
            Some(text) => parsed_date_time(text, exif_date_pattern()),
            None => None,
        },
    }
}

pub open spec fn text_view(s: Option<String>) -> Option<Seq<char>> {
    match s {
        Some(t) => Some(t@),
        None => None,
    }
}

/// The creation date given by the displayed capture-date fields of an image:
/// `original` is preferred, `digitized` is used only where `original` is
/// absent.
pub fn date_from_exif_fields(original: Option<String>, digitized: Option<String>) -> (r: Option<
    Timestamp,
>)
    ensures
        r == date_of_fields(text_view(original), text_view(digitized)),
        r matches Some(t) ==> t.wf(),
{
    let pattern = "%Y-%m-%d %H:%M:%S";
    match original {
        Some(text) => parse_date_time(text.as_str(), pattern),
        None => match digitized {
            Some(text) => parse_date_time(text.as_str(), pattern),
            None => None,
        },
    }
}

/// The creation date embedded in the image metadata of a file's contents:
/// the capture date where that field is there, else the digitized date; none
/// where neither is there or the chosen one does not parse.
pub fn get_creation_date_from_exif(data: &Vec<u8>) -> (r: Option<Timestamp>)
    ensures
        r == date_of_fields(
            exif_field_text(data@, DATE_TIME_ORIGINAL),
            exif_field_text(data@, DATE_TIME_DIGITIZED),
        ),
        r matches Some(t) ==> t.wf(),
{
    let original = capture_field_text(data.as_slice(), DATE_TIME_ORIGINAL);
    let digitized = match original {
        Some(_) => None,
        None => capture_field_text(data.as_slice(), DATE_TIME_DIGITIZED),
    };
    date_from_exif_fields(original, digitized)
}

/// The creation date of a file: the date from its image metadata where there
/// is one; otherwise its filesystem creation time `created` (seconds and
/// nanoseconds since the Unix epoch) in local time; `None` where neither is
/// available.
pub fn creation_date(from_exif: Option<Timestamp>, created: Option<(i64, u32)>) -> (r: Option<
    Timestamp,
>)
    requires
        from_exif matches Some(t) ==> t.wf(),
    ensures
        from_exif is Some ==> r == from_exif,
        from_exif is None && created is None ==> r is None,
        from_exif is None ==> (created matches Some((secs, nanos)) ==> (instant_in_range(
            secs,
            nanos,
        ) ==> r is Some)),
        r matches Some(t) ==> t.wf(),
{
    match from_exif {
        Some(t) => Some(t),
        None => match created {
            Some((secs, nanos)) => local_date_time(secs, nanos),
            None => None,
        },
    }
}

} // verus!
