use file_placement::creation_date::{
    creation_date, date_from_exif_fields, get_creation_date_from_exif,
};
use file_placement::date_format::Timestamp;
use file_placement::sorting::{sorted_path, CreationDateParams, SortVariant};

/// A JPEG holding only an Exif segment with the given ASCII date fields.
fn jpeg_with_dates(fields: &[(u16, &str)]) -> Vec<u8> {
    let mut tiff: Vec<u8> = vec![b'M', b'M', 0, 42, 0, 0, 0, 8];
    // IFD0: one entry pointing to the Exif IFD.
    let exif_ifd: u32 = 8 + 2 + 12 + 4;
    tiff.extend_from_slice(&1u16.to_be_bytes());
    tiff.extend_from_slice(&0x8769u16.to_be_bytes());
    tiff.extend_from_slice(&4u16.to_be_bytes());
    tiff.extend_from_slice(&1u32.to_be_bytes());
    tiff.extend_from_slice(&exif_ifd.to_be_bytes());
    tiff.extend_from_slice(&0u32.to_be_bytes());
    // Exif IFD with the date entries, their values after it.
    let n = fields.len() as u32;
    let mut value_at = exif_ifd + 2 + 12 * n + 4;
    let mut values: Vec<u8> = Vec::new();
    tiff.extend_from_slice(&(n as u16).to_be_bytes());
    for (tag, text) in fields {
        let mut bytes = text.as_bytes().to_vec();
        bytes.push(0);
        tiff.extend_from_slice(&tag.to_be_bytes());
        tiff.extend_from_slice(&2u16.to_be_bytes());
        tiff.extend_from_slice(&(bytes.len() as u32).to_be_bytes());
        tiff.extend_from_slice(&value_at.to_be_bytes());
        value_at += bytes.len() as u32;
        values.extend_from_slice(&bytes);
    }
    tiff.extend_from_slice(&0u32.to_be_bytes());
    tiff.extend_from_slice(&values);

    let mut jpeg: Vec<u8> = vec![0xff, 0xd8, 0xff, 0xe1];
    jpeg.extend_from_slice(&((tiff.len() + 8) as u16).to_be_bytes());
    jpeg.extend_from_slice(b"Exif\0\0");
    jpeg.extend_from_slice(&tiff);
    jpeg.extend_from_slice(&[0xff, 0xd9]);
    jpeg
}

fn date_only(t: Timestamp) -> (i32, u32, u32) {
    (t.year, t.month, t.day)
}

#[test]
fn test_get_creation_date_from_exif() {
    let image = jpeg_with_dates(&[(0x9003, "2023:05:22 14:03:11")]);
    let creation_date = get_creation_date_from_exif(&image).unwrap();
    assert_eq!(date_only(creation_date), (2023, 05, 22));

    let image = jpeg_with_dates(&[(0x9003, "2024:12:22 08:30:00")]);
    let creation_date = get_creation_date_from_exif(&image).unwrap();
    assert_eq!(date_only(creation_date), (2024, 12, 22));
}

#[test]
fn exif_time_of_day_is_read() {
    let image = jpeg_with_dates(&[(0x9003, "2023:05:22 14:03:11")]);
    let t = get_creation_date_from_exif(&image).unwrap();
    assert_eq!((t.hour, t.minute, t.second), (14, 3, 11));
}

#[test]
fn digitized_date_used_without_original() {
    let image = jpeg_with_dates(&[(0x9004, "2021:07:04 10:00:00")]);
    let t = get_creation_date_from_exif(&image).unwrap();
    assert_eq!(date_only(t), (2021, 7, 4));
}

#[test]
fn original_date_preferred_over_digitized() {
    let image = jpeg_with_dates(&[(0x9003, "2020:01:02 03:04:05"), (0x9004, "2021:07:04 10:00:00")]);
    let t = get_creation_date_from_exif(&image).unwrap();
    assert_eq!(date_only(t), (2020, 1, 2));
}

#[test]
fn unparsable_original_gives_no_date() {
    let image = jpeg_with_dates(&[(0x9003, "    :  :     :  :  "), (0x9004, "2021:07:04 10:00:00")]);
    assert_eq!(get_creation_date_from_exif(&image), None);
}

#[test]
fn file_without_metadata_gives_no_date() {
    assert_eq!(get_creation_date_from_exif(&b"just some text\n".to_vec()), None);
    assert_eq!(get_creation_date_from_exif(&Vec::new()), None);
}

#[test]
fn date_from_field_texts() {
    let t = date_from_exif_fields(Some("2023-05-22 10:00:00".to_string()), None).unwrap();
    assert_eq!(t, Timestamp { year: 2023, month: 5, day: 22, hour: 10, minute: 0, second: 0 });
    let t = date_from_exif_fields(None, Some("2019-11-30 23:59:58".to_string())).unwrap();
    assert_eq!(t, Timestamp { year: 2019, month: 11, day: 30, hour: 23, minute: 59, second: 58 });
    assert_eq!(date_from_exif_fields(Some("unknown".to_string()), Some("2019-11-30 23:59:58".to_string())), None);
    assert_eq!(date_from_exif_fields(Some("2023-02-30 10:00:00".to_string()), None), None);
    assert_eq!(date_from_exif_fields(None, None), None);
}

#[test]
fn metadata_date_wins_over_filesystem() {
    let t = Timestamp { year: 2023, month: 5, day: 22, hour: 10, minute: 0, second: 0 };
    assert_eq!(creation_date(Some(t), Some((0, 0))), Some(t));
    assert_eq!(creation_date(Some(t), None), Some(t));
}

#[test]
fn filesystem_date_used_without_metadata() {
    // 2024-12-15 12:00:00 UTC: December 2024 in every time zone.
    let t = creation_date(None, Some((1_734_264_000, 0))).unwrap();
    assert_eq!((t.year, t.month), (2024, 12));
    assert!(t.day >= 14 && t.day <= 16);
    assert_eq!(creation_date(None, None), None);
}

#[test]
fn test_sort_files_creation_year_month() {
    let image = jpeg_with_dates(&[(0x9003, "2023:05:22 14:03:11")]);
    // A filesystem time in another month must not matter: 2024-12-15 12:00 UTC.
    let date = creation_date(get_creation_date_from_exif(&image), Some((1_734_264_000, 0)))
        .expect("Should get something");
    let variant = SortVariant::CreationDate(CreationDateParams { format: "%Y_%m".to_owned() });
    let sorted = sorted_path(&variant, "./test/image-created-2023-05.jpg", date, "./new_dir");
    assert_eq!(sorted.directory, "./new_dir/2023_05");
    assert_eq!(
        sorted.destination,
        Some("./new_dir/2023_05/image-created-2023-05.jpg".to_string())
    );
}

#[test]
fn instant_at_the_edge_of_the_range_gives_no_date() {
    assert_eq!(creation_date(None, Some((i64::MAX, 0))), None);
    assert_eq!(creation_date(None, Some((0, 2_000_000_000))), None);
    assert!(creation_date(None, Some((-8_000_000_000_000, 0))).is_some());
    assert!(creation_date(None, Some((8_000_000_000_000, 999_999_999))).is_some());
}
