use file_placement::creation_date::{creation_date, get_creation_date_from_exif};
use file_placement::date_format::Timestamp;
use file_placement::sorting::{sorted_path, CreationDateParams, SortVariant};

fn year_month(format: &str) -> SortVariant {
    SortVariant::CreationDate(CreationDateParams { format: format.to_owned() })
}

#[test]
fn test_sort_files_creation_year_month_no_exif() {
    let from_exif = get_creation_date_from_exif(&b"plain text file\n".to_vec());
    assert_eq!(from_exif, None);
    let date = creation_date(from_exif, Some((1_734_264_000, 0))).expect("Should get something");
    let sorted = sorted_path(&year_month("%Y_%m"), "./test/file1.txt", date, "./new_dir");
    assert_eq!(sorted.destination, Some("./new_dir/2024_12/file1.txt".to_string()));
}

#[test]
fn sorted_path_is_repeatable() {
    let date = Timestamp { year: 2024, month: 3, day: 30, hour: 0, minute: 0, second: 0 };
    let a = sorted_path(&year_month("%Y/%B"), "/photos/a.jpg", date, "/target");
    let b = sorted_path(&year_month("%Y/%B"), "/photos/a.jpg", date, "/target");
    assert_eq!(a.directory, "/target/2024/März");
    assert_eq!(a.directory, b.directory);
    assert_eq!(a.destination, b.destination);
    assert_eq!(a.destination, Some("/target/2024/März/a.jpg".to_string()));
}

#[test]
fn source_without_name_has_no_destination() {
    let date = Timestamp { year: 2024, month: 3, day: 30, hour: 0, minute: 0, second: 0 };
    let sorted = sorted_path(&year_month("%Y"), "/photos/..", date, "/target");
    assert_eq!(sorted.directory, "/target/2024");
    assert_eq!(sorted.destination, None);
}
