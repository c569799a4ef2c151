//! Destinations of files sorted into date-named bucket directories.
use crate::date_format::{interpolate_date_format, interpolated, Timestamp};
use vstd::prelude::*;

verus! {

/// Parameters of sorting by creation date: the template of the bucket
/// directory names.
#[derive(Clone, Debug)]
pub struct CreationDateParams {
    pub format: String,
}

/// How files are sorted into subdirectories of the target directory.
#[derive(Clone, Debug)]
pub enum SortVariant {
    CreationDate(CreationDateParams),
}

/// What `std::path::Path::file_name` gives for `path`.
pub uninterp spec fn file_name_of(path: Seq<char>) -> Option<Seq<char>>;

/// What `std::path::Path::join` gives for `base` and `rest`.
pub uninterp spec fn joined_path(base: Seq<char>, rest: Seq<char>) -> Seq<char>;

/// Relies on `std::path::Path::file_name`: the last component of a path
/// that names a file or directory; `None` where the path ends in `..` or is
/// empty or a root.
#[verifier::external_body]
pub(crate) fn path_file_name(path: &str) -> (r: Option<String>)
    ensures
        match r {
            Some(name) => file_name_of(path@) == Some(name@),
            None => file_name_of(path@) is None,
        },
{
    std::path::Path::new(path).file_name().map(|n| n.to_string_lossy().into_owned())
}

/// Relies on `std::path::Path::join`: `rest` appended to `base` with a
/// separator, or `rest` alone where it is absolute.
#[verifier::external_body]
pub(crate) fn join_path(base: &str, rest: &str) -> (r: String)
    ensures
        r@ == joined_path(base@, rest@),
{
    std::path::Path::new(base).join(rest).to_string_lossy().into_owned()
}

/// Where a file goes under a sort variant: the bucket directory to create,
/// and the path in it that keeps the file's name (`None` where the source
/// path has no file name).
#[derive(Clone, Debug)]
pub struct SortedPath {
    pub directory: String,
    pub destination: Option<String>,
}

impl SortVariant {
    /// The template of bucket directory names.
    pub open spec fn template(&self) -> Seq<char> {
        match self {
            SortVariant::CreationDate(p) => p.format@,
        }
    }
}

/// The bucket directory for a file dated `date`.
pub open spec fn bucket_of(variant: SortVariant, target: Seq<char>, date: Timestamp) -> Seq<char> {
    joined_path(target, interpolated(date, variant.template()))
}

/// The path of a file `source` in the bucket directory `directory`.
pub open spec fn destination_in(directory: Seq<char>, source: Seq<char>) -> Option<Seq<char>> {
    match file_name_of(source) {
        Some(name) => Some(joined_path(directory, name)),
        None => None,
    }
}

/// Resolves where the file at `source_path`, created at `date`, goes when
/// sorted into `target_directory`: the bucket directory named by the
/// variant's template, and in it the file's own name.
pub fn sorted_path(sort_variant: &SortVariant, source_path: &str, date: Timestamp, target_directory: &str) -> (r: SortedPath)
    requires
        date.wf(),
    ensures
        r.directory@ == bucket_of(*sort_variant, target_directory@, date),
        match r.destination {
            Some(d) => destination_in(r.directory@, source_path@) == Some(d@),
            None => destination_in(r.directory@, source_path@) is None,
        },
{
    let directory_name = match sort_variant {
        SortVariant::CreationDate(params) => interpolate_date_format(date, params.format.as_str()),
    };
    let directory = join_path(target_directory, directory_name.as_str());
    let destination = match path_file_name(source_path) {
        Some(name) => Some(join_path(directory.as_str(), name.as_str())),
        None => None,
    };
    SortedPath { directory, destination }
}

} // verus!
