//! Batch placement of files into a target directory, optionally bucketed by
//! creation date, with per-file outcome reports.
pub mod date_format;
pub mod creation_date;
pub mod sorting;
pub mod placement;
pub mod removal;
