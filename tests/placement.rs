use file_placement::placement::{
    destination_path, placement_step, save_report, transfer_outcome, FileOutcome, PlacementStep,
    SaveAction, SaveResult, UserFile,
};

fn file(path: &str) -> UserFile {
    UserFile { path: path.to_string(), tag: None }
}

const NO_NAME: &str = "Datei scheint keinen Namen zu haben";
const EXISTS: &str = "Die Datei existiert bereits";

#[test]
fn destination_without_sorting_is_name_under_target() {
    let d = destination_path(&file("/src/a.txt"), "/target", None);
    assert_eq!(d, Some("/target/a.txt".to_string()));
}

#[test]
fn destination_from_sorting_is_kept() {
    let d = destination_path(&file("/src/a.txt"), "/target", Some("/target/2024_12/a.txt".to_string()));
    assert_eq!(d, Some("/target/2024_12/a.txt".to_string()));
}

#[test]
fn destination_of_nameless_path_is_none() {
    assert_eq!(destination_path(&file("/"), "/target", None), None);
    assert_eq!(destination_path(&file("/src/.."), "/target", None), None);
}

#[test]
fn steps_for_each_case() {
    assert_eq!(placement_step(None, false, SaveAction::COPY), PlacementStep::Reject(NO_NAME.to_string()));
    assert_eq!(
        placement_step(Some("/t/a".to_string()), true, SaveAction::MOVE),
        PlacementStep::Reject(EXISTS.to_string())
    );
    assert_eq!(
        placement_step(Some("/t/a".to_string()), false, SaveAction::COPY),
        PlacementStep::Copy("/t/a".to_string())
    );
    assert_eq!(
        placement_step(Some("/t/a".to_string()), false, SaveAction::MOVE),
        PlacementStep::Rename("/t/a".to_string())
    );
}

#[test]
fn outcomes_of_steps() {
    assert_eq!(transfer_outcome(PlacementStep::Copy("/t/a".to_string()), Ok(())), FileOutcome::Copied);
    assert_eq!(
        transfer_outcome(PlacementStep::Rename("/t/a".to_string()), Ok(())),
        FileOutcome::Moved("/t/a".to_string())
    );
    assert_eq!(
        transfer_outcome(PlacementStep::Rename("/t/a".to_string()), Err("cross-device".to_string())),
        FileOutcome::Rejected("cross-device".to_string())
    );
    assert_eq!(
        transfer_outcome(PlacementStep::Reject(EXISTS.to_string()), Ok(())),
        FileOutcome::Rejected(EXISTS.to_string())
    );
}

#[test]
fn one_conflict_in_a_batch() {
    let files = vec![file("/s/a"), file("/s/b"), file("/s/c"), file("/s/d")];
    let outcomes = vec![
        FileOutcome::Copied,
        FileOutcome::Rejected(EXISTS.to_string()),
        FileOutcome::Copied,
        FileOutcome::Copied,
    ];
    let r = save_report(&files, &outcomes);
    assert_eq!(r.errors, vec![("/s/b".to_string(), EXISTS.to_string())]);
    assert_eq!(r.successfully_saved_files, vec!["/s/a", "/s/c", "/s/d"]);
    assert!(r.global_errors.is_empty());
    assert!(r.renamed_files.is_empty());
}

#[test]
fn moves_are_mapped_and_copies_are_not() {
    let files = vec![file("/s/a"), file("/s/b")];
    let outcomes = vec![FileOutcome::Moved("/t/a".to_string()), FileOutcome::Copied];
    let r = save_report(&files, &outcomes);
    assert_eq!(r.successfully_saved_files, vec!["/s/a", "/s/b"]);
    assert_eq!(r.renamed_files, vec![("/s/a".to_string(), "/t/a".to_string())]);
    assert!(r.errors.is_empty());
}

#[test]
fn failed_sorting_reports_one_batch_error() {
    let r = SaveResult::sort_failed();
    assert_eq!(
        r.global_errors,
        vec!["Die Ordner, welche zum sortieren erstellt werden sollten, konnten nicht erzeugt werden"]
    );
    assert!(r.successfully_saved_files.is_empty());
    assert!(r.errors.is_empty());
    assert!(r.renamed_files.is_empty());
}

#[test]
fn record_enters_one_outcome() {
    let mut r = SaveResult::new();
    r.record("/s/x", &FileOutcome::Rejected(NO_NAME.to_string()));
    assert_eq!(r.errors, vec![("/s/x".to_string(), NO_NAME.to_string())]);
    assert!(r.successfully_saved_files.is_empty());
}

#[test]
fn empty_batch_reports_nothing() {
    let r = save_report(&Vec::new(), &Vec::new());
    assert!(r.successfully_saved_files.is_empty());
    assert!(r.errors.is_empty());
    assert!(r.global_errors.is_empty());
    assert!(r.renamed_files.is_empty());
}

#[test]
fn path_given_twice_keeps_one_entry_per_map() {
    let files = vec![file("/s/a"), file("/s/a")];
    let outcomes = vec![
        FileOutcome::Rejected("permission denied".to_string()),
        FileOutcome::Rejected(EXISTS.to_string()),
    ];
    let r = save_report(&files, &outcomes);
    assert_eq!(r.errors, vec![("/s/a".to_string(), EXISTS.to_string())]);

    let outcomes = vec![FileOutcome::Moved("/t/1/a".to_string()), FileOutcome::Moved("/t/2/a".to_string())];
    let r = save_report(&files, &outcomes);
    assert_eq!(r.renamed_files, vec![("/s/a".to_string(), "/t/2/a".to_string())]);
    assert_eq!(r.successfully_saved_files, vec!["/s/a", "/s/a"]);
}
