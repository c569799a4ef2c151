//! Placement of a batch of files: per-file decisions and the report that
//! gathers their outcomes.
use crate::sorting::{file_name_of, join_path, joined_path, path_file_name};
use vstd::prelude::*;

verus! {

/// Whether files are copied or moved; fixed for a whole batch.
#[derive(Clone, Copy, Debug, PartialEq, Eq, Structural)]
pub enum SaveAction {
    COPY,
    MOVE,
}

/// A file chosen by the user, with a tag that placement carries but does
/// not read.
#[derive(Clone, Debug, PartialEq, Eq)]
pub struct UserFile {
    pub path: String,
    pub tag: Option<String>,
}

/// What to do with one file of a batch.
#[derive(Clone, Debug, PartialEq, Eq)]
pub enum PlacementStep {
    /// Leave the file alone, for the reason given.
    Reject(String),
    /// Copy the file to the destination given.
    Copy(String),
    /// Rename the file to the destination given.
    Rename(String),
}

/// How one file of a batch fared.
#[derive(Clone, Debug, PartialEq, Eq)]
pub enum FileOutcome {
    /// Not placed, for the reason given.
    Rejected(String),
    /// Copied; its path is unchanged.
    Copied,
    /// Moved to the destination given.
    Moved(String),
}

/// The report of one batch. `errors` and `renamed_files` map source paths
/// to a reason and to a destination; each holds one pair per source path, in
/// the order in which the paths were first entered.
#[derive(Clone, Debug)]
pub struct SaveResult {
    pub successfully_saved_files: Vec<String>,
    pub errors: Vec<(String, String)>,
    pub global_errors: Vec<String>,
    pub renamed_files: Vec<(String, String)>,
}

/// The report as sequences of texts.
pub struct ReportView {
    pub saved: Seq<Seq<char>>,
    pub errors: Seq<(Seq<char>, Seq<char>)>,
    pub global: Seq<Seq<char>>,
    pub renamed: Seq<(Seq<char>, Seq<char>)>,
}

/// The texts of a sequence of strings.
pub open spec fn texts(v: Seq<String>) -> Seq<Seq<char>> {
    v.map_values(|s: String| s@)
}

/// The texts of a sequence of pairs of strings.
pub open spec fn text_pairs(v: Seq<(String, String)>) -> Seq<(Seq<char>, Seq<char>)> {
    v.map_values(|p: (String, String)| (p.0@, p.1@))
}

impl View for SaveResult {
    type V = ReportView;

    open spec fn view(&self) -> ReportView {
        ReportView {
            saved: texts(self.successfully_saved_files@),
            errors: text_pairs(self.errors@),
            global: texts(self.global_errors@),
            renamed: text_pairs(self.renamed_files@),
        }
    }
}

/// No two pairs share their first component.
pub open spec fn keys_unique(pairs: Seq<(Seq<char>, Seq<char>)>) -> bool {
    forall|i: int, j: int| 0 <= i < j < pairs.len() ==> pairs[i].0 != pairs[j].0
}

/// `pairs` with `value` under `key`: the pair of `key` replaced where there
/// is one, else a pair added at the end.
pub open spec fn inserted(pairs: Seq<(Seq<char>, Seq<char>)>, key: Seq<char>, value: Seq<char>) -> Seq<
    (Seq<char>, Seq<char>),
> {
    if has_key(pairs, key) {
        pairs.update(key_index(pairs, key), (key, value))
    } else {
        pairs.push((key, value))
    }
}

/// Some pair of `pairs` has `key` as its first component.
pub open spec fn has_key(pairs: Seq<(Seq<char>, Seq<char>)>, key: Seq<char>) -> bool {
    exists|j: int| 0 <= j < pairs.len() && pairs[j].0 == key
}

/// The position of a pair with `key` as its first component, where
/// `has_key` holds.
pub open spec fn key_index(pairs: Seq<(Seq<char>, Seq<char>)>, key: Seq<char>) -> int {
    choose|j: int| 0 <= j < pairs.len() && pairs[j].0 == key
}

/// Reason given for a source path that has no file name.
pub open spec fn no_name_message() -> Seq<char> {
    "Datei scheint keinen Namen zu haben"@
}

/// Reason given for a file whose destination already exists.
pub open spec fn exists_message() -> Seq<char> {
    "Die Datei existiert bereits"@
}

/// The batch error given when the bucket directories could not be created.
pub open spec fn sort_failed_message() -> Seq<char> {
    "Die Ordner, welche zum sortieren erstellt werden sollten, konnten nicht erzeugt werden"@
}

/// The report with nothing in it.
pub open spec fn empty_report() -> ReportView {
    ReportView { saved: seq![], errors: seq![], global: seq![], renamed: seq![] }
}

/// `r` after the outcome `o` of the file at `source` is entered.
pub open spec fn recorded(r: ReportView, source: Seq<char>, o: FileOutcome) -> ReportView {
    match o {
        FileOutcome::Rejected(reason) => ReportView {
            saved: r.saved,
            errors: inserted(r.errors, source, reason@),
            global: r.global,
            renamed: r.renamed,
        },
        FileOutcome::Copied => ReportView {
            saved: r.saved.push(source),
            errors: r.errors,
            global: r.global,
            renamed: r.renamed,
        },
        FileOutcome::Moved(d) => ReportView {
            saved: r.saved.push(source),
            errors: r.errors,
            global: r.global,
            renamed: inserted(r.renamed, source, d@),
        },
    }
}

/// The report on the first `n` files of a batch.
pub open spec fn report_upto(sources: Seq<Seq<char>>, outcomes: Seq<FileOutcome>, n: nat) -> ReportView
    decreases n,
{
    if n == 0 {
        empty_report()
    } else {
        recorded(
            report_upto(sources, outcomes, (n - 1) as nat),
            sources[n - 1],
            outcomes[n - 1],
        )
    }
}

/// The report on a whole batch.
pub open spec fn report_of(sources: Seq<Seq<char>>, outcomes: Seq<FileOutcome>) -> ReportView {
    report_upto(sources, outcomes, sources.len())
}

/// The source paths of a batch.
pub open spec fn paths_of(files: Seq<UserFile>) -> Seq<Seq<char>> {
    files.map_values(|f: UserFile| f.path@)
}

/// Where a file goes: its sorted destination if there is one, else its
/// name under the target directory; `None` where its path has no name.
pub open spec fn destination_of(path: Seq<char>, target: Seq<char>, sorted: Option<Seq<char>>) -> Option<
    Seq<char>,
> {
    match file_name_of(path) {
        None => None,
        Some(name) => match sorted {
            Some(d) => Some(d),
            None => Some(joined_path(target, name)),
        },
    }
}

/// The destination of `file`: the one that sorting resolved for it, else its
/// file name under `target_directory`; `None` where its path has no name.
pub fn destination_path(file: &UserFile, target_directory: &str, sorted_destination: Option<String>) -> (r: Option<String>)
    ensures
        match r {
            Some(d) => destination_of(
                file.path@,
                target_directory@,
                match sorted_destination {
                    Some(s) => Some(s@),
                    None => None,
                },
            ) == Some(d@),
            None => file_name_of(file.path@) is None,
        },
{
    match path_file_name(file.path.as_str()) {
        None => None,
        Some(name) => match sorted_destination {
            Some(d) => Some(d),
            None => Some(join_path(target_directory, name.as_str())),
        },
    }
}

/// Decides what to do with one file: a file without a name, or whose
/// destination already exists, is rejected and never overwritten; any other
/// is copied or renamed to its destination as `save_action` says.
pub fn placement_step(destination: Option<String>, destination_exists: bool, save_action: SaveAction) -> (r: PlacementStep)
    ensures
        match destination {
            None => r matches PlacementStep::Reject(m) && m@ == no_name_message(),
            Some(d) => if destination_exists {
                r matches PlacementStep::Reject(m) && m@ == exists_message()
            } else {
                match save_action {
                    SaveAction::COPY => r == PlacementStep::Copy(d),
                    SaveAction::MOVE => r == PlacementStep::Rename(d),
                }
            },
        },
{
    match destination {
        None => PlacementStep::Reject(String::from_str("Datei scheint keinen Namen zu haben")),
        Some(d) => {
            if destination_exists {
                PlacementStep::Reject(String::from_str("Die Datei existiert bereits"))
            } else {
                match save_action {
                    SaveAction::COPY => PlacementStep::Copy(d),
                    SaveAction::MOVE => PlacementStep::Rename(d),
                }
            }
        },
    }
}

/// The outcome of a step, given what the copy or rename returned (`Err`
/// carries the error's message); `result` is not read for a rejection.
pub fn transfer_outcome(step: PlacementStep, result: Result<(), String>) -> (r: FileOutcome)
    ensures
        match step {
            PlacementStep::Reject(m) => r == FileOutcome::Rejected(m),
            PlacementStep::Copy(_) => match result {
                Ok(_) => r == FileOutcome::Copied,
                Err(e) => r == FileOutcome::Rejected(e),
            },
            PlacementStep::Rename(d) => match result {
                Ok(_) => r == FileOutcome::Moved(d),
                Err(e) => r == FileOutcome::Rejected(e),
            },
        },
{
    match step {
        PlacementStep::Reject(m) => FileOutcome::Rejected(m),
        PlacementStep::Copy(_) => match result {
            Ok(_) => FileOutcome::Copied,
            Err(e) => FileOutcome::Rejected(e),
        },
        PlacementStep::Rename(d) => match result {
            Ok(_) => FileOutcome::Moved(d),
            Err(e) => FileOutcome::Rejected(e),
        },
    }
}

/// Puts `value` under `key` in `pairs`, as `inserted` says.
fn insert_pair(pairs: &mut Vec<(String, String)>, key: &str, value: String)
    requires
        keys_unique(text_pairs(old(pairs)@)),
    ensures
        text_pairs(final(pairs)@) == inserted(text_pairs(old(pairs)@), key@, value@),
        keys_unique(text_pairs(final(pairs)@)),
{
    let k = String::from_str(key);
    let ghost old_pairs = text_pairs(pairs@);
    let mut j: usize = 0;
    while j < pairs.len()
        invariant
            j <= pairs.len(),
            k@ == key@,
            pairs@ == old(pairs)@,
            old_pairs == text_pairs(pairs@),
            keys_unique(old_pairs),
            forall|i: int| 0 <= i < j ==> old_pairs[i].0 != key@,
        decreases pairs.len() - j,
    {
        if pairs[j].0 == k {
            pairs.set(j, (k, value));
            proof {
                assert(old_pairs[j as int].0 == key@);
                let c = key_index(old_pairs, key@);
                assert(has_key(old_pairs, key@));
                assert(c == j);
                assert(text_pairs(pairs@) =~= old_pairs.update(j as int, (key@, value@)));
            }
            return;
        }
        j = j + 1;
    }
    pairs.push((k, value));
    proof {
        assert(text_pairs(pairs@) =~= old_pairs.push((key@, value@)));
    }
}

impl SaveResult {
    /// The reasons and the renames are each keyed by distinct source paths.
    pub open spec fn wf(&self) -> bool {
        keys_unique(self@.errors) && keys_unique(self@.renamed)
    }

    /// A report with nothing in it.
    pub fn new() -> (r: SaveResult)
        ensures
            r@ == empty_report(),
            r.wf(),
    {
        let r = SaveResult {
            successfully_saved_files: Vec::new(),
            errors: Vec::new(),
            global_errors: Vec::new(),
            renamed_files: Vec::new(),
        };
        proof {
            assert(r@.saved =~= seq![]);
            assert(r@.errors =~= seq![]);
            assert(r@.global =~= seq![]);
            assert(r@.renamed =~= seq![]);
        }
        r
    }

    /// The report of a batch aborted because its bucket directories could
    /// not be created: exactly one batch error, and no file reported.
    pub fn sort_failed() -> (r: SaveResult)
        ensures
            r.wf(),
            r@.global == seq![sort_failed_message()],
            r@.saved.len() == 0,
            r@.errors.len() == 0,
            r@.renamed.len() == 0,
    {
        let mut r = SaveResult::new();
        r.global_errors.push(
            String::from_str(
                "Die Ordner, welche zum sortieren erstellt werden sollten, konnten nicht erzeugt werden",
            ),
        );
        proof {
            assert(r@.global =~= seq![sort_failed_message()]);
        }
        r
    }

    /// Enters the outcome of the file at `source`.
    pub fn record(&mut self, source: &str, outcome: &FileOutcome)
        requires
            old(self).wf(),
        ensures
            final(self).wf(),
            final(self)@ == recorded(old(self)@, source@, *outcome),
    {
        let ghost o = *outcome;
        match outcome {
            FileOutcome::Rejected(reason) => {
                insert_pair(&mut self.errors, source, reason.clone());
            },
            FileOutcome::Copied => {
                self.successfully_saved_files.push(String::from_str(source));
            },
            FileOutcome::Moved(d) => {
                self.successfully_saved_files.push(String::from_str(source));
                insert_pair(&mut self.renamed_files, source, d.clone());
            },
        }
        proof {
            let a = old(self)@;
            let b = recorded(a, source@, o);
            assert(self@.saved =~= b.saved);
            assert(self@.errors =~= b.errors);
            assert(self@.global =~= b.global);
            assert(self@.renamed =~= b.renamed);
        }
    }
}

/// The report of a batch whose `i`-th file had the `i`-th outcome.
pub fn save_report(files: &Vec<UserFile>, outcomes: &Vec<FileOutcome>) -> (r: SaveResult)
    requires
        files.len() == outcomes.len(),
    ensures
        r@ == report_of(paths_of(files@), outcomes@),
{
    let mut r = SaveResult::new();
    let mut i: usize = 0;
    while i < files.len()
        invariant
            files.len() == outcomes.len(),
            i <= files.len(),
            r.wf(),
            r@ == report_upto(paths_of(files@), outcomes@, i as nat),
        decreases files.len() - i,
    {
        r.record(files[i].path.as_str(), &outcomes[i]);
        i = i + 1;
    }
    r
}

/// How many of the first `n` outcomes are rejections.
pub open spec fn rejected_count(outcomes: Seq<FileOutcome>, n: nat) -> nat
    decreases n,
{
    if n == 0 {
        0
    } else {
        rejected_count(outcomes, (n - 1) as nat) + if outcomes[n - 1] is Rejected {
            1nat
        } else {
            0nat
        }
    }
}

proof fn lemma_inserted(pairs: Seq<(Seq<char>, Seq<char>)>, key: Seq<char>, value: Seq<char>)
    ensures
        inserted(pairs, key, value).contains((key, value)),
        inserted(pairs, key, value).len() >= pairs.len(),
        forall|j: int|
            0 <= j < pairs.len() && pairs[j].0 != key ==> #[trigger] inserted(pairs, key, value)[j]
                == pairs[j],
        forall|j: int|
            0 <= j < inserted(pairs, key, value).len() ==> #[trigger] inserted(pairs, key, value)[j]
                == (key, value) || (j < pairs.len() && inserted(pairs, key, value)[j] == pairs[j]),
        (forall|j: int| 0 <= j < pairs.len() ==> #[trigger] pairs[j].0 != key) ==> inserted(
            pairs,
            key,
            value,
        ) == pairs.push((key, value)),
{
    if has_key(pairs, key) {
        let c = key_index(pairs, key);
        assert(inserted(pairs, key, value)[c] == (key, value));
    } else {
        assert(inserted(pairs, key, value)[pairs.len() as int] == (key, value));
    }
}

/// Every file of a batch is reported once: as an error if it was rejected,
/// as saved otherwise; a batch that ran reports no batch error.
pub proof fn lemma_every_file_reported(
    sources: Seq<Seq<char>>,
    outcomes: Seq<FileOutcome>,
    n: nat,
)
    requires
        n <= sources.len(),
        sources.len() == outcomes.len(),
    ensures
        report_upto(sources, outcomes, n).saved.len() + rejected_count(outcomes, n) == n,
        report_upto(sources, outcomes, n).global.len() == 0,
    decreases n,
{
    if n > 0 {
        lemma_every_file_reported(sources, outcomes, (n - 1) as nat);
    }
}

/// `key` is one of the first `n` source paths.
pub open spec fn key_from(sources: Seq<Seq<char>>, n: nat, key: Seq<char>) -> bool {
    exists|i: int| 0 <= i < n && sources[i] == key
}

/// With distinct source paths, each rejected file has its own error entry:
/// there are exactly as many errors as rejections.
pub proof fn lemma_one_error_per_rejection(
    sources: Seq<Seq<char>>,
    outcomes: Seq<FileOutcome>,
    n: nat,
)
    requires
        n <= sources.len(),
        sources.len() == outcomes.len(),
        sources.no_duplicates(),
    ensures
        report_upto(sources, outcomes, n).errors.len() == rejected_count(outcomes, n),
        forall|j: int|
            0 <= j < report_upto(sources, outcomes, n).errors.len() ==> key_from(
                sources,
                n,
                (#[trigger] report_upto(sources, outcomes, n).errors[j]).0,
            ),
    decreases n,
{
    if n > 0 {
        lemma_one_error_per_rejection(sources, outcomes, (n - 1) as nat);
        let p = report_upto(sources, outcomes, (n - 1) as nat);
        let r = report_upto(sources, outcomes, n);
        let key = sources[n - 1];
        if outcomes[n - 1] is Rejected {
            assert forall|j: int| 0 <= j < p.errors.len() implies #[trigger] p.errors[j].0
                != key by {
                assert(key_from(sources, (n - 1) as nat, p.errors[j].0));
                let i = choose|i: int| 0 <= i < n - 1 && sources[i] == p.errors[j].0;
                assert(i != n - 1);
            }
            lemma_inserted(p.errors, key, outcomes[n - 1]->Rejected_0@);
            assert forall|j: int| 0 <= j < r.errors.len() implies key_from(
                sources,
                n,
                (#[trigger] r.errors[j]).0,
            ) by {
                if j < p.errors.len() {
                    assert(key_from(sources, (n - 1) as nat, p.errors[j].0));
                    let i = choose|i: int| 0 <= i < n - 1 && sources[i] == p.errors[j].0;
                    assert(0 <= i < n && sources[i] == r.errors[j].0);
                } else {
                    assert(sources[n - 1] == r.errors[j].0);
                }
            }
        } else {
            assert forall|j: int| 0 <= j < r.errors.len() implies key_from(
                sources,
                n,
                (#[trigger] r.errors[j]).0,
            ) by {
                assert(key_from(sources, (n - 1) as nat, p.errors[j].0));
                let i = choose|i: int| 0 <= i < n - 1 && sources[i] == p.errors[j].0;
                assert(0 <= i < n && sources[i] == r.errors[j].0);
            }
        }
    }
}

proof fn lemma_single_rejection_upto(
    sources: Seq<Seq<char>>,
    outcomes: Seq<FileOutcome>,
    k: int,
    n: nat,
)
    requires
        n <= sources.len(),
        sources.len() == outcomes.len(),
        0 <= k < outcomes.len(),
        outcomes[k] is Rejected,
        forall|i: int| 0 <= i < outcomes.len() && i != k ==> !(outcomes[i] is Rejected),
    ensures
        report_upto(sources, outcomes, n).errors == if n > k {
            seq![(sources[k], outcomes[k]->Rejected_0@)]
        } else {
            Seq::<(Seq<char>, Seq<char>)>::empty()
        },
        rejected_count(outcomes, n) == if n > k {
            1nat
        } else {
            0nat
        },
    decreases n,
{
    if n > 0 {
        lemma_single_rejection_upto(sources, outcomes, k, (n - 1) as nat);
        if n - 1 == k {
            lemma_inserted(
                Seq::<(Seq<char>, Seq<char>)>::empty(),
                sources[k],
                outcomes[k]->Rejected_0@,
            );
            assert(Seq::<(Seq<char>, Seq<char>)>::empty().push(
                (sources[k], outcomes[k]->Rejected_0@),
            ) =~= seq![(sources[k], outcomes[k]->Rejected_0@)]);
        }
    }
}

/// Failures stay with their file: in a batch where exactly one file is
/// rejected (say, because its destination already exists) and all others
/// are placed, the report holds exactly that one error, every other file
/// as saved, and no batch error.
pub proof fn lemma_single_conflict(sources: Seq<Seq<char>>, outcomes: Seq<FileOutcome>, k: int)
    requires
        sources.len() == outcomes.len(),
        0 <= k < outcomes.len(),
        outcomes[k] is Rejected,
        forall|i: int| 0 <= i < outcomes.len() && i != k ==> !(outcomes[i] is Rejected),
    ensures
        report_of(sources, outcomes).errors == seq![(sources[k], outcomes[k]->Rejected_0@)],
        report_of(sources, outcomes).saved.len() == sources.len() - 1,
        report_of(sources, outcomes).global.len() == 0,
{
    lemma_single_rejection_upto(sources, outcomes, k, sources.len());
    lemma_every_file_reported(sources, outcomes, sources.len());
}

proof fn lemma_entry_kept(sources: Seq<Seq<char>>, outcomes: Seq<FileOutcome>, k: int, n: nat)
    requires
        n <= sources.len(),
        sources.len() == outcomes.len(),
        sources.no_duplicates(),
        0 <= k < n,
    ensures
        !(outcomes[k] is Rejected) ==> report_upto(sources, outcomes, n).saved.contains(
            sources[k],
        ),
        outcomes[k] is Moved ==> report_upto(sources, outcomes, n).renamed.contains(
            (sources[k], outcomes[k]->Moved_0@),
        ),
    decreases n,
{
    let r = report_upto(sources, outcomes, n);
    let p = report_upto(sources, outcomes, (n - 1) as nat);
    if n - 1 == k {
        if !(outcomes[k] is Rejected) {
            assert(r.saved[r.saved.len() - 1] == sources[k]);
        }
        if outcomes[k] is Moved {
            lemma_inserted(p.renamed, sources[k], outcomes[k]->Moved_0@);
        }
    } else {
        lemma_entry_kept(sources, outcomes, k, (n - 1) as nat);
        if !(outcomes[k] is Rejected) {
            let j = choose|j: int| 0 <= j < p.saved.len() && p.saved[j] == sources[k];
            assert(r.saved[j] == sources[k]);
        }
        if outcomes[k] is Moved {
            let e = (sources[k], outcomes[k]->Moved_0@);
            let j = choose|j: int| 0 <= j < p.renamed.len() && p.renamed[j] == e;
            if outcomes[n - 1] is Moved {
                assert(sources[n - 1] != sources[k]);
                lemma_inserted(p.renamed, sources[n - 1], outcomes[n - 1]->Moved_0@);
            }
            assert(r.renamed[j] == e);
        }
    }
}

spec fn from_a_move(
    sources: Seq<Seq<char>>,
    outcomes: Seq<FileOutcome>,
    n: nat,
    e: (Seq<char>, Seq<char>),
) -> bool {
    exists|i: int|
        0 <= i < n && (#[trigger] outcomes[i]) is Moved && e == (sources[i], outcomes[i]->Moved_0@)
}

proof fn lemma_renamed_from_moves(sources: Seq<Seq<char>>, outcomes: Seq<FileOutcome>, n: nat)
    requires
        n <= sources.len(),
        sources.len() == outcomes.len(),
    ensures
        forall|j: int|
            0 <= j < report_upto(sources, outcomes, n).renamed.len() ==> from_a_move(
                sources,
                outcomes,
                n,
                #[trigger] report_upto(sources, outcomes, n).renamed[j],
            ),
    decreases n,
{
    if n > 0 {
        lemma_renamed_from_moves(sources, outcomes, (n - 1) as nat);
        let p = report_upto(sources, outcomes, (n - 1) as nat);
        let r = report_upto(sources, outcomes, n);
        assert forall|j: int| 0 <= j < r.renamed.len() implies from_a_move(
            sources,
            outcomes,
            n,
            #[trigger] r.renamed[j],
        ) by {
            if outcomes[n - 1] is Moved {
                lemma_inserted(p.renamed, sources[n - 1], outcomes[n - 1]->Moved_0@);
            }
            if r.renamed[j] == (sources[n - 1], outcomes[n - 1]->Moved_0@) && outcomes[n
                - 1] is Moved {
                assert(outcomes[n - 1] is Moved);
            } else {
                assert(r.renamed[j] == p.renamed[j]);
                assert(from_a_move(sources, outcomes, (n - 1) as nat, p.renamed[j]));
                let i = choose|i: int|
                    0 <= i < n - 1 && (#[trigger] outcomes[i]) is Moved && p.renamed[j] == (
                        sources[i],
                        outcomes[i]->Moved_0@,
                    );
                assert(0 <= i < n && outcomes[i] is Moved);
            }
        }
    }
}

/// Moving and copying differ in the report: a moved file is saved and
/// mapped from its source path to its destination; a copied file is saved
/// and, source paths being distinct, has no entry among the renamed files.
pub proof fn lemma_move_and_copy_reported(
    sources: Seq<Seq<char>>,
    outcomes: Seq<FileOutcome>,
    k: int,
)
    requires
        sources.len() == outcomes.len(),
        sources.no_duplicates(),
        0 <= k < sources.len(),
    ensures
        outcomes[k] matches FileOutcome::Moved(d) ==> report_of(sources, outcomes).saved.contains(
            sources[k],
        ) && report_of(sources, outcomes).renamed.contains((sources[k], d@)),
        outcomes[k] is Copied ==> report_of(sources, outcomes).saved.contains(sources[k]) && forall|
            j: int,
        |
            0 <= j < report_of(sources, outcomes).renamed.len() ==> report_of(
                sources,
                outcomes,
            ).renamed[j].0 != sources[k],
{
    lemma_entry_kept(sources, outcomes, k, sources.len());
    lemma_renamed_from_moves(sources, outcomes, sources.len());
    let r = report_of(sources, outcomes);
    if outcomes[k] is Copied {
        assert forall|j: int| 0 <= j < r.renamed.len() implies r.renamed[j].0 != sources[k] by {
            assert(from_a_move(sources, outcomes, sources.len(), r.renamed[j]));
            let i = choose|i: int|
                0 <= i < sources.len() && (#[trigger] outcomes[i]) is Moved && r.renamed[j] == (
                    sources[i],
                    outcomes[i]->Moved_0@,
                );
            assert(i != k);
        }
    }
}

} // verus!
