//! The report of sending a batch of files to the trash.
use crate::placement::{paths_of, texts, UserFile};
use vstd::prelude::*;

verus! {

/// Whether every file of a batch went to the trash, and the paths of those
/// that did not, in the order of the batch.
#[derive(Clone, Debug)]
pub struct RemoveResult {
    pub success: bool,
    pub failed_files: Vec<String>,
}

/// The paths among the first `n` whose removal failed.
pub open spec fn failed_upto(paths: Seq<Seq<char>>, trashed: Seq<bool>, n: nat) -> Seq<Seq<char>>
    decreases n,
{
    if n == 0 {
        seq![]
    } else if trashed[n - 1] {
        failed_upto(paths, trashed, (n - 1) as nat)
    } else {
        failed_upto(paths, trashed, (n - 1) as nat).push(paths[n - 1])
    }
}

/// Whether every one of the first `n` removals succeeded.
pub open spec fn all_trashed(trashed: Seq<bool>, n: nat) -> bool {
    forall|i: int| 0 <= i < n ==> trashed[i]
}

/// The report of a batch whose `i`-th file was trashed where `trashed[i]`
/// holds: success exactly when every file was, and the paths of the others.
pub fn removal_report(files: &Vec<UserFile>, trashed: &Vec<bool>) -> (r: RemoveResult)
    requires
        files.len() == trashed.len(),
    ensures
        r.success == all_trashed(trashed@, trashed.len() as nat),
        texts(r.failed_files@) == failed_upto(paths_of(files@), trashed@, files.len() as nat),
{
    let mut r = RemoveResult { success: true, failed_files: Vec::new() };
    let mut i: usize = 0;
    proof {
        assert(texts(r.failed_files@) =~= seq![]);
    }
    while i < files.len()
        invariant
            files.len() == trashed.len(),
            i <= files.len(),
            r.success == all_trashed(trashed@, i as nat),
            texts(r.failed_files@) == failed_upto(paths_of(files@), trashed@, i as nat),
        decreases files.len() - i,
    {
        if !trashed[i] {
            let ghost before = r.failed_files@;
            r.failed_files.push(files[i].path.clone());
            r.success = false;
            proof {
                assert(texts(r.failed_files@) =~= texts(before).push(files@[i as int].path@));
            }
        }
        i = i + 1;
    }
    r
}

proof fn lemma_failed_upto_single(paths: Seq<Seq<char>>, trashed: Seq<bool>, k: int, n: nat)
    requires
        n <= paths.len(),
        paths.len() == trashed.len(),
        0 <= k < trashed.len(),
        forall|i: int| 0 <= i < trashed.len() ==> (trashed[i] <==> i != k),
    ensures
        failed_upto(paths, trashed, n) == if n > k {
            seq![paths[k]]
        } else {
            Seq::<Seq<char>>::empty()
        },
    decreases n,
{
    if n > 0 {
        lemma_failed_upto_single(paths, trashed, k, (n - 1) as nat);
        if n - 1 == k {
            assert(Seq::<Seq<char>>::empty().push(paths[k]) =~= seq![paths[k]]);
        }
    }
}

/// A batch in which exactly one file could not be trashed is reported as a
/// failure that names exactly that file.
pub proof fn lemma_single_removal_failure(paths: Seq<Seq<char>>, trashed: Seq<bool>, k: int)
    requires
        paths.len() == trashed.len(),
        0 <= k < trashed.len(),
        forall|i: int| 0 <= i < trashed.len() ==> (trashed[i] <==> i != k),
    ensures
        !all_trashed(trashed, trashed.len()),
        failed_upto(paths, trashed, paths.len()) == seq![paths[k]],
{
    lemma_failed_upto_single(paths, trashed, k, paths.len());
    assert(!trashed[k]);
}

} // verus!
