//! The admission controller: which pending jobs one tick hands to the
//! executor.

use vstd::prelude::*;
use crate::db::{selected_by_status, DBError, Store};
use crate::download::{DownloadStatus, DownloadView};

verus! {

/// The time between two ticks of admission, in milliseconds.
pub const ADMISSION_TICK_MS: u64 = 500;

/// How many pending jobs one tick admits: as many as there are, but no more
/// than the cap leaves room for beside the jobs in progress.
pub open spec fn admitted(in_progress: nat, pending: nat, cap: nat) -> nat {
    if in_progress >= cap {
        0
    } else if pending <= cap - in_progress {
        pending
    } else {
        (cap - in_progress) as nat
    }
}

/// The ids of the first `n` of `jobs`.
pub open spec fn first_ids(jobs: Seq<DownloadView>, n: nat) -> Seq<i64> {
    Seq::new(n, |i: int| jobs[i].id)
}

/// One tick of admission: the ids of the pending jobs that are to be handed
/// to the executor now, in catalog order. Jobs are admitted while the jobs in
/// progress, counted together with those admitted in this tick, are fewer
/// than `max_downloads`.
pub fn pending_downloads_checker(store: &Store, max_downloads: u16) -> (r: Result<Vec<i64>, DBError>)
    ensures
        r is Ok,
        ({
            let in_progress = selected_by_status(store@.jobs, DownloadStatus::InProgress, true);
            let pending = selected_by_status(store@.jobs, DownloadStatus::Pending, true);
            &&& r->Ok_0@ == first_ids(
                pending,
                admitted(in_progress.len(), pending.len(), max_downloads as nat),
            )
            &&& r->Ok_0@.len() > 0 ==> in_progress.len() + r->Ok_0@.len() <= max_downloads
        }),
{
    let running = match crate::db::get_in_progress_downloads(store) {
        Ok(jobs) => jobs,
        Err(e) => {
            return Err(e);
        },
    };
    let downloads = match crate::db::get_pending_downloads(store) {
        Ok(jobs) => jobs,
        Err(e) => {
            return Err(e);
        },
    };
    let ghost in_progress = selected_by_status(store@.jobs, DownloadStatus::InProgress, true);
    let ghost pending = selected_by_status(store@.jobs, DownloadStatus::Pending, true);
    assert(running@.len() == in_progress.len()) by {
        assert(crate::db::job_views(running@).len() == running@.len());
    }
    assert(downloads@.len() == pending.len()) by {
        assert(crate::db::job_views(downloads@).len() == downloads@.len());
    }
    let cap: usize = max_downloads as usize;
    let mut ids: Vec<i64> = Vec::new();
    let mut i: usize = 0;
    while i < downloads.len() && running.len() < cap && i < cap - running.len()
        invariant
            i <= downloads.len(),
            ids@.len() == i,
            running@.len() >= cap ==> i == 0,
            running@.len() < cap ==> i <= cap - running@.len(),
            forall|k: int| 0 <= k < i ==> ids@[k] == downloads@[k]@.id,
        decreases downloads.len() - i,
    {
        ids.push(downloads[i].id);
        i = i + 1;
    }
    proof {
        assert(crate::db::job_views(downloads@) == pending);
        assert forall|k: int| 0 <= k < i implies ids@[k] == pending[k].id by {
            assert(pending[k] == crate::db::job_views(downloads@)[k]);
        }
        assert(i == admitted(in_progress.len(), pending.len(), max_downloads as nat));
        assert(ids@ =~= first_ids(
            pending,
            admitted(in_progress.len(), pending.len(), max_downloads as nat),
        ));
    }
    Ok(ids)
}

/// Only pending jobs are admitted: every id that a tick hands out is the id
/// of a job of the catalog whose status is `Pending`.
pub proof fn lemma_admitted_jobs_are_pending(jobs: Seq<DownloadView>, n: nat, k: int)
    requires
        n <= selected_by_status(jobs, DownloadStatus::Pending, true).len(),
        0 <= k < n,
    ensures
        exists|i: int|
            0 <= i < jobs.len() && (#[trigger] jobs[i]).status == DownloadStatus::Pending
                && jobs[i].id == first_ids(
                selected_by_status(jobs, DownloadStatus::Pending, true),
                n,
            )[k],
{
    let keep = |job: DownloadView| (job.status == DownloadStatus::Pending) == true;
    let pending = jobs.filter(keep);
    jobs.lemma_filter_pred(keep, k);
    assert(pending.contains(pending[k]));
    jobs.lemma_filter_contains_rev(keep, pending[k]);
    let i = choose|i: int| 0 <= i < jobs.len() && jobs[i] == pending[k];
    assert(jobs[i].status == DownloadStatus::Pending);
}

/// A tick never admits a job beyond the cap: with the jobs admitted, the jobs
/// in progress are at most the cap, or as many as they were before.
pub proof fn lemma_admission_respects_cap(in_progress: nat, pending: nat, cap: nat)
    ensures
        admitted(in_progress, pending, cap) <= pending,
        in_progress + admitted(in_progress, pending, cap) <= cap || admitted(
            in_progress,
            pending,
            cap,
        ) == 0,
        in_progress <= cap ==> in_progress + admitted(in_progress, pending, cap) <= cap,
        in_progress + pending <= cap ==> admitted(in_progress, pending, cap) == pending,
{
}

} // verus!
