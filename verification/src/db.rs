//! The job catalog: a keyed collection of jobs with its queries, the shape
//! in which a job is stored as a table row, and the schema migrations.

use vstd::prelude::*;
use vstd::seq_lib::to_multiset_insert;
use crate::config::{Config, ConfigView, NamedCategory, NamedCategoryView};
use crate::download::{opt_text, Download, DownloadStatus, DownloadView};
use crate::text::{
    concat, ends_with, from_chars, has_suffix, same_text, signed_decimal, signed_decimal_chars,
    to_chars,
};

verus! {

/// Why an operation on the catalog failed.
#[derive(Debug)]
pub enum DBError {
    /// No job has this id.
    DownloadNotFound(i64),
    /// The storage layer failed; the text says how.
    RusqliteError(String),
    /// The file system failed; the text says how.
    IOError(String),
}

impl DBError {
    /// What the error says, in words.
    pub open spec fn message_text(self) -> Seq<char> {
        match self {
            DBError::DownloadNotFound(id) => "Download #"@ + signed_decimal(id as int)
                + " not found"@,
            DBError::RusqliteError(text) => "Rusqlite error: "@ + text@,
            DBError::IOError(text) => "IO error: "@ + text@,
        }
    }

    /// What the error says, in words.
    pub fn message(&self) -> (r: String)
        ensures
            r@ == self.message_text(),
    {
        match self {
            DBError::DownloadNotFound(id) => from_chars(
                &concat(
                    &concat(&to_chars("Download #"), &signed_decimal_chars(*id)),
                    &to_chars(" not found"),
                ),
            ),
            DBError::RusqliteError(text) => from_chars(
                &concat(&to_chars("Rusqlite error: "), &to_chars(text.as_str())),
            ),
            DBError::IOError(text) => from_chars(
                &concat(&to_chars("IO error: "), &to_chars(text.as_str())),
            ),
        }
    }
}

/// The views of a sequence of jobs.
pub open spec fn job_views(jobs: Seq<Download>) -> Seq<DownloadView> {
    Seq::new(jobs.len(), |i: int| jobs[i]@)
}

/// `job` under another id.
pub open spec fn with_id(job: DownloadView, id: i64) -> DownloadView {
    DownloadView { id, ..job }
}

/// `job` in another status.
pub open spec fn with_status(job: DownloadView, status: DownloadStatus) -> DownloadView {
    DownloadView { status, ..job }
}

/// Index of the first job at or after `from` whose id is `id`.
pub open spec fn position_from(jobs: Seq<DownloadView>, id: i64, from: int) -> Option<int>
    decreases jobs.len() - from,
{
    if from < 0 || from >= jobs.len() {
        None
    } else if jobs[from].id == id {
        Some(from)
    } else {
        position_from(jobs, id, from + 1)
    }
}

/// Index of the job whose id is `id`.
pub open spec fn position(jobs: Seq<DownloadView>, id: i64) -> Option<int> {
    position_from(jobs, id, 0)
}

/// The job whose id is `id`.
pub open spec fn job_with_id(jobs: Seq<DownloadView>, id: i64) -> Option<DownloadView> {
    match position(jobs, id) {
        Some(i) => Some(jobs[i]),
        None => None,
    }
}

/// The position of an id is the index of a job with this id, and of the
/// first one; where there is none, no job at or after `from` has the id.
pub proof fn lemma_position_from(jobs: Seq<DownloadView>, id: i64, from: int)
    requires
        0 <= from,
    ensures
        match position_from(jobs, id, from) {
            Some(i) => from <= i < jobs.len() && jobs[i].id == id && forall|j: int|
                from <= j < i ==> jobs[j].id != id,
            None => forall|j: int| from <= j < jobs.len() ==> jobs[j].id != id,
        },
    decreases jobs.len() - from,
{
    if from >= jobs.len() {
    } else if jobs[from].id == id {
    } else {
        lemma_position_from(jobs, id, from + 1);
    }
}

/// Replacing a job by one of the same id moves no job.
pub proof fn lemma_update_keeps_positions(
    jobs: Seq<DownloadView>,
    i: int,
    job: DownloadView,
    id: i64,
    from: int,
)
    requires
        0 <= i < jobs.len(),
        jobs[i].id == job.id,
        0 <= from,
    ensures
        position_from(jobs.update(i, job), id, from) == position_from(jobs, id, from),
    decreases jobs.len() - from,
{
    if from < jobs.len() {
        if jobs[from].id != id {
            lemma_update_keeps_positions(jobs, i, job, id, from + 1);
        }
    }
}

/// The catalog as a mathematical value: its jobs in the order in which they
/// were added, and the last id that was given out.
pub struct StoreView {
    pub jobs: Seq<DownloadView>,
    pub last_id: i64,
}

impl StoreView {
    /// Every job has an id of its own, between 1 and the last id given out.
    pub open spec fn wf(self) -> bool {
        &&& self.last_id >= 0
        &&& forall|i: int| 0 <= i < self.jobs.len() ==> 1 <= (#[trigger] self.jobs[i]).id <= self.last_id
        &&& forall|i: int, j: int|
            0 <= i < j < self.jobs.len() ==> (#[trigger] self.jobs[i]).id != (#[trigger] self.jobs[j]).id
    }

    /// The catalog after `job` was added under the next id.
    pub open spec fn inserted(self, job: DownloadView) -> StoreView {
        StoreView {
            jobs: self.jobs.push(with_id(job, (self.last_id + 1) as i64)),
            last_id: (self.last_id + 1) as i64,
        }
    }

    /// The catalog after the job with the id of `job` was replaced by `job`.
    pub open spec fn updated(self, job: DownloadView) -> StoreView {
        match position(self.jobs, job.id) {
            Some(i) => StoreView { jobs: self.jobs.update(i, job), ..self },
            None => self,
        }
    }

    /// The catalog after the job with this id was given this status.
    pub open spec fn with_status(self, id: i64, status: DownloadStatus) -> StoreView {
        match position(self.jobs, id) {
            Some(i) => StoreView { jobs: self.jobs.update(i, with_status(self.jobs[i], status)), ..self },
            None => self,
        }
    }

    /// The catalog after the job with this id was removed.
    pub open spec fn deleted(self, id: i64) -> StoreView {
        match position(self.jobs, id) {
            Some(i) => StoreView { jobs: self.jobs.remove(i), ..self },
            None => self,
        }
    }

    /// How many jobs have this id: one or none.
    pub open spec fn count(self, id: i64) -> usize {
        if position(self.jobs, id) is Some {
            1
        } else {
            0
        }
    }
}

/// What a change of status does to the catalog: the job with the id has the
/// status, and every other job is as it was.
pub proof fn lemma_with_status(store: StoreView, id: i64, status: DownloadStatus, other: i64)
    requires
        store.wf(),
    ensures
        store.with_status(id, status).wf(),
        job_with_id(store.with_status(id, status).jobs, id) == match job_with_id(store.jobs, id) {
            Some(job) => Some(with_status(job, status)),
            None => None,
        },
        other != id ==> job_with_id(store.with_status(id, status).jobs, other) == job_with_id(
            store.jobs,
            other,
        ),
        position(store.with_status(id, status).jobs, other) == position(store.jobs, other),
{
    lemma_position_from(store.jobs, id, 0);
    match position(store.jobs, id) {
        Some(i) => {
            lemma_update_keeps_positions(store.jobs, i, with_status(store.jobs[i], status), id, 0);
            lemma_update_keeps_positions(
                store.jobs,
                i,
                with_status(store.jobs[i], status),
                other,
                0,
            );
            lemma_position_from(store.jobs, other, 0);
        },
        None => {},
    }
}

/// What writing a job does to the catalog: where a job with its id is there,
/// it is replaced, and every other job is as it was.
pub proof fn lemma_updated(store: StoreView, job: DownloadView, other: i64)
    requires
        store.wf(),
    ensures
        store.updated(job).wf(),
        job_with_id(store.updated(job).jobs, job.id) == match job_with_id(store.jobs, job.id) {
            Some(_) => Some(job),
            None => None,
        },
        other != job.id ==> job_with_id(store.updated(job).jobs, other) == job_with_id(
            store.jobs,
            other,
        ),
        position(store.updated(job).jobs, other) == position(store.jobs, other),
{
    lemma_position_from(store.jobs, job.id, 0);
    match position(store.jobs, job.id) {
        Some(i) => {
            lemma_update_keeps_positions(store.jobs, i, job, job.id, 0);
            lemma_update_keeps_positions(store.jobs, i, job, other, 0);
            lemma_position_from(store.jobs, other, 0);
        },
        None => {},
    }
}

/// Whether `jobs` can be the jobs of a catalog: every one has an id of its
/// own, which is at least 1.
pub open spec fn ids_valid(jobs: Seq<DownloadView>) -> bool {
    &&& forall|i: int| 0 <= i < jobs.len() ==> (#[trigger] jobs[i]).id >= 1
    &&& forall|i: int, j: int|
        0 <= i < j < jobs.len() ==> (#[trigger] jobs[i]).id != (#[trigger] jobs[j]).id
}

/// The catalog of jobs.
#[derive(Debug)]
pub struct Store {
    jobs: Vec<Download>,
    last_id: i64,
}

impl View for Store {
    type V = StoreView;

    closed spec fn view(&self) -> StoreView {
        StoreView { jobs: job_views(self.jobs@), last_id: self.last_id }
    }
}

impl Store {
    /// An empty catalog, which has given out no id yet.
    pub fn new() -> (r: Store)
        ensures
            r@.wf(),
            r@.jobs.len() == 0,
            r@.last_id == 0,
    {
        let r = Store { jobs: Vec::new(), last_id: 0 };
        assert(r@.jobs =~= Seq::<DownloadView>::empty());
        r
    }

    /// A catalog that holds `jobs`, or `None` where two of them share an id
    /// or one has an id below 1.
    pub fn load(jobs: Vec<Download>) -> (r: Option<Store>)
        ensures
            match r {
                Some(s) => ids_valid(job_views(jobs@)) && s@.wf() && s@.jobs == job_views(jobs@),
                None => !ids_valid(job_views(jobs@)),
            },
    {
        let mut last_id: i64 = 0;
        let mut i: usize = 0;
        while i < jobs.len()
            invariant
                i <= jobs.len(),
                last_id >= 0,
                forall|k: int| 0 <= k < i ==> 1 <= (#[trigger] jobs@[k]).id <= last_id,
                forall|k: int, l: int| 0 <= k < l < i ==> (#[trigger] jobs@[k]).id != (#[trigger] jobs@[l]).id,
            decreases jobs.len() - i,
        {
            if jobs[i].id < 1 {
                assert(job_views(jobs@)[i as int].id < 1);
                return None;
            }
            let mut k: usize = 0;
            while k < i
                invariant
                    k <= i < jobs.len(),
                    forall|l: int| 0 <= l < k ==> (#[trigger] jobs@[l]).id != jobs@[i as int].id,
                decreases i - k,
            {
                if jobs[k].id == jobs[i].id {
                    assert(job_views(jobs@)[k as int].id == job_views(jobs@)[i as int].id);
                    return None;
                }
                k = k + 1;
            }
            if jobs[i].id > last_id {
                last_id = jobs[i].id;
            }
            i = i + 1;
        }
        let s = Store { jobs, last_id };
        assert(s@.wf()) by {
            assert(forall|k: int| 0 <= k < s@.jobs.len() ==> s@.jobs[k] == jobs@[k]@);
        }
        Some(s)
    }

    /// Index of the job whose id is `id`.
    fn find(&self, id: i64) -> (r: Option<usize>)
        ensures
            match r {
                Some(i) => position(self@.jobs, id) == Some(i as int) && i < self.jobs.len(),
                None => position(self@.jobs, id) is None,
            },
    {
        let mut i: usize = 0;
        while i < self.jobs.len()
            invariant
                i <= self.jobs.len(),
                position(self@.jobs, id) == position_from(self@.jobs, id, i as int),
            decreases self.jobs.len() - i,
        {
            assert(self@.jobs[i as int] == self.jobs@[i as int]@);
            if self.jobs[i].id == id {
                return Some(i);
            }
            i = i + 1;
        }
        None
    }

    /// The last id that the catalog gave out.
    pub fn last_id(&self) -> (r: i64)
        ensures
            r == self@.last_id,
    {
        self.last_id
    }
}

/// Adds `download` to the catalog under the next id, and gives this id. The
/// id that `download` carries is not looked at. Fails only where no id is left.
pub fn new_download(store: &mut Store, download: &Download) -> (r: Result<i64, DBError>)
    requires
        old(store)@.wf(),
    ensures
        final(store)@.wf(),
        match r {
            Ok(id) => old(store)@.last_id < i64::MAX && id == old(store)@.last_id + 1 && final(store)@ == old(store)@.inserted(download@),
            Err(e) => old(store)@.last_id == i64::MAX && e is RusqliteError && final(store)@ == old(store)@,
        },
{
    if store.last_id == i64::MAX {
        return Err(DBError::RusqliteError("no id is left".to_owned()));
    }
    let id: i64 = store.last_id + 1;
    let mut job = download.clone();
    job.id = id;
    let ghost before = store@;
    store.jobs.push(job);
    store.last_id = id;
    assert(store@.jobs =~= before.jobs.push(with_id(download@, id)));
    Ok(id)
}

/// All jobs, in the order in which they were added.
pub fn get_all_downloads(store: &Store) -> (r: Result<Vec<Download>, DBError>)
    ensures
        r is Ok,
        job_views(r->Ok_0@) == store@.jobs,
{
    let mut out: Vec<Download> = Vec::new();
    let mut i: usize = 0;
    while i < store.jobs.len()
        invariant
            i <= store.jobs.len(),
            out.len() == i,
            forall|k: int| 0 <= k < i ==> out@[k]@ == store.jobs@[k]@,
        decreases store.jobs.len() - i,
    {
        out.push(store.jobs[i].clone());
        i = i + 1;
    }
    assert(job_views(out@) =~= store@.jobs);
    Ok(out)
}

/// The job whose id is `id`, or `DownloadNotFound` where there is none.
pub fn get_download_by_id(store: &Store, id: i64) -> (r: Result<Download, DBError>)
    ensures
        match r {
            Ok(job) => job_with_id(store@.jobs, id) == Some(job@),
            Err(e) => job_with_id(store@.jobs, id) is None && e == DBError::DownloadNotFound(id),
        },
{
    match store.find(id) {
        Some(i) => {
            assert(store@.jobs[i as int] == store.jobs@[i as int]@);
            Ok(store.jobs[i].clone())
        },
        None => Err(DBError::DownloadNotFound(id)),
    }
}

/// Replaces the job that has the id of `download` by `download`, and says how
/// many jobs were replaced: one, or none where no job has this id.
pub fn update_download(store: &mut Store, download: &Download) -> (r: Result<usize, DBError>)
    requires
        old(store)@.wf(),
    ensures
        final(store)@.wf(),
        r == Ok::<usize, DBError>(old(store)@.count(download@.id)),
        final(store)@ == old(store)@.updated(download@),
{
    proof {
        lemma_position_from(store@.jobs, download@.id, 0);
    }
    match store.find(download.id) {
        Some(i) => {
            let ghost before = store@;
            store.jobs.set(i, download.clone());
            assert(store@.jobs =~= before.jobs.update(i as int, download@));
            Ok(1)
        },
        None => Ok(0),
    }
}

/// Removes the job whose id is `download_id`, and says how many jobs were
/// removed: one, or none where no job has this id.
pub fn delete_download(store: &mut Store, download_id: i64) -> (r: Result<usize, DBError>)
    requires
        old(store)@.wf(),
    ensures
        final(store)@.wf(),
        r == Ok::<usize, DBError>(old(store)@.count(download_id)),
        final(store)@ == old(store)@.deleted(download_id),
{
    match store.find(download_id) {
        Some(i) => {
            let ghost before = store@;
            store.jobs.remove(i);
            assert(store@.jobs =~= before.jobs.remove(i as int));
            Ok(1)
        },
        None => Ok(0),
    }
}

/// Gives the job whose id is `download_id` the status `status`, and says how
/// many jobs were changed: one, or none where no job has this id.
pub fn change_download_status(store: &mut Store, download_id: &i64, status: &DownloadStatus) -> (r:
    Result<usize, DBError>)
    requires
        old(store)@.wf(),
    ensures
        final(store)@.wf(),
        r == Ok::<usize, DBError>(old(store)@.count(*download_id)),
        final(store)@ == old(store)@.with_status(*download_id, *status),
{
    proof {
        lemma_position_from(store@.jobs, *download_id, 0);
    }
    match store.find(*download_id) {
        Some(i) => {
            let ghost before = store@;
            assert(store@.jobs[i as int] == store.jobs@[i as int]@);
            let mut job = store.jobs[i].clone();
            job.status = *status;
            store.jobs.set(i, job);
            assert(store@.jobs =~= before.jobs.update(
                i as int,
                with_status(before.jobs[i as int], *status),
            ));
            Ok(1)
        },
        None => Ok(0),
    }
}

/// `job` with the output file that the client asked for.
pub open spec fn with_output_file(job: DownloadView, output_file: Seq<char>) -> DownloadView {
    DownloadView { output_file: Some(output_file), ..job }
}

/// `job` with its data confirmed.
pub open spec fn confirmed(job: DownloadView) -> DownloadView {
    DownloadView { data_confirmed: true, ..job }
}

/// Sets the output file of the job whose id is `download_id`, or fails with
/// `DownloadNotFound` where there is none.
pub fn change_download_output_file_path(store: &mut Store, download_id: i64, output_file: &str) -> (r:
    Result<(), DBError>)
    requires
        old(store)@.wf(),
    ensures
        final(store)@.wf(),
        match job_with_id(old(store)@.jobs, download_id) {
            Some(job) => r is Ok && final(store)@ == old(store)@.updated(
                with_output_file(job, output_file@),
            ),
            None => r == Err::<(), DBError>(DBError::DownloadNotFound(download_id)) && final(store)@
                == old(store)@,
        },
{
    proof {
        lemma_position_from(store@.jobs, download_id, 0);
    }
    match get_download_by_id(store, download_id) {
        Ok(job) => {
            let mut job = job;
            job.output_file = Some(output_file.to_owned());
            let _ = update_download(store, &job);
            Ok(())
        },
        Err(e) => Err(e),
    }
}

/// Marks the data of the job whose id is `download_id` as confirmed, or fails
/// with `DownloadNotFound` where there is none.
pub fn confirm_download_data(store: &mut Store, download_id: i64) -> (r: Result<(), DBError>)
    requires
        old(store)@.wf(),
    ensures
        final(store)@.wf(),
        match job_with_id(old(store)@.jobs, download_id) {
            Some(job) => r is Ok && final(store)@ == old(store)@.updated(confirmed(job)),
            None => r == Err::<(), DBError>(DBError::DownloadNotFound(download_id)) && final(store)@
                == old(store)@,
        },
{
    proof {
        lemma_position_from(store@.jobs, download_id, 0);
    }
    match get_download_by_id(store, download_id) {
        Ok(job) => {
            let mut job = job;
            job.data_confirmed = true;
            let _ = update_download(store, &job);
            Ok(())
        },
        Err(e) => Err(e),
    }
}

/// A job that was added is read back under its new id with the values it
/// was added with, and every job that was there before is read back as
/// before.
pub proof fn lemma_inserted_job_is_read_back(store: StoreView, job: DownloadView, other: i64)
    requires
        store.wf(),
        store.last_id < i64::MAX,
    ensures
        store.inserted(job).wf(),
        job_with_id(store.inserted(job).jobs, (store.last_id + 1) as i64) == Some(
            with_id(job, (store.last_id + 1) as i64),
        ),
        other != store.last_id + 1 ==> job_with_id(store.inserted(job).jobs, other) == job_with_id(
            store.jobs,
            other,
        ),
{
    let id = (store.last_id + 1) as i64;
    let after = store.inserted(job);
    lemma_position_from(after.jobs, id, 0);
    lemma_position_from(after.jobs, other, 0);
    lemma_position_from(store.jobs, other, 0);
    assert(after.jobs[store.jobs.len() as int].id == id);
    assert(forall|k: int| 0 <= k < store.jobs.len() ==> after.jobs[k] == store.jobs[k]);
}

/// The jobs whose status is `status`, where `equal` holds, or is another
/// one, where it does not.
pub open spec fn selected_by_status(
    jobs: Seq<DownloadView>,
    status: DownloadStatus,
    equal: bool,
) -> Seq<DownloadView> {
    jobs.filter(|job: DownloadView| (job.status == status) == equal)
}

/// The jobs whose status is, or is not, `status`, in catalog order.
fn select_by_status(store: &Store, status: DownloadStatus, equal: bool) -> (r: Vec<Download>)
    ensures
        job_views(r@) == selected_by_status(store@.jobs, status, equal),
{
    let ghost keep = |job: DownloadView| (job.status == status) == equal;
    let ghost all = store@.jobs;
    let mut out: Vec<Download> = Vec::new();
    let mut i: usize = 0;
    assert(all.take(0) =~= Seq::<DownloadView>::empty());
    assert(job_views(out@) =~= Seq::<DownloadView>::empty());
    proof {
        reveal(Seq::filter);
    }
    while i < store.jobs.len()
        invariant
            i <= store.jobs.len(),
            all == store@.jobs,
            all.len() == store.jobs.len(),
            keep == |job: DownloadView| (job.status == status) == equal,
            job_views(out@) == all.take(i as int).filter(keep),
        decreases store.jobs.len() - i,
    {
        assert(all[i as int] == store.jobs@[i as int]@);
        assert(all.take(i + 1) =~= all.take(i as int).push(all[i as int]));
        proof {
            all.take(i as int).lemma_filter_push(all[i as int], keep);
        }
        if (store.jobs[i].status == status) == equal {
            let ghost before = job_views(out@);
            out.push(store.jobs[i].clone());
            assert(job_views(out@) =~= before.push(all[i as int]));
        }
        i = i + 1;
    }
    assert(all.take(i as int) =~= all);
    out
}

/// The jobs that wait to be admitted.
pub fn get_pending_downloads(store: &Store) -> (r: Result<Vec<Download>, DBError>)
    ensures
        r is Ok,
        job_views(r->Ok_0@) == selected_by_status(store@.jobs, DownloadStatus::Pending, true),
{
    Ok(select_by_status(store, DownloadStatus::Pending, true))
}

/// The jobs that are in progress.
pub fn get_in_progress_downloads(store: &Store) -> (r: Result<Vec<Download>, DBError>)
    ensures
        r is Ok,
        job_views(r->Ok_0@) == selected_by_status(store@.jobs, DownloadStatus::InProgress, true),
{
    Ok(select_by_status(store, DownloadStatus::InProgress, true))
}

/// The jobs that are completed.
pub fn get_completed_downloads(store: &Store) -> (r: Result<Vec<Download>, DBError>)
    ensures
        r is Ok,
        job_views(r->Ok_0@) == selected_by_status(store@.jobs, DownloadStatus::Completed, true),
{
    Ok(select_by_status(store, DownloadStatus::Completed, true))
}

/// The jobs that are not completed.
pub fn get_uncompleted_downloads(store: &Store) -> (r: Result<Vec<Download>, DBError>)
    ensures
        r is Ok,
        job_views(r->Ok_0@) == selected_by_status(store@.jobs, DownloadStatus::Completed, false),
{
    Ok(select_by_status(store, DownloadStatus::Completed, false))
}

/// The jobs in the status `status`.
pub fn get_downloads_by_status(store: &Store, status: DownloadStatus) -> (r: Result<
    Vec<Download>,
    DBError,
>)
    ensures
        r is Ok,
        job_views(r->Ok_0@) == selected_by_status(store@.jobs, status, true),
{
    Ok(select_by_status(store, status, true))
}

/// The rank of a status in the order by activity.
pub open spec fn activity_bucket(status: DownloadStatus) -> int {
    match status {
        DownloadStatus::InProgress => 1,
        DownloadStatus::Starting => 2,
        DownloadStatus::Pending => 3,
        DownloadStatus::Paused => 4,
        DownloadStatus::Completed => 6,
        _ => 5,
    }
}

/// `a` may stand before `b` in the order by activity: its bucket is lower,
/// or the buckets are the same and it was not added earlier.
pub open spec fn activity_before(a: DownloadView, b: DownloadView) -> bool {
    activity_bucket(a.status) < activity_bucket(b.status) || (activity_bucket(a.status)
        == activity_bucket(b.status) && a.date_added >= b.date_added)
}

/// `jobs` stand in the order by activity.
pub open spec fn sorted_by_activity(jobs: Seq<DownloadView>) -> bool {
    forall|i: int, j: int| 0 <= i < j < jobs.len() ==> activity_before(jobs[i], jobs[j])
}

/// The rank of the status of `job` in the order by activity.
fn bucket(job: &Download) -> (r: u8)
    ensures
        r == activity_bucket(job@.status),
{
    match job.status {
        DownloadStatus::InProgress => 1,
        DownloadStatus::Starting => 2,
        DownloadStatus::Pending => 3,
        DownloadStatus::Paused => 4,
        DownloadStatus::Completed => 6,
        _ => 5,
    }
}

/// Whether `a` may stand before `b` in the order by activity.
fn may_precede(a: &Download, b: &Download) -> (r: bool)
    ensures
        r == activity_before(a@, b@),
{
    let x = bucket(a);
    let y = bucket(b);
    x < y || (x == y && a.date_added >= b.date_added)
}

/// Jobs of the same rank stand in `result` in the order in which `jobs` has
/// them: of two jobs of `result` of which the later may stand before the
/// earlier, the earlier comes first in `jobs`.
pub open spec fn keeps_order_of(result: Seq<DownloadView>, jobs: Seq<DownloadView>) -> bool {
    forall|i: int, j: int|
        0 <= i < j < result.len() && activity_before(#[trigger] result[j], #[trigger] result[i])
            ==> exists|p: int, q: int|
            0 <= p < q < jobs.len() && #[trigger] jobs[p] == result[i] && #[trigger] jobs[q]
                == result[j]
}

/// All jobs in the order by activity: jobs in progress first, then those
/// starting, pending, paused, the canceled and failed ones, and the completed
/// ones last; within one of these groups the job added last comes first, and
/// jobs that were added at the same time keep the order of the catalog.
pub fn get_sorted_downloads(store: &Store) -> (r: Result<Vec<Download>, DBError>)
    ensures
        r is Ok,
        sorted_by_activity(job_views(r->Ok_0@)),
        job_views(r->Ok_0@).to_multiset() == store@.jobs.to_multiset(),
        keeps_order_of(job_views(r->Ok_0@), store@.jobs),
{
    let ghost all = store@.jobs;
    let ghost mut origin: Seq<int> = Seq::empty();
    let mut out: Vec<Download> = Vec::new();
    let mut i: usize = 0;
    assert(all.take(0) =~= Seq::<DownloadView>::empty());
    assert(job_views(out@) =~= Seq::<DownloadView>::empty());
    while i < store.jobs.len()
        invariant
            i <= store.jobs.len(),
            all == store@.jobs,
            all.len() == store.jobs.len(),
            sorted_by_activity(job_views(out@)),
            job_views(out@).to_multiset() == all.take(i as int).to_multiset(),
            origin.len() == out@.len(),
            forall|k: int|
                0 <= k < origin.len() ==> 0 <= #[trigger] origin[k] < i && all[origin[k]]
                    == out@[k]@,
            forall|a: int, b: int|
                0 <= a < b < origin.len() && activity_before(#[trigger] out@[b]@, #[trigger] out@[a]@)
                    ==> origin[a] < origin[b],
        decreases store.jobs.len() - i,
    {
        assert(all[i as int] == store.jobs@[i as int]@);
        let job = &store.jobs[i];
        let mut p: usize = 0;
        while p < out.len() && may_precede(&out[p], job)
            invariant
                p <= out.len(),
                forall|k: int| 0 <= k < p ==> activity_before(#[trigger] out@[k]@, job@),
            decreases out.len() - p,
        {
            p = p + 1;
        }
        let ghost before = job_views(out@);
        let ghost before_out = out@;
        let ghost before_origin = origin;
        out.insert(p, job.clone());
        proof {
            origin = before_origin.insert(p as int, i as int);
            assert(job_views(out@) =~= before.insert(p as int, job@));
            to_multiset_insert(before, p as int, job@);
            assert(all.take(i + 1) =~= all.take(i as int).push(all[i as int]));
            vstd::seq_lib::to_multiset_build(all.take(i as int), all[i as int]);
            let after = job_views(out@);
            assert forall|a: int, b: int| 0 <= a < b < after.len() implies activity_before(
                after[a],
                after[b],
            ) by {
                if a < p && b < p {
                    assert(after[a] == before[a] && after[b] == before[b]);
                } else if a < p && b == p {
                    assert(after[a] == before_out[a]@);
                } else if a < p {
                    assert(after[a] == before[a] && after[b] == before[b - 1]);
                } else if a == p {
                    assert(after[b] == before[b - 1]);
                    assert(!activity_before(before[p as int], job@));
                    if b - 1 > p {
                        assert(activity_before(before[p as int], before[b - 1]));
                    }
                } else {
                    assert(after[a] == before[a - 1] && after[b] == before[b - 1]);
                }
            }
            assert forall|k: int| 0 <= k < origin.len() implies 0 <= #[trigger] origin[k] < i + 1
                && all[origin[k]] == out@[k]@ by {
                if k < p {
                    assert(origin[k] == before_origin[k]);
                    assert(out@[k]@ == after[k] && after[k] == before[k]);
                    assert(before[k] == before_out[k]@);
                } else if k == p {
                    assert(out@[k]@ == after[k]);
                } else {
                    assert(origin[k] == before_origin[k - 1]);
                    assert(out@[k]@ == after[k] && after[k] == before[k - 1]);
                    assert(before[k - 1] == before_out[k - 1]@);
                }
            }
            assert forall|a: int, b: int|
                0 <= a < b < origin.len() && activity_before(
                    #[trigger] out@[b]@,
                    #[trigger] out@[a]@,
                ) implies origin[a] < origin[b] by {
                assert(out@[a]@ == after[a] && out@[b]@ == after[b]);
                if a < p && b < p {
                    assert(after[a] == before_out[a]@ && after[b] == before_out[b]@);
                } else if b == p {
                    assert(origin[a] == before_origin[a]);
                } else if a < p {
                    assert(after[a] == before_out[a]@ && after[b] == before_out[b - 1]@);
                    assert(origin[a] == before_origin[a] && origin[b] == before_origin[b - 1]);
                } else if a == p {
                    assert(after[b] == before[b - 1]);
                    assert(!activity_before(before[p as int], job@));
                    if b - 1 > p {
                        assert(activity_before(before[p as int], before[b - 1]));
                    }
                    assert(false);
                } else {
                    assert(after[a] == before_out[a - 1]@ && after[b] == before_out[b - 1]@);
                    assert(origin[a] == before_origin[a - 1] && origin[b] == before_origin[b - 1]);
                }
            }
        }
        i = i + 1;
    }
    assert(all.take(i as int) =~= all);
    proof {
        let result = job_views(out@);
        assert forall|a: int, b: int|
            0 <= a < b < result.len() && activity_before(
                #[trigger] result[b],
                #[trigger] result[a],
            ) implies exists|p: int, q: int|
            0 <= p < q < all.len() && #[trigger] all[p] == result[a] && #[trigger] all[q]
                == result[b] by {
            assert(result[a] == out@[a]@ && result[b] == out@[b]@);
            let p = origin[a];
            let q = origin[b];
            assert(all[p] == result[a] && all[q] == result[b]);
        }
    }
    Ok(out)
}

/// Whether a path is there and ends with `extension`.
pub open spec fn path_has_extension(path: Option<Seq<char>>, extension: Seq<char>) -> bool {
    match path {
        Some(p) => ends_with(p, extension),
        None => false,
    }
}

/// Whether `job` falls under a category with these extensions: its output
/// file, or the one that was detected for it, ends with one of them.
pub open spec fn in_category(job: DownloadView, extensions: Seq<Seq<char>>) -> bool {
    exists|k: int|
        0 <= k < extensions.len() && (path_has_extension(job.output_file, #[trigger] extensions[k])
            || path_has_extension(job.detected_output_file, extensions[k]))
}

/// Index of the first category at or after `from` that is named `name`.
pub open spec fn category_position(categories: Seq<NamedCategoryView>, name: Seq<char>, from: int) -> Option<
    int,
>
    decreases categories.len() - from,
{
    if from < 0 || from >= categories.len() {
        None
    } else if categories[from].name == name {
        Some(from)
    } else {
        category_position(categories, name, from + 1)
    }
}

/// The jobs that fall under the category named `category`; none where
/// `config` has no such category.
pub open spec fn selected_by_category(
    jobs: Seq<DownloadView>,
    category: Seq<char>,
    config: ConfigView,
) -> Seq<DownloadView> {
    match category_position(config.categories, category, 0) {
        Some(c) => jobs.filter(
            |job: DownloadView| in_category(job, config.categories[c].category.extensions),
        ),
        None => Seq::<DownloadView>::empty(),
    }
}

/// Whether a path is there and ends with `extension`.
fn has_extension(path: &Option<String>, extension: &Vec<char>) -> (r: bool)
    ensures
        r == path_has_extension(opt_text(*path), extension@),
{
    match path {
        Some(p) => has_suffix(&to_chars(p.as_str()), extension),
        None => false,
    }
}

/// Whether `job` falls under `category`.
fn falls_under(job: &Download, category: &NamedCategory) -> (r: bool)
    ensures
        r == in_category(job@, category@.category.extensions),
{
    let mut k: usize = 0;
    while k < category.category.extensions.len()
        invariant
            k <= category.category.extensions.len(),
            forall|j: int|
                0 <= j < k ==> !(path_has_extension(
                    job@.output_file,
                    #[trigger] category@.category.extensions[j],
                ) || path_has_extension(
                    job@.detected_output_file,
                    category@.category.extensions[j],
                )),
        decreases category.category.extensions.len() - k,
    {
        let extension = to_chars(category.category.extensions[k].as_str());
        assert(extension@ == category@.category.extensions[k as int]);
        if has_extension(&job.output_file, &extension) || has_extension(
            &job.detected_output_file,
            &extension,
        ) {
            return true;
        }
        k = k + 1;
    }
    false
}

/// Index of the first category of `config` that is named `name`.
fn find_category_named(config: &Config, name: &str) -> (r: Option<usize>)
    ensures
        match r {
            Some(c) => category_position(config@.categories, name@, 0) == Some(c as int) && c
                < config.categories.len(),
            None => category_position(config@.categories, name@, 0) is None,
        },
{
    let mut c: usize = 0;
    while c < config.categories.len()
        invariant
            c <= config.categories.len(),
            category_position(config@.categories, name@, 0) == category_position(
                config@.categories,
                name@,
                c as int,
            ),
        decreases config.categories.len() - c,
    {
        assert(config@.categories[c as int] == config.categories@[c as int]@);
        if same_text(config.categories[c].name.as_str(), name) {
            return Some(c);
        }
        c = c + 1;
    }
    None
}

/// The jobs that fall under the category named `category`, in catalog order;
/// none where `config` has no such category.
pub fn get_downloads_by_category(store: &Store, category: &str, config: &Config) -> (r: Result<
    Vec<Download>,
    DBError,
>)
    ensures
        r is Ok,
        job_views(r->Ok_0@) == selected_by_category(store@.jobs, category@, config@),
{
    let mut out: Vec<Download> = Vec::new();
    let c = match find_category_named(config, category) {
        Some(c) => c,
        None => {
            assert(job_views(out@) =~= Seq::<DownloadView>::empty());
            return Ok(out);
        },
    };
    assert(config@.categories[c as int] == config.categories@[c as int]@);
    let chosen = &config.categories[c];
    let ghost keep = |job: DownloadView| in_category(job, config@.categories[c as int].category.extensions);
    let ghost all = store@.jobs;
    let mut i: usize = 0;
    assert(all.take(0) =~= Seq::<DownloadView>::empty());
    assert(job_views(out@) =~= Seq::<DownloadView>::empty());
    proof {
        reveal(Seq::filter);
    }
    while i < store.jobs.len()
        invariant
            i <= store.jobs.len(),
            all == store@.jobs,
            all.len() == store.jobs.len(),
            0 <= c < config@.categories.len(),
            chosen@ == config@.categories[c as int],
            keep == |job: DownloadView| in_category(job, config@.categories[c as int].category.extensions),
            job_views(out@) == all.take(i as int).filter(keep),
        decreases store.jobs.len() - i,
    {
        assert(all[i as int] == store.jobs@[i as int]@);
        assert(all.take(i + 1) =~= all.take(i as int).push(all[i as int]));
        proof {
            all.take(i as int).lemma_filter_push(all[i as int], keep);
        }
        if falls_under(&store.jobs[i], chosen) {
            let ghost before = job_views(out@);
            out.push(store.jobs[i].clone());
            assert(job_views(out@) =~= before.push(all[i as int]));
        }
        i = i + 1;
    }
    assert(all.take(i as int) =~= all);
    Ok(out)
}

} // verus!

pub mod rows;
pub mod schema;
