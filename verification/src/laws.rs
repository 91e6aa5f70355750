//! What holds of the engine over any run: laws of the control dispatch and
//! of the transfer machine.

use vstd::prelude::*;
use crate::config::ConfigView;
use crate::db::{
    job_with_id, lemma_position_from, lemma_updated, lemma_with_status, position, StoreView,
};
use crate::download::utils::file_info_for;
use crate::download::{DownloadEventView, DownloadStatus, DownloadView};
use crate::downloader::{after_control, DownloaderView};
use crate::transfer::{
    after, after_chunk, after_client, after_moved, after_response, refreshed, starting,
    stored_path, with_file_info, CommandView, Machine, Oracle, Outcome, TransferInputView,
    TransferPhase, TransferView,
};

verus! {

/// Every completed job of `jobs` has a date of completion.
pub open spec fn completed_jobs_are_dated(jobs: Seq<DownloadView>) -> bool {
    forall|i: int|
        0 <= i < jobs.len() && (#[trigger] jobs[i]).status == DownloadStatus::Completed
            ==> jobs[i].date_completed is Some
}

/// A job is dated if it is completed.
pub open spec fn dated_if_completed(job: DownloadView) -> bool {
    job.status == DownloadStatus::Completed ==> job.date_completed is Some
}

/// A step of a transfer never leaves a completed job without a date of
/// completion, neither in the catalog nor in the transfer.
pub proof fn lemma_step_keeps_completed_jobs_dated(
    m: Machine,
    input: TransferInputView,
    config: ConfigView,
    oracle: Oracle,
)
    requires
        m.store.wf(),
        completed_jobs_are_dated(m.store.jobs),
        dated_if_completed(m.transfer.download),
    ensures
        completed_jobs_are_dated(after(m, input, config, oracle).machine.store.jobs),
        dated_if_completed(after(m, input, config, oracle).machine.transfer.download),
{
    let id = m.id();
    lemma_position_from(m.store.jobs, id, 0);
    let out = after(m, input, config, oracle);
    match (m.transfer.phase, input) {
        (TransferPhase::Moving, TransferInputView::Moved(ok)) => {
            if ok && m.transfer.target is Some {
                lemma_moved_keeps_dated(m, oracle.now);
            }
        },
        _ => {},
    }
}

/// The last step of a transfer leaves its job completed and dated.
proof fn lemma_moved_keeps_dated(m: Machine, now: i64)
    requires
        m.store.wf(),
        completed_jobs_are_dated(m.store.jobs),
        m.transfer.target is Some,
    ensures
        completed_jobs_are_dated(after_moved(m, true, now).machine.store.jobs),
        dated_if_completed(after_moved(m, true, now).machine.transfer.download),
{
    let id = m.id();
    let job = m.transfer.download;
    let placed = m.transfer.target->0;
    let renamed = stored_path(job) != Some(placed);
    let job1 = if renamed {
        DownloadView { output_file: Some(placed), ..job }
    } else {
        job
    };
    let m1 = if renamed {
        m.with_job(job1).persisted()
    } else {
        m
    };
    let job2 = DownloadView { date_completed: Some(now), ..job1 };
    let m2 = m1.with_job(job2).persisted();
    lemma_position_from(m.store.jobs, id, 0);
    lemma_position_from(m1.store.jobs, id, 0);
    lemma_position_from(m2.store.jobs, id, 0);
    match position(m.store.jobs, id) {
        Some(i) => {
            assert(position(m1.store.jobs, id) == Some(i));
            assert(m2.store.jobs[i] == job2);
            assert(position(m2.store.jobs, id) == Some(i));
        },
        None => {
            assert(m1.store == m.store);
            assert(m2.store == m.store);
        },
    }
}

/// Handling a control event never leaves a completed job without a date of
/// completion.
pub proof fn lemma_control_keeps_completed_jobs_dated(
    registry: DownloaderView,
    store: StoreView,
    event: DownloadEventView,
)
    requires
        store.wf(),
        completed_jobs_are_dated(store.jobs),
    ensures
        completed_jobs_are_dated(after_control(registry, store, event).store.jobs),
{
    match event {
        DownloadEventView::ResumeDownload(id) => {
            lemma_position_from(store.jobs, id, 0);
        },
        DownloadEventView::RestartDownload(id) => {
            lemma_position_from(store.jobs, id, 0);
        },
        DownloadEventView::CancelDownload(id) => {
            lemma_position_from(store.jobs, id, 0);
        },
        DownloadEventView::DeleteDownload(id) => {
            lemma_position_from(store.jobs, id, 0);
        },
        _ => {},
    }
}

/// A request to pause is honored at the next chunk: where a job in flight is
/// asked to pause, and not to be canceled, the step that takes its next chunk
/// leaves it paused, in the transfer and in the catalog, reports this, ends
/// the transfer, and takes the job out of the jobs in flight and out of the
/// requests to pause.
pub proof fn lemma_pause_is_honored_at_next_chunk(
    m: Machine,
    len: u64,
    config: ConfigView,
    oracle: Oracle,
)
    requires
        m.store.wf(),
        m.transfer.phase == TransferPhase::Streaming,
        m.registry.downloading.contains(m.id()),
        m.registry.pause_requests.contains(m.id()),
        !m.registry.cancel_requests.contains(m.id()),
        job_with_id(m.store.jobs, m.id()) is Some,
    ensures
        ({
            let out = after(m, TransferInputView::Chunk(len), config, oracle);
            &&& out.machine.transfer.download.status == DownloadStatus::Paused
            &&& job_with_id(out.machine.store.jobs, m.id()) is Some
            &&& job_with_id(out.machine.store.jobs, m.id())->0.status == DownloadStatus::Paused
            &&& !out.machine.registry.downloading.contains(m.id())
            &&& !out.machine.registry.pause_requests.contains(m.id())
            &&& out.machine.transfer.phase == TransferPhase::Finished
            &&& out.events == seq![DownloadEventView::DownloadUpdate(out.machine.transfer.download)]
            &&& out.command == CommandView::Stop
        }),
{
    lemma_with_status(m.store, m.id(), DownloadStatus::Paused, m.id());
}

/// A request to cancel is honored at the next chunk, before a request to
/// pause: the step that takes the next chunk leaves the job canceled, takes
/// it out of the jobs in flight and out of the requests to cancel, and
/// commands the scratch file to be emptied.
pub proof fn lemma_cancel_is_honored_at_next_chunk(
    m: Machine,
    len: u64,
    config: ConfigView,
    oracle: Oracle,
)
    requires
        m.store.wf(),
        m.transfer.phase == TransferPhase::Streaming,
        m.registry.cancel_requests.contains(m.id()),
        job_with_id(m.store.jobs, m.id()) is Some,
    ensures
        ({
            let out = after(m, TransferInputView::Chunk(len), config, oracle);
            &&& out.machine.transfer.download.status == DownloadStatus::Canceled
            &&& job_with_id(out.machine.store.jobs, m.id()) is Some
            &&& job_with_id(out.machine.store.jobs, m.id())->0.status == DownloadStatus::Canceled
            &&& !out.machine.registry.downloading.contains(m.id())
            &&& !out.machine.registry.cancel_requests.contains(m.id())
            &&& out.machine.transfer.phase == TransferPhase::Finished
            &&& out.command == CommandView::EmptyScratchAndStop(m.transfer.download.temp_file)
        }),
{
    lemma_with_status(m.store, m.id(), DownloadStatus::Canceled, m.id());
}

/// A step of the transfer of one job leaves every other job of the catalog
/// as it was.
pub proof fn lemma_step_touches_one_job(
    m: Machine,
    input: TransferInputView,
    config: ConfigView,
    oracle: Oracle,
    other: i64,
)
    requires
        m.store.wf(),
        other != m.id(),
    ensures
        job_with_id(after(m, input, config, oracle).machine.store.jobs, other) == job_with_id(
            m.store.jobs,
            other,
        ),
{
    let id = m.id();
    let job = m.transfer.download;
    lemma_position_from(m.store.jobs, id, 0);
    lemma_with_status(m.store, id, DownloadStatus::Starting, other);
    lemma_with_status(m.store, id, DownloadStatus::InProgress, other);
    lemma_with_status(m.store, id, DownloadStatus::Paused, other);
    lemma_with_status(m.store, id, DownloadStatus::Canceled, other);
    lemma_with_status(m.store, id, DownloadStatus::ClientError, other);
    lemma_with_status(m.store, id, DownloadStatus::ServerError, other);
    lemma_with_status(m.store, id, DownloadStatus::UnknownError, other);
    match (m.transfer.phase, input) {
        (TransferPhase::Requesting, TransferInputView::Response { success, url, held }) => {
            let info = file_info_for(url, held);
            if success && info is Some {
                lemma_updated(
                    m.store,
                    with_file_info(job, info->0, oracle.path),
                    other,
                );
            }
        },
        (TransferPhase::Moving, TransferInputView::Moved(ok)) => {
            if ok && m.transfer.target is Some {
                let placed = m.transfer.target->0;
                let renamed = stored_path(job) != Some(placed);
                let job1 = if renamed {
                    DownloadView { output_file: Some(placed), ..job }
                } else {
                    job
                };
                let m1 = if renamed {
                    m.with_job(job1).persisted()
                } else {
                    m
                };
                let job2 = DownloadView { date_completed: Some(oracle.now), ..job1 };
                let m2 = m1.with_job(job2).persisted();
                lemma_updated(m.store, job1, other);
                lemma_updated(m1.store, job2, other);
                lemma_with_status(m2.store, id, DownloadStatus::Completed, other);
            }
        },
        _ => {},
    }
}

/// The status that the catalog holds for the job `id`.
pub open spec fn status_in(store: StoreView, id: i64) -> Option<DownloadStatus> {
    match job_with_id(store.jobs, id) {
        Some(job) => Some(job.status),
        None => None,
    }
}

/// Whether `out` reports a change of the status that the catalog holds for
/// the job `id`: where the status differs from the one in `before`, the
/// events end with the report of the job in the new status.
pub open spec fn reports_status_change(before: StoreView, id: i64, out: Outcome) -> bool {
    status_in(out.machine.store, id) != status_in(before, id) ==> {
        &&& out.events.len() > 0
        &&& out.events.last() matches DownloadEventView::DownloadUpdate(job)
        &&& job.id == id
        &&& status_in(out.machine.store, id) == Some(job.status)
    }
}

/// The end of a transfer reports the status in which it ends.
proof fn lemma_end_is_reported(m: Machine, status: DownloadStatus)
    requires
        m.store.wf(),
    ensures
        reports_status_change(m.store, m.id(), m.end_in(status)),
{
    lemma_with_status(m.store, m.id(), status, m.id());
}

/// The step into the status `Starting` reports it.
proof fn lemma_starting_is_reported(m: Machine, config: ConfigView)
    requires
        m.store.wf(),
    ensures
        reports_status_change(m.store, m.id(), starting(m, config)),
{
    lemma_with_status(m.store, m.id(), DownloadStatus::Starting, m.id());
}

/// The step into the status `InProgress` reports it.
proof fn lemma_client_is_reported(m: Machine, ok: bool)
    requires
        m.store.wf(),
    ensures
        reports_status_change(m.store, m.id(), after_client(m, ok)),
{
    lemma_with_status(m.store, m.id(), DownloadStatus::InProgress, m.id());
    lemma_end_is_reported(m, DownloadStatus::ClientError);
}

/// The step that reads the head of the response reports the job as it
/// writes it.
proof fn lemma_response_is_reported(
    m: Machine,
    success: bool,
    url: Seq<char>,
    held: Map<Seq<char>, Seq<char>>,
    path: Seq<char>,
)
    requires
        m.store.wf(),
    ensures
        reports_status_change(m.store, m.id(), after_response(m, success, url, held, path)),
{
    let info = file_info_for(url, held);
    lemma_end_is_reported(m, DownloadStatus::ServerError);
    lemma_end_is_reported(m, DownloadStatus::UnknownError);
    if success && info is Some {
        lemma_updated(m.store, with_file_info(m.transfer.download, info->0, path), m.id());
    }
}

/// The step that honors a request reports the status that it leaves.
proof fn lemma_chunk_is_reported(m: Machine, len: u64)
    requires
        m.store.wf(),
    ensures
        reports_status_change(m.store, m.id(), after_chunk(m, len)),
{
    lemma_with_status(m.store, m.id(), DownloadStatus::Canceled, m.id());
    lemma_with_status(m.store, m.id(), DownloadStatus::Paused, m.id());
}

/// The last step of a transfer ends its events with the report of the
/// completed job.
proof fn lemma_move_is_reported(m: Machine, ok: bool, now: i64)
    requires
        m.store.wf(),
    ensures
        reports_status_change(m.store, m.id(), after_moved(m, ok, now)),
{
    let id = m.id();
    let job = m.transfer.download;
    lemma_end_is_reported(m, DownloadStatus::ClientError);
    if ok && m.transfer.target is Some {
        let placed = m.transfer.target->0;
        let renamed = stored_path(job) != Some(placed);
        let job1 = if renamed {
            DownloadView { output_file: Some(placed), ..job }
        } else {
            job
        };
        let m1 = if renamed {
            m.with_job(job1).persisted()
        } else {
            m
        };
        let job2 = DownloadView { date_completed: Some(now), ..job1 };
        let m2 = m1.with_job(job2).persisted();
        lemma_updated(m.store, job1, id);
        lemma_updated(m1.store, job2, id);
        lemma_with_status(m2.store, id, DownloadStatus::Completed, id);
        let out = after_moved(m, ok, now);
        assert(out.events.last() == DownloadEventView::DownloadUpdate(
            out.machine.transfer.download,
        ));
    }
}

/// A change of status is reported before anything else happens: a step that
/// changes the status that the catalog holds for the job of the transfer
/// ends its events with the report of the job in that status.
pub proof fn lemma_status_change_is_reported(
    m: Machine,
    input: TransferInputView,
    config: ConfigView,
    oracle: Oracle,
)
    requires
        m.store.wf(),
    ensures
        reports_status_change(m.store, m.id(), after(m, input, config, oracle)),
{
    let id = m.id();
    lemma_position_from(m.store.jobs, id, 0);
    match (m.transfer.phase, input) {
        (TransferPhase::Probing, TransferInputView::ScratchSize(size)) => {
            lemma_starting_is_reported(m, config);
            if size is Some {
                lemma_starting_is_reported(
                    Machine { transfer: TransferView { start_byte: size, ..m.transfer }, ..m },
                    config,
                );
            }
        },
        (TransferPhase::Truncating, TransferInputView::ScratchEmptied) => {
            lemma_starting_is_reported(m, config);
        },
        (TransferPhase::Building, TransferInputView::ClientBuilt(ok)) => {
            lemma_client_is_reported(m, ok);
        },
        (TransferPhase::Requesting, TransferInputView::Response { success, url, held }) => {
            lemma_response_is_reported(m, success, url, held, oracle.path);
        },
        (TransferPhase::Requesting, TransferInputView::RequestFailed) => {
            lemma_end_is_reported(m, DownloadStatus::UnknownError);
        },
        (TransferPhase::Opening, TransferInputView::ScratchOpened(len)) => {
            lemma_end_is_reported(m, DownloadStatus::ClientError);
        },
        (TransferPhase::Streaming, TransferInputView::Chunk(len)) => {
            lemma_chunk_is_reported(m, len);
        },
        (TransferPhase::Streaming, TransferInputView::BodyEnd) | (
            TransferPhase::Confirming,
            TransferInputView::Tick,
        ) => {
            lemma_end_is_reported(m.with_job(refreshed(m)), DownloadStatus::UnknownError);
        },
        (TransferPhase::Streaming, TransferInputView::BodyFailed) => {
            lemma_end_is_reported(m, DownloadStatus::UnknownError);
        },
        (TransferPhase::Writing, TransferInputView::Written { ok, now_ms }) => {
            lemma_end_is_reported(m, DownloadStatus::ClientError);
        },
        (TransferPhase::Listing, TransferInputView::Listing { exists, paths }) => {
            lemma_end_is_reported(m, DownloadStatus::ClientError);
        },
        (TransferPhase::Moving, TransferInputView::Moved(ok)) => {
            lemma_move_is_reported(m, ok, oracle.now);
        },
        _ => {},
    }
}

/// A transfer that has ended is in flight no more: after a step that ends a
/// transfer which had begun, its job is not among the jobs in flight.
pub proof fn lemma_ended_transfer_is_released(
    m: Machine,
    input: TransferInputView,
    config: ConfigView,
    oracle: Oracle,
)
    requires
        m.transfer.phase != TransferPhase::Created,
        m.transfer.phase != TransferPhase::Finished,
    ensures
        ({
            let out = after(m, input, config, oracle);
            out.machine.transfer.phase == TransferPhase::Finished
                ==> !out.machine.registry.downloading.contains(m.id())
        }),
{
    lemma_position_from(m.store.jobs, m.id(), 0);
}

} // verus!
