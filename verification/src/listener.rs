//! The IPC endpoint: what each request of a client becomes, and which
//! notification each report of the engine becomes.

use vstd::prelude::*;
use crate::config::Config;
use crate::db::{
    confirmed, job_views, job_with_id, keeps_order_of, selected_by_category, selected_by_status,
    sorted_by_activity, with_output_file, Store,
};
use crate::download::{Download, DownloadEvent, DownloadEventView, DownloadStatus, DownloadView};

verus! {

/// The name under which the endpoint is known on the session bus.
pub const SERVICE_NAME: &'static str = "com.github.essmehdi.Flowd";

/// The path of the object that the endpoint serves.
pub const OBJECT_PATH: &'static str = "/com/github/essmehdi/Flowd/Listener";

/// A notification that the endpoint sends to its clients.
#[derive(Debug)]
pub enum Signal {
    NotifyDownloadUpdate(Download),
    NotifyDownloadProgress(i64, u64, u64),
    NotifyDownloadDelete(i64),
    NotifyDownloadError(i64, String),
}

/// A notification as a mathematical value.
pub enum SignalView {
    NotifyDownloadUpdate(DownloadView),
    NotifyDownloadProgress(i64, u64, u64),
    NotifyDownloadDelete(i64),
    NotifyDownloadError(i64, Seq<char>),
}

impl View for Signal {
    type V = SignalView;

    open spec fn view(&self) -> SignalView {
        match self {
            Signal::NotifyDownloadUpdate(job) => SignalView::NotifyDownloadUpdate(job@),
            Signal::NotifyDownloadProgress(id, done, total) => SignalView::NotifyDownloadProgress(
                *id,
                *done,
                *total,
            ),
            Signal::NotifyDownloadDelete(id) => SignalView::NotifyDownloadDelete(*id),
            Signal::NotifyDownloadError(id, message) => SignalView::NotifyDownloadError(
                *id,
                message@,
            ),
        }
    }
}

/// The notification that a report becomes. A request becomes none, and
/// neither does an error that names no job: the notification of an error
/// carries the id of a job.
pub open spec fn signal_for(event: DownloadEventView) -> Option<SignalView> {
    match event {
        DownloadEventView::DownloadProgress(id, done, total) => Some(
            SignalView::NotifyDownloadProgress(id, done, total),
        ),
        DownloadEventView::DownloadUpdate(job) => Some(SignalView::NotifyDownloadUpdate(job)),
        DownloadEventView::DownloadDelete(id) => Some(SignalView::NotifyDownloadDelete(id)),
        DownloadEventView::DownloadError(Some(id), message) => Some(
            SignalView::NotifyDownloadError(id, message),
        ),
        _ => None,
    }
}

/// The view of an optional notification.
pub open spec fn opt_signal(signal: Option<Signal>) -> Option<SignalView> {
    match signal {
        Some(s) => Some(s@),
        None => None,
    }
}

/// The endpoint that clients talk to.
#[derive(Debug)]
pub struct FlowListener {}

impl FlowListener {
    /// An endpoint.
    pub fn new() -> FlowListener {
        FlowListener {  }
    }

    /// The notification to send for an event of the bus, if it is a report.
    pub fn handle_event(&self, event: DownloadEvent) -> (r: Option<Signal>)
        ensures
            opt_signal(r) == signal_for(event@),
    {
        match event {
            DownloadEvent::DownloadProgress(id, progress, content_length) => Some(
                Signal::NotifyDownloadProgress(id, progress, content_length),
            ),
            DownloadEvent::DownloadUpdate(download_info) => Some(
                Signal::NotifyDownloadUpdate(download_info),
            ),
            DownloadEvent::DownloadDelete(download_id) => Some(
                Signal::NotifyDownloadDelete(download_id),
            ),
            DownloadEvent::DownloadError(Some(download_id), message) => Some(
                Signal::NotifyDownloadError(download_id, message),
            ),
            _ => None,
        }
    }

    /// The answer to a request for the status of the daemon.
    pub fn status(&self) -> (r: &str)
        ensures
            r@ == "UP"@,
    {
        "UP"
    }

    /// The answer to a request that was, or was not, put on the bus.
    pub fn reply(sent: bool) -> (r: &'static str)
        ensures
            r@ == (if sent {
                "OK"@
            } else {
                "ERROR"@
            }),
    {
        if sent {
            "OK"
        } else {
            "ERROR"
        }
    }

    /// All jobs.
    pub fn get_all_downloads(&self, store: &Store) -> (r: Vec<Download>)
        ensures
            job_views(r@) == store@.jobs,
    {
        match crate::db::get_all_downloads(store) {
            Ok(jobs) => jobs,
            Err(_) => Vec::new(),
        }
    }

    /// The completed jobs, or the others.
    pub fn get_downloads_by_completed_status(&self, store: &Store, completed: bool) -> (r: Vec<
        Download,
    >)
        ensures
            job_views(r@) == selected_by_status(store@.jobs, DownloadStatus::Completed, completed),
    {
        let found = if completed {
            crate::db::get_completed_downloads(store)
        } else {
            crate::db::get_uncompleted_downloads(store)
        };
        match found {
            Ok(jobs) => jobs,
            Err(_) => Vec::new(),
        }
    }

    /// The jobs of a category.
    pub fn get_downloads_by_category(&self, store: &Store, category: &str, config: &Config) -> (r:
        Vec<Download>)
        ensures
            job_views(r@) == selected_by_category(store@.jobs, category@, config@),
    {
        match crate::db::get_downloads_by_category(store, category, config) {
            Ok(jobs) => jobs,
            Err(_) => Vec::new(),
        }
    }

    /// All jobs in the order by activity.
    pub fn get_sorted_downloads(&self, store: &Store) -> (r: Vec<Download>)
        ensures
            sorted_by_activity(job_views(r@)),
            job_views(r@).to_multiset() == store@.jobs.to_multiset(),
            keeps_order_of(job_views(r@), store@.jobs),
    {
        match crate::db::get_sorted_downloads(store) {
            Ok(jobs) => jobs,
            Err(_) => Vec::new(),
        }
    }

    /// The event for a new download whose data the client still has to confirm.
    pub fn new_download_wait_confirm(&self, url: &str) -> (r: DownloadEvent)
        ensures
            r@ == DownloadEventView::NewDownload(url@, false),
    {
        DownloadEvent::NewDownload(url.to_owned(), false)
    }

    /// The event for a new download whose data is confirmed from the start.
    pub fn new_download_confirmed(&self, url: &str) -> (r: DownloadEvent)
        ensures
            r@ == DownloadEventView::NewDownload(url@, true),
    {
        DownloadEvent::NewDownload(url.to_owned(), true)
    }

    /// The event for a request to pause a job.
    pub fn pause_download(&self, id: i64) -> (r: DownloadEvent)
        ensures
            r@ == DownloadEventView::PauseDownload(id),
    {
        DownloadEvent::PauseDownload(id)
    }

    /// The event for a request to restart a job.
    pub fn restart_download(&self, id: i64) -> (r: DownloadEvent)
        ensures
            r@ == DownloadEventView::RestartDownload(id),
    {
        DownloadEvent::RestartDownload(id)
    }

    /// The event for a request to resume a job.
    pub fn resume_download(&self, id: i64) -> (r: DownloadEvent)
        ensures
            r@ == DownloadEventView::ResumeDownload(id),
    {
        DownloadEvent::ResumeDownload(id)
    }

    /// The event for a request to cancel a job.
    pub fn cancel_download(&self, id: i64) -> (r: DownloadEvent)
        ensures
            r@ == DownloadEventView::CancelDownload(id),
    {
        DownloadEvent::CancelDownload(id)
    }

    /// The event for a request to delete a job.
    pub fn delete_download(&self, id: i64) -> (r: DownloadEvent)
        ensures
            r@ == DownloadEventView::DeleteDownload(id),
    {
        DownloadEvent::DeleteDownload(id)
    }

    /// Sets the output path of a job as the client asks. The answer is `OK`
    /// also where the catalog has no such job, and nothing changes then.
    pub fn change_output_file_path(&self, store: &mut Store, id: i64, new_path: &str) -> (r: &str)
        requires
            old(store)@.wf(),
        ensures
            final(store)@.wf(),
            r@ == "OK"@,
            final(store)@ == match job_with_id(old(store)@.jobs, id) {
                Some(job) => old(store)@.updated(with_output_file(job, new_path@)),
                None => old(store)@,
            },
    {
        let _ = crate::db::change_download_output_file_path(store, id, new_path);
        "OK"
    }

    /// Confirms the data of a job as the client asks. The answer is `OK` also
    /// where the catalog has no such job, and nothing changes then.
    pub fn confirm_download_data(&self, store: &mut Store, id: i64) -> (r: &str)
        requires
            old(store)@.wf(),
        ensures
            final(store)@.wf(),
            r@ == "OK"@,
            final(store)@ == match job_with_id(old(store)@.jobs, id) {
                Some(job) => old(store)@.updated(confirmed(job)),
                None => old(store)@,
            },
    {
        let _ = crate::db::confirm_download_data(store, id);
        "OK"
    }
}

} // verus!
