//! The job record, its status, and the events that the engine exchanges.

use vstd::prelude::*;
use chrono::Local;
use crate::config::Config;
use crate::db::{job_with_id, with_status, DBError, Store};
use crate::download::utils::{get_temp_file, is_scratch_path};
use crate::text::same_text;

verus! {

/// Text of an optional string.
pub open spec fn opt_text(o: Option<String>) -> Option<Seq<char>> {
    match o {
        Some(s) => Some(s@),
        None => None,
    }
}

/// A copy of an optional string.
pub fn clone_opt_text(o: &Option<String>) -> (r: Option<String>)
    ensures
        opt_text(r) == opt_text(*o),
{
    match o {
        Some(s) => Some(s.clone()),
        None => None,
    }
}

/// Where a job stands in its life.
#[derive(Clone, Copy, Debug, PartialEq, Eq, Structural)]
pub enum DownloadStatus {
    Pending,
    Starting,
    InProgress,
    Paused,
    Canceled,
    Completed,
    ServerError,
    ClientError,
    UnknownError,
}

impl DownloadStatus {
    /// The words shown to a person for this status.
    pub open spec fn description(self) -> Seq<char> {
        match self {
            DownloadStatus::Pending => "Pending"@,
            DownloadStatus::Starting => "Starting"@,
            DownloadStatus::InProgress => "In progress"@,
            DownloadStatus::Paused => "Paused"@,
            DownloadStatus::Canceled => "Canceled"@,
            DownloadStatus::Completed => "Completed"@,
            DownloadStatus::ServerError => "Server error"@,
            DownloadStatus::ClientError => "Client error"@,
            DownloadStatus::UnknownError => "Unknown error"@,
        }
    }

    /// The lower-case tag under which this status is stored.
    pub open spec fn tag(self) -> Seq<char> {
        match self {
            DownloadStatus::Pending => "pending"@,
            DownloadStatus::Starting => "starting"@,
            DownloadStatus::InProgress => "in_progress"@,
            DownloadStatus::Paused => "paused"@,
            DownloadStatus::Canceled => "canceled"@,
            DownloadStatus::Completed => "completed"@,
            DownloadStatus::ServerError => "server_error"@,
            DownloadStatus::ClientError => "client_error"@,
            DownloadStatus::UnknownError => "unknown_error"@,
        }
    }

    /// The status stored under `value`, if `value` is a tag.
    pub open spec fn from_tag(value: Seq<char>) -> Option<DownloadStatus> {
        if value == "pending"@ {
            Some(DownloadStatus::Pending)
        } else if value == "starting"@ {
            Some(DownloadStatus::Starting)
        } else if value == "in_progress"@ {
            Some(DownloadStatus::InProgress)
        } else if value == "paused"@ {
            Some(DownloadStatus::Paused)
        } else if value == "canceled"@ {
            Some(DownloadStatus::Canceled)
        } else if value == "completed"@ {
            Some(DownloadStatus::Completed)
        } else if value == "server_error"@ {
            Some(DownloadStatus::ServerError)
        } else if value == "client_error"@ {
            Some(DownloadStatus::ClientError)
        } else if value == "unknown_error"@ {
            Some(DownloadStatus::UnknownError)
        } else {
            None
        }
    }

    /// Paused, canceled or failed: the states from which a job may be
    /// restarted or deleted.
    pub open spec fn idle(self) -> bool {
        self == DownloadStatus::Paused || self == DownloadStatus::Canceled || self
            == DownloadStatus::ClientError || self == DownloadStatus::ServerError || self
            == DownloadStatus::UnknownError
    }

    /// Starting or in progress.
    pub open spec fn active(self) -> bool {
        self == DownloadStatus::Starting || self == DownloadStatus::InProgress
    }

    pub fn get_description(&self) -> (r: &str)
        ensures
            r@ == self.description(),
    {
        match self {
            DownloadStatus::Pending => "Pending",
            DownloadStatus::Starting => "Starting",
            DownloadStatus::InProgress => "In progress",
            DownloadStatus::Paused => "Paused",
            DownloadStatus::Canceled => "Canceled",
            DownloadStatus::Completed => "Completed",
            DownloadStatus::ServerError => "Server error",
            DownloadStatus::ClientError => "Client error",
            DownloadStatus::UnknownError => "Unknown error",
        }
    }

    pub fn get_string(&self) -> (r: &str)
        ensures
            r@ == self.tag(),
    {
        match self {
            DownloadStatus::Pending => "pending",
            DownloadStatus::Starting => "starting",
            DownloadStatus::InProgress => "in_progress",
            DownloadStatus::Paused => "paused",
            DownloadStatus::Canceled => "canceled",
            DownloadStatus::Completed => "completed",
            DownloadStatus::ServerError => "server_error",
            DownloadStatus::ClientError => "client_error",
            DownloadStatus::UnknownError => "unknown_error",
        }
    }

    /// The status stored under `value`, or `None` where `value` is no tag.
    pub fn try_from_string(value: &str) -> (r: Option<DownloadStatus>)
        ensures
            r == Self::from_tag(value@),
    {
        if same_text(value, "pending") {
            Some(DownloadStatus::Pending)
        } else if same_text(value, "starting") {
            Some(DownloadStatus::Starting)
        } else if same_text(value, "in_progress") {
            Some(DownloadStatus::InProgress)
        } else if same_text(value, "paused") {
            Some(DownloadStatus::Paused)
        } else if same_text(value, "canceled") {
            Some(DownloadStatus::Canceled)
        } else if same_text(value, "completed") {
            Some(DownloadStatus::Completed)
        } else if same_text(value, "server_error") {
            Some(DownloadStatus::ServerError)
        } else if same_text(value, "client_error") {
            Some(DownloadStatus::ClientError)
        } else if same_text(value, "unknown_error") {
            Some(DownloadStatus::UnknownError)
        } else {
            None
        }
    }

    /// The status stored under the tag `value`.
    pub fn from_string(value: &str) -> (r: DownloadStatus)
        requires
            Self::from_tag(value@) is Some,
        ensures
            Self::from_tag(value@) == Some(r),
    {
        match Self::try_from_string(value) {
            Some(s) => s,
            None => DownloadStatus::UnknownError,
        }
    }

    /// Reading the tag of a status gives the status back.
    pub proof fn lemma_tag_round_trip(self)
        ensures
            Self::from_tag(self.tag()) == Some(self),
    {
        reveal_strlit("pending");
        reveal_strlit("starting");
        reveal_strlit("in_progress");
        reveal_strlit("paused");
        reveal_strlit("canceled");
        reveal_strlit("completed");
        reveal_strlit("server_error");
        reveal_strlit("client_error");
        reveal_strlit("unknown_error");
        assert("pending"@.len() == 7 && "starting"@.len() == 8 && "in_progress"@.len() == 11);
        assert("paused"@.len() == 6 && "canceled"@.len() == 8 && "completed"@.len() == 9);
        assert("server_error"@.len() == 12 && "client_error"@.len() == 12);
        assert("unknown_error"@.len() == 13);
        assert("starting"@[0] == 's' && "canceled"@[0] == 'c');
        assert("server_error"@[0] == 's' && "client_error"@[0] == 'c');
    }

    /// A text that reads as a status is the tag of that status.
    pub proof fn lemma_from_tag_is_tag(value: Seq<char>)
        requires
            Self::from_tag(value) is Some,
        ensures
            Self::from_tag(value)->0.tag() == value,
    {
    }
}

/// One download: the unit of work of the engine.
#[derive(Debug)]
pub struct Download {
    pub id: i64,
    pub url: String,
    pub status: DownloadStatus,
    pub data_confirmed: bool,
    pub detected_output_file: Option<String>,
    pub output_file: Option<String>,
    pub temp_file: String,
    pub resumable: bool,
    pub date_added: i64,
    pub date_completed: Option<i64>,
    pub size: Option<u64>,
}

/// A job as a mathematical value.
pub struct DownloadView {
    pub id: i64,
    pub url: Seq<char>,
    pub status: DownloadStatus,
    pub data_confirmed: bool,
    pub detected_output_file: Option<Seq<char>>,
    pub output_file: Option<Seq<char>>,
    pub temp_file: Seq<char>,
    pub resumable: bool,
    pub date_added: i64,
    pub date_completed: Option<i64>,
    pub size: Option<u64>,
}

impl View for Download {
    type V = DownloadView;

    open spec fn view(&self) -> DownloadView {
        DownloadView {
            id: self.id,
            url: self.url@,
            status: self.status,
            data_confirmed: self.data_confirmed,
            detected_output_file: opt_text(self.detected_output_file),
            output_file: opt_text(self.output_file),
            temp_file: self.temp_file@,
            resumable: self.resumable,
            date_added: self.date_added,
            date_completed: self.date_completed,
            size: self.size,
        }
    }
}

impl Clone for Download {
    fn clone(&self) -> (r: Download)
        ensures
            r@ == self@,
    {
        Download {
            id: self.id,
            url: self.url.clone(),
            status: self.status,
            data_confirmed: self.data_confirmed,
            detected_output_file: clone_opt_text(&self.detected_output_file),
            output_file: clone_opt_text(&self.output_file),
            temp_file: self.temp_file.clone(),
            resumable: self.resumable,
            date_added: self.date_added,
            date_completed: self.date_completed,
            size: self.size,
        }
    }
}

/// The time now, in seconds since the epoch, by `chrono::Local::now`. The
/// clock decides: nothing is promised of the result.
#[verifier::external_body]
pub(crate) fn current_timestamp() -> i64 {
    Local::now().timestamp()
}

/// What holds of a job that was just made for `url`: it is pending, has no
/// id, no output path, no size and no date of completion yet, and its scratch
/// file is a fresh one under the scratch directory.
pub open spec fn is_new_job(job: DownloadView, url: Seq<char>, temp_directory: Seq<char>) -> bool {
    &&& job.id == 0
    &&& job.url == url
    &&& job.status == DownloadStatus::Pending
    &&& !job.data_confirmed
    &&& job.detected_output_file is None
    &&& job.output_file is None
    &&& is_scratch_path(temp_directory, job.temp_file)
    &&& !job.resumable
    &&& job.date_completed is None
    &&& job.size is None
}

impl Download {
    /// A new job for `url`, added now, with a fresh scratch file.
    pub fn get_download_from_url(url: String, config: &Config) -> (r: Download)
        ensures
            is_new_job(r@, url@, config@.temp_directory),
    {
        Download {
            id: 0,
            url,
            status: DownloadStatus::Pending,
            data_confirmed: false,
            temp_file: get_temp_file(config),
            detected_output_file: None,
            output_file: None,
            resumable: false,
            date_added: current_timestamp(),
            date_completed: None,
            size: None,
        }
    }

    /// Takes over what the catalog holds for this job; where the catalog has
    /// no job with this id, nothing changes.
    pub fn refresh_data_from_db(&mut self, store: &Store)
        ensures
            final(self)@ == match job_with_id(store@.jobs, old(self)@.id) {
                Some(job) => DownloadView { id: old(self)@.id, ..job },
                None => old(self)@,
            },
    {
        match crate::db::get_download_by_id(store, self.id) {
            Ok(job) => {
                self.url = job.url;
                self.status = job.status;
                self.data_confirmed = job.data_confirmed;
                self.detected_output_file = job.detected_output_file;
                self.output_file = job.output_file;
                self.temp_file = job.temp_file;
                self.resumable = job.resumable;
                self.date_added = job.date_added;
                self.date_completed = job.date_completed;
                self.size = job.size;
            },
            Err(_) => {},
        }
    }

    /// Gives the job the status `new_status`, here and in the catalog.
    pub fn change_download_status(&mut self, new_status: DownloadStatus, store: &mut Store) -> (r:
        Result<(), DBError>)
        requires
            old(store)@.wf(),
        ensures
            final(store)@.wf(),
            r is Ok,
            final(self)@ == with_status(old(self)@, new_status),
            final(store)@ == old(store)@.with_status(old(self)@.id, new_status),
    {
        self.status = new_status;
        let _ = crate::db::change_download_status(store, &self.id, &self.status);
        Ok(())
    }

    /// Writes the job into the catalog, over the job that has its id.
    pub fn sync_to_db(&self, store: &mut Store) -> (r: Result<(), DBError>)
        requires
            old(store)@.wf(),
        ensures
            final(store)@.wf(),
            r is Ok,
            final(store)@ == old(store)@.updated(self@),
    {
        let _ = crate::db::update_download(store, self);
        Ok(())
    }

    /// Whether the job is paused, canceled or failed.
    pub fn is_idle(&self) -> (r: bool)
        ensures
            r == self@.status.idle(),
    {
        match self.status {
            DownloadStatus::Paused
            | DownloadStatus::Canceled
            | DownloadStatus::ClientError
            | DownloadStatus::ServerError
            | DownloadStatus::UnknownError => true,
            _ => false,
        }
    }
}

/// What the head of a response says about the file that it carries.
#[derive(Debug)]
pub struct FileInfo {
    pub file_name: String,
    pub content_length: Option<u64>,
    pub content_type: Option<String>,
    pub resumable: bool,
}

/// A `FileInfo` as a mathematical value.
pub struct FileInfoView {
    pub file_name: Seq<char>,
    pub content_length: Option<u64>,
    pub content_type: Option<Seq<char>>,
    pub resumable: bool,
}

impl View for FileInfo {
    type V = FileInfoView;

    open spec fn view(&self) -> FileInfoView {
        FileInfoView {
            file_name: self.file_name@,
            content_length: self.content_length,
            content_type: opt_text(self.content_type),
            resumable: self.resumable,
        }
    }
}

/// What travels on the event bus: the first six are requests to the
/// engine, the others are its reports.
#[derive(Debug)]
pub enum DownloadEvent {
    NewDownload(String, bool),
    PauseDownload(i64),
    ResumeDownload(i64),
    RestartDownload(i64),
    CancelDownload(i64),
    DeleteDownload(i64),
    DownloadProgress(i64, u64, u64),
    DownloadUpdate(Download),
    DownloadDelete(i64),
    DownloadError(Option<i64>, String),
}

impl Clone for DownloadEvent {
    fn clone(&self) -> (r: DownloadEvent)
        ensures
            r@ == self@,
    {
        match self {
            DownloadEvent::NewDownload(url, confirmed) => DownloadEvent::NewDownload(
                url.clone(),
                *confirmed,
            ),
            DownloadEvent::PauseDownload(id) => DownloadEvent::PauseDownload(*id),
            DownloadEvent::ResumeDownload(id) => DownloadEvent::ResumeDownload(*id),
            DownloadEvent::RestartDownload(id) => DownloadEvent::RestartDownload(*id),
            DownloadEvent::CancelDownload(id) => DownloadEvent::CancelDownload(*id),
            DownloadEvent::DeleteDownload(id) => DownloadEvent::DeleteDownload(*id),
            DownloadEvent::DownloadProgress(id, done, total) => DownloadEvent::DownloadProgress(
                *id,
                *done,
                *total,
            ),
            DownloadEvent::DownloadUpdate(job) => DownloadEvent::DownloadUpdate(job.clone()),
            DownloadEvent::DownloadDelete(id) => DownloadEvent::DownloadDelete(*id),
            DownloadEvent::DownloadError(id, message) => DownloadEvent::DownloadError(
                *id,
                message.clone(),
            ),
        }
    }
}

/// An event as a mathematical value.
pub enum DownloadEventView {
    NewDownload(Seq<char>, bool),
    PauseDownload(i64),
    ResumeDownload(i64),
    RestartDownload(i64),
    CancelDownload(i64),
    DeleteDownload(i64),
    DownloadProgress(i64, u64, u64),
    DownloadUpdate(DownloadView),
    DownloadDelete(i64),
    DownloadError(Option<i64>, Seq<char>),
}

impl View for DownloadEvent {
    type V = DownloadEventView;

    open spec fn view(&self) -> DownloadEventView {
        match self {
            DownloadEvent::NewDownload(url, confirmed) => DownloadEventView::NewDownload(
                url@,
                *confirmed,
            ),
            DownloadEvent::PauseDownload(id) => DownloadEventView::PauseDownload(*id),
            DownloadEvent::ResumeDownload(id) => DownloadEventView::ResumeDownload(*id),
            DownloadEvent::RestartDownload(id) => DownloadEventView::RestartDownload(*id),
            DownloadEvent::CancelDownload(id) => DownloadEventView::CancelDownload(*id),
            DownloadEvent::DeleteDownload(id) => DownloadEventView::DeleteDownload(*id),
            DownloadEvent::DownloadProgress(id, done, total) => DownloadEventView::DownloadProgress(
                *id,
                *done,
                *total,
            ),
            DownloadEvent::DownloadUpdate(job) => DownloadEventView::DownloadUpdate(job@),
            DownloadEvent::DownloadDelete(id) => DownloadEventView::DownloadDelete(*id),
            DownloadEvent::DownloadError(id, message) => DownloadEventView::DownloadError(
                *id,
                message@,
            ),
        }
    }
}

} // verus!

pub mod conflict;
pub mod utils;
