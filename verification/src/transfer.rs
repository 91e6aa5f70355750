//! The state machine of one transfer. The caller performs what a step
//! commands (a request, a write, a wait) and hands the result back as the
//! next input; the machine decides.

use vstd::prelude::*;
use reqwest::header::HeaderMap;
use crate::config::{Config, ConfigView};
use crate::db::{job_with_id, with_status, Store, StoreView};
use crate::download::conflict::{get_conflict_free_file_path, is_conflict_free_path};
use crate::download::utils::{
    file_info_for, get_output_file_path, header_texts, placed_path,
    try_get_file_info_from_headers,
};
use crate::download::{
    current_timestamp, opt_text, Download, DownloadEvent, DownloadEventView, DownloadStatus,
    DownloadView, FileInfo, FileInfoView,
};
use crate::downloader::{event_views, Downloader, DownloaderView};
use crate::path::{directory_part, is_tilde_expansion, split_path};
use crate::text::{concat, decimal, decimal_chars, from_chars, texts, to_chars};

verus! {

/// The least time between two reports of progress, in milliseconds.
pub const PROGRESS_INTERVAL_MS: u64 = 250;

/// The time between two looks at the confirmation of a job, in milliseconds.
pub const CONFIRMATION_WAIT_MS: u64 = 1000;

/// What a transfer waits for.
#[derive(Clone, Copy, Debug, PartialEq, Eq, Structural)]
pub enum TransferPhase {
    /// Nothing has happened yet.
    Created,
    /// The size of the scratch file.
    Probing,
    /// The scratch file to be emptied.
    Truncating,
    /// The HTTP client to be built.
    Building,
    /// The head of the response.
    Requesting,
    /// The scratch file to be opened.
    Opening,
    /// The next chunk of the body.
    Streaming,
    /// The chunk to be written.
    Writing,
    /// The client to confirm the data of the job.
    Confirming,
    /// The paths that exist in the target directory.
    Listing,
    /// The scratch file to be moved to its place.
    Moving,
    /// The transfer has ended.
    Finished,
}

/// One transfer: the executor's copy of the job and what it has noted on
/// the way.
#[derive(Debug)]
pub struct Transfer {
    pub download: Download,
    pub phase: TransferPhase,
    /// The byte from which the transfer resumes, if it does.
    pub start_byte: Option<u64>,
    /// The bytes that stand in the scratch file.
    pub progress: u64,
    /// The time of the last progress report, in milliseconds.
    pub last_progress_at: Option<u64>,
    /// The length of the chunk that is being written.
    pub chunk_len: u64,
    /// What the head of the response said.
    pub file_info: Option<FileInfo>,
    /// The path that the file is to have.
    pub target: Option<String>,
}

/// A transfer as a mathematical value.
pub struct TransferView {
    pub download: DownloadView,
    pub phase: TransferPhase,
    pub start_byte: Option<u64>,
    pub progress: u64,
    pub last_progress_at: Option<u64>,
    pub chunk_len: u64,
    pub file_info: Option<FileInfoView>,
    pub target: Option<Seq<char>>,
}

impl View for Transfer {
    type V = TransferView;

    open spec fn view(&self) -> TransferView {
        TransferView {
            download: self.download@,
            phase: self.phase,
            start_byte: self.start_byte,
            progress: self.progress,
            last_progress_at: self.last_progress_at,
            chunk_len: self.chunk_len,
            file_info: match self.file_info {
                Some(info) => Some(info@),
                None => None,
            },
            target: opt_text(self.target),
        }
    }
}

/// What the caller found when it did what the last step commanded.
#[derive(Debug)]
pub enum TransferInput {
    /// The transfer is to begin.
    Start,
    /// The size of the scratch file, or nothing where there is no such file.
    ScratchSize(Option<u64>),
    /// The scratch file was emptied.
    ScratchEmptied,
    /// Whether the client was built.
    ClientBuilt(bool),
    /// The head of the response: whether its status is a success, the URL
    /// that the response came from in the end, and its headers.
    Response { success: bool, url: String, headers: HeaderMap },
    /// The request could not be sent.
    RequestFailed,
    /// The length of the scratch file that was opened, or nothing where it
    /// could not be opened.
    ScratchOpened(Option<u64>),
    /// A chunk of this length has arrived.
    Chunk(u64),
    /// The body has ended.
    BodyEnd,
    /// The body could not be read.
    BodyFailed,
    /// Whether the chunk was written, and the time now, in milliseconds.
    Written { ok: bool, now_ms: u64 },
    /// The wait for the confirmation is over.
    Tick,
    /// Whether the target directory exists, and the paths that exist in it.
    Listing { exists: bool, paths: Vec<String> },
    /// Whether the scratch file was moved.
    Moved(bool),
}

/// An input as a mathematical value.
pub enum TransferInputView {
    Start,
    ScratchSize(Option<u64>),
    ScratchEmptied,
    ClientBuilt(bool),
    Response { success: bool, url: Seq<char>, held: Map<Seq<char>, Seq<char>> },
    RequestFailed,
    ScratchOpened(Option<u64>),
    Chunk(u64),
    BodyEnd,
    BodyFailed,
    Written { ok: bool, now_ms: u64 },
    Tick,
    Listing { exists: bool, paths: Seq<Seq<char>> },
    Moved(bool),
}

impl View for TransferInput {
    type V = TransferInputView;

    open spec fn view(&self) -> TransferInputView {
        match self {
            TransferInput::Start => TransferInputView::Start,
            TransferInput::ScratchSize(size) => TransferInputView::ScratchSize(*size),
            TransferInput::ScratchEmptied => TransferInputView::ScratchEmptied,
            TransferInput::ClientBuilt(ok) => TransferInputView::ClientBuilt(*ok),
            TransferInput::Response { success, url, headers } => TransferInputView::Response {
                success: *success,
                url: url@,
                held: header_texts(*headers),
            },
            TransferInput::RequestFailed => TransferInputView::RequestFailed,
            TransferInput::ScratchOpened(len) => TransferInputView::ScratchOpened(*len),
            TransferInput::Chunk(len) => TransferInputView::Chunk(*len),
            TransferInput::BodyEnd => TransferInputView::BodyEnd,
            TransferInput::BodyFailed => TransferInputView::BodyFailed,
            TransferInput::Written { ok, now_ms } => TransferInputView::Written {
                ok: *ok,
                now_ms: *now_ms,
            },
            TransferInput::Tick => TransferInputView::Tick,
            TransferInput::Listing { exists, paths } => TransferInputView::Listing {
                exists: *exists,
                paths: texts(paths@),
            },
            TransferInput::Moved(ok) => TransferInputView::Moved(*ok),
        }
    }
}

/// What the caller is to do next.
#[derive(Debug)]
pub enum Command {
    /// Report the size of the scratch file at this path: `ScratchSize`.
    ProbeScratch(String),
    /// Empty the scratch file at this path: `ScratchEmptied`.
    TruncateScratch(String),
    /// Build a client with this user agent that sends this `Range` header
    /// with every request, if one is given: `ClientBuilt`.
    BuildClient { user_agent: String, range: Option<String> },
    /// Send a GET request to this URL: `Response` or `RequestFailed`.
    SendRequest(String),
    /// Open the scratch file at this path to append to it, creating it where
    /// it is not there: `ScratchOpened`.
    OpenScratch(String),
    /// Pull the next chunk of the body: `Chunk`, `BodyEnd` or `BodyFailed`.
    PullChunk,
    /// Write the chunk to the scratch file: `Written`.
    WriteChunk,
    /// Wait for `CONFIRMATION_WAIT_MS`: `Tick`.
    AwaitConfirmation,
    /// Report whether this directory exists and which paths exist in it:
    /// `Listing`.
    ListDirectory(String),
    /// Move the scratch file to its place: `Moved`.
    MoveScratch { from: String, to: String },
    /// Empty the scratch file at this path; the transfer has ended.
    EmptyScratchAndStop(String),
    /// The transfer has ended.
    Stop,
    /// The input was not the one that the transfer waits for: nothing has
    /// changed.
    Ignore,
}

/// A command as a mathematical value.
pub enum CommandView {
    ProbeScratch(Seq<char>),
    TruncateScratch(Seq<char>),
    BuildClient { user_agent: Seq<char>, range: Option<Seq<char>> },
    SendRequest(Seq<char>),
    OpenScratch(Seq<char>),
    PullChunk,
    WriteChunk,
    AwaitConfirmation,
    ListDirectory(Seq<char>),
    MoveScratch { from: Seq<char>, to: Seq<char> },
    EmptyScratchAndStop(Seq<char>),
    Stop,
    Ignore,
}

impl View for Command {
    type V = CommandView;

    open spec fn view(&self) -> CommandView {
        match self {
            Command::ProbeScratch(path) => CommandView::ProbeScratch(path@),
            Command::TruncateScratch(path) => CommandView::TruncateScratch(path@),
            Command::BuildClient { user_agent, range } => CommandView::BuildClient {
                user_agent: user_agent@,
                range: opt_text(*range),
            },
            Command::SendRequest(url) => CommandView::SendRequest(url@),
            Command::OpenScratch(path) => CommandView::OpenScratch(path@),
            Command::PullChunk => CommandView::PullChunk,
            Command::WriteChunk => CommandView::WriteChunk,
            Command::AwaitConfirmation => CommandView::AwaitConfirmation,
            Command::ListDirectory(path) => CommandView::ListDirectory(path@),
            Command::MoveScratch { from, to } => CommandView::MoveScratch { from: from@, to: to@ },
            Command::EmptyScratchAndStop(path) => CommandView::EmptyScratchAndStop(path@),
            Command::Stop => CommandView::Stop,
            Command::Ignore => CommandView::Ignore,
        }
    }
}

/// What one step of a transfer gives: the events to publish, in this order,
/// and then the command to carry out.
#[derive(Debug)]
pub struct Step {
    pub events: Vec<DownloadEvent>,
    pub command: Command,
}

/// All that a step can change.
pub struct Machine {
    pub registry: DownloaderView,
    pub transfer: TransferView,
    pub store: StoreView,
}

/// What a step leaves behind.
pub struct Outcome {
    pub machine: Machine,
    pub events: Seq<DownloadEventView>,
    pub command: CommandView,
}

/// What a step takes from outside the machine: the path that the
/// environment made of a path, and the time.
pub struct Oracle {
    pub path: Seq<char>,
    pub now: i64,
}

impl Machine {
    /// The id of the job of the transfer.
    pub open spec fn id(self) -> i64 {
        self.transfer.download.id
    }

    /// The machine with the transfer in another phase.
    pub open spec fn in_phase(self, phase: TransferPhase) -> Machine {
        Machine { transfer: TransferView { phase, ..self.transfer }, ..self }
    }

    /// The machine with another copy of the job.
    pub open spec fn with_job(self, job: DownloadView) -> Machine {
        Machine { transfer: TransferView { download: job, ..self.transfer }, ..self }
    }

    /// The machine after the job got a status, in the transfer and in the
    /// catalog.
    pub open spec fn with_status(self, status: DownloadStatus) -> Machine {
        Machine {
            transfer: TransferView {
                download: with_status(self.transfer.download, status),
                ..self.transfer
            },
            store: self.store.with_status(self.id(), status),
            ..self
        }
    }

    /// The machine after the job of the transfer was written to the catalog.
    pub open spec fn persisted(self) -> Machine {
        Machine { store: self.store.updated(self.transfer.download), ..self }
    }

    /// The machine after the transfer has ended: the job is in flight no more.
    pub open spec fn released(self) -> Machine {
        Machine {
            registry: DownloaderView {
                downloading: self.registry.downloading.remove(self.id()),
                ..self.registry
            },
            ..self
        }.in_phase(TransferPhase::Finished)
    }

    /// The step that goes on without an event.
    pub open spec fn go(self, phase: TransferPhase, command: CommandView) -> Outcome {
        Outcome { machine: self.in_phase(phase), events: Seq::empty(), command }
    }

    /// The step that goes on after the job as it is now was reported.
    pub open spec fn report_and_go(self, phase: TransferPhase, command: CommandView) -> Outcome {
        Outcome {
            machine: self.in_phase(phase),
            events: seq![DownloadEventView::DownloadUpdate(self.transfer.download)],
            command,
        }
    }

    /// The step that ends the transfer in the status `status`: the status is
    /// written, then reported, and the job is in flight no more.
    pub open spec fn end_in(self, status: DownloadStatus) -> Outcome {
        self.with_status(status).released().report_and_go(TransferPhase::Finished, CommandView::Stop)
    }

    /// The step that changes nothing, for an input that the transfer does not
    /// wait for.
    pub open spec fn ignore(self) -> Outcome {
        Outcome { machine: self, events: Seq::empty(), command: CommandView::Ignore }
    }
}

/// The beginning: the job is noted as in flight and read from the catalog.
/// Where the catalog does not hold it, or holds it as completed, the step
/// ends the transfer and leaves all else as it was.
pub open spec fn after_start(m: Machine) -> Outcome {
    match job_with_id(m.store.jobs, m.id()) {
        Some(job) => if job.status == DownloadStatus::Completed {
            m.go(TransferPhase::Finished, CommandView::Stop)
        } else {
            Machine {
                registry: DownloaderView {
                    downloading: m.registry.downloading.insert(m.id()),
                    ..m.registry
                },
                ..m
            }.with_job(job).go(TransferPhase::Probing, CommandView::ProbeScratch(job.temp_file))
        },
        None => m.go(TransferPhase::Finished, CommandView::Stop),
    }
}

/// The `Range` header that asks for the bytes from `start_byte` on:
/// `bytes=N-`; none where the transfer starts at the first byte.
pub open spec fn range_header(start_byte: Option<u64>) -> Option<Seq<char>> {
    match start_byte {
        Some(n) => Some("bytes="@ + decimal(n as nat) + "-"@),
        None => None,
    }
}

/// The job enters the status `Starting`, and the client is to be built.
pub open spec fn starting(m: Machine, config: ConfigView) -> Outcome {
    m.with_status(DownloadStatus::Starting).report_and_go(
        TransferPhase::Building,
        CommandView::BuildClient {
            user_agent: config.user_agent,
            range: range_header(m.transfer.start_byte),
        },
    )
}

/// After the size of the scratch file is known: a resumable job goes on from
/// the bytes that are there, another one has them emptied first.
pub open spec fn after_scratch_size(m: Machine, size: Option<u64>, config: ConfigView) -> Outcome {
    match size {
        Some(n) => if n > 0 {
            if m.transfer.download.resumable {
                starting(
                    Machine { transfer: TransferView { start_byte: Some(n), ..m.transfer }, ..m },
                    config,
                )
            } else {
                m.go(
                    TransferPhase::Truncating,
                    CommandView::TruncateScratch(m.transfer.download.temp_file),
                )
            }
        } else {
            starting(m, config)
        },
        None => starting(m, config),
    }
}

/// After the client was built, or was not.
pub open spec fn after_client(m: Machine, ok: bool) -> Outcome {
    if ok {
        m.with_status(DownloadStatus::InProgress).report_and_go(
            TransferPhase::Requesting,
            CommandView::SendRequest(m.transfer.download.url),
        )
    } else {
        m.end_in(DownloadStatus::ClientError)
    }
}

/// The job after the head of the response was read: the detected path and
/// the size are set where they were not, and the job is resumable where the
/// response says so.
pub open spec fn with_file_info(job: DownloadView, info: FileInfoView, path: Seq<char>) -> DownloadView {
    DownloadView {
        detected_output_file: match job.detected_output_file {
            Some(p) => Some(p),
            None => Some(path),
        },
        size: match job.size {
            Some(s) => Some(s),
            None => info.content_length,
        },
        resumable: job.resumable || info.resumable,
        ..job
    }
}

/// After the head of the response has arrived.
pub open spec fn after_response(
    m: Machine,
    success: bool,
    url: Seq<char>,
    held: Map<Seq<char>, Seq<char>>,
    path: Seq<char>,
) -> Outcome {
    if !success {
        m.end_in(DownloadStatus::ServerError)
    } else {
        match file_info_for(url, held) {
            Some(info) => Machine {
                transfer: TransferView { file_info: Some(info), ..m.transfer },
                ..m
            }.with_job(with_file_info(m.transfer.download, info, path)).persisted().report_and_go(
                TransferPhase::Opening,
                CommandView::OpenScratch(m.transfer.download.temp_file),
            ),
            None => m.end_in(DownloadStatus::UnknownError),
        }
    }
}

/// After the scratch file was opened, or was not.
pub open spec fn after_scratch_opened(m: Machine, len: Option<u64>) -> Outcome {
    match len {
        Some(n) => Machine { transfer: TransferView { progress: n, ..m.transfer }, ..m }.go(
            TransferPhase::Streaming,
            CommandView::PullChunk,
        ),
        None => m.end_in(DownloadStatus::ClientError),
    }
}

/// After a chunk has arrived and before it is written: a request to cancel
/// is honored first, then a request to pause; without either the chunk is to
/// be written.
pub open spec fn after_chunk(m: Machine, len: u64) -> Outcome {
    if m.registry.cancel_requests.contains(m.id()) {
        Machine {
            registry: DownloaderView {
                cancel_requests: m.registry.cancel_requests.remove(m.id()),
                ..m.registry
            },
            ..m
        }.with_status(DownloadStatus::Canceled).released().report_and_go(
            TransferPhase::Finished,
            CommandView::EmptyScratchAndStop(m.transfer.download.temp_file),
        )
    } else if m.registry.pause_requests.contains(m.id()) {
        Machine {
            registry: DownloaderView {
                pause_requests: m.registry.pause_requests.remove(m.id()),
                ..m.registry
            },
            ..m
        }.with_status(DownloadStatus::Paused).released().report_and_go(
            TransferPhase::Finished,
            CommandView::Stop,
        )
    } else {
        Machine { transfer: TransferView { chunk_len: len, ..m.transfer }, ..m }.go(
            TransferPhase::Writing,
            CommandView::WriteChunk,
        )
    }
}

/// The bytes in the scratch file after a chunk was added; the count stays at
/// its highest value where it would pass it.
pub open spec fn progress_after(progress: u64, chunk_len: u64) -> u64 {
    if progress + chunk_len > u64::MAX {
        u64::MAX
    } else {
        (progress + chunk_len) as u64
    }
}

/// Whether progress is to be reported now: at the first chunk, and when at
/// least 250 milliseconds have passed since the last report.
pub open spec fn progress_is_due(last: Option<u64>, now_ms: u64) -> bool {
    match last {
        Some(t) => now_ms - t >= PROGRESS_INTERVAL_MS,
        None => true,
    }
}

/// After the chunk was written, or was not.
pub open spec fn after_written(m: Machine, ok: bool, now_ms: u64) -> Outcome {
    if ok {
        let progress = progress_after(m.transfer.progress, m.transfer.chunk_len);
        let total = match m.transfer.download.size {
            Some(s) => s,
            None => 0,
        };
        if progress_is_due(m.transfer.last_progress_at, now_ms) {
            Outcome {
                machine: Machine {
                    transfer: TransferView {
                        progress,
                        last_progress_at: Some(now_ms),
                        ..m.transfer
                    },
                    ..m
                }.in_phase(TransferPhase::Streaming),
                events: seq![DownloadEventView::DownloadProgress(m.id(), progress, total)],
                command: CommandView::PullChunk,
            }
        } else {
            Machine { transfer: TransferView { progress, ..m.transfer }, ..m }.go(
                TransferPhase::Streaming,
                CommandView::PullChunk,
            )
        }
    } else {
        m.end_in(DownloadStatus::ClientError)
    }
}

/// The job as the catalog holds it now, or as the transfer holds it where
/// the catalog has it no more.
pub open spec fn refreshed(m: Machine) -> DownloadView {
    match job_with_id(m.store.jobs, m.id()) {
        Some(job) => job,
        None => m.transfer.download,
    }
}

/// The path that the file is to have: the one that the client asked for,
/// else the one that was detected, else the one that follows from the head of
/// the response.
pub open spec fn wanted_path(job: DownloadView, path: Seq<char>) -> Seq<char> {
    match job.output_file {
        Some(p) => p,
        None => match job.detected_output_file {
            Some(p) => p,
            None => path,
        },
    }
}

/// After the body has ended, and after each wait: the job is read from the
/// catalog again; once its data is confirmed the target directory is to be
/// listed, until then the transfer waits.
pub open spec fn after_body(m: Machine, path: Seq<char>) -> Outcome {
    let job = refreshed(m);
    let m1 = m.with_job(job);
    if !job.data_confirmed {
        m1.go(TransferPhase::Confirming, CommandView::AwaitConfirmation)
    } else if job.output_file is None && job.detected_output_file is None
        && m.transfer.file_info is None {
        m1.end_in(DownloadStatus::UnknownError)
    } else {
        let wanted = wanted_path(job, path);
        Machine { transfer: TransferView { target: Some(wanted), ..m1.transfer }, ..m1 }.go(
            TransferPhase::Listing,
            CommandView::ListDirectory(directory_part(wanted)),
        )
    }
}

/// After the target directory was listed: without the directory the transfer
/// fails; else the scratch file is to be moved to the conflict-free path.
pub open spec fn after_listing(m: Machine, exists: bool, path: Seq<char>) -> Outcome {
    if exists && m.transfer.target is Some {
        Machine { transfer: TransferView { target: Some(path), ..m.transfer }, ..m }.go(
            TransferPhase::Moving,
            CommandView::MoveScratch { from: m.transfer.download.temp_file, to: path },
        )
    } else {
        m.end_in(DownloadStatus::ClientError)
    }
}

/// The path under which the catalog knows the file of `job`.
pub open spec fn stored_path(job: DownloadView) -> Option<Seq<char>> {
    match job.output_file {
        Some(p) => Some(p),
        None => job.detected_output_file,
    }
}

/// After the scratch file was moved, or was not. A path that differs from
/// the stored one is written and reported; then the date of completion is
/// written and reported; then the status `Completed` is written and
/// reported; and the job is in flight no more.
pub open spec fn after_moved(m: Machine, ok: bool, now: i64) -> Outcome {
    if ok && m.transfer.target is Some {
        let job = m.transfer.download;
        let placed = m.transfer.target->0;
        let renamed = stored_path(job) != Some(placed);
        let job1 = if renamed {
            DownloadView { output_file: Some(placed), ..job }
        } else {
            job
        };
        let m1 = if renamed {
            m.with_job(job1).persisted()
        } else {
            m
        };
        let job2 = DownloadView { date_completed: Some(now), ..job1 };
        let m2 = m1.with_job(job2).persisted();
        let m3 = m2.with_status(DownloadStatus::Completed).released();
        let first = if renamed {
            seq![DownloadEventView::DownloadUpdate(job1)]
        } else {
            Seq::<DownloadEventView>::empty()
        };
        Outcome {
            machine: m3,
            events: first + seq![
                DownloadEventView::DownloadUpdate(job2),
                DownloadEventView::DownloadUpdate(m3.transfer.download),
            ],
            command: CommandView::Stop,
        }
    } else {
        m.end_in(DownloadStatus::ClientError)
    }
}

/// What a step leaves behind, given what it took from outside.
pub open spec fn after(m: Machine, input: TransferInputView, config: ConfigView, oracle: Oracle) -> Outcome {
    match (m.transfer.phase, input) {
        (TransferPhase::Created, TransferInputView::Start) => after_start(m),
        (TransferPhase::Probing, TransferInputView::ScratchSize(size)) => after_scratch_size(
            m,
            size,
            config,
        ),
        (TransferPhase::Truncating, TransferInputView::ScratchEmptied) => starting(m, config),
        (TransferPhase::Building, TransferInputView::ClientBuilt(ok)) => after_client(m, ok),
        (
            TransferPhase::Requesting,
            TransferInputView::Response { success, url, held },
        ) => after_response(m, success, url, held, oracle.path),
        (TransferPhase::Requesting, TransferInputView::RequestFailed) => m.end_in(
            DownloadStatus::UnknownError,
        ),
        (TransferPhase::Opening, TransferInputView::ScratchOpened(len)) => after_scratch_opened(
            m,
            len,
        ),
        (TransferPhase::Streaming, TransferInputView::Chunk(len)) => after_chunk(m, len),
        (TransferPhase::Streaming, TransferInputView::BodyEnd) => after_body(m, oracle.path),
        (TransferPhase::Streaming, TransferInputView::BodyFailed) => m.end_in(
            DownloadStatus::UnknownError,
        ),
        (TransferPhase::Writing, TransferInputView::Written { ok, now_ms }) => after_written(
            m,
            ok,
            now_ms,
        ),
        (TransferPhase::Confirming, TransferInputView::Tick) => after_body(m, oracle.path),
        (TransferPhase::Listing, TransferInputView::Listing { exists, paths }) => after_listing(
            m,
            exists,
            oracle.path,
        ),
        (TransferPhase::Moving, TransferInputView::Moved(ok)) => after_moved(m, ok, oracle.now),
        _ => m.ignore(),
    }
}

/// What holds of what a step took from outside: a path that was detected is
/// the tilde expansion of the path under which the configuration places the
/// file, and a path that was resolved is the conflict-free path of the wanted
/// one among the paths that exist.
pub open spec fn oracle_fits(
    m: Machine,
    input: TransferInputView,
    config: ConfigView,
    oracle: Oracle,
) -> bool {
    match (m.transfer.phase, input) {
        (TransferPhase::Requesting, TransferInputView::Response { success, url, held }) => {
            success && file_info_for(url, held) is Some
                && m.transfer.download.detected_output_file is None ==> is_tilde_expansion(
                placed_path(file_info_for(url, held)->0.file_name, config),
                oracle.path,
            )
        },
        (TransferPhase::Streaming, TransferInputView::BodyEnd) | (
            TransferPhase::Confirming,
            TransferInputView::Tick,
        ) => {
            m.transfer.file_info is Some && refreshed(m).data_confirmed && refreshed(
                m,
            ).output_file is None && refreshed(m).detected_output_file is None
                ==> is_tilde_expansion(
                placed_path(m.transfer.file_info->0.file_name, config),
                oracle.path,
            )
        },
        (TransferPhase::Listing, TransferInputView::Listing { exists, paths }) => {
            exists && m.transfer.target is Some ==> is_conflict_free_path(
                m.transfer.target->0,
                paths,
                oracle.path,
            )
        },
        _ => true,
    }
}

/// The three parts of a machine, put together.
pub open spec fn machine_of(registry: DownloaderView, transfer: TransferView, store: StoreView) -> Machine {
    Machine { registry, transfer, store }
}

/// What a step left behind, put together.
pub open spec fn outcome_of(
    registry: DownloaderView,
    transfer: TransferView,
    store: StoreView,
    step: Step,
) -> Outcome {
    Outcome {
        machine: machine_of(registry, transfer, store),
        events: event_views(step.events@),
        command: step.command@,
    }
}

/// A step without events.
fn quiet(command: Command) -> (step: Step)
    ensures
        event_views(step.events@) == Seq::<DownloadEventView>::empty(),
        step.command == command,
{
    let events: Vec<DownloadEvent> = Vec::new();
    assert(event_views(events@) =~= Seq::<DownloadEventView>::empty());
    Step { events, command }
}

/// An empty list of events.
fn no_events() -> (events: Vec<DownloadEvent>)
    ensures
        event_views(events@) == Seq::<DownloadEventView>::empty(),
{
    let events: Vec<DownloadEvent> = Vec::new();
    assert(event_views(events@) =~= Seq::<DownloadEventView>::empty());
    events
}

/// Ends the transfer in the status `status`.
fn end_in(
    registry: &mut Downloader,
    transfer: &mut Transfer,
    store: &mut Store,
    status: DownloadStatus,
) -> (step: Step)
    requires
        old(store)@.wf(),
    ensures
        final(store)@.wf(),
        outcome_of(final(registry)@, final(transfer)@, final(store)@, step) == machine_of(
            old(registry)@,
            old(transfer)@,
            old(store)@,
        ).end_in(status),
{
    let mut events = no_events();
    Downloader::update_download_status_and_notify(&mut transfer.download, status, store, &mut events);
    registry.stop_downloading(transfer.download.id);
    transfer.phase = TransferPhase::Finished;
    assert(event_views(events@) =~= seq![DownloadEventView::DownloadUpdate(transfer@.download)]);
    Step { events, command: Command::Stop }
}

/// The `Range` header that asks for the bytes from `start_byte` on.
pub fn range_from(start_byte: Option<u64>) -> (r: Option<String>)
    ensures
        opt_text(r) == range_header(start_byte),
{
    match start_byte {
        Some(n) => Some(
            from_chars(
                &concat(&concat(&to_chars("bytes="), &decimal_chars(n as u128)), &to_chars("-")),
            ),
        ),
        None => None,
    }
}

/// Puts the job into the status `Starting` and commands the client.
fn start(registry: &Downloader, transfer: &mut Transfer, store: &mut Store, config: &Config) -> (step:
    Step)
    requires
        old(store)@.wf(),
    ensures
        final(store)@.wf(),
        outcome_of(registry@, final(transfer)@, final(store)@, step) == starting(
            machine_of(registry@, old(transfer)@, old(store)@),
            config@,
        ),
{
    let mut events = no_events();
    Downloader::update_download_status_and_notify(
        &mut transfer.download,
        DownloadStatus::Starting,
        store,
        &mut events,
    );
    transfer.phase = TransferPhase::Building;
    assert(event_views(events@) =~= seq![DownloadEventView::DownloadUpdate(transfer@.download)]);
    Step {
        events,
        command: Command::BuildClient {
            user_agent: config.user_agent.clone(),
            range: range_from(transfer.start_byte),
        },
    }
}

/// The beginning of a transfer.
fn on_start(registry: &mut Downloader, transfer: &mut Transfer, store: &Store) -> (step: Step)
    ensures
        outcome_of(final(registry)@, final(transfer)@, store@, step) == after_start(
            machine_of(old(registry)@, old(transfer)@, store@),
        ),
{
    match crate::db::get_download_by_id(store, transfer.download.id) {
        Ok(job) => {
            if job.status == DownloadStatus::Completed {
                transfer.phase = TransferPhase::Finished;
                quiet(Command::Stop)
            } else {
                registry.start_downloading(transfer.download.id);
                let temp_file = job.temp_file.clone();
                transfer.download = job;
                transfer.phase = TransferPhase::Probing;
                quiet(Command::ProbeScratch(temp_file))
            }
        },
        Err(_) => {
            transfer.phase = TransferPhase::Finished;
            quiet(Command::Stop)
        },
    }
}

/// Prepares the transfer once the size of the scratch file is known: sets
/// the byte to resume from, or has the scratch file emptied.
fn prepare_download(
    registry: &Downloader,
    transfer: &mut Transfer,
    store: &mut Store,
    config: &Config,
    size: Option<u64>,
) -> (step: Step)
    requires
        old(store)@.wf(),
    ensures
        final(store)@.wf(),
        outcome_of(registry@, final(transfer)@, final(store)@, step) == after_scratch_size(
            machine_of(registry@, old(transfer)@, old(store)@),
            size,
            config@,
        ),
{
    match size {
        Some(n) => {
            if n > 0 {
                if transfer.download.resumable {
                    transfer.start_byte = Some(n);
                    start(registry, transfer, store, config)
                } else {
                    transfer.phase = TransferPhase::Truncating;
                    quiet(Command::TruncateScratch(transfer.download.temp_file.clone()))
                }
            } else {
                start(registry, transfer, store, config)
            }
        },
        None => start(registry, transfer, store, config),
    }
}

/// After the client was built, or was not.
fn on_client(registry: &mut Downloader, transfer: &mut Transfer, store: &mut Store, ok: bool) -> (step:
    Step)
    requires
        old(store)@.wf(),
    ensures
        final(store)@.wf(),
        outcome_of(final(registry)@, final(transfer)@, final(store)@, step) == after_client(
            machine_of(old(registry)@, old(transfer)@, old(store)@),
            ok,
        ),
{
    if ok {
        let mut events = no_events();
        Downloader::update_download_status_and_notify(
            &mut transfer.download,
            DownloadStatus::InProgress,
            store,
            &mut events,
        );
        transfer.phase = TransferPhase::Requesting;
        assert(event_views(events@) =~= seq![DownloadEventView::DownloadUpdate(transfer@.download)]);
        Step { events, command: Command::SendRequest(transfer.download.url.clone()) }
    } else {
        end_in(registry, transfer, store, DownloadStatus::ClientError)
    }
}

/// After the head of the response has arrived.
fn on_response(
    registry: &mut Downloader,
    transfer: &mut Transfer,
    store: &mut Store,
    config: &Config,
    success: bool,
    url: &str,
    headers: &HeaderMap,
) -> (r: (Step, Ghost<Seq<char>>))
    requires
        old(store)@.wf(),
    ensures
        final(store)@.wf(),
        success && file_info_for(url@, header_texts(*headers)) is Some && old(
            transfer,
        )@.download.detected_output_file is None ==> is_tilde_expansion(
            placed_path(file_info_for(url@, header_texts(*headers))->0.file_name, config@),
            r.1@,
        ),
        outcome_of(final(registry)@, final(transfer)@, final(store)@, r.0) == after_response(
            machine_of(old(registry)@, old(transfer)@, old(store)@),
            success,
            url@,
            header_texts(*headers),
            r.1@,
        ),
{
    if !success {
        return (end_in(registry, transfer, store, DownloadStatus::ServerError), Ghost(Seq::empty()));
    }
    let info = match try_get_file_info_from_headers(url, headers) {
        Some(info) => info,
        None => {
            return (
                end_in(registry, transfer, store, DownloadStatus::UnknownError),
                Ghost(Seq::empty()),
            );
        },
    };
    let ghost mut path: Seq<char> = Seq::empty();
    if transfer.download.detected_output_file.is_none() {
        let detected = get_output_file_path(&info, config);
        proof {
            path = detected@;
        }
        transfer.download.detected_output_file = Some(detected);
    }
    if transfer.download.size.is_none() {
        transfer.download.size = info.content_length;
    }
    if info.resumable {
        transfer.download.resumable = true;
    }
    transfer.file_info = Some(info);
    let mut events = no_events();
    Downloader::update_download_in_db_and_notify(&transfer.download, store, &mut events);
    transfer.phase = TransferPhase::Opening;
    assert(event_views(events@) =~= seq![DownloadEventView::DownloadUpdate(transfer@.download)]);
    (Step { events, command: Command::OpenScratch(transfer.download.temp_file.clone()) }, Ghost(path))
}

/// After the scratch file was opened, or was not.
fn on_scratch_opened(
    registry: &mut Downloader,
    transfer: &mut Transfer,
    store: &mut Store,
    len: Option<u64>,
) -> (step: Step)
    requires
        old(store)@.wf(),
    ensures
        final(store)@.wf(),
        outcome_of(final(registry)@, final(transfer)@, final(store)@, step) == after_scratch_opened(
            machine_of(old(registry)@, old(transfer)@, old(store)@),
            len,
        ),
{
    match len {
        Some(n) => {
            transfer.progress = n;
            transfer.phase = TransferPhase::Streaming;
            quiet(Command::PullChunk)
        },
        None => end_in(registry, transfer, store, DownloadStatus::ClientError),
    }
}

/// After a chunk has arrived and before it is written.
fn on_chunk(registry: &mut Downloader, transfer: &mut Transfer, store: &mut Store, len: u64) -> (step:
    Step)
    requires
        old(store)@.wf(),
    ensures
        final(store)@.wf(),
        outcome_of(final(registry)@, final(transfer)@, final(store)@, step) == after_chunk(
            machine_of(old(registry)@, old(transfer)@, old(store)@),
            len,
        ),
{
    let id = transfer.download.id;
    if registry.is_cancel_requested(id) {
        let mut events = no_events();
        registry.cancel_download(&mut transfer.download, store, &mut events);
        registry.stop_downloading(id);
        transfer.phase = TransferPhase::Finished;
        assert(event_views(events@) =~= seq![DownloadEventView::DownloadUpdate(transfer@.download)]);
        Step { events, command: Command::EmptyScratchAndStop(transfer.download.temp_file.clone()) }
    } else if registry.is_pause_requested(id) {
        let mut events = no_events();
        registry.pause_download(&mut transfer.download, store, &mut events);
        registry.stop_downloading(id);
        transfer.phase = TransferPhase::Finished;
        assert(event_views(events@) =~= seq![DownloadEventView::DownloadUpdate(transfer@.download)]);
        Step { events, command: Command::Stop }
    } else {
        transfer.chunk_len = len;
        transfer.phase = TransferPhase::Writing;
        quiet(Command::WriteChunk)
    }
}

/// After the chunk was written, or was not.
fn on_written(
    registry: &mut Downloader,
    transfer: &mut Transfer,
    store: &mut Store,
    ok: bool,
    now_ms: u64,
) -> (step: Step)
    requires
        old(store)@.wf(),
    ensures
        final(store)@.wf(),
        outcome_of(final(registry)@, final(transfer)@, final(store)@, step) == after_written(
            machine_of(old(registry)@, old(transfer)@, old(store)@),
            ok,
            now_ms,
        ),
{
    if !ok {
        return end_in(registry, transfer, store, DownloadStatus::ClientError);
    }
    let progress = if transfer.progress > u64::MAX - transfer.chunk_len {
        u64::MAX
    } else {
        transfer.progress + transfer.chunk_len
    };
    let due = match transfer.last_progress_at {
        Some(t) => now_ms >= t && now_ms - t >= PROGRESS_INTERVAL_MS,
        None => true,
    };
    transfer.progress = progress;
    transfer.phase = TransferPhase::Streaming;
    if due {
        let total = match transfer.download.size {
            Some(s) => s,
            None => 0,
        };
        transfer.last_progress_at = Some(now_ms);
        let mut events = no_events();
        events.push(DownloadEvent::DownloadProgress(transfer.download.id, progress, total));
        assert(event_views(events@) =~= seq![
            DownloadEventView::DownloadProgress(transfer@.download.id, progress, total),
        ]);
        Step { events, command: Command::PullChunk }
    } else {
        quiet(Command::PullChunk)
    }
}

/// After the body has ended, and after each wait.
fn on_body(registry: &mut Downloader, transfer: &mut Transfer, store: &mut Store, config: &Config) -> (r:
    (Step, Ghost<Seq<char>>))
    requires
        old(store)@.wf(),
    ensures
        final(store)@.wf(),
        ({
            let m = machine_of(old(registry)@, old(transfer)@, old(store)@);
            &&& m.transfer.file_info is Some && refreshed(m).data_confirmed && refreshed(
                m,
            ).output_file is None && refreshed(m).detected_output_file is None
                ==> is_tilde_expansion(
                placed_path(m.transfer.file_info->0.file_name, config@),
                r.1@,
            )
            &&& outcome_of(final(registry)@, final(transfer)@, final(store)@, r.0) == after_body(
                m,
                r.1@,
            )
        }),
{
    proof {
        crate::db::lemma_position_from(store@.jobs, transfer@.download.id, 0);
    }
    transfer.download.refresh_data_from_db(store);
    if !transfer.download.data_confirmed {
        transfer.phase = TransferPhase::Confirming;
        return (quiet(Command::AwaitConfirmation), Ghost(Seq::empty()));
    }
    let ghost mut path: Seq<char> = Seq::empty();
    let wanted: String = match &transfer.download.output_file {
        Some(p) => p.clone(),
        None => match &transfer.download.detected_output_file {
            Some(p) => p.clone(),
            None => match &transfer.file_info {
                Some(info) => {
                    let computed = get_output_file_path(info, config);
                    proof {
                        path = computed@;
                    }
                    computed
                },
                None => {
                    return (
                        end_in(registry, transfer, store, DownloadStatus::UnknownError),
                        Ghost(Seq::empty()),
                    );
                },
            },
        },
    };
    let (directory, _name) = split_path(&to_chars(wanted.as_str()));
    transfer.target = Some(wanted);
    transfer.phase = TransferPhase::Listing;
    (quiet(Command::ListDirectory(from_chars(&directory))), Ghost(path))
}

/// After the target directory was listed.
fn on_listing(
    registry: &mut Downloader,
    transfer: &mut Transfer,
    store: &mut Store,
    exists: bool,
    paths: &Vec<String>,
) -> (r: (Step, Ghost<Seq<char>>))
    requires
        old(store)@.wf(),
    ensures
        final(store)@.wf(),
        exists && old(transfer)@.target is Some ==> is_conflict_free_path(
            old(transfer)@.target->0,
            texts(paths@),
            r.1@,
        ),
        outcome_of(final(registry)@, final(transfer)@, final(store)@, r.0) == after_listing(
            machine_of(old(registry)@, old(transfer)@, old(store)@),
            exists,
            r.1@,
        ),
{
    if !exists {
        return (end_in(registry, transfer, store, DownloadStatus::ClientError), Ghost(Seq::empty()));
    }
    let resolved = match &transfer.target {
        Some(wanted) => get_conflict_free_file_path(wanted.as_str(), paths),
        None => {
            return (
                end_in(registry, transfer, store, DownloadStatus::ClientError),
                Ghost(Seq::empty()),
            );
        },
    };
    let ghost path = resolved@;
    let to = resolved.clone();
    transfer.target = Some(resolved);
    transfer.phase = TransferPhase::Moving;
    (
        quiet(Command::MoveScratch { from: transfer.download.temp_file.clone(), to }),
        Ghost(path),
    )
}

/// Whether the catalog knows the file of `job` under `path`.
fn is_stored_path(job: &Download, path: &str) -> (r: bool)
    ensures
        r == (stored_path(job@) == Some(path@)),
{
    match &job.output_file {
        Some(p) => crate::text::same_text(p.as_str(), path),
        None => match &job.detected_output_file {
            Some(p) => crate::text::same_text(p.as_str(), path),
            None => false,
        },
    }
}

/// After the scratch file was moved, or was not.
fn on_moved(registry: &mut Downloader, transfer: &mut Transfer, store: &mut Store, ok: bool) -> (r: (
    Step,
    Ghost<i64>,
))
    requires
        old(store)@.wf(),
    ensures
        final(store)@.wf(),
        outcome_of(final(registry)@, final(transfer)@, final(store)@, r.0) == after_moved(
            machine_of(old(registry)@, old(transfer)@, old(store)@),
            ok,
            r.1@,
        ),
{
    if !ok {
        return (end_in(registry, transfer, store, DownloadStatus::ClientError), Ghost(0));
    }
    let placed = match &transfer.target {
        Some(p) => p.clone(),
        None => {
            return (end_in(registry, transfer, store, DownloadStatus::ClientError), Ghost(0));
        },
    };
    let mut events = no_events();
    if !is_stored_path(&transfer.download, placed.as_str()) {
        transfer.download.output_file = Some(placed);
        Downloader::update_download_in_db_and_notify(&transfer.download, store, &mut events);
    }
    let now = current_timestamp();
    transfer.download.date_completed = Some(now);
    Downloader::update_download_in_db_and_notify(&transfer.download, store, &mut events);
    Downloader::update_download_status_and_notify(
        &mut transfer.download,
        DownloadStatus::Completed,
        store,
        &mut events,
    );
    registry.stop_downloading(transfer.download.id);
    transfer.phase = TransferPhase::Finished;
    proof {
        let m = machine_of(old(registry)@, old(transfer)@, old(store)@);
        assert(event_views(events@) =~= after_moved(m, ok, now).events);
    }
    (Step { events, command: Command::Stop }, Ghost(now))
}

impl Transfer {
    /// A transfer of the job `download_id` that has not begun.
    pub fn new(download_id: i64) -> (r: Transfer)
        ensures
            r@.download.id == download_id,
            r@.phase == TransferPhase::Created,
            r@.start_byte is None,
            r@.progress == 0,
            r@.last_progress_at is None,
            r@.file_info is None,
            r@.target is None,
    {
        Transfer {
            download: Download {
                id: download_id,
                url: String::new(),
                status: DownloadStatus::Pending,
                data_confirmed: false,
                detected_output_file: None,
                output_file: None,
                temp_file: String::new(),
                resumable: false,
                date_added: 0,
                date_completed: None,
                size: None,
            },
            phase: TransferPhase::Created,
            start_byte: None,
            progress: 0,
            last_progress_at: None,
            chunk_len: 0,
            file_info: None,
            target: None,
        }
    }
}

impl Downloader {
    /// One step of the transfer of a job: takes what the caller found when it
    /// carried out the last command, changes the transfer, the registry and
    /// the catalog, and gives the events to publish and the next command.
    /// The step is the one that `after` describes, for a path and a time that
    /// fit what the environment gave.
    pub fn download(
        &mut self,
        transfer: &mut Transfer,
        input: TransferInput,
        store: &mut Store,
        config: &Config,
    ) -> (step: Step)
        requires
            old(store)@.wf(),
        ensures
            final(store)@.wf(),
            exists|oracle: Oracle| #[trigger]
                oracle_fits(
                    machine_of(old(self)@, old(transfer)@, old(store)@),
                    input@,
                    config@,
                    oracle,
                ) && outcome_of(final(self)@, final(transfer)@, final(store)@, step) == after(
                    machine_of(old(self)@, old(transfer)@, old(store)@),
                    input@,
                    config@,
                    oracle,
                ),
    {
        let ghost m = machine_of(self@, transfer@, store@);
        let ghost given = input@;
        let ghost mut oracle = Oracle { path: Seq::empty(), now: 0 };
        let phase = transfer.phase;
        let step = match (phase, input) {
            (TransferPhase::Created, TransferInput::Start) => on_start(self, transfer, store),
            (TransferPhase::Probing, TransferInput::ScratchSize(size)) => prepare_download(
                self,
                transfer,
                store,
                config,
                size,
            ),
            (TransferPhase::Truncating, TransferInput::ScratchEmptied) => start(
                self,
                transfer,
                store,
                config,
            ),
            (TransferPhase::Building, TransferInput::ClientBuilt(ok)) => on_client(
                self,
                transfer,
                store,
                ok,
            ),
            (TransferPhase::Requesting, TransferInput::Response { success, url, headers }) => {
                let (step, Ghost(path)) = on_response(
                    self,
                    transfer,
                    store,
                    config,
                    success,
                    url.as_str(),
                    &headers,
                );
                proof {
                    oracle = Oracle { path, now: 0 };
                }
                step
            },
            (TransferPhase::Requesting, TransferInput::RequestFailed) => end_in(
                self,
                transfer,
                store,
                DownloadStatus::UnknownError,
            ),
            (TransferPhase::Opening, TransferInput::ScratchOpened(len)) => on_scratch_opened(
                self,
                transfer,
                store,
                len,
            ),
            (TransferPhase::Streaming, TransferInput::Chunk(len)) => on_chunk(
                self,
                transfer,
                store,
                len,
            ),
            (TransferPhase::Streaming, TransferInput::BodyEnd) => {
                let (step, Ghost(path)) = on_body(self, transfer, store, config);
                proof {
                    oracle = Oracle { path, now: 0 };
                }
                step
            },
            (TransferPhase::Streaming, TransferInput::BodyFailed) => end_in(
                self,
                transfer,
                store,
                DownloadStatus::UnknownError,
            ),
            (TransferPhase::Writing, TransferInput::Written { ok, now_ms }) => on_written(
                self,
                transfer,
                store,
                ok,
                now_ms,
            ),
            (TransferPhase::Confirming, TransferInput::Tick) => {
                let (step, Ghost(path)) = on_body(self, transfer, store, config);
                proof {
                    oracle = Oracle { path, now: 0 };
                }
                step
            },
            (TransferPhase::Listing, TransferInput::Listing { exists, paths }) => {
                let (step, Ghost(path)) = on_listing(self, transfer, store, exists, &paths);
                proof {
                    oracle = Oracle { path, now: 0 };
                }
                step
            },
            (TransferPhase::Moving, TransferInput::Moved(ok)) => {
                let (step, Ghost(now)) = on_moved(self, transfer, store, ok);
                proof {
                    oracle = Oracle { path: Seq::empty(), now };
                }
                step
            },
            _ => quiet(Command::Ignore),
        };
        assert(oracle_fits(m, given, config@, oracle));
        assert(outcome_of(self@, transfer@, store@, step) == after(m, given, config@, oracle));
        step
    }
}

} // verus!
