//! The transfer executor: the registry of jobs in flight and the dispatch of
//! control events.

use vstd::prelude::*;
use std::collections::HashSet;
use crate::config::{Config, ConfigView};
use crate::db::{job_with_id, with_status, DBError, Store, StoreView};
use crate::download::{
    is_new_job, Download, DownloadEvent, DownloadEventView, DownloadStatus, DownloadView,
};
use crate::text::{concat, from_chars, to_chars};

verus! {

/// How many events the bus holds for a receiver that lags behind.
pub const EVENT_BUS_CAPACITY: usize = 32;

/// Why the executor could not handle an event.
#[derive(Debug)]
pub enum DownloaderError {
    /// The catalog failed.
    DBError(DBError),
    /// The event bus failed; the text says how.
    ChannelError(String),
}

impl DownloaderError {
    /// What the error says, in words.
    pub open spec fn message_text(self) -> Seq<char> {
        match self {
            DownloaderError::DBError(e) => "Database error: "@ + e.message_text(),
            DownloaderError::ChannelError(text) => "Channel error: "@ + text@,
        }
    }

    /// What the error says, in words.
    pub fn message(&self) -> (r: String)
        ensures
            r@ == self.message_text(),
    {
        match self {
            DownloaderError::DBError(e) => from_chars(
                &concat(&to_chars("Database error: "), &to_chars(e.message().as_str())),
            ),
            DownloaderError::ChannelError(text) => from_chars(
                &concat(&to_chars("Channel error: "), &to_chars(text.as_str())),
            ),
        }
    }
}

/// The jobs in flight and the requests that wait for them.
#[derive(Debug)]
pub struct Downloader {
    pause_requests: HashSet<i64>,
    cancel_requests: HashSet<i64>,
    downloading: HashSet<i64>,
}

/// The registry as a mathematical value: three sets of job ids.
pub struct DownloaderView {
    /// Jobs that are to pause at their next chunk.
    pub pause_requests: Set<i64>,
    /// Jobs that are to be canceled at their next chunk.
    pub cancel_requests: Set<i64>,
    /// Jobs whose transfer is running.
    pub downloading: Set<i64>,
}

impl View for Downloader {
    type V = DownloaderView;

    closed spec fn view(&self) -> DownloaderView {
        DownloaderView {
            pause_requests: self.pause_requests@,
            cancel_requests: self.cancel_requests@,
            downloading: self.downloading@,
        }
    }
}

/// Something that the caller is to do after a control event was handled.
#[derive(Debug)]
pub enum Effect {
    /// Publish this event on the bus.
    Publish(DownloadEvent),
    /// Empty the scratch file at this path, if it is there.
    EmptyScratch(String),
}

/// An effect as a mathematical value.
pub enum EffectView {
    Publish(DownloadEventView),
    EmptyScratch(Seq<char>),
}

impl View for Effect {
    type V = EffectView;

    open spec fn view(&self) -> EffectView {
        match self {
            Effect::Publish(event) => EffectView::Publish(event@),
            Effect::EmptyScratch(path) => EffectView::EmptyScratch(path@),
        }
    }
}

/// The views of a sequence of effects.
pub open spec fn effect_views(effects: Seq<Effect>) -> Seq<EffectView> {
    Seq::new(effects.len(), |i: int| effects[i]@)
}

/// The views of a sequence of events.
pub open spec fn event_views(events: Seq<DownloadEvent>) -> Seq<DownloadEventView> {
    Seq::new(events.len(), |i: int| events[i]@)
}

/// What handling a control event leaves behind.
pub struct ControlOutcome {
    pub registry: DownloaderView,
    pub store: StoreView,
    pub effects: Seq<EffectView>,
    /// The id that no job has, where the event named such an id and the
    /// catalog had to be asked.
    pub missing: Option<i64>,
}

/// Nothing changes and nothing is to be done.
pub open spec fn unchanged(registry: DownloaderView, store: StoreView) -> ControlOutcome {
    ControlOutcome { registry, store, effects: Seq::empty(), missing: None }
}

/// Nothing changes, and the catalog has no job with this id.
pub open spec fn not_found(registry: DownloaderView, store: StoreView, id: i64) -> ControlOutcome {
    ControlOutcome { registry, store, effects: Seq::empty(), missing: Some(id) }
}

/// What handling a pause request leaves behind: the request is noted where
/// the job is in flight, and dropped otherwise.
pub open spec fn after_pause(registry: DownloaderView, store: StoreView, id: i64) -> ControlOutcome {
    if registry.downloading.contains(id) {
        ControlOutcome {
            registry: DownloaderView {
                pause_requests: registry.pause_requests.insert(id),
                ..registry
            },
            store,
            effects: Seq::empty(),
            missing: None,
        }
    } else {
        unchanged(registry, store)
    }
}

/// What handling a resume request leaves behind: a paused job is pending
/// again.
pub open spec fn after_resume(registry: DownloaderView, store: StoreView, id: i64) -> ControlOutcome {
    match job_with_id(store.jobs, id) {
        Some(job) => if job.status == DownloadStatus::Paused {
            ControlOutcome {
                registry,
                store: store.with_status(id, DownloadStatus::Pending),
                effects: Seq::empty(),
                missing: None,
            }
        } else {
            unchanged(registry, store)
        },
        None => not_found(registry, store, id),
    }
}

/// What handling a restart request leaves behind: an idle job is pending
/// again, and its scratch file is to be emptied.
pub open spec fn after_restart(registry: DownloaderView, store: StoreView, id: i64) -> ControlOutcome {
    match job_with_id(store.jobs, id) {
        Some(job) => if job.status.idle() {
            ControlOutcome {
                registry,
                store: store.with_status(id, DownloadStatus::Pending),
                effects: seq![EffectView::EmptyScratch(job.temp_file)],
                missing: None,
            }
        } else {
            unchanged(registry, store)
        },
        None => not_found(registry, store, id),
    }
}

/// What canceling a job that is not in flight leaves behind: the job is
/// canceled, this is published, and its scratch file is to be emptied.
pub open spec fn after_direct_cancel(
    registry: DownloaderView,
    store: StoreView,
    job: DownloadView,
) -> ControlOutcome {
    ControlOutcome {
        registry: DownloaderView {
            cancel_requests: registry.cancel_requests.remove(job.id),
            ..registry
        },
        store: store.with_status(job.id, DownloadStatus::Canceled),
        effects: seq![
            EffectView::Publish(
                DownloadEventView::DownloadUpdate(with_status(job, DownloadStatus::Canceled)),
            ),
            EffectView::EmptyScratch(job.temp_file),
        ],
        missing: None,
    }
}

/// What handling a cancel request leaves behind: the request is noted where
/// the job is in flight; otherwise the job is canceled at once.
pub open spec fn after_cancel(registry: DownloaderView, store: StoreView, id: i64) -> ControlOutcome {
    if registry.downloading.contains(id) {
        ControlOutcome {
            registry: DownloaderView {
                cancel_requests: registry.cancel_requests.insert(id),
                ..registry
            },
            store,
            effects: Seq::empty(),
            missing: None,
        }
    } else {
        match job_with_id(store.jobs, id) {
            Some(job) => after_direct_cancel(registry, store, job),
            None => not_found(registry, store, id),
        }
    }
}

/// What handling a delete request leaves behind: an idle job is gone.
pub open spec fn after_delete(registry: DownloaderView, store: StoreView, id: i64) -> ControlOutcome {
    match job_with_id(store.jobs, id) {
        Some(job) => if job.status.idle() {
            ControlOutcome { registry, store: store.deleted(id), effects: Seq::empty(), missing: None }
        } else {
            unchanged(registry, store)
        },
        None => not_found(registry, store, id),
    }
}

/// What handling an event other than a request for a new download leaves
/// behind. The reports of the engine itself change nothing.
pub open spec fn after_control(
    registry: DownloaderView,
    store: StoreView,
    event: DownloadEventView,
) -> ControlOutcome {
    match event {
        DownloadEventView::PauseDownload(id) => after_pause(registry, store, id),
        DownloadEventView::ResumeDownload(id) => after_resume(registry, store, id),
        DownloadEventView::RestartDownload(id) => after_restart(registry, store, id),
        DownloadEventView::CancelDownload(id) => after_cancel(registry, store, id),
        DownloadEventView::DeleteDownload(id) => after_delete(registry, store, id),
        _ => unchanged(registry, store),
    }
}

/// What holds after a request for a new download was handled: where an id
/// was left, a new job for the URL stands in the catalog under the next id,
/// confirmed as the request says; otherwise the catalog is as before.
pub open spec fn new_download_added(
    before: StoreView,
    after: StoreView,
    url: Seq<char>,
    confirmed: bool,
    config: ConfigView,
) -> bool {
    exists|job: DownloadView|
        is_new_job(DownloadView { data_confirmed: false, ..job }, url, config.temp_directory)
            && job.data_confirmed == confirmed && after == #[trigger] before.inserted(job)
}

impl Downloader {
    /// A registry with no job in flight and no request.
    pub fn new() -> (r: Downloader)
        ensures
            r@.pause_requests == Set::<i64>::empty(),
            r@.cancel_requests == Set::<i64>::empty(),
            r@.downloading == Set::<i64>::empty(),
    {
        Downloader {
            pause_requests: HashSet::new(),
            cancel_requests: HashSet::new(),
            downloading: HashSet::new(),
        }
    }

    /// Whether the transfer of this job is running.
    pub fn is_downloading(&self, download_id: i64) -> (r: bool)
        ensures
            r == self@.downloading.contains(download_id),
    {
        self.downloading.contains(&download_id)
    }

    /// Whether this job is asked to pause.
    pub fn is_pause_requested(&self, download_id: i64) -> (r: bool)
        ensures
            r == self@.pause_requests.contains(download_id),
    {
        self.pause_requests.contains(&download_id)
    }

    /// Whether this job is asked to be canceled.
    pub fn is_cancel_requested(&self, download_id: i64) -> (r: bool)
        ensures
            r == self@.cancel_requests.contains(download_id),
    {
        self.cancel_requests.contains(&download_id)
    }

    /// Notes that this job is to pause at its next chunk.
    pub fn request_pause(&mut self, download_id: i64)
        ensures
            final(self)@ == (DownloaderView {
                pause_requests: old(self)@.pause_requests.insert(download_id),
                ..old(self)@
            }),
    {
        self.pause_requests.insert(download_id);
    }

    /// Notes that this job is to be canceled at its next chunk.
    pub fn request_cancel(&mut self, download_id: i64)
        ensures
            final(self)@ == (DownloaderView {
                cancel_requests: old(self)@.cancel_requests.insert(download_id),
                ..old(self)@
            }),
    {
        self.cancel_requests.insert(download_id);
    }

    /// Notes that the transfer of this job is running.
    pub fn start_downloading(&mut self, download_id: i64)
        ensures
            final(self)@ == (DownloaderView {
                downloading: old(self)@.downloading.insert(download_id),
                ..old(self)@
            }),
    {
        self.downloading.insert(download_id);
    }

    /// Notes that the transfer of this job has ended.
    pub fn stop_downloading(&mut self, download_id: i64)
        ensures
            final(self)@ == (DownloaderView {
                downloading: old(self)@.downloading.remove(download_id),
                ..old(self)@
            }),
    {
        self.downloading.remove(&download_id);
    }

    /// Makes a new job for `url` and adds it to the catalog. Fails only where
    /// the catalog has no id left.
    pub fn new_download(&self, url: String, confirm: bool, store: &mut Store, config: &Config) -> (r:
        Result<(), DBError>)
        requires
            old(store)@.wf(),
        ensures
            final(store)@.wf(),
            match r {
                Ok(_) => old(store)@.last_id < i64::MAX && new_download_added(
                    old(store)@,
                    final(store)@,
                    url@,
                    confirm,
                    config@,
                ),
                Err(e) => old(store)@.last_id == i64::MAX && e is RusqliteError && final(store)@
                    == old(store)@,
            },
    {
        let mut download_info = Download::get_download_from_url(url, config);
        download_info.data_confirmed = confirm;
        match crate::db::new_download(store, &download_info) {
            Ok(_) => {
                assert(final(store)@ == old(store)@.inserted(download_info@));
                Ok(())
            },
            Err(e) => Err(e),
        }
    }

    /// Gives `download` the status `new_status`, here and in the catalog, and
    /// adds the report of it to `events`.
    pub fn update_download_status_and_notify(
        download: &mut Download,
        new_status: DownloadStatus,
        store: &mut Store,
        events: &mut Vec<DownloadEvent>,
    )
        requires
            old(store)@.wf(),
        ensures
            final(store)@.wf(),
            final(download)@ == with_status(old(download)@, new_status),
            final(store)@ == old(store)@.with_status(old(download)@.id, new_status),
            event_views(final(events)@) == event_views(old(events)@).push(
                DownloadEventView::DownloadUpdate(final(download)@),
            ),
    {
        let _ = download.change_download_status(new_status, store);
        let ghost before = event_views(events@);
        events.push(DownloadEvent::DownloadUpdate(download.clone()));
        assert(event_views(events@) =~= before.push(DownloadEventView::DownloadUpdate(download@)));
    }

    /// Writes `download` into the catalog and adds the report of it to `events`.
    pub fn update_download_in_db_and_notify(
        download: &Download,
        store: &mut Store,
        events: &mut Vec<DownloadEvent>,
    )
        requires
            old(store)@.wf(),
        ensures
            final(store)@.wf(),
            final(store)@ == old(store)@.updated(download@),
            event_views(final(events)@) == event_views(old(events)@).push(
                DownloadEventView::DownloadUpdate(download@),
            ),
    {
        let _ = download.sync_to_db(store);
        let ghost before = event_views(events@);
        events.push(DownloadEvent::DownloadUpdate(download.clone()));
        assert(event_views(events@) =~= before.push(DownloadEventView::DownloadUpdate(download@)));
    }

    /// The report of an error, for the job `download_id` if it concerns one.
    pub fn report_error(download_id: Option<i64>, error: &str) -> (r: DownloadEvent)
        ensures
            r@ == DownloadEventView::DownloadError(download_id, error@),
    {
        DownloadEvent::DownloadError(download_id, error.to_owned())
    }

    /// Pauses `download`: it is paused here and in the catalog, this is
    /// reported, and the request to pause it is cleared.
    pub fn pause_download(
        &mut self,
        download: &mut Download,
        store: &mut Store,
        events: &mut Vec<DownloadEvent>,
    )
        requires
            old(store)@.wf(),
        ensures
            final(store)@.wf(),
            final(download)@ == with_status(old(download)@, DownloadStatus::Paused),
            final(store)@ == old(store)@.with_status(old(download)@.id, DownloadStatus::Paused),
            event_views(final(events)@) == event_views(old(events)@).push(
                DownloadEventView::DownloadUpdate(final(download)@),
            ),
            final(self)@ == (DownloaderView {
                pause_requests: old(self)@.pause_requests.remove(old(download)@.id),
                ..old(self)@
            }),
    {
        Self::update_download_status_and_notify(download, DownloadStatus::Paused, store, events);
        self.pause_requests.remove(&download.id);
    }

    /// Cancels `download`: it is canceled here and in the catalog, this is
    /// reported, and the request to cancel it is cleared. The scratch file is
    /// left to the caller to empty.
    pub fn cancel_download(
        &mut self,
        download: &mut Download,
        store: &mut Store,
        events: &mut Vec<DownloadEvent>,
    )
        requires
            old(store)@.wf(),
        ensures
            final(store)@.wf(),
            final(download)@ == with_status(old(download)@, DownloadStatus::Canceled),
            final(store)@ == old(store)@.with_status(old(download)@.id, DownloadStatus::Canceled),
            event_views(final(events)@) == event_views(old(events)@).push(
                DownloadEventView::DownloadUpdate(final(download)@),
            ),
            final(self)@ == (DownloaderView {
                cancel_requests: old(self)@.cancel_requests.remove(old(download)@.id),
                ..old(self)@
            }),
    {
        Self::update_download_status_and_notify(download, DownloadStatus::Canceled, store, events);
        self.cancel_requests.remove(&download.id);
    }

    /// Handles one event of the bus. A request for a new download adds a job
    /// to the catalog; the other requests change the registry and the catalog
    /// as `after_control` says, and what is left to do comes back as effects.
    /// Fails where a request names a job that the catalog has to be asked
    /// for and does not hold, or where no id is left for a new job.
    pub fn handle_event(&mut self, event: DownloadEvent, store: &mut Store, config: &Config) -> (r:
        Result<Vec<Effect>, DownloaderError>)
        requires
            old(store)@.wf(),
        ensures
            final(store)@.wf(),
            match event@ {
                DownloadEventView::NewDownload(url, confirmed) => {
                    &&& final(self)@ == old(self)@
                    &&& match r {
                        Ok(effects) => effects@.len() == 0 && old(store)@.last_id < i64::MAX
                            && new_download_added(
                            old(store)@,
                            final(store)@,
                            url,
                            confirmed,
                            config@,
                        ),
                        Err(e) => old(store)@.last_id == i64::MAX && final(store)@ == old(store)@
                            && e matches DownloaderError::DBError(DBError::RusqliteError(_)),
                    }
                },
                other => {
                    let outcome = after_control(old(self)@, old(store)@, other);
                    &&& final(self)@ == outcome.registry
                    &&& final(store)@ == outcome.store
                    &&& match r {
                        Ok(effects) => outcome.missing is None && effect_views(effects@)
                            == outcome.effects,
                        Err(e) => outcome.missing matches Some(id) && e
                            == DownloaderError::DBError(DBError::DownloadNotFound(id)),
                    }
                },
            },
    {
        let mut effects: Vec<Effect> = Vec::new();
        assert(effect_views(effects@) =~= Seq::<EffectView>::empty());
        match event {
            DownloadEvent::NewDownload(url, confirm) => {
                match self.new_download(url, confirm, store, config) {
                    Ok(_) => {},
                    Err(e) => {
                        return Err(DownloaderError::DBError(e));
                    },
                }
            },
            DownloadEvent::PauseDownload(id) => {
                if self.downloading.contains(&id) {
                    self.request_pause(id);
                }
            },
            DownloadEvent::ResumeDownload(id) => {
                let download = match crate::db::get_download_by_id(store, id) {
                    Ok(d) => d,
                    Err(e) => {
                        return Err(DownloaderError::DBError(e));
                    },
                };
                if let DownloadStatus::Paused = download.status {
                    let _ = crate::db::change_download_status(store, &id, &DownloadStatus::Pending);
                }
            },
            DownloadEvent::RestartDownload(id) => {
                let download = match crate::db::get_download_by_id(store, id) {
                    Ok(d) => d,
                    Err(e) => {
                        return Err(DownloaderError::DBError(e));
                    },
                };
                if download.is_idle() {
                    effects.push(Effect::EmptyScratch(download.temp_file.clone()));
                    assert(effect_views(effects@) =~= seq![
                        EffectView::EmptyScratch(download@.temp_file),
                    ]);
                    let _ = crate::db::change_download_status(store, &id, &DownloadStatus::Pending);
                }
            },
            DownloadEvent::CancelDownload(id) => {
                if self.downloading.contains(&id) {
                    self.request_cancel(id);
                } else {
                    let mut download = match crate::db::get_download_by_id(store, id) {
                        Ok(d) => d,
                        Err(e) => {
                            return Err(DownloaderError::DBError(e));
                        },
                    };
                    proof {
                        crate::db::lemma_position_from(store@.jobs, id, 0);
                    }
                    let mut events: Vec<DownloadEvent> = Vec::new();
                    assert(event_views(events@) =~= Seq::<DownloadEventView>::empty());
                    self.cancel_download(&mut download, store, &mut events);
                    let temp_file = download.temp_file.clone();
                    effects.push(Effect::Publish(DownloadEvent::DownloadUpdate(download)));
                    effects.push(Effect::EmptyScratch(temp_file));
                    assert(effect_views(effects@) =~= after_direct_cancel(
                        old(self)@,
                        old(store)@,
                        job_with_id(old(store)@.jobs, id)->0,
                    ).effects);
                }
            },
            DownloadEvent::DeleteDownload(id) => {
                let download = match crate::db::get_download_by_id(store, id) {
                    Ok(d) => d,
                    Err(e) => {
                        return Err(DownloaderError::DBError(e));
                    },
                };
                if download.is_idle() {
                    let _ = crate::db::delete_download(store, id);
                }
            },
            _ => {},
        }
        Ok(effects)
    }
}

} // verus!
