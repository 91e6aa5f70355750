use flow_lib::admission::pending_downloads_checker;
use flow_lib::config::{Category, Config, ConfigPatch, NamedCategory};
use flow_lib::config::{get_categories, get_config, get_default_directory, process_config};
use flow_lib::db::{get_all_downloads, get_download_by_id, new_download, DBError, Store};
use flow_lib::download::{Download, DownloadEvent, DownloadStatus};
use flow_lib::downloader::{Downloader, DownloaderError, Effect};
use flow_lib::listener::{FlowListener, Signal};
use flow_lib::transfer::{range_from, Command, Step, Transfer, TransferInput, TransferPhase};
use reqwest::header::{HeaderMap, ACCEPT_RANGES, CONTENT_LENGTH};

fn config() -> Config {
    Config {
        default_directory: "/home/u/Downloads".to_string(),
        temp_directory: "/tmp/flowd".to_string(),
        user_agent: "flow/1".to_string(),
        categories: vec![NamedCategory {
            name: "video".to_string(),
            category: Category {
                extensions: vec![".mp4".to_string()],
                directory: "/home/u/Videos".to_string(),
            },
        }],
        max_sim_downloads: 2,
    }
}

fn job(url: &str, status: DownloadStatus) -> Download {
    Download {
        id: 0,
        url: url.to_string(),
        status,
        data_confirmed: true,
        detected_output_file: None,
        output_file: None,
        temp_file: "/tmp/flowd/abcdefghij".to_string(),
        resumable: false,
        date_added: 1700000000,
        date_completed: None,
        size: None,
    }
}

fn updates(events: &Vec<DownloadEvent>) -> Vec<DownloadStatus> {
    events
        .iter()
        .map(|e| match e {
            DownloadEvent::DownloadUpdate(d) => d.status,
            other => panic!("not an update: {:?}", other),
        })
        .collect()
}

#[test]
fn status_tags_round_trip() {
    let all = [
        (DownloadStatus::Pending, "pending", "Pending"),
        (DownloadStatus::Starting, "starting", "Starting"),
        (DownloadStatus::InProgress, "in_progress", "In progress"),
        (DownloadStatus::Paused, "paused", "Paused"),
        (DownloadStatus::Canceled, "canceled", "Canceled"),
        (DownloadStatus::Completed, "completed", "Completed"),
        (DownloadStatus::ServerError, "server_error", "Server error"),
        (DownloadStatus::ClientError, "client_error", "Client error"),
        (DownloadStatus::UnknownError, "unknown_error", "Unknown error"),
    ];
    for (status, tag, description) in all {
        assert_eq!(status.get_string(), tag);
        assert_eq!(status.get_description(), description);
        assert_eq!(DownloadStatus::from_string(tag), status);
        assert_eq!(DownloadStatus::try_from_string(tag), Some(status));
    }
    assert_eq!(DownloadStatus::try_from_string("Pending"), None);
    assert_eq!(DownloadStatus::try_from_string(""), None);
    assert_eq!(DownloadStatus::try_from_string("in progress"), None);
}

#[test]
fn idle_is_paused_canceled_or_failed() {
    for (status, idle) in [
        (DownloadStatus::Pending, false),
        (DownloadStatus::Starting, false),
        (DownloadStatus::InProgress, false),
        (DownloadStatus::Paused, true),
        (DownloadStatus::Canceled, true),
        (DownloadStatus::Completed, false),
        (DownloadStatus::ServerError, true),
        (DownloadStatus::ClientError, true),
        (DownloadStatus::UnknownError, true),
    ] {
        assert_eq!(job("u", status).is_idle(), idle);
    }
}

#[test]
fn new_job_is_pending_with_a_fresh_scratch_file() {
    let d = Download::get_download_from_url("https://a/b".to_string(), &config());
    assert_eq!(d.id, 0);
    assert_eq!(d.url, "https://a/b");
    assert_eq!(d.status, DownloadStatus::Pending);
    assert!(!d.data_confirmed);
    assert_eq!(d.detected_output_file, None);
    assert_eq!(d.output_file, None);
    assert!(d.temp_file.starts_with("/tmp/flowd/"));
    assert_eq!(d.temp_file.len(), "/tmp/flowd/".len() + 10);
    assert!(!d.resumable);
    assert!(d.date_added > 1_600_000_000);
    assert_eq!(d.date_completed, None);
    assert_eq!(d.size, None);
}

#[test]
fn job_follows_the_catalog_on_refresh() {
    let mut store = Store::new();
    let id = new_download(&mut store, &job("u", DownloadStatus::Pending)).unwrap();
    let mut copy = get_download_by_id(&store, id).unwrap();
    copy.change_download_status(DownloadStatus::Paused, &mut store).unwrap();
    assert_eq!(get_download_by_id(&store, id).unwrap().status, DownloadStatus::Paused);
    copy.size = Some(77);
    copy.sync_to_db(&mut store).unwrap();
    let mut other = job("stale", DownloadStatus::Pending);
    other.id = id;
    other.refresh_data_from_db(&store);
    assert_eq!(other.url, "u");
    assert_eq!(other.size, Some(77));
    assert_eq!(other.status, DownloadStatus::Paused);
    let mut stray = job("stray", DownloadStatus::Canceled);
    stray.id = 99;
    stray.refresh_data_from_db(&store);
    assert_eq!(stray.url, "stray");
    assert_eq!(stray.status, DownloadStatus::Canceled);
}

#[test]
fn admission_with_cap_two_and_three_pending() {
    let mut store = Store::new();
    for u in ["a", "b", "c"] {
        new_download(&mut store, &job(u, DownloadStatus::Pending)).unwrap();
    }
    assert_eq!(pending_downloads_checker(&store, 2).unwrap(), vec![1, 2]);
    assert_eq!(
        get_download_by_id(&store, 3).unwrap().status,
        DownloadStatus::Pending
    );
}

#[test]
fn admission_counts_the_jobs_in_progress() {
    let mut store = Store::new();
    new_download(&mut store, &job("a", DownloadStatus::InProgress)).unwrap();
    new_download(&mut store, &job("b", DownloadStatus::Pending)).unwrap();
    new_download(&mut store, &job("c", DownloadStatus::Starting)).unwrap();
    new_download(&mut store, &job("d", DownloadStatus::Pending)).unwrap();
    assert_eq!(pending_downloads_checker(&store, 2).unwrap(), vec![2]);
    assert_eq!(pending_downloads_checker(&store, 1).unwrap(), Vec::<i64>::new());
    assert_eq!(pending_downloads_checker(&store, 0).unwrap(), Vec::<i64>::new());
    assert_eq!(pending_downloads_checker(&store, 3).unwrap(), vec![2, 4]);
    assert_eq!(pending_downloads_checker(&store, u16::MAX).unwrap(), vec![2, 4]);
    assert_eq!(pending_downloads_checker(&Store::new(), 5).unwrap(), Vec::<i64>::new());
}

#[test]
fn new_download_event_adds_a_job() {
    let mut d = Downloader::new();
    let mut store = Store::new();
    let effects = d
        .handle_event(
            DownloadEvent::NewDownload("https://a/b.mp4".to_string(), true),
            &mut store,
            &config(),
        )
        .unwrap();
    assert!(effects.is_empty());
    let all = get_all_downloads(&store).unwrap();
    assert_eq!(all.len(), 1);
    assert_eq!(all[0].id, 1);
    assert_eq!(all[0].url, "https://a/b.mp4");
    assert!(all[0].data_confirmed);
    assert_eq!(all[0].status, DownloadStatus::Pending);
    d.new_download("https://a/c".to_string(), false, &mut store, &config()).unwrap();
    let second = get_download_by_id(&store, 2).unwrap();
    assert!(!second.data_confirmed);
    assert_ne!(second.temp_file, all[0].temp_file);
}

#[test]
fn pause_is_noted_only_for_a_job_in_flight() {
    let mut d = Downloader::new();
    let mut store = Store::new();
    d.handle_event(DownloadEvent::PauseDownload(1), &mut store, &config()).unwrap();
    assert!(!d.is_pause_requested(1));
    d.start_downloading(1);
    d.handle_event(DownloadEvent::PauseDownload(1), &mut store, &config()).unwrap();
    assert!(d.is_pause_requested(1));
    assert!(!d.is_cancel_requested(1));
    assert!(d.is_downloading(1));
}

#[test]
fn resume_makes_a_paused_job_pending() {
    let mut d = Downloader::new();
    let mut store = Store::new();
    let paused = new_download(&mut store, &job("a", DownloadStatus::Paused)).unwrap();
    let failed = new_download(&mut store, &job("b", DownloadStatus::ServerError)).unwrap();
    d.handle_event(DownloadEvent::ResumeDownload(paused), &mut store, &config()).unwrap();
    d.handle_event(DownloadEvent::ResumeDownload(failed), &mut store, &config()).unwrap();
    assert_eq!(get_download_by_id(&store, paused).unwrap().status, DownloadStatus::Pending);
    assert_eq!(
        get_download_by_id(&store, failed).unwrap().status,
        DownloadStatus::ServerError
    );
}

#[test]
fn restart_empties_the_scratch_file_of_an_idle_job() {
    let mut d = Downloader::new();
    let mut store = Store::new();
    let failed = new_download(&mut store, &job("a", DownloadStatus::ClientError)).unwrap();
    let done = new_download(&mut store, &job("b", DownloadStatus::Completed)).unwrap();
    let effects = d
        .handle_event(DownloadEvent::RestartDownload(failed), &mut store, &config())
        .unwrap();
    assert_eq!(effects.len(), 1);
    assert!(matches!(&effects[0], Effect::EmptyScratch(p) if p == "/tmp/flowd/abcdefghij"));
    assert_eq!(get_download_by_id(&store, failed).unwrap().status, DownloadStatus::Pending);
    let effects = d
        .handle_event(DownloadEvent::RestartDownload(done), &mut store, &config())
        .unwrap();
    assert!(effects.is_empty());
    assert_eq!(get_download_by_id(&store, done).unwrap().status, DownloadStatus::Completed);
}

#[test]
fn cancel_acts_at_once_on_a_job_that_is_not_in_flight() {
    let mut d = Downloader::new();
    let mut store = Store::new();
    let id = new_download(&mut store, &job("a", DownloadStatus::Pending)).unwrap();
    let effects = d
        .handle_event(DownloadEvent::CancelDownload(id), &mut store, &config())
        .unwrap();
    assert_eq!(effects.len(), 2);
    match &effects[0] {
        Effect::Publish(DownloadEvent::DownloadUpdate(j)) => {
            assert_eq!(j.id, id);
            assert_eq!(j.status, DownloadStatus::Canceled);
        }
        other => panic!("unexpected: {:?}", other),
    }
    assert!(matches!(&effects[1], Effect::EmptyScratch(p) if p == "/tmp/flowd/abcdefghij"));
    assert_eq!(get_download_by_id(&store, id).unwrap().status, DownloadStatus::Canceled);
    assert!(!d.is_cancel_requested(id));
}

#[test]
fn cancel_is_noted_for_a_job_in_flight() {
    let mut d = Downloader::new();
    let mut store = Store::new();
    let id = new_download(&mut store, &job("a", DownloadStatus::InProgress)).unwrap();
    d.start_downloading(id);
    let effects = d
        .handle_event(DownloadEvent::CancelDownload(id), &mut store, &config())
        .unwrap();
    assert!(effects.is_empty());
    assert!(d.is_cancel_requested(id));
    assert_eq!(get_download_by_id(&store, id).unwrap().status, DownloadStatus::InProgress);
}

#[test]
fn delete_removes_only_an_idle_job() {
    let mut d = Downloader::new();
    let mut store = Store::new();
    let canceled = new_download(&mut store, &job("a", DownloadStatus::Canceled)).unwrap();
    let running = new_download(&mut store, &job("b", DownloadStatus::InProgress)).unwrap();
    let done = new_download(&mut store, &job("c", DownloadStatus::Completed)).unwrap();
    for id in [canceled, running, done] {
        d.handle_event(DownloadEvent::DeleteDownload(id), &mut store, &config()).unwrap();
    }
    let left: Vec<i64> = get_all_downloads(&store).unwrap().iter().map(|j| j.id).collect();
    assert_eq!(left, vec![running, done]);
}

#[test]
fn request_for_an_unknown_job_fails() {
    let mut d = Downloader::new();
    let mut store = Store::new();
    for event in [
        DownloadEvent::ResumeDownload(9),
        DownloadEvent::RestartDownload(9),
        DownloadEvent::CancelDownload(9),
        DownloadEvent::DeleteDownload(9),
    ] {
        match d.handle_event(event, &mut store, &config()) {
            Err(DownloaderError::DBError(DBError::DownloadNotFound(9))) => {}
            other => panic!("unexpected: {:?}", other),
        }
    }
    assert!(d
        .handle_event(DownloadEvent::PauseDownload(9), &mut store, &config())
        .unwrap()
        .is_empty());
}

#[test]
fn reports_on_the_bus_change_nothing() {
    let mut d = Downloader::new();
    let mut store = Store::new();
    let id = new_download(&mut store, &job("a", DownloadStatus::Paused)).unwrap();
    for event in [
        DownloadEvent::DownloadProgress(id, 1, 2),
        DownloadEvent::DownloadDelete(id),
        DownloadEvent::DownloadError(Some(id), "x".to_string()),
        DownloadEvent::DownloadUpdate(job("z", DownloadStatus::Completed)),
    ] {
        assert!(d.handle_event(event, &mut store, &config()).unwrap().is_empty());
    }
    assert_eq!(get_download_by_id(&store, id).unwrap().status, DownloadStatus::Paused);
}

#[test]
fn executor_errors_say_what_failed() {
    assert_eq!(
        DownloaderError::DBError(DBError::DownloadNotFound(7)).message(),
        "Database error: Download #7 not found"
    );
    assert_eq!(
        DownloaderError::ChannelError("closed".to_string()).message(),
        "Channel error: closed"
    );
}

#[test]
fn error_report_names_the_job() {
    match Downloader::report_error(Some(4), "boom") {
        DownloadEvent::DownloadError(Some(4), m) => assert_eq!(m, "boom"),
        other => panic!("unexpected: {:?}", other),
    }
    assert!(matches!(
        Downloader::report_error(None, ""),
        DownloadEvent::DownloadError(None, _)
    ));
}

struct Run {
    d: Downloader,
    store: Store,
    t: Transfer,
    cfg: Config,
}

impl Run {
    fn new(j: Download) -> Run {
        let mut store = Store::new();
        let id = new_download(&mut store, &j).unwrap();
        Run { d: Downloader::new(), store, t: Transfer::new(id), cfg: config() }
    }

    fn step(&mut self, input: TransferInput) -> Step {
        self.d.download(&mut self.t, input, &mut self.store, &self.cfg)
    }

    fn stored(&self) -> Download {
        get_download_by_id(&self.store, self.t.download.id).unwrap()
    }

    fn response(&self, url: &str, ranges: bool, length: Option<&str>) -> TransferInput {
        let mut headers = HeaderMap::new();
        if ranges {
            headers.insert(ACCEPT_RANGES, "bytes".parse().unwrap());
        }
        if let Some(l) = length {
            headers.insert(CONTENT_LENGTH, l.parse().unwrap());
        }
        TransferInput::Response { success: true, url: url.to_string(), headers }
    }

    fn to_streaming(&mut self, url: &str) {
        self.step(TransferInput::Start);
        self.step(TransferInput::ScratchSize(None));
        self.step(TransferInput::ClientBuilt(true));
        let r = self.response(url, true, Some("300"));
        self.step(r);
        self.step(TransferInput::ScratchOpened(Some(0)));
        assert_eq!(self.t.phase, TransferPhase::Streaming);
    }
}

#[test]
fn transfer_runs_from_start_to_completed() {
    let mut run = Run::new(job("https://a.example/film.mp4", DownloadStatus::Pending));
    let id = run.t.download.id;

    let s = run.step(TransferInput::Start);
    assert!(s.events.is_empty());
    assert!(matches!(&s.command, Command::ProbeScratch(p) if p == "/tmp/flowd/abcdefghij"));
    assert!(run.d.is_downloading(id));

    let s = run.step(TransferInput::ScratchSize(None));
    assert_eq!(updates(&s.events), vec![DownloadStatus::Starting]);
    match &s.command {
        Command::BuildClient { user_agent, range } => {
            assert_eq!(user_agent, "flow/1");
            assert_eq!(*range, None);
        }
        other => panic!("unexpected: {:?}", other),
    }
    assert_eq!(run.stored().status, DownloadStatus::Starting);

    let s = run.step(TransferInput::ClientBuilt(true));
    assert_eq!(updates(&s.events), vec![DownloadStatus::InProgress]);
    assert!(matches!(&s.command, Command::SendRequest(u) if u == "https://a.example/film.mp4"));
    assert_eq!(run.stored().status, DownloadStatus::InProgress);

    let r = run.response("https://cdn.example/film.mp4", true, Some("300"));
    let s = run.step(r);
    assert_eq!(updates(&s.events), vec![DownloadStatus::InProgress]);
    assert!(matches!(&s.command, Command::OpenScratch(p) if p == "/tmp/flowd/abcdefghij"));
    let stored = run.stored();
    assert_eq!(stored.detected_output_file, Some("/home/u/Videos/film.mp4".to_string()));
    assert_eq!(stored.size, Some(300));
    assert!(stored.resumable);

    let s = run.step(TransferInput::ScratchOpened(Some(0)));
    assert!(s.events.is_empty());
    assert!(matches!(s.command, Command::PullChunk));

    let s = run.step(TransferInput::Chunk(100));
    assert!(s.events.is_empty());
    assert!(matches!(s.command, Command::WriteChunk));
    let s = run.step(TransferInput::Written { ok: true, now_ms: 10 });
    assert!(matches!(s.command, Command::PullChunk));
    assert!(matches!(&s.events[..], [DownloadEvent::DownloadProgress(i, 100, 300)] if *i == id));

    run.step(TransferInput::Chunk(100));
    let s = run.step(TransferInput::Written { ok: true, now_ms: 259 });
    assert!(s.events.is_empty());
    assert_eq!(run.t.progress, 200);

    run.step(TransferInput::Chunk(100));
    let s = run.step(TransferInput::Written { ok: true, now_ms: 260 });
    assert!(matches!(&s.events[..], [DownloadEvent::DownloadProgress(_, 300, 300)]));

    let s = run.step(TransferInput::BodyEnd);
    assert!(s.events.is_empty());
    assert!(matches!(&s.command, Command::ListDirectory(p) if p == "/home/u/Videos/"));

    let s = run.step(TransferInput::Listing {
        exists: true,
        paths: vec!["/home/u/Videos/film (1).mp4".to_string()],
    });
    match &s.command {
        Command::MoveScratch { from, to } => {
            assert_eq!(from, "/tmp/flowd/abcdefghij");
            assert_eq!(to, "/home/u/Videos/film (2).mp4");
        }
        other => panic!("unexpected: {:?}", other),
    }

    let s = run.step(TransferInput::Moved(true));
    assert!(matches!(s.command, Command::Stop));
    assert_eq!(
        updates(&s.events),
        vec![DownloadStatus::InProgress, DownloadStatus::InProgress, DownloadStatus::Completed]
    );
    let stored = run.stored();
    assert_eq!(stored.status, DownloadStatus::Completed);
    assert!(stored.date_completed.is_some());
    assert!(stored.date_completed.unwrap() > 1_600_000_000);
    assert_eq!(stored.output_file, Some("/home/u/Videos/film (2).mp4".to_string()));
    assert!(!run.d.is_downloading(id));
    assert_eq!(run.t.phase, TransferPhase::Finished);
}

#[test]
fn completed_job_is_left_alone() {
    let mut done = job("u", DownloadStatus::Completed);
    done.date_completed = Some(5);
    let mut run = Run::new(done);
    let s = run.step(TransferInput::Start);
    assert!(s.events.is_empty());
    assert!(matches!(s.command, Command::Stop));
    assert!(!run.d.is_downloading(run.t.download.id));
    assert_eq!(run.stored().status, DownloadStatus::Completed);
    assert_eq!(run.t.phase, TransferPhase::Finished);
}

#[test]
fn unknown_job_ends_the_transfer() {
    let mut d = Downloader::new();
    let mut store = Store::new();
    let mut t = Transfer::new(5);
    let s = d.download(&mut t, TransferInput::Start, &mut store, &config());
    assert!(matches!(s.command, Command::Stop));
    assert!(!d.is_downloading(5));
}

#[test]
fn resumable_job_goes_on_from_the_bytes_it_has() {
    let mut paused = job("u", DownloadStatus::Paused);
    paused.resumable = true;
    let mut run = Run::new(paused);
    run.step(TransferInput::Start);
    let s = run.step(TransferInput::ScratchSize(Some(500)));
    match &s.command {
        Command::BuildClient { range, .. } => assert_eq!(*range, Some("bytes=500-".to_string())),
        other => panic!("unexpected: {:?}", other),
    }
    assert_eq!(run.t.start_byte, Some(500));
    run.step(TransferInput::ClientBuilt(true));
    let r = run.response("https://a/u", true, None);
    run.step(r);
    run.step(TransferInput::ScratchOpened(Some(500)));
    assert_eq!(run.t.progress, 500);
    run.step(TransferInput::Chunk(20));
    let s = run.step(TransferInput::Written { ok: true, now_ms: 1 });
    assert!(matches!(&s.events[..], [DownloadEvent::DownloadProgress(_, 520, 0)]));
}

#[test]
fn other_job_has_its_scratch_file_emptied_first() {
    let mut run = Run::new(job("u", DownloadStatus::Paused));
    run.step(TransferInput::Start);
    let s = run.step(TransferInput::ScratchSize(Some(500)));
    assert!(s.events.is_empty());
    assert!(matches!(&s.command, Command::TruncateScratch(p) if p == "/tmp/flowd/abcdefghij"));
    let s = run.step(TransferInput::ScratchEmptied);
    assert_eq!(updates(&s.events), vec![DownloadStatus::Starting]);
    assert!(matches!(&s.command, Command::BuildClient { range: None, .. }));
}

#[test]
fn range_header_names_the_first_byte_wanted() {
    assert_eq!(range_from(None), None);
    assert_eq!(range_from(Some(0)), Some("bytes=0-".to_string()));
    assert_eq!(range_from(Some(1024)), Some("bytes=1024-".to_string()));
    assert_eq!(
        range_from(Some(u64::MAX)),
        Some("bytes=18446744073709551615-".to_string())
    );
}

#[test]
fn empty_scratch_file_needs_no_range() {
    let mut resumable = job("u", DownloadStatus::Pending);
    resumable.resumable = true;
    let mut run = Run::new(resumable);
    run.step(TransferInput::Start);
    let s = run.step(TransferInput::ScratchSize(Some(0)));
    assert!(matches!(&s.command, Command::BuildClient { range: None, .. }));
}

#[test]
fn failures_end_the_transfer_with_an_error_status() {
    let mut run = Run::new(job("u", DownloadStatus::Pending));
    run.step(TransferInput::Start);
    run.step(TransferInput::ScratchSize(None));
    let s = run.step(TransferInput::ClientBuilt(false));
    assert_eq!(updates(&s.events), vec![DownloadStatus::ClientError]);
    assert!(matches!(s.command, Command::Stop));
    assert_eq!(run.stored().status, DownloadStatus::ClientError);
    assert!(!run.d.is_downloading(run.t.download.id));

    let mut run = Run::new(job("u", DownloadStatus::Pending));
    run.step(TransferInput::Start);
    run.step(TransferInput::ScratchSize(None));
    run.step(TransferInput::ClientBuilt(true));
    let s = run.step(TransferInput::Response {
        success: false,
        url: "https://a/u".to_string(),
        headers: HeaderMap::new(),
    });
    assert_eq!(updates(&s.events), vec![DownloadStatus::ServerError]);
    assert_eq!(run.stored().status, DownloadStatus::ServerError);
    assert!(!run.d.is_downloading(run.t.download.id));

    let mut run = Run::new(job("u", DownloadStatus::Pending));
    run.step(TransferInput::Start);
    run.step(TransferInput::ScratchSize(None));
    run.step(TransferInput::ClientBuilt(true));
    let s = run.step(TransferInput::RequestFailed);
    assert_eq!(updates(&s.events), vec![DownloadStatus::UnknownError]);

    let mut run = Run::new(job("u", DownloadStatus::Pending));
    run.step(TransferInput::Start);
    run.step(TransferInput::ScratchSize(None));
    run.step(TransferInput::ClientBuilt(true));
    let s = run.step(TransferInput::Response {
        success: true,
        url: "no url".to_string(),
        headers: HeaderMap::new(),
    });
    assert_eq!(updates(&s.events), vec![DownloadStatus::UnknownError]);

    let mut run = Run::new(job("u", DownloadStatus::Pending));
    run.step(TransferInput::Start);
    run.step(TransferInput::ScratchSize(None));
    run.step(TransferInput::ClientBuilt(true));
    let r = run.response("https://a/u", false, None);
    run.step(r);
    let s = run.step(TransferInput::ScratchOpened(None));
    assert_eq!(updates(&s.events), vec![DownloadStatus::ClientError]);

    let mut run = Run::new(job("u", DownloadStatus::Pending));
    run.to_streaming("https://a/u");
    run.step(TransferInput::Chunk(1));
    let s = run.step(TransferInput::Written { ok: false, now_ms: 0 });
    assert_eq!(updates(&s.events), vec![DownloadStatus::ClientError]);

    let mut run = Run::new(job("u", DownloadStatus::Pending));
    run.to_streaming("https://a/u");
    let s = run.step(TransferInput::BodyFailed);
    assert_eq!(updates(&s.events), vec![DownloadStatus::UnknownError]);
}

#[test]
fn pause_request_is_honored_at_the_next_chunk() {
    let mut run = Run::new(job("https://a/u", DownloadStatus::Pending));
    run.to_streaming("https://a/u");
    let id = run.t.download.id;
    run.d.handle_event(DownloadEvent::PauseDownload(id), &mut run.store, &run.cfg).unwrap();
    assert!(run.d.is_pause_requested(id));
    let s = run.step(TransferInput::Chunk(10));
    assert_eq!(updates(&s.events), vec![DownloadStatus::Paused]);
    assert!(matches!(s.command, Command::Stop));
    assert_eq!(run.stored().status, DownloadStatus::Paused);
    assert!(!run.d.is_downloading(id));
    assert!(!run.d.is_pause_requested(id));
    assert_eq!(run.t.progress, 0);
}

#[test]
fn cancel_request_goes_before_a_pause_request() {
    let mut run = Run::new(job("https://a/u", DownloadStatus::Pending));
    run.to_streaming("https://a/u");
    let id = run.t.download.id;
    run.d.request_pause(id);
    run.d.request_cancel(id);
    let s = run.step(TransferInput::Chunk(10));
    assert_eq!(updates(&s.events), vec![DownloadStatus::Canceled]);
    assert!(matches!(&s.command, Command::EmptyScratchAndStop(p) if p == "/tmp/flowd/abcdefghij"));
    assert_eq!(run.stored().status, DownloadStatus::Canceled);
    assert!(!run.d.is_downloading(id));
    assert!(!run.d.is_cancel_requested(id));
    assert!(run.d.is_pause_requested(id));
}

#[test]
fn transfer_waits_until_the_data_is_confirmed() {
    let mut unconfirmed = job("https://a/u.bin", DownloadStatus::Pending);
    unconfirmed.data_confirmed = false;
    let mut run = Run::new(unconfirmed);
    run.to_streaming("https://a/u.bin");
    let id = run.t.download.id;
    let s = run.step(TransferInput::BodyEnd);
    assert!(matches!(s.command, Command::AwaitConfirmation));
    let s = run.step(TransferInput::Tick);
    assert!(matches!(s.command, Command::AwaitConfirmation));
    assert_eq!(run.t.phase, TransferPhase::Confirming);
    let listener = FlowListener::new();
    assert_eq!(listener.change_output_file_path(&mut run.store, id, "/srv/out/u.bin"), "OK");
    assert_eq!(listener.confirm_download_data(&mut run.store, id), "OK");
    let s = run.step(TransferInput::Tick);
    assert!(matches!(&s.command, Command::ListDirectory(p) if p == "/srv/out/"));
    let s = run.step(TransferInput::Listing { exists: true, paths: Vec::new() });
    assert!(matches!(&s.command, Command::MoveScratch { to, .. } if to == "/srv/out/u (1).bin"));
    let s = run.step(TransferInput::Moved(true));
    assert_eq!(s.events.len(), 3);
    assert_eq!(run.stored().output_file, Some("/srv/out/u (1).bin".to_string()));
    assert_eq!(run.stored().status, DownloadStatus::Completed);
}

#[test]
fn missing_directory_or_failed_move_is_a_client_error() {
    let mut run = Run::new(job("https://a/u.bin", DownloadStatus::Pending));
    run.to_streaming("https://a/u.bin");
    run.step(TransferInput::BodyEnd);
    let s = run.step(TransferInput::Listing { exists: false, paths: Vec::new() });
    assert_eq!(updates(&s.events), vec![DownloadStatus::ClientError]);
    assert_eq!(run.stored().date_completed, None);

    let mut run = Run::new(job("https://a/u.bin", DownloadStatus::Pending));
    run.to_streaming("https://a/u.bin");
    run.step(TransferInput::BodyEnd);
    run.step(TransferInput::Listing { exists: true, paths: Vec::new() });
    let s = run.step(TransferInput::Moved(false));
    assert_eq!(updates(&s.events), vec![DownloadStatus::ClientError]);
    assert_eq!(run.stored().status, DownloadStatus::ClientError);
}

#[test]
fn input_that_is_not_awaited_changes_nothing() {
    let mut run = Run::new(job("u", DownloadStatus::Pending));
    let s = run.step(TransferInput::Chunk(5));
    assert!(matches!(s.command, Command::Ignore));
    assert!(s.events.is_empty());
    assert_eq!(run.t.phase, TransferPhase::Created);
    run.to_streaming("https://a/u");
    let s = run.step(TransferInput::Start);
    assert!(matches!(s.command, Command::Ignore));
    assert_eq!(run.t.phase, TransferPhase::Streaming);
    assert_eq!(run.stored().status, DownloadStatus::InProgress);
}

#[test]
fn progress_count_stops_at_its_highest_value() {
    let mut run = Run::new(job("u", DownloadStatus::Pending));
    run.step(TransferInput::Start);
    run.step(TransferInput::ScratchSize(None));
    run.step(TransferInput::ClientBuilt(true));
    let r = run.response("https://a/u", false, None);
    run.step(r);
    run.step(TransferInput::ScratchOpened(Some(u64::MAX - 5)));
    run.step(TransferInput::Chunk(10));
    run.step(TransferInput::Written { ok: true, now_ms: 0 });
    assert_eq!(run.t.progress, u64::MAX);
}

#[test]
fn detected_path_and_size_are_set_only_once() {
    let mut known = job("https://a/u.bin", DownloadStatus::Pending);
    known.detected_output_file = Some("/first/place.bin".to_string());
    known.size = Some(1);
    let mut run = Run::new(known);
    run.step(TransferInput::Start);
    run.step(TransferInput::ScratchSize(None));
    run.step(TransferInput::ClientBuilt(true));
    let r = run.response("https://a/other.mp4", false, Some("300"));
    run.step(r);
    let stored = run.stored();
    assert_eq!(stored.detected_output_file, Some("/first/place.bin".to_string()));
    assert_eq!(stored.size, Some(1));
    assert!(!stored.resumable);
}

#[test]
fn endpoint_relays_reports_only() {
    let l = FlowListener::new();
    assert!(matches!(
        l.handle_event(DownloadEvent::DownloadProgress(1, 2, 3)),
        Some(Signal::NotifyDownloadProgress(1, 2, 3))
    ));
    assert!(matches!(
        l.handle_event(DownloadEvent::DownloadDelete(7)),
        Some(Signal::NotifyDownloadDelete(7))
    ));
    match l.handle_event(DownloadEvent::DownloadUpdate(job("u", DownloadStatus::Paused))) {
        Some(Signal::NotifyDownloadUpdate(j)) => assert_eq!(j.url, "u"),
        other => panic!("unexpected: {:?}", other),
    }
    match l.handle_event(DownloadEvent::DownloadError(Some(3), "broken".to_string())) {
        Some(Signal::NotifyDownloadError(3, m)) => assert_eq!(m, "broken"),
        other => panic!("unexpected: {:?}", other),
    }
    assert!(l.handle_event(DownloadEvent::PauseDownload(1)).is_none());
    assert!(l.handle_event(DownloadEvent::NewDownload("u".to_string(), true)).is_none());
    assert!(l.handle_event(DownloadEvent::DownloadError(None, "e".to_string())).is_none());
}

#[test]
fn endpoint_turns_requests_into_events() {
    let l = FlowListener::new();
    assert_eq!(l.status(), "UP");
    assert_eq!(FlowListener::reply(true), "OK");
    assert_eq!(FlowListener::reply(false), "ERROR");
    assert!(matches!(
        l.new_download_wait_confirm("https://a"),
        DownloadEvent::NewDownload(u, false) if u == "https://a"
    ));
    assert!(matches!(
        l.new_download_confirmed("https://a"),
        DownloadEvent::NewDownload(u, true) if u == "https://a"
    ));
    assert!(matches!(l.pause_download(1), DownloadEvent::PauseDownload(1)));
    assert!(matches!(l.resume_download(2), DownloadEvent::ResumeDownload(2)));
    assert!(matches!(l.restart_download(3), DownloadEvent::RestartDownload(3)));
    assert!(matches!(l.cancel_download(4), DownloadEvent::CancelDownload(4)));
    assert!(matches!(l.delete_download(5), DownloadEvent::DeleteDownload(5)));
}

#[test]
fn endpoint_answers_queries_from_the_catalog() {
    let l = FlowListener::new();
    let mut store = Store::new();
    let mut a = job("a", DownloadStatus::Completed);
    a.output_file = Some("/v/a.mp4".to_string());
    a.date_added = 1;
    let mut b = job("b", DownloadStatus::InProgress);
    b.date_added = 2;
    new_download(&mut store, &a).unwrap();
    new_download(&mut store, &b).unwrap();
    let ids = |v: Vec<Download>| v.iter().map(|j| j.id).collect::<Vec<i64>>();
    assert_eq!(ids(l.get_all_downloads(&store)), vec![1, 2]);
    assert_eq!(ids(l.get_downloads_by_completed_status(&store, true)), vec![1]);
    assert_eq!(ids(l.get_downloads_by_completed_status(&store, false)), vec![2]);
    assert_eq!(ids(l.get_downloads_by_category(&store, "video", &config())), vec![1]);
    assert_eq!(ids(l.get_sorted_downloads(&store)), vec![2, 1]);
    assert_eq!(l.change_output_file_path(&mut store, 99, "/x"), "OK");
    assert_eq!(l.confirm_download_data(&mut store, 99), "OK");
    assert_eq!(ids(l.get_all_downloads(&store)), vec![1, 2]);
}

fn patch() -> ConfigPatch {
    ConfigPatch {
        default_directory: None,
        temp_directory: None,
        user_agent: None,
        categories: None,
        max_sim_downloads: None,
    }
}

#[test]
fn later_layers_patch_earlier_ones_field_by_field() {
    let mut system = patch();
    system.user_agent = Some("system".to_string());
    system.max_sim_downloads = Some(8);
    let mut user = patch();
    user.user_agent = Some("user".to_string());
    user.categories = Some(Vec::new());
    let c = get_config(config(), &Some(system), &Some(user));
    assert_eq!(c.user_agent, "user");
    assert_eq!(c.max_sim_downloads, 8);
    assert!(c.categories.is_empty());
    assert_eq!(c.default_directory, "/home/u/Downloads");
    assert_eq!(c.temp_directory, "/tmp/flowd");
    let c = get_config(config(), &None, &None);
    assert_eq!(c.user_agent, "flow/1");
    assert_eq!(c.categories.len(), 1);
    assert_eq!(c.max_sim_downloads, 2);
}

#[test]
fn empty_patch_changes_nothing() {
    let mut c = config();
    c.update_from_map(&patch());
    assert_eq!(c.default_directory, "/home/u/Downloads");
    assert_eq!(c.temp_directory, "/tmp/flowd");
    assert_eq!(c.user_agent, "flow/1");
    assert_eq!(c.categories.len(), 1);
    assert_eq!(c.categories[0].name, "video");
    assert_eq!(c.max_sim_downloads, 2);
}

#[test]
fn patch_replaces_each_field_it_holds() {
    let mut c = config();
    c.update_from_map(&ConfigPatch {
        default_directory: Some("/d".to_string()),
        temp_directory: Some("/t".to_string()),
        user_agent: Some("ua".to_string()),
        categories: Some(vec![NamedCategory {
            name: "docs".to_string(),
            category: Category { extensions: vec![".pdf".to_string()], directory: "/p".to_string() },
        }]),
        max_sim_downloads: Some(9),
    });
    assert_eq!(c.default_directory, "/d");
    assert_eq!(c.temp_directory, "/t");
    assert_eq!(c.user_agent, "ua");
    assert_eq!(c.categories.len(), 1);
    assert_eq!(c.categories[0].name, "docs");
    assert_eq!(c.categories[0].category.extensions, vec![".pdf".to_string()]);
    assert_eq!(c.max_sim_downloads, 9);
}

#[test]
fn directories_of_the_configuration_are_expanded() {
    let mut c = config();
    c.default_directory = "~/Downloads".to_string();
    c.temp_directory = "~/.cache/flowd".to_string();
    assert!(get_default_directory(&c).ends_with("/Downloads"));
    assert_ne!(get_default_directory(&c), "~/Downloads");
    let categories = get_categories(&c);
    assert_eq!(categories.len(), 1);
    assert_eq!(categories[0].category.directory, "/home/u/Videos");
    let p = process_config(c);
    assert!(!p.default_directory.starts_with('~'));
    assert!(p.temp_directory.ends_with("/.cache/flowd"));
    assert!(!p.temp_directory.starts_with('~'));
    assert_eq!(p.user_agent, "flow/1");
}

#[test]
fn directory_that_does_not_name_the_home_directory_is_left_alone() {
    let mut c = config();
    c.default_directory = "~someone/Downloads".to_string();
    c.temp_directory = "/var/tmp/~/flowd".to_string();
    let p = process_config(c);
    assert_eq!(p.default_directory, "~someone/Downloads");
    assert_eq!(p.temp_directory, "/var/tmp/~/flowd");
    assert_eq!(p.user_agent, "flow/1");
    assert_eq!(p.max_sim_downloads, 2);
    assert_eq!(p.categories.len(), 1);
    assert_eq!(p.categories[0].name, "video");
}
