use flow_lib::config::{Category, Config, NamedCategory};
use flow_lib::db::rows::{
    from_row, get_downloads_from_query, statement_parameters, string_to_option, to_row, DownloadRow,
};
use flow_lib::db::schema::{get_db_path, get_migrations, init, verify_and_update_schema};
use flow_lib::db::{
    change_download_output_file_path, change_download_status, confirm_download_data,
    delete_download, get_all_downloads, get_completed_downloads, get_download_by_id,
    get_downloads_by_category, get_downloads_by_status, get_in_progress_downloads,
    get_pending_downloads, get_sorted_downloads, get_uncompleted_downloads, new_download,
    update_download, DBError, Store,
};
use flow_lib::download::{Download, DownloadStatus};

fn job(url: &str, status: DownloadStatus, date_added: i64) -> Download {
    Download {
        id: 0,
        url: url.to_string(),
        status,
        data_confirmed: false,
        detected_output_file: None,
        output_file: None,
        temp_file: format!("/tmp/flowd/{}", date_added),
        resumable: false,
        date_added,
        date_completed: None,
        size: None,
    }
}

fn same(a: &Download, b: &Download) -> bool {
    a.id == b.id
        && a.url == b.url
        && a.status == b.status
        && a.data_confirmed == b.data_confirmed
        && a.detected_output_file == b.detected_output_file
        && a.output_file == b.output_file
        && a.temp_file == b.temp_file
        && a.resumable == b.resumable
        && a.date_added == b.date_added
        && a.date_completed == b.date_completed
        && a.size == b.size
}

fn ids(jobs: &Vec<Download>) -> Vec<i64> {
    jobs.iter().map(|j| j.id).collect()
}

#[test]
fn inserted_job_is_read_back_with_the_same_values() {
    let mut store = Store::new();
    let mut sample = job("https://a.example/x.bin", DownloadStatus::Pending, 1700000000);
    sample.data_confirmed = true;
    sample.detected_output_file = Some("/home/u/x.bin".to_string());
    sample.output_file = Some("/home/u/y.bin".to_string());
    sample.resumable = true;
    sample.date_completed = Some(1700000100);
    sample.size = Some(12345);
    let id = new_download(&mut store, &sample).unwrap();
    assert_eq!(id, 1);
    let read = get_download_by_id(&store, id).unwrap();
    sample.id = id;
    assert!(same(&read, &sample));
}

#[test]
fn ids_grow_and_are_not_given_twice() {
    let mut store = Store::new();
    let a = new_download(&mut store, &job("a", DownloadStatus::Pending, 1)).unwrap();
    let b = new_download(&mut store, &job("b", DownloadStatus::Pending, 2)).unwrap();
    assert_eq!((a, b), (1, 2));
    assert_eq!(delete_download(&mut store, b).unwrap(), 1);
    let c = new_download(&mut store, &job("c", DownloadStatus::Pending, 3)).unwrap();
    assert_eq!(c, 3);
    assert_eq!(store.last_id(), 3);
    assert_eq!(ids(&get_all_downloads(&store).unwrap()), vec![1, 3]);
}

#[test]
fn unknown_id_is_not_found() {
    let mut store = Store::new();
    new_download(&mut store, &job("a", DownloadStatus::Pending, 1)).unwrap();
    match get_download_by_id(&store, 42) {
        Err(DBError::DownloadNotFound(id)) => assert_eq!(id, 42),
        other => panic!("unexpected: {:?}", other),
    }
    assert!(matches!(
        change_download_output_file_path(&mut store, 42, "/x"),
        Err(DBError::DownloadNotFound(42))
    ));
    assert!(matches!(
        confirm_download_data(&mut store, 42),
        Err(DBError::DownloadNotFound(42))
    ));
    assert_eq!(delete_download(&mut store, 42).unwrap(), 0);
    assert_eq!(
        change_download_status(&mut store, &42, &DownloadStatus::Paused).unwrap(),
        0
    );
    let mut stray = job("z", DownloadStatus::Paused, 9);
    stray.id = 42;
    assert_eq!(update_download(&mut store, &stray).unwrap(), 0);
    assert_eq!(get_all_downloads(&store).unwrap().len(), 1);
}

#[test]
fn error_messages_name_the_job() {
    assert_eq!(DBError::DownloadNotFound(42).message(), "Download #42 not found");
    assert_eq!(DBError::DownloadNotFound(-5).message(), "Download #-5 not found");
    assert_eq!(DBError::DownloadNotFound(0).message(), "Download #0 not found");
    assert_eq!(
        DBError::DownloadNotFound(i64::MIN).message(),
        "Download #-9223372036854775808 not found"
    );
    assert_eq!(
        DBError::RusqliteError("locked".to_string()).message(),
        "Rusqlite error: locked"
    );
    assert_eq!(DBError::IOError("denied".to_string()).message(), "IO error: denied");
}

#[test]
fn update_replaces_the_whole_record() {
    let mut store = Store::new();
    let id = new_download(&mut store, &job("a", DownloadStatus::Pending, 1)).unwrap();
    let mut changed = job("b", DownloadStatus::InProgress, 7);
    changed.id = id;
    changed.size = Some(9);
    assert_eq!(update_download(&mut store, &changed).unwrap(), 1);
    assert!(same(&get_download_by_id(&store, id).unwrap(), &changed));
}

#[test]
fn status_change_touches_only_the_status() {
    let mut store = Store::new();
    let mut sample = job("a", DownloadStatus::Pending, 1);
    sample.size = Some(3);
    let id = new_download(&mut store, &sample).unwrap();
    let other = new_download(&mut store, &job("b", DownloadStatus::Pending, 2)).unwrap();
    assert_eq!(
        change_download_status(&mut store, &id, &DownloadStatus::Paused).unwrap(),
        1
    );
    let read = get_download_by_id(&store, id).unwrap();
    assert_eq!(read.status, DownloadStatus::Paused);
    assert_eq!(read.size, Some(3));
    assert_eq!(read.url, "a");
    assert_eq!(get_download_by_id(&store, other).unwrap().status, DownloadStatus::Pending);
}

#[test]
fn endpoint_writes_output_path_and_confirmation() {
    let mut store = Store::new();
    let id = new_download(&mut store, &job("a", DownloadStatus::Pending, 1)).unwrap();
    change_download_output_file_path(&mut store, id, "/home/u/out.bin").unwrap();
    confirm_download_data(&mut store, id).unwrap();
    let read = get_download_by_id(&store, id).unwrap();
    assert_eq!(read.output_file, Some("/home/u/out.bin".to_string()));
    assert!(read.data_confirmed);
    assert_eq!(read.status, DownloadStatus::Pending);
}

fn mixed_store() -> Store {
    let mut store = Store::new();
    new_download(&mut store, &job("1", DownloadStatus::Completed, 10)).unwrap();
    new_download(&mut store, &job("2", DownloadStatus::Pending, 20)).unwrap();
    new_download(&mut store, &job("3", DownloadStatus::InProgress, 30)).unwrap();
    new_download(&mut store, &job("4", DownloadStatus::Paused, 40)).unwrap();
    new_download(&mut store, &job("5", DownloadStatus::Pending, 50)).unwrap();
    new_download(&mut store, &job("6", DownloadStatus::ServerError, 60)).unwrap();
    new_download(&mut store, &job("7", DownloadStatus::Starting, 70)).unwrap();
    new_download(&mut store, &job("8", DownloadStatus::Canceled, 80)).unwrap();
    new_download(&mut store, &job("9", DownloadStatus::InProgress, 90)).unwrap();
    new_download(&mut store, &job("10", DownloadStatus::Completed, 100)).unwrap();
    store
}

#[test]
fn queries_by_status_keep_catalog_order() {
    let store = mixed_store();
    assert_eq!(ids(&get_pending_downloads(&store).unwrap()), vec![2, 5]);
    assert_eq!(ids(&get_in_progress_downloads(&store).unwrap()), vec![3, 9]);
    assert_eq!(ids(&get_completed_downloads(&store).unwrap()), vec![1, 10]);
    assert_eq!(
        ids(&get_uncompleted_downloads(&store).unwrap()),
        vec![2, 3, 4, 5, 6, 7, 8, 9]
    );
    assert_eq!(
        ids(&get_downloads_by_status(&store, DownloadStatus::Canceled).unwrap()),
        vec![8]
    );
    assert_eq!(
        ids(&get_downloads_by_status(&store, DownloadStatus::ClientError).unwrap()),
        Vec::<i64>::new()
    );
    assert_eq!(ids(&get_all_downloads(&store).unwrap()), (1..=10).collect::<Vec<i64>>());
}

#[test]
fn sorted_by_activity_then_newest_first() {
    let store = mixed_store();
    assert_eq!(
        ids(&get_sorted_downloads(&store).unwrap()),
        vec![9, 3, 7, 5, 2, 4, 8, 6, 10, 1]
    );
    assert_eq!(ids(&get_sorted_downloads(&Store::new()).unwrap()), Vec::<i64>::new());
}

fn config() -> Config {
    Config {
        default_directory: "/d".to_string(),
        temp_directory: "/t".to_string(),
        user_agent: "flow".to_string(),
        categories: vec![
            NamedCategory {
                name: "video".to_string(),
                category: Category {
                    extensions: vec![".mp4".to_string(), ".mkv".to_string()],
                    directory: "/v".to_string(),
                },
            },
            NamedCategory {
                name: "docs".to_string(),
                category: Category { extensions: vec![".pdf".to_string()], directory: "/p".to_string() },
            },
        ],
        max_sim_downloads: 2,
    }
}

#[test]
fn query_by_category_matches_either_path() {
    let mut store = Store::new();
    let mut a = job("a", DownloadStatus::Completed, 1);
    a.output_file = Some("/v/a.mp4".to_string());
    let mut b = job("b", DownloadStatus::Pending, 2);
    b.detected_output_file = Some("/v/b.mkv".to_string());
    let mut c = job("c", DownloadStatus::Pending, 3);
    c.detected_output_file = Some("/p/c.pdf".to_string());
    c.output_file = Some("/elsewhere/c.mp4".to_string());
    let d = job("d.mp4", DownloadStatus::Pending, 4);
    for j in [&a, &b, &c, &d] {
        new_download(&mut store, j).unwrap();
    }
    let cfg = config();
    assert_eq!(ids(&get_downloads_by_category(&store, "video", &cfg).unwrap()), vec![1, 2, 3]);
    assert_eq!(ids(&get_downloads_by_category(&store, "docs", &cfg).unwrap()), vec![3]);
    assert_eq!(
        ids(&get_downloads_by_category(&store, "music", &cfg).unwrap()),
        Vec::<i64>::new()
    );
}

#[test]
fn load_refuses_shared_and_low_ids() {
    let mut a = job("a", DownloadStatus::Pending, 1);
    a.id = 5;
    let mut b = job("b", DownloadStatus::Pending, 2);
    b.id = 2;
    let store = Store::load(vec![a.clone(), b.clone()]).unwrap();
    assert_eq!(store.last_id(), 5);
    assert_eq!(ids(&get_all_downloads(&store).unwrap()), vec![5, 2]);
    let mut dup = job("c", DownloadStatus::Pending, 3);
    dup.id = 5;
    assert!(Store::load(vec![a.clone(), dup]).is_none());
    let zero = job("z", DownloadStatus::Pending, 4);
    assert!(Store::load(vec![zero]).is_none());
    assert_eq!(Store::load(Vec::new()).unwrap().last_id(), 0);
}

#[test]
fn row_round_trip() {
    let mut sample = job("https://a/b", DownloadStatus::ServerError, -3);
    sample.id = 17;
    sample.data_confirmed = true;
    sample.output_file = Some("/o".to_string());
    sample.date_completed = Some(99);
    sample.size = Some(u64::MAX);
    let row = to_row(&sample);
    assert_eq!(row.status, "server_error");
    assert_eq!(row.data_confirmed, "true");
    assert_eq!(row.resumable, "false");
    assert_eq!(row.detected_output_file, "NULL");
    assert_eq!(row.output_file, "/o");
    let back = from_row(&row).unwrap();
    assert!(same(&back, &sample));
}

#[test]
fn path_that_reads_null_is_lost_in_the_row() {
    let mut sample = job("u", DownloadStatus::Pending, 1);
    sample.output_file = Some("NULL".to_string());
    let back = from_row(&to_row(&sample)).unwrap();
    assert_eq!(back.output_file, None);
}

fn row() -> DownloadRow {
    DownloadRow {
        id: 3,
        url: "u".to_string(),
        status: "paused".to_string(),
        data_confirmed: "false".to_string(),
        detected_output_file: "NULL".to_string(),
        output_file: "NULL".to_string(),
        temp_file: "/t/abc".to_string(),
        resumable: "true".to_string(),
        date_added: 5,
        date_completed: None,
        size: None,
    }
}

#[test]
fn row_with_unknown_tag_or_flag_is_a_storage_error() {
    let good = from_row(&row()).unwrap();
    assert_eq!(good.status, DownloadStatus::Paused);
    assert!(good.resumable);
    let mut bad = row();
    bad.status = "sleeping".to_string();
    assert!(matches!(from_row(&bad), Err(DBError::RusqliteError(_))));
    let mut bad = row();
    bad.data_confirmed = "yes".to_string();
    assert!(matches!(from_row(&bad), Err(DBError::RusqliteError(_))));
    let mut bad = row();
    bad.resumable = "TRUE".to_string();
    assert!(matches!(from_row(&bad), Err(DBError::RusqliteError(_))));
}

#[test]
fn rows_of_a_query_become_jobs_in_order() {
    let mut second = row();
    second.id = 4;
    second.status = "completed".to_string();
    let jobs = get_downloads_from_query(&vec![row(), second]).unwrap();
    assert_eq!(ids(&jobs), vec![3, 4]);
    assert_eq!(jobs[1].status, DownloadStatus::Completed);
    let mut bad = row();
    bad.status = "".to_string();
    assert!(get_downloads_from_query(&vec![row(), bad]).is_err());
    assert_eq!(get_downloads_from_query(&Vec::new()).unwrap().len(), 0);
}

#[test]
fn statement_takes_ten_texts() {
    let mut r = row();
    r.date_added = -1700000000;
    r.date_completed = Some(0);
    r.size = Some(1048576);
    assert_eq!(
        statement_parameters(&r),
        vec![
            "u", "paused", "false", "NULL", "NULL", "/t/abc", "true", "-1700000000", "0", "1048576"
        ]
    );
    let r = row();
    let p = statement_parameters(&r);
    assert_eq!(p[7], "5");
    assert_eq!(p[8], "NULL");
    assert_eq!(p[9], "NULL");
}

#[test]
fn null_text_stands_for_nothing() {
    assert_eq!(string_to_option("NULL".to_string()), None);
    assert_eq!(string_to_option("null".to_string()), Some("null".to_string()));
    assert_eq!(string_to_option("".to_string()), Some("".to_string()));
    assert_eq!(string_to_option("/a".to_string()), Some("/a".to_string()));
}

fn scripts() -> Vec<String> {
    vec!["CREATE A;".to_string(), "ALTER B;".to_string(), "ALTER C;".to_string()]
}

#[test]
fn migrations_run_from_the_given_version_on() {
    let s = scripts();
    assert_eq!(get_migrations(1, &s), "CREATE A;ALTER B;ALTER C;");
    assert_eq!(get_migrations(2, &s), "ALTER B;ALTER C;");
    assert_eq!(get_migrations(3, &s), "ALTER C;");
    assert_eq!(get_migrations(4, &s), "");
    assert_eq!(get_migrations(0, &s), "");
    assert_eq!(get_migrations(1, &Vec::new()), "");
}

#[test]
fn schema_is_brought_up_from_the_stored_version() {
    let s = scripts();
    assert_eq!(verify_and_update_schema(true, 0, &s), "CREATE A;ALTER B;ALTER C;");
    assert_eq!(verify_and_update_schema(true, 2, &s), "CREATE A;ALTER B;ALTER C;");
    assert_eq!(verify_and_update_schema(false, 0, &s), "CREATE A;ALTER B;ALTER C;");
    assert_eq!(verify_and_update_schema(false, 1, &s), "ALTER B;ALTER C;");
    assert_eq!(verify_and_update_schema(false, 3, &s), "");
    assert_eq!(verify_and_update_schema(false, u16::MAX, &s), "");
}

#[test]
fn missing_catalog_is_created_and_gets_every_script() {
    let s = scripts();
    let plan = init(false, 0, &s);
    assert!(plan.create);
    assert_eq!(plan.batch, "CREATE A;ALTER B;ALTER C;");
    let plan = init(true, 2, &s);
    assert!(!plan.create);
    assert_eq!(plan.batch, "ALTER C;");
}

#[test]
fn catalog_lives_under_the_home_directory() {
    let path = get_db_path();
    assert!(path.ends_with("/.local/share/flowd/downloads.db"));
    assert!(!path.starts_with('~'));
}

#[test]
fn jobs_of_the_same_rank_and_time_keep_catalog_order() {
    let mut store = Store::new();
    new_download(&mut store, &job("1", DownloadStatus::Canceled, 5)).unwrap();
    new_download(&mut store, &job("2", DownloadStatus::ServerError, 5)).unwrap();
    new_download(&mut store, &job("3", DownloadStatus::Pending, 5)).unwrap();
    new_download(&mut store, &job("4", DownloadStatus::ClientError, 5)).unwrap();
    new_download(&mut store, &job("5", DownloadStatus::Pending, 5)).unwrap();
    new_download(&mut store, &job("6", DownloadStatus::UnknownError, 6)).unwrap();
    assert_eq!(ids(&get_sorted_downloads(&store).unwrap()), vec![3, 5, 6, 1, 2, 4]);
}

#[test]
fn catalog_without_an_id_left_refuses_a_new_job() {
    let mut last = job("last", DownloadStatus::Pending, 1);
    last.id = i64::MAX;
    let mut store = Store::load(vec![last]).unwrap();
    assert!(matches!(
        new_download(&mut store, &job("more", DownloadStatus::Pending, 2)),
        Err(DBError::RusqliteError(_))
    ));
    assert_eq!(get_all_downloads(&store).unwrap().len(), 1);
}
