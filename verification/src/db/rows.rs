//! The shape in which a job is stored as a table row, and the way from one
//! to the other.

use vstd::prelude::*;
use crate::db::DBError;
use crate::download::{opt_text, Download, DownloadStatus, DownloadView};
use crate::text::{
    decimal, decimal_chars, from_chars, same_text, signed_decimal, signed_decimal_chars,
};

verus! {

/// One row of the table of downloads, as the storage layer hands it out.
#[derive(Debug)]
pub struct DownloadRow {
    pub id: i64,
    pub url: String,
    pub status: String,
    pub data_confirmed: String,
    pub detected_output_file: String,
    pub output_file: String,
    pub temp_file: String,
    pub resumable: String,
    pub date_added: i64,
    pub date_completed: Option<i64>,
    pub size: Option<u64>,
}

/// A row as a mathematical value.
pub struct DownloadRowView {
    pub id: i64,
    pub url: Seq<char>,
    pub status: Seq<char>,
    pub data_confirmed: Seq<char>,
    pub detected_output_file: Seq<char>,
    pub output_file: Seq<char>,
    pub temp_file: Seq<char>,
    pub resumable: Seq<char>,
    pub date_added: i64,
    pub date_completed: Option<i64>,
    pub size: Option<u64>,
}

impl View for DownloadRow {
    type V = DownloadRowView;

    open spec fn view(&self) -> DownloadRowView {
        DownloadRowView {
            id: self.id,
            url: self.url@,
            status: self.status@,
            data_confirmed: self.data_confirmed@,
            detected_output_file: self.detected_output_file@,
            output_file: self.output_file@,
            temp_file: self.temp_file@,
            resumable: self.resumable@,
            date_added: self.date_added,
            date_completed: self.date_completed,
            size: self.size,
        }
    }
}

/// The text that stands for a value that is not there.
pub open spec fn absent() -> Seq<char> {
    "NULL"@
}

/// The text under which a flag is stored.
pub open spec fn flag_text(flag: bool) -> Seq<char> {
    if flag {
        "true"@
    } else {
        "false"@
    }
}

/// The flag that a text stands for.
pub open spec fn flag_of(text: Seq<char>) -> Option<bool> {
    if text == "true"@ {
        Some(true)
    } else if text == "false"@ {
        Some(false)
    } else {
        None
    }
}

/// The text under which an optional text is stored.
pub open spec fn stored_text(value: Option<Seq<char>>) -> Seq<char> {
    match value {
        Some(v) => v,
        None => absent(),
    }
}

/// The optional text that a stored text stands for.
pub open spec fn text_of(stored: Seq<char>) -> Option<Seq<char>> {
    if stored == absent() {
        None
    } else {
        Some(stored)
    }
}

/// The row under which `job` is stored.
pub open spec fn row_of(job: DownloadView) -> DownloadRowView {
    DownloadRowView {
        id: job.id,
        url: job.url,
        status: job.status.tag(),
        data_confirmed: flag_text(job.data_confirmed),
        detected_output_file: stored_text(job.detected_output_file),
        output_file: stored_text(job.output_file),
        temp_file: job.temp_file,
        resumable: flag_text(job.resumable),
        date_added: job.date_added,
        date_completed: job.date_completed,
        size: job.size,
    }
}

/// The job that `row` stands for, where its status is a tag and its flags
/// are flags.
pub open spec fn job_of(row: DownloadRowView) -> Option<DownloadView> {
    match (DownloadStatus::from_tag(row.status), flag_of(row.data_confirmed), flag_of(row.resumable)) {
        (Some(status), Some(data_confirmed), Some(resumable)) => Some(
            DownloadView {
                id: row.id,
                url: row.url,
                status,
                data_confirmed,
                detected_output_file: text_of(row.detected_output_file),
                output_file: text_of(row.output_file),
                temp_file: row.temp_file,
                resumable,
                date_added: row.date_added,
                date_completed: row.date_completed,
                size: row.size,
            },
        ),
        _ => None,
    }
}

/// The optional text that a stored text stands for: none for `NULL`.
pub fn string_to_option(string: String) -> (r: Option<String>)
    ensures
        opt_text(r) == text_of(string@),
{
    if same_text(string.as_str(), "NULL") {
        None
    } else {
        Some(string)
    }
}

/// The text under which a flag is stored.
fn flag_string(flag: bool) -> (r: String)
    ensures
        r@ == flag_text(flag),
{
    if flag {
        "true".to_owned()
    } else {
        "false".to_owned()
    }
}

/// The flag that a text stands for.
fn read_flag(text: &str) -> (r: Option<bool>)
    ensures
        r == flag_of(text@),
{
    if same_text(text, "true") {
        Some(true)
    } else if same_text(text, "false") {
        Some(false)
    } else {
        None
    }
}

/// The text under which an optional text is stored.
fn stored_string(value: &Option<String>) -> (r: String)
    ensures
        r@ == stored_text(opt_text(*value)),
{
    match value {
        Some(v) => v.clone(),
        None => "NULL".to_owned(),
    }
}

/// The row under which `download` is stored.
pub fn to_row(download: &Download) -> (r: DownloadRow)
    ensures
        r@ == row_of(download@),
{
    DownloadRow {
        id: download.id,
        url: download.url.clone(),
        status: download.status.get_string().to_owned(),
        data_confirmed: flag_string(download.data_confirmed),
        detected_output_file: stored_string(&download.detected_output_file),
        output_file: stored_string(&download.output_file),
        temp_file: download.temp_file.clone(),
        resumable: flag_string(download.resumable),
        date_added: download.date_added,
        date_completed: download.date_completed,
        size: download.size,
    }
}

/// The job that `row` stands for, or a storage error where its status is no
/// tag or one of its flags is no flag.
pub fn from_row(row: &DownloadRow) -> (r: Result<Download, DBError>)
    ensures
        match r {
            Ok(job) => job_of(row@) == Some(job@),
            Err(e) => job_of(row@) is None && e is RusqliteError,
        },
{
    let status = match DownloadStatus::try_from_string(row.status.as_str()) {
        Some(s) => s,
        None => {
            return Err(DBError::RusqliteError("invalid download status".to_owned()));
        },
    };
    let data_confirmed = match read_flag(row.data_confirmed.as_str()) {
        Some(f) => f,
        None => {
            return Err(DBError::RusqliteError("invalid confirmation flag".to_owned()));
        },
    };
    let resumable = match read_flag(row.resumable.as_str()) {
        Some(f) => f,
        None => {
            return Err(DBError::RusqliteError("invalid resumable flag".to_owned()));
        },
    };
    Ok(
        Download {
            id: row.id,
            url: row.url.clone(),
            status,
            data_confirmed,
            detected_output_file: string_to_option(row.detected_output_file.clone()),
            output_file: string_to_option(row.output_file.clone()),
            temp_file: row.temp_file.clone(),
            resumable,
            date_added: row.date_added,
            date_completed: row.date_completed,
            size: row.size,
        },
    )
}

/// The views of a sequence of rows.
pub open spec fn row_views(rows: Seq<DownloadRow>) -> Seq<DownloadRowView> {
    Seq::new(rows.len(), |i: int| rows[i]@)
}

/// The jobs that the rows of a query stand for, in the order of the rows, or
/// a storage error where one of the rows stands for no job.
pub fn get_downloads_from_query(rows: &Vec<DownloadRow>) -> (r: Result<Vec<Download>, DBError>)
    ensures
        match r {
            Ok(jobs) => jobs.len() == rows.len() && forall|i: int|
                0 <= i < rows.len() ==> job_of(#[trigger] rows@[i]@) == Some(jobs@[i]@),
            Err(e) => e is RusqliteError && exists|i: int|
                0 <= i < rows.len() && job_of(#[trigger] rows@[i]@) is None,
        },
{
    let mut jobs: Vec<Download> = Vec::new();
    let mut i: usize = 0;
    while i < rows.len()
        invariant
            i <= rows.len(),
            jobs.len() == i,
            forall|k: int| 0 <= k < i ==> job_of(#[trigger] rows@[k]@) == Some(jobs@[k]@),
        decreases rows.len() - i,
    {
        match from_row(&rows[i]) {
            Ok(job) => {
                jobs.push(job);
            },
            Err(e) => {
                assert(job_of(rows@[i as int]@) is None);
                return Err(e);
            },
        }
        i = i + 1;
    }
    Ok(jobs)
}

/// The text under which an optional time is handed to a statement.
pub open spec fn time_text(value: Option<i64>) -> Seq<char> {
    match value {
        Some(v) => signed_decimal(v as int),
        None => absent(),
    }
}

/// The text under which an optional size is handed to a statement.
pub open spec fn size_text(value: Option<u64>) -> Seq<char> {
    match value {
        Some(v) => decimal(v as nat),
        None => absent(),
    }
}

/// The ten values that a statement takes for a row, as texts and in the order
/// of the columns after the id.
pub open spec fn parameters_of(row: DownloadRowView) -> Seq<Seq<char>> {
    seq![
        row.url,
        row.status,
        row.data_confirmed,
        row.detected_output_file,
        row.output_file,
        row.temp_file,
        row.resumable,
        signed_decimal(row.date_added as int),
        time_text(row.date_completed),
        size_text(row.size),
    ]
}

/// The ten values that an insert or update statement takes for `row`.
pub fn statement_parameters(row: &DownloadRow) -> (r: Vec<String>)
    ensures
        r@.len() == 10,
        forall|i: int| 0 <= i < 10 ==> (#[trigger] r@[i])@ == parameters_of(row@)[i],
{
    let mut r: Vec<String> = Vec::new();
    r.push(row.url.clone());
    r.push(row.status.clone());
    r.push(row.data_confirmed.clone());
    r.push(row.detected_output_file.clone());
    r.push(row.output_file.clone());
    r.push(row.temp_file.clone());
    r.push(row.resumable.clone());
    r.push(from_chars(&signed_decimal_chars(row.date_added)));
    r.push(
        match row.date_completed {
            Some(v) => from_chars(&signed_decimal_chars(v)),
            None => "NULL".to_owned(),
        },
    );
    r.push(
        match row.size {
            Some(v) => from_chars(&decimal_chars(v as u128)),
            None => "NULL".to_owned(),
        },
    );
    r
}

/// A job is read back from its row as it was, unless one of its two output
/// paths is the very text that stands for a value that is not there.
pub proof fn lemma_row_round_trip(job: DownloadView)
    requires
        job.detected_output_file != Some(absent()),
        job.output_file != Some(absent()),
    ensures
        job_of(row_of(job)) == Some(job),
{
    job.status.lemma_tag_round_trip();
    reveal_strlit("true");
    reveal_strlit("false");
    assert("true"@.len() == 4 && "false"@.len() == 5);
}

} // verus!
