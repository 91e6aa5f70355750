//! What a response says about its file, and where that file is to be written.

use vstd::prelude::*;
use reqwest::header::HeaderMap;
use reqwest::header::HeaderValue;
use reqwest::Url;
use rand::Rng;
use crate::config::{CategoryView, Config, ConfigView, NamedCategory, NamedCategoryView};
use crate::download::{opt_text, FileInfo, FileInfoView};
use crate::path::{expand, is_tilde_expansion, join_path, joined};
use crate::text::{
    ascii_lowered, concat, decimal_value, ends_with, find, find_char_from, first_char_from,
    first_occurrence, from_chars, has_suffix, is_digits, last_char, opt_texts, read_decimal,
    rfind_char, same_chars, slice, starts_with, texts, to_ascii_lower, to_chars, trim, trimmed,
};

verus! {

/// The header map of the `http` crate, as `reqwest` hands it out with a
/// response. Nothing inside it is visible to the verifier; what it holds is
/// named by `header_texts`.
#[verifier::external_type_specification]
#[verifier::external_body]
#[verifier::reject_recursive_types(T)]
pub struct ExHeaderMap<T>(HeaderMap<T>);

/// The header value of the `http` crate, which a header map holds by
/// default. Nothing inside it is visible to the verifier.
#[verifier::external_type_specification]
#[verifier::external_body]
pub struct ExHeaderValue(HeaderValue);

/// What a header map holds as text: under each header name by which it can be
/// asked, the first value stored under that name, where this value is made of
/// visible ASCII characters only.
pub uninterp spec fn header_texts(headers: HeaderMap) -> Map<Seq<char>, Seq<char>>;

/// What `Url::parse` and `Url::path_segments` make of `url`: `None` where
/// `url` is no absolute URL, `Some(None)` where it has no path segments (it
/// cannot be a base), else its path segments, each percent-encoded.
pub uninterp spec fn url_path_segments(url: Seq<char>) -> Option<Option<Seq<Seq<char>>>>;

/// The file extensions that `mime_guess` knows for a media type, or `None`
/// where it knows none.
pub uninterp spec fn mime_extensions(media_type: Seq<char>) -> Option<Seq<Seq<char>>>;

/// `text` with its percent escapes replaced by the bytes they stand for, or
/// `None` where these bytes are no UTF-8.
pub uninterp spec fn percent_decoded(text: Seq<char>) -> Option<Seq<char>>;

/// The value of the header `name` as text: `HeaderMap::get`, which hands out
/// the first value stored under the name, then `HeaderValue::to_str`, which
/// gives its text where it is visible ASCII. `None` where no value is stored
/// or where the value is no such text.
#[verifier::external_body]
fn header_text(headers: &HeaderMap, name: &str) -> (r: Option<String>)
    ensures
        match r {
            Some(s) => header_texts(*headers).contains_key(name@) && header_texts(*headers)[name@]
                == s@,
            None => !header_texts(*headers).contains_key(name@),
        },
{
    headers.get(name).and_then(|v| v.to_str().ok()).map(|s| s.to_string())
}

/// The path segments of `url`, by `Url::parse` and then `Url::path_segments`
/// of the `url` crate, which `reqwest` hands on. Where segments are handed out
/// there is at least one, as the documentation of `path_segments` says.
#[verifier::external_body]
fn path_segments(url: &str) -> (r: Option<Option<Vec<String>>>)
    ensures
        match r {
            Some(Some(v)) => url_path_segments(url@) == Some(Some(texts(v@))) && v.len() >= 1,
            Some(None) => url_path_segments(url@) == Some(None::<Seq<Seq<char>>>),
            None => url_path_segments(url@) is None,
        },
{
    Url::parse(url).ok().map(|u| u.path_segments().map(|s| s.map(String::from).collect()))
}

/// The extensions known for a media type, by
/// `mime_guess::get_mime_extensions_str`, which looks the type up in a table
/// that is fixed when the crate is built, and gives `None` for a text that
/// names no known type.
#[verifier::external_body]
fn known_extensions(media_type: &str) -> (r: Option<Vec<String>>)
    ensures
        opt_texts(r) == mime_extensions(media_type@),
{
    mime_guess::get_mime_extensions_str(media_type).map(|e| e.iter().map(|s| s.to_string()).collect())
}

/// `text` percent-decoded, by `urlencoding::decode`; `None` where it fails
/// because the decoded bytes are no UTF-8. A text without `%` is handed back
/// as it is.
#[verifier::external_body]
fn percent_decode(text: &str) -> (r: Option<String>)
    ensures
        opt_text(r) == percent_decoded(text@),
        !text@.contains('%') ==> opt_text(r) == Some(text@),
{
    urlencoding::decode(text).ok().map(|c| c.into_owned())
}

/// The four header values that say something about the file.
pub struct HeaderFields {
    pub content_type: Option<String>,
    pub content_disposition: Option<String>,
    pub accept_ranges: Option<String>,
    pub content_length: Option<String>,
}

/// `HeaderFields` as a mathematical value.
pub struct HeaderFieldsView {
    pub content_type: Option<Seq<char>>,
    pub content_disposition: Option<Seq<char>>,
    pub accept_ranges: Option<Seq<char>>,
    pub content_length: Option<Seq<char>>,
}

impl View for HeaderFields {
    type V = HeaderFieldsView;

    open spec fn view(&self) -> HeaderFieldsView {
        HeaderFieldsView {
            content_type: opt_text(self.content_type),
            content_disposition: opt_text(self.content_disposition),
            accept_ranges: opt_text(self.accept_ranges),
            content_length: opt_text(self.content_length),
        }
    }
}

/// The value stored under `name`, if any.
pub open spec fn lookup(fields: Map<Seq<char>, Seq<char>>, name: Seq<char>) -> Option<Seq<char>> {
    if fields.contains_key(name) {
        Some(fields[name])
    } else {
        None
    }
}

/// The four header values that say something about the file, out of all that
/// a header map holds.
pub open spec fn fields_of(held: Map<Seq<char>, Seq<char>>) -> HeaderFieldsView {
    HeaderFieldsView {
        content_type: lookup(held, "content-type"@),
        content_disposition: lookup(held, "content-disposition"@),
        accept_ranges: lookup(held, "accept-ranges"@),
        content_length: lookup(held, "content-length"@),
    }
}

/// Reads out of `headers` the four values that say something about the file.
pub fn read_header_fields(headers: &HeaderMap) -> (r: HeaderFields)
    ensures
        r@ == fields_of(header_texts(*headers)),
{
    HeaderFields {
        content_type: header_text(headers, "content-type"),
        content_disposition: header_text(headers, "content-disposition"),
        accept_ranges: header_text(headers, "accept-ranges"),
        content_length: header_text(headers, "content-length"),
    }
}

/// The part of a header value before its first `;`, or all of it.
pub open spec fn before_semicolon(value: Seq<char>) -> Seq<char> {
    match first_char_from(value, ';', 0) {
        Some(i) => value.subrange(0, i),
        None => value,
    }
}

/// The media type that a `Content-Type` value names: what stands before the
/// first `;`, without the blanks around it.
pub open spec fn media_type_of(value: Seq<char>) -> Seq<char> {
    trimmed(before_semicolon(value))
}

/// Whether an `Accept-Ranges` value is `bytes`, in any mix of cases.
pub open spec fn accepts_byte_ranges(value: Seq<char>) -> bool {
    ascii_lowered(value) == "bytes"@
}

/// The number that a `Content-Length` value states: decimal digits, after an
/// optional `+`, of a number that fits in 64 bits.
pub open spec fn stated_length(value: Seq<char>) -> Option<u64> {
    let digits = if value.len() > 0 && value[0] == '+' {
        value.subrange(1, value.len() as int)
    } else {
        value
    };
    if is_digits(digits) && decimal_value(digits) <= u64::MAX {
        Some(decimal_value(digits) as u64)
    } else {
        None
    }
}

/// The key that introduces a quoted file name.
pub open spec fn quoted_key() -> Seq<char> {
    "filename=\""@
}

/// The key that introduces a file name.
pub open spec fn bare_key() -> Seq<char> {
    "filename="@
}

/// The file name that `value` gives in quotes: what stands between the first
/// `filename="` and the next `"`.
pub open spec fn quoted_file_name(value: Seq<char>) -> Option<Seq<char>> {
    match first_occurrence(value, quoted_key()) {
        Some(i) => match first_char_from(value, '"', i + quoted_key().len()) {
            Some(j) => Some(value.subrange(i + quoted_key().len(), j)),
            None => None,
        },
        None => None,
    }
}

/// The file name that `value` gives after the first `filename=`: what
/// follows, without the last character of the value.
pub open spec fn bare_file_name(value: Seq<char>) -> Option<Seq<char>> {
    match first_occurrence(value, bare_key()) {
        Some(i) => if i + bare_key().len() < value.len() {
            Some(value.subrange(i + bare_key().len(), value.len() - 1))
        } else {
            Some(Seq::<char>::empty())
        },
        None => None,
    }
}

/// The file name that a `Content-Disposition` value gives: the quoted one
/// where there is one, else the one after `filename=`.
pub open spec fn disposition_file_name(value: Seq<char>) -> Option<Seq<char>> {
    match quoted_file_name(value) {
        Some(name) => Some(name),
        None => bare_file_name(value),
    }
}

/// The name taken from the URL: its last path segment, or `download` where
/// there is none or where it is empty.
pub open spec fn url_file_name(segments: Option<Seq<Seq<char>>>) -> Seq<char> {
    match segments {
        Some(s) => if s.len() > 0 && s.last().len() > 0 {
            s.last()
        } else {
            "download"@
        },
        None => "download"@,
    }
}

/// The file name before it is decoded: the one of the `Content-Disposition`
/// value where it gives one, else the one of the URL.
pub open spec fn raw_file_name(
    disposition: Option<Seq<char>>,
    segments: Option<Seq<Seq<char>>>,
) -> Seq<char> {
    match disposition {
        Some(value) => match disposition_file_name(value) {
            Some(name) => name,
            None => url_file_name(segments),
        },
        None => url_file_name(segments),
    }
}

/// Whether `name` has an extension: a last `.` that is neither its first nor
/// its last character.
pub open spec fn has_extension(name: Seq<char>) -> bool {
    match last_char(name, '.') {
        Some(i) => 0 < i && i + 1 < name.len(),
        None => false,
    }
}

/// The first of the known extensions, if any is known.
pub open spec fn first_extension(extensions: Option<Seq<Seq<char>>>) -> Option<Seq<char>> {
    match extensions {
        Some(e) => if e.len() > 0 {
            Some(e[0])
        } else {
            None
        },
        None => None,
    }
}

/// `name`, with `.` and the extension added where `name` has none and one is
/// known.
pub open spec fn with_extension(name: Seq<char>, extension: Option<Seq<char>>) -> Seq<char> {
    match extension {
        Some(e) => if has_extension(name) {
            name
        } else {
            name + seq!['.'] + e
        },
        None => name,
    }
}

/// The media type, if a `Content-Type` value is there.
pub open spec fn opt_media_type(value: Option<Seq<char>>) -> Option<Seq<char>> {
    match value {
        Some(v) => Some(media_type_of(v)),
        None => None,
    }
}

/// The file information that follows from the header values, the decoded
/// file name and the extensions known for the media type.
pub open spec fn file_info_of(
    fields: HeaderFieldsView,
    decoded_name: Seq<char>,
    extensions: Option<Seq<Seq<char>>>,
) -> FileInfoView {
    FileInfoView {
        file_name: with_extension(decoded_name, first_extension(extensions)),
        content_length: match fields.content_length {
            Some(v) => stated_length(v),
            None => None,
        },
        content_type: opt_media_type(fields.content_type),
        resumable: match fields.accept_ranges {
            Some(v) => accepts_byte_ranges(v),
            None => false,
        },
    }
}

/// The extensions known for the media type of the header values; `None`
/// without a `Content-Type` value.
pub open spec fn extensions_for(fields: HeaderFieldsView) -> Option<Seq<Seq<char>>> {
    match fields.content_type {
        Some(v) => mime_extensions(media_type_of(v)),
        None => None,
    }
}

/// The file information that a URL and a header map give, where the URL
/// parses and the file name decodes.
pub open spec fn file_info_for(url: Seq<char>, held: Map<Seq<char>, Seq<char>>) -> Option<
    FileInfoView,
> {
    let fields = fields_of(held);
    match url_path_segments(url) {
        Some(segments) => match percent_decoded(
            raw_file_name(fields.content_disposition, segments),
        ) {
            Some(decoded) => Some(file_info_of(fields, decoded, extensions_for(fields))),
            None => None,
        },
        None => None,
    }
}

/// The media type that a `Content-Type` value names.
pub fn media_type(value: &str) -> (r: String)
    ensures
        r@ == media_type_of(value@),
{
    let v = to_chars(value);
    let head = match find_char_from(&v, ';', 0) {
        Some(i) => slice(&v, 0, i),
        None => v,
    };
    from_chars(&trim(&head))
}

/// Whether an `Accept-Ranges` value is `bytes`, in any mix of cases.
pub fn is_byte_ranges(value: &str) -> (r: bool)
    ensures
        r == accepts_byte_ranges(value@),
{
    let lowered = to_ascii_lower(&to_chars(value));
    let bytes = to_chars("bytes");
    same_chars(&lowered, &bytes)
}

/// The number that a `Content-Length` value states.
pub fn parse_length(value: &str) -> (r: Option<u64>)
    ensures
        r == stated_length(value@),
{
    let v = to_chars(value);
    let digits = if v.len() > 0 && v[0] == '+' {
        slice(&v, 1, v.len())
    } else {
        v
    };
    read_decimal(&digits)
}

/// The file name that a `Content-Disposition` value gives.
pub fn file_name_from_disposition(value: &str) -> (r: Option<String>)
    ensures
        opt_text(r) == disposition_file_name(value@),
{
    let v = to_chars(value);
    let quoted = to_chars("filename=\"");
    let bare = to_chars("filename=");
    if let Some(i) = find(&v, &quoted) {
        if let Some(j) = find_char_from(&v, '"', i + quoted.len()) {
            return Some(from_chars(&slice(&v, i + quoted.len(), j)));
        }
    }
    match find(&v, &bare) {
        Some(i) => {
            if i + bare.len() < v.len() {
                Some(from_chars(&slice(&v, i + bare.len(), v.len() - 1)))
            } else {
                Some(String::new())
            }
        },
        None => None,
    }
}

/// The file name before it is decoded.
pub fn undecoded_file_name(disposition: &Option<String>, segments: &Option<Vec<String>>) -> (r:
    String)
    ensures
        r@ == raw_file_name(opt_text(*disposition), opt_texts(*segments)),
{
    if let Some(value) = disposition {
        if let Some(name) = file_name_from_disposition(value.as_str()) {
            return name;
        }
    }
    if let Some(s) = segments {
        if s.len() > 0 {
            let last = &s[s.len() - 1];
            assert(texts(s@).last() == last@);
            if last.as_str().unicode_len() > 0 {
                return last.clone();
            }
        }
    }
    "download".to_owned()
}

/// Whether `name` has an extension.
pub fn name_has_extension(name: &Vec<char>) -> (r: bool)
    ensures
        r == has_extension(name@),
{
    match rfind_char(name, '.') {
        Some(i) => 0 < i && i + 1 < name.len(),
        None => false,
    }
}

/// The file information that follows from the header values, the decoded file
/// name and the extensions known for the media type.
pub fn file_info_from_parts(
    fields: &HeaderFields,
    decoded_name: &str,
    extensions: &Option<Vec<String>>,
) -> (info: FileInfo)
    ensures
        info@ == file_info_of(fields@, decoded_name@, opt_texts(*extensions)),
{
    let name = to_chars(decoded_name);
    let mut file_name = decoded_name.to_owned();
    if let Some(e) = extensions {
        if e.len() > 0 {
            assert(texts(e@)[0] == e@[0]@);
            if !name_has_extension(&name) {
                let mut dot: Vec<char> = Vec::new();
                dot.push('.');
                assert(dot@ == seq!['.']);
                let ext = to_chars(e[0].as_str());
                file_name = from_chars(&concat(&concat(&name, &dot), &ext));
            }
        }
    }
    FileInfo {
        file_name,
        content_length: match &fields.content_length {
            Some(v) => parse_length(v.as_str()),
            None => None,
        },
        content_type: match &fields.content_type {
            Some(v) => Some(media_type(v.as_str())),
            None => None,
        },
        resumable: match &fields.accept_ranges {
            Some(v) => is_byte_ranges(v.as_str()),
            None => false,
        },
    }
}

/// The extensions known for the media type of the header values.
fn extensions_of(fields: &HeaderFields) -> (r: Option<Vec<String>>)
    ensures
        opt_texts(r) == extensions_for(fields@),
{
    match &fields.content_type {
        Some(v) => {
            let m = media_type(v.as_str());
            known_extensions(m.as_str())
        },
        None => None,
    }
}

/// The file information that `url` and `headers` give, or `None` where `url`
/// is no absolute URL or the file name does not decode to UTF-8.
pub fn try_get_file_info_from_headers(url: &str, headers: &HeaderMap) -> (r: Option<FileInfo>)
    ensures
        match r {
            Some(info) => file_info_for(url@, header_texts(*headers)) == Some(info@),
            None => file_info_for(url@, header_texts(*headers)) is None,
        },
{
    let fields = read_header_fields(headers);
    match path_segments(url) {
        Some(segments) => {
            let raw = undecoded_file_name(&fields.content_disposition, &segments);
            match percent_decode(raw.as_str()) {
                Some(_) => Some(get_file_info_from_headers(url, headers)),
                None => None,
            }
        },
        None => None,
    }
}

/// The file information that `url` and `headers` give.
pub fn get_file_info_from_headers(url: &str, headers: &HeaderMap) -> (info: FileInfo)
    requires
        file_info_for(url@, header_texts(*headers)) is Some,
    ensures
        file_info_for(url@, header_texts(*headers)) == Some(info@),
{
    let fields = read_header_fields(headers);
    let extensions = extensions_of(&fields);
    let segments = match path_segments(url) {
        Some(s) => s,
        None => None,
    };
    let raw = undecoded_file_name(&fields.content_disposition, &segments);
    let decoded = match percent_decode(raw.as_str()) {
        Some(d) => d,
        None => raw,
    };
    file_info_from_parts(&fields, decoded.as_str(), &extensions)
}

/// Whether one of the extensions of `category` is a suffix of `name`.
pub open spec fn category_matches(name: Seq<char>, category: CategoryView) -> bool {
    exists|k: int|
        0 <= k < category.extensions.len() && ends_with(name, #[trigger] category.extensions[k])
}

/// Whether `name` can fall under a category at all: it is not empty and does
/// not end in `.`.
pub open spec fn categorizable(name: Seq<char>) -> bool {
    name.len() > 0 && name.last() != '.'
}

/// The first category at or after index `from` that matches `name`.
pub open spec fn first_match(name: Seq<char>, categories: Seq<NamedCategoryView>, from: int) -> Option<
    int,
>
    decreases categories.len() - from,
{
    if from < 0 || from >= categories.len() {
        None
    } else if category_matches(name, categories[from].category) {
        Some(from)
    } else {
        first_match(name, categories, from + 1)
    }
}

/// The directory in which a file named `name` is placed: that of the first
/// category that matches the name, or the default directory where none
/// matches, where the name cannot fall under a category, or where the
/// category names no directory.
pub open spec fn output_directory(name: Seq<char>, config: ConfigView) -> Seq<char> {
    if categorizable(name) {
        match first_match(name, config.categories, 0) {
            Some(i) => if config.categories[i].category.directory.len() > 0 {
                config.categories[i].category.directory
            } else {
                config.default_directory
            },
            None => config.default_directory,
        }
    } else {
        config.default_directory
    }
}

/// The path under which a file named `name` is placed, before a leading `~`
/// is expanded.
pub open spec fn placed_path(name: Seq<char>, config: ConfigView) -> Seq<char> {
    joined(output_directory(name, config), name)
}

/// Whether one of the extensions of `category` is a suffix of `name`.
fn matches_category(name: &Vec<char>, category: &NamedCategory) -> (r: bool)
    ensures
        r == category_matches(name@, category@.category),
{
    let mut k: usize = 0;
    while k < category.category.extensions.len()
        invariant
            k <= category.category.extensions.len(),
            forall|j: int| 0 <= j < k ==> !ends_with(name@, #[trigger] category@.category.extensions[j]),
        decreases category.category.extensions.len() - k,
    {
        let ext = to_chars(category.category.extensions[k].as_str());
        assert(ext@ == category@.category.extensions[k as int]);
        if has_suffix(name, &ext) {
            return true;
        }
        k = k + 1;
    }
    false
}

/// The first category of `config` that matches `name`.
fn find_category(name: &Vec<char>, config: &Config) -> (r: Option<usize>)
    ensures
        match r {
            Some(i) => first_match(name@, config@.categories, 0) == Some(i as int) && i
                < config.categories.len(),
            None => first_match(name@, config@.categories, 0) is None,
        },
{
    let mut i: usize = 0;
    while i < config.categories.len()
        invariant
            i <= config.categories.len(),
            first_match(name@, config@.categories, 0) == first_match(
                name@,
                config@.categories,
                i as int,
            ),
        decreases config.categories.len() - i,
    {
        assert(config@.categories[i as int] == config.categories@[i as int]@);
        if matches_category(name, &config.categories[i]) {
            return Some(i);
        }
        i = i + 1;
    }
    None
}

/// The path under which the file of `file_info` is placed, before a leading
/// `~` is expanded.
pub fn categorized_path(file_info: &FileInfo, config: &Config) -> (r: String)
    ensures
        r@ == placed_path(file_info@.file_name, config@),
{
    let name = to_chars(file_info.file_name.as_str());
    let mut directory = config.default_directory.clone();
    if name.len() > 0 && name[name.len() - 1] != '.' {
        if let Some(i) = find_category(&name, config) {
            assert(config@.categories[i as int] == config.categories@[i as int]@);
            if config.categories[i].category.directory.as_str().unicode_len() > 0 {
                directory = config.categories[i].category.directory.clone();
            }
        }
    }
    join_path(directory.as_str(), file_info.file_name.as_str())
}

/// Detects the category of a file and gives the path under which it is to be
/// written: the placed path, with a leading `~` expanded.
pub fn get_output_file_path(file_info: &FileInfo, config: &Config) -> (r: String)
    ensures
        is_tilde_expansion(placed_path(file_info@.file_name, config@), r@),
{
    let path = categorized_path(file_info, config);
    expand(path.as_str())
}

/// A file whose name matches extensions of categories that all name one
/// directory is placed in that directory.
pub proof fn lemma_matching_name_goes_to_category(
    name: Seq<char>,
    config: ConfigView,
    c: int,
)
    requires
        categorizable(name),
        0 <= c < config.categories.len(),
        category_matches(name, config.categories[c].category),
        config.categories[c].category.directory.len() > 0,
        forall|j: int|
            0 <= j < config.categories.len() && category_matches(
                name,
                (#[trigger] config.categories[j]).category,
            ) ==> config.categories[j].category.directory == config.categories[c].category.directory,
    ensures
        output_directory(name, config) == config.categories[c].category.directory,
        name.len() > 0 && name[0] != '/' ==> starts_with(
            placed_path(name, config),
            config.categories[c].category.directory,
        ),
{
    lemma_first_match(name, config.categories, 0);
    let dir = config.categories[c].category.directory;
    if name[0] != '/' {
        if dir[dir.len() - 1] == '/' {
            assert((dir + name).subrange(0, dir.len() as int) == dir);
        } else {
            assert((dir + seq!['/'] + name).subrange(0, dir.len() as int) == dir);
        }
    }
}

/// A file whose name matches no extension of any category is placed in the
/// default directory.
pub proof fn lemma_other_name_goes_to_default(name: Seq<char>, config: ConfigView)
    requires
        forall|j: int|
            0 <= j < config.categories.len() ==> !category_matches(
                name,
                (#[trigger] config.categories[j]).category,
            ),
    ensures
        output_directory(name, config) == config.default_directory,
{
    lemma_first_match(name, config.categories, 0);
}

/// The first match is a match, and no category before it matches; where there
/// is none, no category at or after `from` matches.
pub proof fn lemma_first_match(name: Seq<char>, categories: Seq<NamedCategoryView>, from: int)
    requires
        0 <= from,
    ensures
        match first_match(name, categories, from) {
            Some(i) => from <= i < categories.len() && category_matches(
                name,
                categories[i].category,
            ) && forall|j: int|
                from <= j < i ==> !category_matches(name, (#[trigger] categories[j]).category),
            None => forall|j: int|
                from <= j < categories.len() ==> !category_matches(
                    name,
                    (#[trigger] categories[j]).category,
                ),
        },
    decreases categories.len() - from,
{
    if from >= categories.len() {
    } else if category_matches(name, categories[from].category) {
    } else {
        lemma_first_match(name, categories, from + 1);
    }
}

/// One of the sixty-two ASCII letters and digits.
pub open spec fn is_alphanumeric(c: char) -> bool {
    ('a' <= c && c <= 'z') || ('A' <= c && c <= 'Z') || ('0' <= c && c <= '9')
}

/// A scratch file name: ten ASCII letters and digits.
pub open spec fn is_scratch_name(name: Seq<char>) -> bool {
    name.len() == 10 && forall|i: int| 0 <= i < name.len() ==> is_alphanumeric(#[trigger] name[i])
}

/// One character drawn at random by `rand`'s `Alphanumeric` from the thread's
/// generator. Whatever is drawn is an ASCII letter or digit.
#[verifier::external_body]
fn random_alphanumeric() -> (c: char)
    ensures
        is_alphanumeric(c),
{
    char::from(rand::thread_rng().sample(rand::distributions::Alphanumeric))
}

/// A fresh scratch file name.
pub fn random_scratch_name() -> (r: String)
    ensures
        is_scratch_name(r@),
{
    let mut name: Vec<char> = Vec::new();
    while name.len() < 10
        invariant
            name.len() <= 10,
            forall|i: int| 0 <= i < name.len() ==> is_alphanumeric(#[trigger] name@[i]),
        decreases 10 - name.len(),
    {
        name.push(random_alphanumeric());
    }
    from_chars(&name)
}

/// What holds of the path of a scratch file: a scratch name placed under the
/// expanded scratch directory.
pub open spec fn is_scratch_path(temp_directory: Seq<char>, path: Seq<char>) -> bool {
    exists|directory: Seq<char>, name: Seq<char>|
        is_tilde_expansion(temp_directory, directory) && is_scratch_name(name) && path
            == #[trigger] joined(directory, name)
}

/// The path of a fresh scratch file under the scratch directory of `config`.
pub fn get_temp_file(config: &Config) -> (r: String)
    ensures
        is_scratch_path(config@.temp_directory, r@),
{
    let directory = expand(config.temp_directory.as_str());
    let name = random_scratch_name();
    let r = join_path(directory.as_str(), name.as_str());
    assert(r@ == joined(directory@, name@));
    r
}

} // verus!
