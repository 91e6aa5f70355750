use flow_lib::download::utils::{
    file_info_from_parts, file_name_from_disposition, get_file_info_from_headers, is_byte_ranges,
    media_type, parse_length, read_header_fields, try_get_file_info_from_headers,
    undecoded_file_name, HeaderFields,
};
use reqwest::header::{
    HeaderMap, ACCEPT_RANGES, CONTENT_DISPOSITION, CONTENT_LENGTH, CONTENT_TYPE,
};

#[test]
fn test_get_file_info_from_headers_attachment() {
    let url = "https://test.com/testfile";
    let mut headers = HeaderMap::new();
    headers.insert(
        CONTENT_DISPOSITION,
        "attachment; filename=\"testfile.txt\"".parse().unwrap(),
    );

    let test = get_file_info_from_headers(url, &headers);

    assert_eq!(test.file_name, "testfile.txt");
    assert_eq!(test.resumable, false);
    assert_eq!(test.content_type, None);
}

#[test]
fn test_get_file_info_from_headers_no_attachment() {
    let url = "https://test.com/testfile";
    let mut headers = HeaderMap::new();
    headers.insert(CONTENT_DISPOSITION, "filename=\"testfile.txt\"".parse().unwrap());

    let test = get_file_info_from_headers(url, &headers);

    assert_eq!(test.file_name, "testfile.txt");
    assert_eq!(test.resumable, false);
    assert_eq!(test.content_type, None);
}

#[test]
fn test_get_file_info_from_headers_no_headers() {
    let url = "https://test.com/testfile";
    let headers = HeaderMap::new();
    let test = get_file_info_from_headers(url, &headers);

    assert_eq!(test.file_name, "testfile");
    assert_eq!(test.resumable, false);
    assert_eq!(test.content_type, None);
}

#[test]
fn test_get_file_info_from_headers_no_headers_url_special_chars() {
    let url = "https://test.com/t%C3%A9stfile";
    let headers = HeaderMap::new();
    let test = get_file_info_from_headers(url, &headers);

    assert_eq!(test.file_name, "téstfile");
    assert_eq!(test.resumable, false);
    assert_eq!(test.content_type, None);
}

#[test]
fn test_get_file_info_from_headers_no_path_segment() {
    let url = "https://test.com/";
    let mut headers = HeaderMap::new();
    headers.insert(CONTENT_TYPE, "text/html".parse().unwrap());
    let test = get_file_info_from_headers(url, &headers);

    assert_eq!(test.file_name, "download.htm");
    assert_eq!(test.resumable, false);
    assert_eq!(test.content_type, Some("text/html".to_string()));
}

#[test]
fn test_get_file_info_from_headers_no_path_segment_no_content_type() {
    let url = "https://test.com/";
    let headers = HeaderMap::new();
    let test = get_file_info_from_headers(url, &headers);

    assert_eq!(test.file_name, "download");
    assert_eq!(test.resumable, false);
    assert_eq!(test.content_type, None);
}

#[test]
fn header_derivation_with_length_and_ranges() {
    let mut headers = HeaderMap::new();
    headers.insert(CONTENT_LENGTH, "1024".parse().unwrap());
    headers.insert(ACCEPT_RANGES, "bytes".parse().unwrap());
    let info = get_file_info_from_headers("https://example.com/file.bin", &headers);
    assert_eq!(info.file_name, "file.bin");
    assert_eq!(info.content_length, Some(1024));
    assert_eq!(info.content_type, None);
    assert_eq!(info.resumable, true);
}

#[test]
fn header_fields_are_read_by_name() {
    let mut headers = HeaderMap::new();
    headers.insert(CONTENT_TYPE, "image/png".parse().unwrap());
    headers.insert(CONTENT_LENGTH, "7".parse().unwrap());
    let fields = read_header_fields(&headers);
    assert_eq!(fields.content_type, Some("image/png".to_string()));
    assert_eq!(fields.content_length, Some("7".to_string()));
    assert_eq!(fields.content_disposition, None);
    assert_eq!(fields.accept_ranges, None);
}

#[test]
fn header_value_that_is_no_text_counts_as_absent() {
    let mut headers = HeaderMap::new();
    headers.insert(
        CONTENT_TYPE,
        reqwest::header::HeaderValue::from_bytes(&[0xff, 0xfe]).unwrap(),
    );
    let fields = read_header_fields(&headers);
    assert_eq!(fields.content_type, None);
}

#[test]
fn media_type_stops_at_semicolon_and_is_trimmed() {
    assert_eq!(media_type("text/html; charset=utf-8"), "text/html");
    assert_eq!(media_type("  text/plain \t;q=1"), "text/plain");
    assert_eq!(media_type("application/pdf"), "application/pdf");
    assert_eq!(media_type(""), "");
    assert_eq!(media_type(";"), "");
}

#[test]
fn accept_ranges_is_compared_without_case() {
    assert!(is_byte_ranges("bytes"));
    assert!(is_byte_ranges("Bytes"));
    assert!(is_byte_ranges("BYTES"));
    assert!(!is_byte_ranges("none"));
    assert!(!is_byte_ranges("bytes "));
    assert!(!is_byte_ranges(""));
}

#[test]
fn content_length_is_a_decimal_number() {
    assert_eq!(parse_length("0"), Some(0));
    assert_eq!(parse_length("1024"), Some(1024));
    assert_eq!(parse_length("+17"), Some(17));
    assert_eq!(parse_length("007"), Some(7));
    assert_eq!(parse_length("18446744073709551615"), Some(u64::MAX));
    assert_eq!(parse_length("18446744073709551616"), None);
    assert_eq!(parse_length("99999999999999999999999"), None);
    assert_eq!(parse_length(""), None);
    assert_eq!(parse_length("+"), None);
    assert_eq!(parse_length("-1"), None);
    assert_eq!(parse_length("12a"), None);
    assert_eq!(parse_length(" 12"), None);
}

#[test]
fn disposition_gives_the_quoted_name() {
    assert_eq!(
        file_name_from_disposition("attachment; filename=\"a.txt\"; size=5"),
        Some("a.txt".to_string())
    );
    assert_eq!(file_name_from_disposition("filename=\"\""), Some("".to_string()));
}

#[test]
fn disposition_without_quotes_loses_its_last_character() {
    assert_eq!(
        file_name_from_disposition("attachment; filename=a.txt"),
        Some("a.tx".to_string())
    );
    assert_eq!(file_name_from_disposition("filename="), Some("".to_string()));
    assert_eq!(file_name_from_disposition("filename=x"), Some("".to_string()));
    assert_eq!(file_name_from_disposition("filename=\"abc"), Some("\"ab".to_string()));
}

#[test]
fn disposition_without_file_name_gives_none() {
    assert_eq!(file_name_from_disposition("inline"), None);
    assert_eq!(file_name_from_disposition(""), None);
}

#[test]
fn name_falls_back_to_the_last_segment_then_to_download() {
    let segments = Some(vec!["a".to_string(), "b.zip".to_string()]);
    assert_eq!(undecoded_file_name(&None, &segments), "b.zip");
    let trailing = Some(vec!["a".to_string(), "".to_string()]);
    assert_eq!(undecoded_file_name(&None, &trailing), "download");
    assert_eq!(undecoded_file_name(&None, &None), "download");
    assert_eq!(
        undecoded_file_name(&Some("inline".to_string()), &segments),
        "b.zip"
    );
    assert_eq!(
        undecoded_file_name(&Some("filename=\"x.y\"".to_string()), &segments),
        "x.y"
    );
}

fn fields(content_type: Option<&str>) -> HeaderFields {
    HeaderFields {
        content_type: content_type.map(|s| s.to_string()),
        content_disposition: None,
        accept_ranges: None,
        content_length: None,
    }
}

#[test]
fn extension_is_added_only_to_a_name_without_one() {
    let known = Some(vec!["htm".to_string(), "html".to_string()]);
    let info = file_info_from_parts(&fields(Some("text/html")), "page", &known);
    assert_eq!(info.file_name, "page.htm");
    let info = file_info_from_parts(&fields(Some("text/html")), "photo.jpg", &known);
    assert_eq!(info.file_name, "photo.jpg");
    let info = file_info_from_parts(&fields(Some("text/html")), ".hidden", &known);
    assert_eq!(info.file_name, ".hidden.htm");
    let info = file_info_from_parts(&fields(Some("text/html")), "trailing.", &known);
    assert_eq!(info.file_name, "trailing..htm");
    let info = file_info_from_parts(&fields(Some("x/y")), "page", &None);
    assert_eq!(info.file_name, "page");
    let info = file_info_from_parts(&fields(Some("x/y")), "page", &Some(vec![]));
    assert_eq!(info.file_name, "page");
}

#[test]
fn name_from_header_gets_the_extension_of_the_media_type() {
    let mut headers = HeaderMap::new();
    headers.insert(CONTENT_DISPOSITION, "attachment; filename=\"report\"".parse().unwrap());
    headers.insert(CONTENT_TYPE, "application/pdf".parse().unwrap());
    let info = get_file_info_from_headers("https://test.com/x", &headers);
    assert_eq!(info.file_name, "report.pdf");
    assert_eq!(info.content_type, Some("application/pdf".to_string()));
}

#[test]
fn unknown_media_type_adds_nothing() {
    let mut headers = HeaderMap::new();
    headers.insert(CONTENT_TYPE, "application/x-no-such-type".parse().unwrap());
    let info = get_file_info_from_headers("https://test.com/thing", &headers);
    assert_eq!(info.file_name, "thing");
}

#[test]
fn percent_escapes_are_decoded() {
    let headers = HeaderMap::new();
    let info = get_file_info_from_headers("https://test.com/a%20b.txt", &headers);
    assert_eq!(info.file_name, "a b.txt");
}

#[test]
fn url_that_does_not_parse_gives_none() {
    let headers = HeaderMap::new();
    assert!(try_get_file_info_from_headers("not a url", &headers).is_none());
    assert!(try_get_file_info_from_headers("", &headers).is_none());
}

#[test]
fn name_that_does_not_decode_gives_none() {
    let headers = HeaderMap::new();
    assert!(try_get_file_info_from_headers("https://test.com/%FF%FE", &headers).is_none());
}

#[test]
fn try_agrees_with_get() {
    let mut headers = HeaderMap::new();
    headers.insert(CONTENT_TYPE, "text/html".parse().unwrap());
    let a = try_get_file_info_from_headers("https://test.com/", &headers).unwrap();
    let b = get_file_info_from_headers("https://test.com/", &headers);
    assert_eq!(a.file_name, b.file_name);
    assert_eq!(a.content_type, b.content_type);
    assert_eq!(a.content_length, b.content_length);
    assert_eq!(a.resumable, b.resumable);
}

#[test]
fn url_without_segments_gives_download() {
    let headers = HeaderMap::new();
    let info = get_file_info_from_headers("data:text/plain,Hello", &headers);
    assert_eq!(info.file_name, "download");
}
