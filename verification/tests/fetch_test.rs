use std::path::Path;
use webfetch2::error::{DataValue, ErrorCode, ToolError};
use webfetch2::fetch::{FailureKind, FetchFailure, FetchRequest, FetchStep, ResponseHead, WebFetch};
use webfetch2::status::{http_error, is_success, server_http_error, server_status_error, status_error};

fn request(url: &str, use_cache: bool) -> FetchRequest {
    FetchRequest { url: url.to_string(), use_cache }
}

fn head(status: u16, content_type: Option<&str>) -> Result<ResponseHead, FetchFailure> {
    Ok(ResponseHead { status, content_type: content_type.map(|s| s.to_string()) })
}

fn failure(kind: FailureKind, text: &str) -> Result<ResponseHead, FetchFailure> {
    Err(FetchFailure { kind, text: text.to_string() })
}

fn text(v: &DataValue) -> &str {
    match v {
        DataValue::Text(s) => s.as_str(),
        DataValue::Number(_) => panic!("expected text"),
    }
}

fn error_of(step: FetchStep) -> ToolError {
    match step {
        FetchStep::Reply { result: Err(e) } => e,
        _ => panic!("expected an error reply"),
    }
}

fn text_of(step: FetchStep) -> String {
    match step {
        FetchStep::Reply { result: Ok(t) } => t,
        _ => panic!("expected a text reply"),
    }
}

/// Creates the directory of a started fetch.
fn after_dir(step: FetchStep) -> FetchStep {
    let FetchStep::CreateDir { dir, next } = step else { panic!("expected CreateDir") };
    assert_eq!(dir, ".tempwebfetch");
    next.dir_created(Ok(()))
}

/// Answers a download step with the given head and body; returns the path
/// written, the bytes written, and the step after the write.
fn answer(step: FetchStep, status: u16, content_type: Option<&str>, body: &[u8]) -> (Option<(String, Vec<u8>)>, FetchStep) {
    let FetchStep::Download { next, .. } = step else { panic!("expected Download") };
    let step = next.responded(head(status, content_type));
    let FetchStep::ReadBody { next } = step else { return (None, step) };
    let step = next.body_read(Ok(body.to_vec()));
    let FetchStep::WriteFile { path, contents, next } = step else { panic!("expected WriteFile") };
    (Some((path, contents)), next.written(Ok(())))
}

/// Ends a pending `llms.txt` lookup with a 404.
fn without_llms(step: FetchStep) -> FetchStep {
    match step {
        FetchStep::Download { url, next } => {
            assert!(url.ends_with("/llms.txt"));
            next.responded(head(404, None))
        }
        other => other,
    }
}

/// Runs a library fetch with no cache through a response.
fn run_download(url: &str, status: u16, content_type: Option<&str>, body: &[u8]) -> (Option<(String, Vec<u8>)>, FetchStep) {
    let step = after_dir(WebFetch::new().fetch(request(url, false)));
    let (written, step) = answer(step, status, content_type, body);
    (written, without_llms(step))
}

fn downloaded_path(reply: &str) -> &Path {
    let rest = reply.strip_prefix("Downloaded: ").expect("Result should contain file path");
    Path::new(rest.split_whitespace().next().expect("Result should contain file path"))
}

#[test]
fn test_invalid_url_format() {
    let result = error_of(WebFetch::new().fetch(request("not-a-valid-url", false)));
    assert!(result.message.contains("Invalid URL"));
}

#[test]
fn invalid_url_error_carries_url_and_parse_error() {
    let error = error_of(WebFetch::new().fetch(request("not-a-valid-url", true)));
    assert_eq!(error.code, ErrorCode::InvalidParams);
    assert_eq!(error.message, "Invalid URL: relative URL without a base");
    assert_eq!(error.data.len(), 2);
    assert_eq!(error.data[0].key, "url");
    assert_eq!(text(&error.data[0].value), "not-a-valid-url");
    assert_eq!(error.data[1].key, "error");
    assert_eq!(text(&error.data[1].value), "relative URL without a base");
}

#[test]
fn test_fetch_creates_directory() {
    match WebFetch::new().fetch(request("https://httpbin.org/html", false)) {
        FetchStep::CreateDir { dir, .. } => assert_eq!(dir, ".tempwebfetch"),
        _ => panic!("the directory is created first"),
    }
}

#[test]
fn test_http_404_error() {
    let (_, reply) = run_download("https://httpbin.org/status/404", 404, None, b"");
    let error = error_of(reply);
    assert!(error.message.contains("404"));
}

#[test]
fn library_http_error_text() {
    let (_, reply) = run_download("https://httpbin.org/status/404", 404, None, b"");
    let error = error_of(reply);
    assert_eq!(error.code, ErrorCode::InternalError);
    assert_eq!(error.message, "HTTP 404: Not Found");
    assert_eq!(text(&error.data[0].value), "https://httpbin.org/status/404");
    assert_eq!(error.data[1].key, "status");
    assert!(matches!(error.data[1].value, DataValue::Number(404)));
}

#[test]
fn test_file_path_is_relative() {
    let (written, reply) = run_download("https://httpbin.org/html", 200, Some("text/html; charset=utf-8"), b"<html>grug</html>");
    let (path, contents) = written.unwrap();
    let reply = text_of(reply);
    assert_eq!(reply, format!("Downloaded: {path} (17 bytes, text/html; charset=utf-8)"));
    assert_eq!(contents, b"<html>grug</html>");
    let file_path = downloaded_path(&reply);
    assert!(file_path.is_relative());
    assert!(file_path.starts_with(".tempwebfetch"));
    assert!(file_path.file_name().is_some());
    assert_eq!(file_path, Path::new(&path));
    assert!(path.ends_with(".html"));
}

#[test]
fn test_fetch_grugbrain() {
    let page = b"<html><body>grug brain developer</body></html>";
    let (written, reply) = run_download("https://grugbrain.dev/", 200, Some("text/html; charset=utf-8"), page);
    let (path, contents) = written.unwrap();
    let reply = text_of(reply);
    assert!(reply.starts_with("Downloaded: .tempwebfetch/"));
    let file_path = downloaded_path(&reply);
    assert!(file_path.starts_with(".tempwebfetch"));
    assert_eq!(file_path, Path::new(&path));
    assert!(String::from_utf8(contents).unwrap().contains("grug"));
}

#[test]
fn written_bytes_are_the_body() {
    let body: Vec<u8> = (0..=255u8).collect();
    let (written, reply) = run_download("https://example.com/data.bin", 200, None, &body);
    let (path, contents) = written.unwrap();
    assert_eq!(contents, body);
    assert_eq!(text_of(reply), format!("Downloaded: {path} (256 bytes)"));
}

#[test]
fn test_multiple_requests() {
    for i in 0..3 {
        let url = format!("https://example.com/test{}.html", i);
        let body = vec![b'x'; 10 + i];
        let (written, reply) = run_download(&url, 200, Some("text/html"), &body);
        let (path, _) = written.unwrap();
        assert!(path.starts_with(&format!(".tempwebfetch/test{}.html_", i)));
        assert_eq!(text_of(reply), format!("Downloaded: {path} ({} bytes, text/html)", 10 + i));
    }
}

#[test]
fn llms_txt_is_looked_for_and_reported() {
    let step = after_dir(WebFetch::new().fetch(request("https://example.com/docs/page", false)));
    let (written, step) = answer(step, 200, Some("text/html"), b"page");
    let (path, _) = written.unwrap();
    let FetchStep::Download { url, .. } = &step else { panic!("llms.txt is looked for") };
    assert_eq!(url, "https://example.com/llms.txt");
    let (llms_written, reply) = answer(step, 200, Some("text/plain"), b"# Example\n");
    let (llms_path, llms_contents) = llms_written.unwrap();
    assert!(llms_path.starts_with(".tempwebfetch/llms.txt_"));
    assert_eq!(llms_contents, b"# Example\n");
    assert_eq!(
        text_of(reply),
        format!("Downloaded: {path} (4 bytes, text/html)\nFound llms.txt: {llms_path} (10 bytes)")
    );
}

#[test]
fn missing_llms_txt_leaves_the_reply_alone() {
    let step = after_dir(WebFetch::new().fetch(request("https://example.com/a", false)));
    let (written, step) = answer(step, 200, None, b"abc");
    let (path, _) = written.unwrap();
    let FetchStep::Download { next, .. } = step else { panic!("llms.txt is looked for") };
    assert_eq!(text_of(next.responded(failure(FailureKind::Connect, "refused"))), format!("Downloaded: {path} (3 bytes)"));
}

#[test]
fn llms_txt_itself_is_not_looked_for_twice() {
    let step = after_dir(WebFetch::new().fetch(request("https://example.com/llms.txt", false)));
    let (_, step) = answer(step, 200, None, b"x");
    assert!(text_of(step).starts_with("Downloaded: .tempwebfetch/llms.txt_"));
}

#[test]
fn no_llms_txt_for_urls_without_a_base() {
    let step = after_dir(WebFetch::new().fetch(request("data:text/plain,hello", false)));
    let (_, step) = answer(step, 200, None, b"hello");
    assert!(text_of(step).starts_with("Downloaded: .tempwebfetch/"));
}

#[test]
fn cached_file_answers_without_download() {
    let url = "https://example.com/data/file.json";
    let FetchStep::CheckExists { path, next } = after_dir(WebFetch::new().fetch(request(url, true))) else {
        panic!("the cache is consulted")
    };
    let FetchStep::ReadSize { path: size_path, next } = next.exists_checked(true) else { panic!("the size is read") };
    assert_eq!(size_path, path);
    assert_eq!(text_of(next.size_read(Some(42))), format!("Cached: {path} (42 bytes)"));
    assert!(path.starts_with(".tempwebfetch/file.json_"));
}

#[test]
fn cached_file_with_unreadable_size_counts_zero() {
    let FetchStep::CheckExists { path, next } = after_dir(WebFetch::new().fetch(request("https://example.com/", true))) else {
        panic!("the cache is consulted")
    };
    let FetchStep::ReadSize { next, .. } = next.exists_checked(true) else { panic!("the size is read") };
    assert_eq!(text_of(next.size_read(None)), format!("Cached: {path} (0 bytes)"));
}

#[test]
fn downloads_without_cache() {
    let step = after_dir(WebFetch::new().fetch(request("https://example.com/a.txt", false)));
    assert!(matches!(step, FetchStep::Download { .. }));
}

#[test]
fn missing_cached_file_is_downloaded() {
    let FetchStep::CheckExists { next, .. } = after_dir(WebFetch::new().fetch(request("https://example.com/x.y", true))) else {
        panic!("the cache is consulted")
    };
    match next.exists_checked(false) {
        FetchStep::Download { url, .. } => assert_eq!(url, "https://example.com/x.y"),
        _ => panic!("expected a download"),
    }
}

#[test]
fn directory_failure() {
    let FetchStep::CreateDir { next, .. } = WebFetch::new().fetch(request("https://example.com", false)) else {
        panic!("expected CreateDir")
    };
    let error = error_of(next.dir_created(Err("permission denied".to_string())));
    assert_eq!(error.code, ErrorCode::InternalError);
    assert_eq!(error.message, "Failed to create .tempwebfetch directory: permission denied");
    assert_eq!(error.data.len(), 1);
    assert_eq!(text(&error.data[0].value), "permission denied");
}

#[test]
fn request_failure() {
    let FetchStep::Download { next, .. } = after_dir(WebFetch::new().fetch(request("https://unreachable.invalid/", false))) else {
        panic!("expected Download")
    };
    let error = error_of(next.responded(failure(FailureKind::Timeout, "dns error")));
    assert_eq!(error.message, "Failed to fetch URL: dns error");
    assert_eq!(text(&error.data[0].value), "https://unreachable.invalid/");
    assert_eq!(text(&error.data[1].value), "dns error");
}

#[test]
fn body_and_write_failures() {
    let FetchStep::Download { next, .. } = after_dir(WebFetch::new().fetch(request("https://example.com/", false))) else {
        panic!("expected Download")
    };
    let FetchStep::ReadBody { next } = next.responded(head(204, None)) else { panic!("a success status reads the body") };
    let error = error_of(next.body_read(Err("connection reset".to_string())));
    assert_eq!(error.message, "Failed to read response body: connection reset");
    assert_eq!(error.data[0].key, "url");

    let FetchStep::Download { next, .. } = after_dir(WebFetch::new().fetch(request("https://example.com/", false))) else {
        panic!("expected Download")
    };
    let FetchStep::ReadBody { next } = next.responded(head(200, None)) else { panic!("a success status reads the body") };
    let FetchStep::WriteFile { path, next, .. } = next.body_read(Ok(vec![1, 2, 3, 4, 5])) else { panic!("expected WriteFile") };
    let error = error_of(next.written(Err("disk full".to_string())));
    assert_eq!(error.message, "Failed to write file: disk full");
    assert_eq!(error.data[0].key, "path");
    assert_eq!(text(&error.data[0].value), path);
}

#[test]
fn success_statuses() {
    assert!(!is_success(199));
    assert!(is_success(200));
    assert!(is_success(299));
    assert!(!is_success(300));
    assert!(!is_success(404));
}

#[test]
fn status_errors_name_the_reason() {
    assert_eq!(status_error("u", 500).message, "HTTP 500: Internal Server Error");
    assert_eq!(status_error("u", 418).message, "HTTP 418: I'm a teapot");
    assert_eq!(status_error("u", 999).message, "HTTP 999: Unknown");
    assert_eq!(status_error("u", 42).message, "HTTP 42: Unknown");
    assert_eq!(http_error("u", 404, Some("Gone Fishing".to_string())).message, "HTTP 404: Gone Fishing");
    assert_eq!(http_error("u", 301, None).message, "HTTP 301: Unknown");
    assert_eq!(
        server_status_error("u", 404).message,
        "HTTP error 404: Not Found. The server returned an error response."
    );
    assert_eq!(
        server_http_error("u", 599, None).message,
        "HTTP error 599: Unknown. The server returned an error response."
    );
}

#[test]
fn redirect_status_is_an_error() {
    let (_, reply) = run_download("https://example.com/", 301, None, b"");
    assert_eq!(error_of(reply).message, "HTTP 301: Moved Permanently");
}
