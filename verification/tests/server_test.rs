use webfetch2::error::{DataValue, ErrorCode, ToolError};
use webfetch2::fetch::{FailureKind, FetchFailure, FetchStep, ResponseHead, WebFetch};

fn start(url: &str) -> FetchStep {
    WebFetch::new().fetch_for_server(url.to_string())
}

fn head(status: u16) -> Result<ResponseHead, FetchFailure> {
    Ok(ResponseHead { status, content_type: Some("text/html".to_string()) })
}

fn error_of(step: FetchStep) -> ToolError {
    match step {
        FetchStep::Reply { result: Err(e) } => e,
        _ => panic!("expected an error reply"),
    }
}

fn text_of(step: FetchStep) -> String {
    match step {
        FetchStep::Reply { result: Ok(t) } => t,
        _ => panic!("expected a text reply"),
    }
}

/// Creates the directory and checks the stored file; returns the path and the download step.
fn until_download(url: &str, existed: bool) -> (String, FetchStep) {
    let FetchStep::CreateDir { next, .. } = start(url) else { panic!("expected CreateDir") };
    let FetchStep::CheckExists { path, next } = next.dir_created(Ok(())) else { panic!("the server checks the file") };
    (path, next.exists_checked(existed))
}

fn download_to_reply(step: FetchStep, status: u16, body: &[u8]) -> FetchStep {
    let FetchStep::Download { next, .. } = step else { panic!("expected Download") };
    let step = next.responded(head(status));
    let FetchStep::ReadBody { next } = step else { return step };
    let FetchStep::WriteFile { next, contents, .. } = next.body_read(Ok(body.to_vec())) else { panic!("expected WriteFile") };
    assert_eq!(contents, body);
    match next.written(Ok(())) {
        FetchStep::Download { next, .. } => next.responded(head(404)),
        other => other,
    }
}

#[test]
fn test_fetch_invalid_url() {
    let error = error_of(start("not-a-valid-url"));
    assert_eq!(error.code, ErrorCode::InvalidParams);
    let message = error.message.to_lowercase();
    assert!(message.contains("invalid url") || message.contains("url"), "Error message should mention URL issue: {message}");
    assert_eq!(
        error.message,
        "Invalid URL: relative URL without a base. Please provide a valid HTTP/HTTPS URL (e.g., https://example.com)"
    );
}

#[test]
fn test_fetch_http_error() {
    let (_, step) = until_download("https://httpbin.org/status/404", false);
    let error = error_of(download_to_reply(step, 404, b""));
    assert!(error.message.contains("HTTP") || error.message.to_lowercase().contains("error"));
    assert_eq!(error.message, "HTTP error 404: Not Found. The server returned an error response.");
    assert!(matches!(error.data[1].value, DataValue::Number(404)));
}

#[test]
fn test_fetch_success() {
    let (path, step) = until_download("https://example.com", false);
    assert_eq!(path, ".tempwebfetch/https_example.com.html");
    let text = text_of(download_to_reply(step, 200, b"<html>example</html>"));
    assert!(text.starts_with("Downloaded:"));
    assert!(text.contains(".tempwebfetch"));
    assert_eq!(text, "Downloaded: .tempwebfetch/https_example.com.html (20 bytes, text/html)");
}

#[test]
fn replacing_a_stored_file_is_said() {
    let (path, step) = until_download("https://example.com/test0.html", true);
    assert_eq!(path, ".tempwebfetch/https_example.com_test0.html");
    assert_eq!(
        text_of(download_to_reply(step, 200, b"x")),
        format!("Downloaded: {path} (1 bytes, text/html) (overriding existing file)")
    );
}

#[test]
fn server_request_failures() {
    for (kind, message) in [
        (FailureKind::Timeout, "Request timed out. Check your network connection and try again."),
        (FailureKind::Connect, "Failed to connect to the server. Check your network connection and that the URL is accessible."),
        (FailureKind::Other, "Failed to fetch URL: boom"),
    ] {
        let (_, step) = until_download("https://example.com/", false);
        let FetchStep::Download { next, .. } = step else { panic!("expected Download") };
        let error = error_of(next.responded(Err(FetchFailure { kind, text: "boom".to_string() })));
        assert_eq!(error.message, message);
        assert_eq!(error.data.len(), 2);
    }
}

#[test]
fn server_directory_and_write_failures() {
    let FetchStep::CreateDir { next, .. } = start("https://example.com/") else { panic!("expected CreateDir") };
    assert_eq!(
        error_of(next.dir_created(Err("denied".to_string()))).message,
        "Failed to create .tempwebfetch directory: denied. Check file permissions."
    );
    let (_, step) = until_download("https://example.com/", false);
    let FetchStep::Download { next, .. } = step else { panic!("expected Download") };
    let FetchStep::ReadBody { next } = next.responded(head(200)) else { panic!("expected ReadBody") };
    let FetchStep::WriteFile { next, .. } = next.body_read(Ok(vec![])) else { panic!("expected WriteFile") };
    assert_eq!(
        error_of(next.written(Err("full".to_string()))).message,
        "Failed to write file: full. Check disk space and file permissions."
    );
}

#[test]
fn server_finds_llms_txt() {
    let (_, step) = until_download("https://example.com/docs/a?x=1", false);
    let FetchStep::Download { next, .. } = step else { panic!("expected Download") };
    let FetchStep::ReadBody { next } = next.responded(head(200)) else { panic!("expected ReadBody") };
    let FetchStep::WriteFile { path, next, .. } = next.body_read(Ok(b"ab".to_vec())) else { panic!("expected WriteFile") };
    assert_eq!(path, ".tempwebfetch/https_example.com_docs_a_x_1.html");
    let FetchStep::Download { url, next } = next.written(Ok(())) else { panic!("llms.txt is looked for") };
    assert_eq!(url, "https://example.com/llms.txt");
    let FetchStep::ReadBody { next } = next.responded(head(200)) else { panic!("expected ReadBody") };
    let FetchStep::WriteFile { path: llms_path, next, .. } = next.body_read(Ok(b"hi".to_vec())) else {
        panic!("expected WriteFile")
    };
    assert_eq!(llms_path, ".tempwebfetch/https_example.com_llms.txt");
    assert_eq!(
        text_of(next.written(Ok(()))),
        format!("Downloaded: {path} (2 bytes, text/html)\nFound llms.txt: {llms_path} (2 bytes)")
    );
}

#[test]
fn every_parsed_url_gets_a_first_step() {
    let long = format!("https://example.com/{}", "é".repeat(300));
    let FetchStep::CreateDir { next, .. } = start(&long) else { panic!("expected CreateDir") };
    let FetchStep::CheckExists { path, .. } = next.dir_created(Ok(())) else { panic!("expected CheckExists") };
    assert!(path.is_ascii());
    assert!(path.len() <= ".tempwebfetch/".len() + 245);
    assert!(!path[".tempwebfetch/".len()..].contains(['/', '\\', ':', '*', '?', '"', '<', '>', '|', '&', '=', '#']));
}
