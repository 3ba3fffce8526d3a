use webfetch2::filename::UrlParts;
use webfetch2::safename::{url_safe_filename, url_safe_filename_checked};

fn parts(serialization: &str, path: &str) -> UrlParts {
    UrlParts { serialization: serialization.to_string(), path: path.to_string() }
}

/// The original server's naming, as it was written.
fn original(serialization: &str, path: &str) -> String {
    let has_extension = path
        .strip_prefix('/')
        .and_then(|rest| rest.split('/').next_back())
        .map(|last| last.contains('.'))
        .unwrap_or(false);
    let mut safe_name = serialization
        .replace("://", "_")
        .replace(['/', '\\', ':', '*', '?', '"', '<', '>', '|', '&', '=', '#'], "_")
        .trim_end_matches('_')
        .to_string();
    if safe_name.len() > 240 {
        safe_name = safe_name[..240].trim_end_matches('_').to_string();
    }
    if !has_extension {
        safe_name.push_str(".html");
    }
    safe_name
}

#[test]
fn safe_names_match_the_original_server() {
    let cases = [
        ("https://example.com/", "/"),
        ("https://example.com/docs/file.pdf", "/docs/file.pdf"),
        ("https://example.com/a/b?x=1&y=2#frag", "/a/b"),
        ("https://user:pw@example.com:8080/x.y/", "/x.y/"),
        ("data:text/plain,hello", "text/plain,hello"),
        ("https://example.com/a:::b", "/a:::b"),
        ("a:://b", "//b"),
        ("https://example.com/___", "/___"),
    ];
    for (s, p) in cases {
        assert_eq!(url_safe_filename(&parts(s, p)), original(s, p), "{s}");
    }
}

#[test]
fn long_names_are_cut_at_240_bytes() {
    let long = format!("https://example.com/{}", "a".repeat(300));
    let name = url_safe_filename(&parts(&long, &long[19..]));
    assert_eq!(name, original(&long, &long[19..]));
    assert_eq!(name.len(), 240 + 5);

    let underscores = format!("https://example.com/{}/{}", "b".repeat(216), "c".repeat(50));
    let path = &underscores[19..];
    assert_eq!(url_safe_filename(&parts(&underscores, path)), original(&underscores, path));
}

#[test]
fn a_character_across_byte_240_cannot_be_cut() {
    let s = format!("https://x/{}é{}", "a".repeat(231), "b".repeat(20));
    assert!(url_safe_filename_checked(&parts(&s, "/")).is_none());
    let s = format!("https://x/{}é{}", "a".repeat(230), "b".repeat(20));
    let name = url_safe_filename_checked(&parts(&s, "/")).unwrap();
    assert_eq!(name, original(&s, "/"));
}
