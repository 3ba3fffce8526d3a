use std::hash::{DefaultHasher, Hash, Hasher};
use webfetch2::filename::{filename_for, generate_filename, has_dot, last_path_segment, push_sanitized, UrlParts};
use webfetch2::text::{push_decimal, push_hex};

fn original_hash_suffix(url: &str) -> String {
    let mut hasher = DefaultHasher::new();
    url.hash(&mut hasher);
    format!("{:x}", hasher.finish() & 0xFFFF)
}

fn parts(serialization: &str, path: &str) -> UrlParts {
    UrlParts { serialization: serialization.to_string(), path: path.to_string() }
}

#[test]
fn hex_numerals() {
    for (n, s) in [(0u64, "0"), (9, "9"), (10, "a"), (15, "f"), (16, "10"), (0xabcd, "abcd"), (0xffff, "ffff")] {
        let mut out = String::from("x");
        push_hex(&mut out, n);
        assert_eq!(out, format!("x{s}"));
    }
    let mut out = String::new();
    push_hex(&mut out, u64::MAX);
    assert_eq!(out, format!("{:x}", u64::MAX));
}

#[test]
fn decimal_numerals() {
    for n in [0u64, 7, 10, 404, 3741, 1_000_000, u64::MAX] {
        let mut out = String::new();
        push_decimal(&mut out, n);
        assert_eq!(out, n.to_string());
    }
}

#[test]
fn last_segment_as_path_segments_gives_it() {
    assert_eq!(last_path_segment("/a/b"), Some("b".to_string()));
    assert_eq!(last_path_segment("/docs/file.pdf"), Some("file.pdf".to_string()));
    assert_eq!(last_path_segment("/"), Some(String::new()));
    assert_eq!(last_path_segment("/dir/"), Some(String::new()));
    assert_eq!(last_path_segment("text/plain,HelloWorld"), None);
    assert_eq!(last_path_segment(""), None);
}

#[test]
fn dot_detection() {
    assert!(has_dot("a.b"));
    assert!(has_dot("."));
    assert!(!has_dot("abc"));
    assert!(!has_dot(""));
}

#[test]
fn sanitizing_keeps_only_safe_characters() {
    let mut out = String::from(">");
    push_sanitized(&mut out, "we ird:na*me?.tar.gz");
    assert_eq!(out, ">we_ird_na_me_.tar.gz");
    let mut out = String::new();
    push_sanitized(&mut out, "a-b_c.d%20é");
    assert_eq!(out, "a-b_c.d_20é");
}

#[test]
fn name_with_extension_keeps_the_segment() {
    assert_eq!(filename_for(0x1234_abcd, "/docs/file.pdf"), "file.pdf_abcd");
    assert_eq!(filename_for(0x5, "/x/we%20ird.tar.gz"), "we_20ird.tar.gz_5");
    assert_eq!(filename_for(0x10000, "/a.b"), "a.b_0");
}

#[test]
fn name_without_extension_is_hash_html() {
    assert_eq!(filename_for(0xffff, "/"), "ffff.html");
    assert_eq!(filename_for(0x1_0000_0042, "/a/b"), "42.html");
    assert_eq!(filename_for(0xbeef, "/dir.d/"), "beef.html");
    assert_eq!(filename_for(0xbeef, "text/plain,x.y"), "beef.html");
}

#[test]
fn generated_name_matches_default_hasher() {
    let url = "https://example.com/files/report.pdf";
    assert_eq!(
        generate_filename(&parts(url, "/files/report.pdf")),
        format!("report.pdf_{}", original_hash_suffix(url))
    );
    let url = "https://grugbrain.dev/";
    assert_eq!(generate_filename(&parts(url, "/")), format!("{}.html", original_hash_suffix(url)));
}

#[test]
fn same_url_same_name() {
    let a = generate_filename(&parts("https://httpbin.org/html", "/html"));
    let b = generate_filename(&parts("https://httpbin.org/html", "/html"));
    assert_eq!(a, b);
}

#[test]
fn names_are_plain() {
    for path in ["/", "/..", "/.../x", "/a/b.c/d.e", "/%2F.x", "data"] {
        for hash in [0u64, 1, 0xffff, u64::MAX] {
            let name = filename_for(hash, path);
            assert!(!name.is_empty());
            assert!(!name.contains('/'));
            assert!(!name.ends_with('.'));
            assert!(name.chars().all(|c| c.is_ascii_alphanumeric() || c == '.' || c == '-' || c == '_'));
        }
    }
}

#[test]
fn hash_suffix_is_short() {
    for hash in [0u64, 0xf, 0x10, 0xfff, 0x1000, 0xffff, u64::MAX] {
        let name = filename_for(hash, "/");
        let suffix = name.strip_suffix(".html").unwrap();
        assert!(!suffix.is_empty() && suffix.len() <= 4);
    }
}

