//! The name under which a fetched URL is stored.
//!
//! A URL whose last path segment holds a `.` keeps that segment (with
//! every character other than alphanumerics, `.`, `-` and `_` turned into
//! `_`) followed by `_` and a short hash of the URL; any other URL is
//! stored as the hash followed by `.html`.
use std::hash::BuildHasher;
use vstd::prelude::*;
use crate::text::{push_char, push_hex, hex_digits};

verus! {

/// What the logic reads of a parsed URL: its serialization and its path.
pub struct UrlParts {
    pub serialization: String,
    pub path: String,
}

/// The serialization and path of a URL.
pub open spec fn parts_view(u: UrlParts) -> (Seq<char>, Seq<char>) {
    (u.serialization@, u.path@)
}

/// What `url::Url::parse` makes of a string: the serialization and path of
/// the URL, or the text of the parse error.
pub uninterp spec fn url_parse_outcome(input: Seq<char>) -> Result<(Seq<char>, Seq<char>), Seq<char>>;

/// What `Url::join` makes of `reference` against the URL that `base`
/// parses to: the serialization and path of the result (`None` where
/// `base` does not parse or the join fails).
pub uninterp spec fn url_join_outcome(base: Seq<char>, reference: Seq<char>) -> Option<(Seq<char>, Seq<char>)>;

/// Every character of `s` is ASCII.
pub open spec fn is_ascii_seq(s: Seq<char>) -> bool {
    forall|i: int| 0 <= i < s.len() ==> (s[i] as u32) < 128
}

/// Parses a URL with `url::Url::parse` and keeps what the logic reads of
/// it: `Url::as_str` and `Url::path`, or the parse error's `Display` text.
/// Both are ASCII: the crate documents the path as a percent-encoded ASCII
/// string, and its parser percent-encodes every non-ASCII byte of every
/// component with `utf8_percent_encode` and punycodes hosts.
#[verifier::external_body]
pub(crate) fn parse_url(input: &str) -> (r: Result<UrlParts, String>)
    ensures
        match r {
            Ok(u) => url_parse_outcome(input@) == Ok::<(Seq<char>, Seq<char>), Seq<char>>(parts_view(u)),
            Err(e) => url_parse_outcome(input@) == Err::<(Seq<char>, Seq<char>), Seq<char>>(e@),
        },
        r matches Ok(u) ==> is_ascii_seq(u.path@) && is_ascii_seq(u.serialization@),
{
    match url::Url::parse(input) {
        Ok(u) => Ok(UrlParts { serialization: u.as_str().to_string(), path: u.path().to_string() }),
        Err(e) => Err(e.to_string()),
    }
}

/// Resolves `reference` against the URL `base` with `url::Url::parse` and
/// `Url::join`, keeping the result's `Url::as_str` and `Url::path`; `None`
/// where either fails. Both parts are ASCII, as for `parse_url`.
#[verifier::external_body]
pub(crate) fn join_url(base: &str, reference: &str) -> (r: Option<UrlParts>)
    ensures
        match r {
            Some(u) => url_join_outcome(base@, reference@) == Some(parts_view(u)),
            None => url_join_outcome(base@, reference@) is None,
        },
        r matches Some(u) ==> is_ascii_seq(u.path@) && is_ascii_seq(u.serialization@),
{
    match url::Url::parse(base) {
        Ok(u) => match u.join(reference) {
            Ok(j) => Some(UrlParts { serialization: j.as_str().to_string(), path: j.path().to_string() }),
            Err(_) => None,
        },
        Err(_) => None,
    }
}

/// The value that `DefaultHasher` gives a string (hashed through `Hash for str`).
pub uninterp spec fn default_str_hash(s: Seq<char>) -> u64;

/// Whether `char::is_alphanumeric` holds of a character outside ASCII.
pub uninterp spec fn unicode_alphanumeric(c: char) -> bool;

/// `char::is_alphanumeric`: within ASCII exactly the letters and digits.
pub open spec fn alphanumeric(c: char) -> bool {
    if (c as u32) < 128 {
        ('0' <= c && c <= '9') || ('a' <= c && c <= 'z') || ('A' <= c && c <= 'Z')
    } else {
        unicode_alphanumeric(c)
    }
}

/// Hashes a string with std's `DefaultHasher`: `BuildHasher::hash_one`,
/// which takes a fresh `DefaultHasher`, feeds it the string through
/// `Hash for str` and returns `finish`. std documents every
/// `DefaultHasher::new` as the same hasher (it is not seeded per process),
/// so the value is a function of the string; std does not say which
/// function, so it is only named here.
#[verifier::external_body]
fn hash_str(s: &str) -> (h: u64)
    ensures
        h == default_str_hash(s@),
{
    std::hash::BuildHasherDefault::<std::hash::DefaultHasher>::default().hash_one(s)
}

/// `char::is_alphanumeric`. std documents it as the Unicode `Alphabetic`
/// property or a numeric general category; within ASCII those are exactly
/// the letters and the digits. Outside ASCII the result is only named.
#[verifier::external_body]
fn is_alphanumeric(c: char) -> (r: bool)
    ensures
        (c as u32) < 128 ==> (r <==> ('0' <= c && c <= '9') || ('a' <= c && c <= 'z') || ('A' <= c
            && c <= 'Z')),
        (c as u32) >= 128 ==> r == unicode_alphanumeric(c),
{
    c.is_alphanumeric()
}

/// The part of `s` after its last `/` (all of `s` when it holds none).
pub open spec fn after_last_slash(s: Seq<char>) -> Seq<char>
    decreases s.len(),
{
    if s.len() == 0 {
        s
    } else if s.last() == '/' {
        Seq::empty()
    } else {
        after_last_slash(s.drop_last()).push(s.last())
    }
}

/// The last of the `/`-separated segments of a URL path, as
/// `path_segments().next_back()` gives it: `None` when the path does not
/// start with `/` (a cannot-be-a-base URL).
pub open spec fn last_segment(path: Seq<char>) -> Option<Seq<char>> {
    if path.len() > 0 && path[0] == '/' {
        Some(after_last_slash(path.drop_first()))
    } else {
        None
    }
}

/// A character kept as it is in a stored name.
pub open spec fn is_kept(c: char) -> bool {
    alphanumeric(c) || c == '.' || c == '-' || c == '_'
}

/// `c` itself when it is kept, `_` otherwise.
pub open spec fn sanitize_char(c: char) -> char {
    if is_kept(c) { c } else { '_' }
}

/// Every character of `s` sanitized.
pub open spec fn sanitize(s: Seq<char>) -> Seq<char> {
    s.map_values(|c: char| sanitize_char(c))
}

/// The four-hex-digit (at most) suffix that stands for a hash.
pub open spec fn hash_suffix(hash: u64) -> Seq<char> {
    hex_digits((hash % 0x10000) as nat)
}

/// The stored name for a URL whose hash is `hash` and whose path is `path`.
pub open spec fn spec_filename(hash: u64, path: Seq<char>) -> Seq<char> {
    match last_segment(path) {
        Some(seg) => if seg.contains('.') {
            sanitize(seg) + seq!['_'] + hash_suffix(hash)
        } else {
            hash_suffix(hash) + seq!['.', 'h', 't', 'm', 'l']
        },
        None => hash_suffix(hash) + seq!['.', 'h', 't', 'm', 'l'],
    }
}

/// The stored name of a URL.
pub open spec fn url_filename(url: UrlParts) -> Seq<char> {
    spec_filename(default_str_hash(url.serialization@), url.path@)
}

/// `after_last_slash` of `s`, once the position `k` of its last `/` is
/// known (`k == -1`: none).
proof fn lemma_after_last_slash(s: Seq<char>, k: int)
    requires
        -1 <= k < s.len(),
        k >= 0 ==> s[k] == '/',
        forall|j: int| k < j < s.len() ==> s[j] != '/',
    ensures
        after_last_slash(s) == s.subrange(k + 1, s.len() as int),
    decreases s.len(),
{
    if s.len() == 0 {
        assert(s.subrange(0, 0) =~= s);
    } else if k == s.len() - 1 {
        assert(s.subrange(k + 1, s.len() as int) =~= Seq::<char>::empty());
    } else {
        lemma_after_last_slash(s.drop_last(), k);
        assert(s.drop_last().subrange(k + 1, s.len() - 1).push(s.last())
            =~= s.subrange(k + 1, s.len() as int));
    }
}

/// The last path segment of `path`, as `Url::path_segments` splits it.
pub fn last_path_segment(path: &str) -> (r: Option<String>)
    ensures
        match r {
            Some(seg) => last_segment(path@) == Some(seg@),
            None => last_segment(path@) is None,
        },
{
    let n = path.unicode_len();
    if n == 0 || path.get_char(0) != '/' {
        return None;
    }
    let mut start: usize = 1;
    let mut i: usize = 1;
    while i < n
        invariant
            n == path@.len(),
            path@[0] == '/',
            1 <= start <= i <= n,
            path@[start - 1] == '/',
            forall|j: int| start <= j < i ==> path@[j] != '/',
        decreases n - i,
    {
        if path.get_char(i) == '/' {
            start = i + 1;
        }
        i = i + 1;
    }
    let seg = path.substring_char(start, n);
    proof {
        let s = path@.drop_first();
        lemma_after_last_slash(s, start - 2);
        assert(s.subrange(start - 1, s.len() as int) =~= path@.subrange(start as int, n as int));
    }
    Some(String::from_str(seg))
}

/// Whether `s` holds a `.`.
pub fn has_dot(s: &str) -> (r: bool)
    ensures
        r == s@.contains('.'),
{
    let n = s.unicode_len();
    let mut i: usize = 0;
    while i < n
        invariant
            n == s@.len(),
            i <= n,
            forall|j: int| 0 <= j < i ==> s@[j] != '.',
        decreases n - i,
    {
        if s.get_char(i) == '.' {
            assert(s@[i as int] == '.');
            return true;
        }
        i = i + 1;
    }
    false
}

/// Appends `s` sanitized.
pub fn push_sanitized(out: &mut String, s: &str)
    ensures
        final(out)@ == old(out)@ + sanitize(s@),
{
    let n = s.unicode_len();
    let mut i: usize = 0;
    while i < n
        invariant
            n == s@.len(),
            i <= n,
            out@ == old(out)@ + sanitize(s@.take(i as int)),
        decreases n - i,
    {
        let c = s.get_char(i);
        let kept = is_alphanumeric(c) || c == '.' || c == '-' || c == '_';
        if kept {
            push_char(out, c);
        } else {
            push_char(out, '_');
        }
        assert(sanitize(s@.take(i + 1)) =~= sanitize(s@.take(i as int)).push(sanitize_char(c)));
        i = i + 1;
    }
    assert(s@.take(n as int) =~= s@);
}

/// Appends the hash suffix of `hash`.
fn push_hash_suffix(out: &mut String, hash: u64)
    ensures
        final(out)@ == old(out)@ + hash_suffix(hash),
{
    let low = hash & 0xFFFF;
    assert(hash & 0xFFFF == hash % 0x10000) by (bit_vector);
    push_hex(out, low);
}

/// The stored name for a URL with the given hash and path.
pub fn filename_for(hash: u64, path: &str) -> (r: String)
    ensures
        r@ == spec_filename(hash, path@),
{
    let mut out = String::new();
    if let Some(seg) = last_path_segment(path) {
        if has_dot(seg.as_str()) {
            push_sanitized(&mut out, seg.as_str());
            push_char(&mut out, '_');
            push_hash_suffix(&mut out, hash);
            return out;
        }
    }
    push_hash_suffix(&mut out, hash);
    out.append(".html");
    proof {
        reveal_strlit(".html");
    }
    out
}

/// The name under which the content of `url` is stored.
pub fn generate_filename(url: &UrlParts) -> (r: String)
    ensures
        r@ == url_filename(*url),
{
    let hash = hash_str(url.serialization.as_str());
    filename_for(hash, url.path.as_str())
}

} // verus!
