//! What holds of every status, stored name, reply and `llms.txt` lookup,
//! stated over all inputs.
use vstd::prelude::*;
use crate::filename::{alphanumeric, hash_suffix, is_ascii_seq, last_segment, sanitize, sanitize_char, spec_filename, unicode_alphanumeric};
use crate::fetch::{cached_message, downloaded_message, library_llms, llms_note, library_path, server_llms, server_path};
use crate::laws::{dec_value, law_ascii_cuts_cleanly, law_dec_digits_denote};
use crate::safename::replace_scheme_sep;
use crate::text::{dec_char, dec_digits};
use crate::status::{http_error_message, server_http_error_message, shown_reason, spec_is_success};

verus! {

/// An ASCII letter or digit.
pub open spec fn is_ascii_alnum(c: char) -> bool {
    ('0' <= c && c <= '9') || ('a' <= c && c <= 'z') || ('A' <= c && c <= 'Z')
}

/// A status counts as a success exactly when it lies in 200..=299; every
/// other status (1xx, 3xx, 4xx, 5xx, ...) is a failure.
pub proof fn law_success_is_2xx(code: u16)
    ensures
        spec_is_success(code) <==> (200 <= code && code <= 299),
{
}

/// A character of a stored name's segment is kept as it is exactly when
/// it is alphanumeric (upper or lower case letters, digits, and outside
/// ASCII what `char::is_alphanumeric` accepts), `.`, `-` or `_`; any other
/// character becomes `_`.
pub proof fn law_sanitize_char(c: char)
    ensures
        (is_ascii_alnum(c) || c == '.' || c == '-' || c == '_') ==> sanitize_char(c) == c,
        ((c as u32) < 128 && !is_ascii_alnum(c) && c != '.' && c != '-' && c != '_')
            ==> sanitize_char(c) == '_',
        (c as u32) >= 128 ==> (sanitize_char(c) == c <==> unicode_alphanumeric(c)),
        (c as u32) >= 128 && !unicode_alphanumeric(c) ==> sanitize_char(c) == '_',
{
}

/// Where the URL's last path segment holds a `.`, its stored name is that
/// segment, character for character, with only the characters other than
/// ASCII letters, digits, `.`, `-` and `_` (and non-alphanumerics outside
/// ASCII) turned into `_`; then `_` and the hash suffix.
pub proof fn law_filename_keeps_segment(hash: u64, path: Seq<char>)
    requires
        last_segment(path) matches Some(seg) && seg.contains('.'),
    ensures
        ({
            let seg = last_segment(path).unwrap();
            let name = spec_filename(hash, path);
            &&& name.len() == seg.len() + 1 + hash_suffix(hash).len()
            &&& forall|i: int|
                0 <= i < seg.len() && (is_ascii_alnum(seg[i]) || seg[i] == '.' || seg[i] == '-'
                    || seg[i] == '_') ==> #[trigger] name[i] == seg[i]
            &&& forall|i: int|
                0 <= i < seg.len() && !alphanumeric(seg[i]) && seg[i] != '.' && seg[i] != '-'
                    && seg[i] != '_' ==> #[trigger] name[i] == '_'
            &&& name[seg.len() as int] == '_'
            &&& name.subrange(seg.len() as int + 1, name.len() as int) == hash_suffix(hash)
        }),
{
    let seg = last_segment(path).unwrap();
    let name = spec_filename(hash, path);
    let s = sanitize(seg);
    assert(name == s + seq!['_'] + hash_suffix(hash));
    assert forall|i: int| 0 <= i < seg.len() implies #[trigger] name[i] == sanitize_char(seg[i]) by {
        assert(name[i] == s[i]);
    }
    assert(name.subrange(seg.len() as int + 1, name.len() as int) =~= hash_suffix(hash));
}

/// After a library download, the site's `llms.txt` is looked for whenever
/// joining `/llms.txt` to the URL gave another URL, whatever the fetched
/// URL's path (the site's root `/` included); the target is that URL and
/// its stored path.
pub proof fn law_library_llms_looked_for(parts: (Seq<char>, Seq<char>), l: (Seq<char>, Seq<char>))
    requires
        l.0 != parts.0,
    ensures
        library_llms(parts, Some(l)) == Some((l.0, library_path(l))),
{
}

/// Which `llms.txt` the library looks for does not depend on the fetched
/// URL's path: two URLs with the same serialization look for the same one.
pub proof fn law_library_llms_path_free(
    serialization: Seq<char>,
    path1: Seq<char>,
    path2: Seq<char>,
    joined: Option<(Seq<char>, Seq<char>)>,
)
    ensures
        library_llms((serialization, path1), joined) == library_llms((serialization, path2), joined),
{
}

/// The server, too, looks for the site's `llms.txt` whenever the join gave
/// another URL in ASCII (as every URL that `url` serializes is), whatever
/// the fetched URL's path.
pub proof fn law_server_llms_looked_for(parts: (Seq<char>, Seq<char>), l: (Seq<char>, Seq<char>))
    requires
        l.0 != parts.0,
        is_ascii_seq(l.0),
    ensures
        server_llms(parts, Some(l)) == Some((l.0, server_path(l))),
{
    law_ascii_cuts_cleanly(l.0);
}

/// Which `llms.txt` the server looks for does not depend on the fetched
/// URL's path.
pub proof fn law_server_llms_path_free(
    serialization: Seq<char>,
    path1: Seq<char>,
    path2: Seq<char>,
    joined: Option<(Seq<char>, Seq<char>)>,
)
    ensures
        server_llms((serialization, path1), joined) == server_llms((serialization, path2), joined),
{
}

/// `s` holds `://` somewhere.
pub open spec fn has_scheme_sep(s: Seq<char>) -> bool {
    exists|i: int| 0 <= i && i + 3 <= s.len() && #[trigger] s[i] == ':' && s[i + 1] == '/' && s[i + 2] == '/'
}

/// The first character of the replacement: `_` where `s` starts with
/// `://`, else the first character of `s`.
proof fn lemma_scheme_sep_first(t: Seq<char>)
    ensures
        replace_scheme_sep(t).len() == 0 <==> t.len() == 0,
        t.len() > 0 ==> replace_scheme_sep(t)[0] == (if t.len() >= 3 && t[0] == ':' && t[1] == '/'
            && t[2] == '/' {
            '_'
        } else {
            t[0]
        }),
{
    if t.len() >= 3 && t[0] == ':' && t[1] == '/' && t[2] == '/' {
        assert((seq!['_'] + replace_scheme_sep(t.skip(3)))[0] == '_');
    } else if t.len() >= 3 {
        assert((seq![t[0]] + replace_scheme_sep(t.skip(1)))[0] == t[0]);
    }
}

/// Every `://` is replaced, not only the first: a `://` in front is one
/// `_` followed by the replacement of the rest.
pub proof fn law_scheme_sep_front(rest: Seq<char>)
    ensures
        replace_scheme_sep(seq![':', '/', '/'] + rest) == seq!['_'] + replace_scheme_sep(rest),
{
    let s = seq![':', '/', '/'] + rest;
    assert(s.skip(3) =~= rest);
}

/// No `://` is left after the replacement, whatever the string: the
/// replacement only puts `_` in and never joins characters into a new
/// `://`.
pub proof fn law_scheme_sep_none_left(s: Seq<char>)
    ensures
        !has_scheme_sep(replace_scheme_sep(s)),
    decreases s.len(),
{
    let r = replace_scheme_sep(s);
    if s.len() < 3 {
        assert(r == s);
    } else if s[0] == ':' && s[1] == '/' && s[2] == '/' {
        let rest = replace_scheme_sep(s.skip(3));
        law_scheme_sep_none_left(s.skip(3));
        assert(r == seq!['_'] + rest);
        if has_scheme_sep(r) {
            let i = choose|i: int|
                0 <= i && i + 3 <= r.len() && #[trigger] r[i] == ':' && r[i + 1] == '/' && r[i + 2] == '/';
            assert(r[0] == '_');
            assert(i > 0);
            assert(rest[i - 1] == ':' && rest[i] == '/' && rest[i + 1] == '/');
            assert(has_scheme_sep(rest));
        }
    } else {
        let t = s.skip(1);
        let rest = replace_scheme_sep(t);
        law_scheme_sep_none_left(t);
        lemma_scheme_sep_first(t);
        assert(r == seq![s[0]] + rest);
        if has_scheme_sep(r) {
            let i = choose|i: int|
                0 <= i && i + 3 <= r.len() && #[trigger] r[i] == ':' && r[i + 1] == '/' && r[i + 2] == '/';
            if i == 0 {
                assert(s[0] == ':' && rest[0] == '/' && rest[1] == '/');
                assert(t[0] == '/');
                if t.len() < 3 {
                    assert(rest == t);
                    assert(t[1] == '/');
                } else {
                    let u = t.skip(1);
                    assert(rest == seq![t[0]] + replace_scheme_sep(u));
                    lemma_scheme_sep_first(u);
                    assert(replace_scheme_sep(u)[0] == '/');
                    assert(u[0] == '/');
                    assert(t[1] == '/');
                }
                assert(s[1] == '/' && s[2] == '/');
                assert(false);
            } else {
                assert(rest[i - 1] == ':' && rest[i] == '/' && rest[i + 1] == '/');
                assert(has_scheme_sep(rest));
            }
        }
    }
}

/// A string of decimal digits, at least one.
pub open spec fn is_decimal(s: Seq<char>) -> bool {
    s.len() > 0 && forall|i: int| 0 <= i < s.len() ==> '0' <= #[trigger] s[i] && s[i] <= '9'
}

proof fn lemma_dec_digits_decimal(n: nat)
    ensures
        is_decimal(dec_digits(n)),
    decreases n,
{
    let d = n % 10;
    assert('0' <= dec_char(d) && dec_char(d) <= '9');
    if n >= 10 {
        lemma_dec_digits_decimal(n / 10);
        let s = dec_digits(n);
        assert(s == dec_digits(n / 10).push(dec_char(d)));
        assert forall|i: int| 0 <= i < s.len() implies '0' <= #[trigger] s[i] && s[i] <= '9' by {
            if i < s.len() - 1 {
                assert(s[i] == dec_digits(n / 10)[i]);
            }
        }
    }
}

/// The reply to a completed download gives the number of bytes written in
/// full: the numeral in `Downloaded: <path> (<n> bytes...)` is a decimal
/// numeral that stands for exactly `size`, for every size.
pub proof fn law_download_reply_counts_bytes(path: Seq<char>, size: usize, content_type: Option<Seq<char>>)
    ensures
        exists|digits: Seq<char>|
            is_decimal(digits) && #[trigger] dec_value(digits) == size && downloaded_message(
                path,
                size,
                content_type,
            ) == "Downloaded: "@ + path + " ("@ + digits + " bytes"@ + match content_type {
                Some(t) => ", "@ + t,
                None => Seq::<char>::empty(),
            } + ")"@,
{
    let digits = dec_digits(size as nat);
    law_dec_digits_denote(size as nat);
    lemma_dec_digits_decimal(size as nat);
    assert(dec_value(digits) == size);
}

/// A string without `://` is left as it is.
pub proof fn law_scheme_sep_identity(s: Seq<char>)
    requires
        !has_scheme_sep(s),
    ensures
        replace_scheme_sep(s) == s,
    decreases s.len(),
{
    if s.len() >= 3 {
        assert(!(s[0] == ':' && s[1] == '/' && s[2] == '/'));
        let t = s.skip(1);
        if has_scheme_sep(t) {
            let i = choose|i: int|
                0 <= i && i + 3 <= t.len() && #[trigger] t[i] == ':' && t[i + 1] == '/' && t[i + 2] == '/';
            assert(s[i + 1] == ':' && s[i + 2] == '/' && s[i + 3] == '/');
            assert(has_scheme_sep(s));
        }
        law_scheme_sep_identity(t);
        assert(seq![s[0]] + t =~= s);
    }
}

/// The leftmost `://` is replaced by `_`, what comes before it is kept as
/// it is, and the rest is replaced in the same way: every occurrence, from
/// the left, without overlap (as `str::replace` does).
pub proof fn law_scheme_sep_leftmost(before: Seq<char>, rest: Seq<char>)
    requires
        !has_scheme_sep(before),
    ensures
        replace_scheme_sep(before + seq![':', '/', '/'] + rest) == before + seq!['_']
            + replace_scheme_sep(rest),
    decreases before.len(),
{
    let sep = seq![':', '/', '/'];
    let s = before + sep + rest;
    if before.len() == 0 {
        assert(s =~= sep + rest);
        law_scheme_sep_front(rest);
        assert(before + seq!['_'] =~= seq!['_']);
    } else {
        assert(s[0] == before[0]);
        assert(s[1] == (before + sep)[1]);
        assert(s[2] == (before + sep)[2]);
        if before.len() >= 3 {
            assert(s[1] == before[1] && s[2] == before[2]);
            if before[0] == ':' && before[1] == '/' && before[2] == '/' {
                assert(has_scheme_sep(before));
            }
        } else if before.len() == 1 {
            assert(s[1] == ':');
        } else {
            assert(s[2] == ':');
        }
        let b = before.skip(1);
        if has_scheme_sep(b) {
            let i = choose|i: int|
                0 <= i && i + 3 <= b.len() && #[trigger] b[i] == ':' && b[i + 1] == '/' && b[i + 2] == '/';
            assert(before[i + 1] == ':' && before[i + 2] == '/' && before[i + 3] == '/');
            assert(has_scheme_sep(before));
        }
        law_scheme_sep_leftmost(b, rest);
        assert(s.skip(1) =~= b + sep + rest);
        assert(seq![before[0]] + (b + seq!['_'] + replace_scheme_sep(rest)) =~= before + seq!['_']
            + replace_scheme_sep(rest));
    }
}

/// The library never looks up as `llms.txt` the URL it has just fetched,
/// and looks for none where the join failed.
pub proof fn law_library_llms_not_self(parts: (Seq<char>, Seq<char>), joined: Option<(Seq<char>, Seq<char>)>)
    ensures
        library_llms(parts, joined) matches Some(t) ==> joined matches Some(l) && l.0 != parts.0
            && t.0 == l.0,
        joined is None ==> library_llms(parts, joined) is None,
        joined matches Some(l) && l.0 == parts.0 ==> library_llms(parts, joined) is None,
{
}

/// The server never looks up as `llms.txt` the URL it has just fetched,
/// and looks for none where the join failed.
pub proof fn law_server_llms_not_self(parts: (Seq<char>, Seq<char>), joined: Option<(Seq<char>, Seq<char>)>)
    ensures
        server_llms(parts, joined) matches Some(t) ==> joined matches Some(l) && l.0 != parts.0
            && t.0 == l.0,
        joined is None ==> server_llms(parts, joined) is None,
        joined matches Some(l) && l.0 == parts.0 ==> server_llms(parts, joined) is None,
{
}

/// The reply for a cached file gives its size in full (0 where the size
/// could not be read): `Cached: <path> (<n> bytes)`.
pub proof fn law_cached_reply_counts_bytes(path: Seq<char>, size: Option<u64>)
    ensures
        exists|digits: Seq<char>|
            is_decimal(digits) && #[trigger] dec_value(digits) == (match size {
                Some(n) => n,
                None => 0,
            }) && cached_message(path, size) == "Cached: "@ + path + " ("@ + digits + " bytes)"@,
{
    let n: u64 = match size {
        Some(n) => n,
        None => 0,
    };
    law_dec_digits_denote(n as nat);
    lemma_dec_digits_decimal(n as nat);
    assert(dec_value(dec_digits(n as nat)) == n);
}

/// The note on a stored `llms.txt` gives its size in full:
/// `\nFound llms.txt: <path> (<n> bytes)`.
pub proof fn law_llms_note_counts_bytes(path: Seq<char>, size: usize)
    ensures
        exists|digits: Seq<char>|
            is_decimal(digits) && #[trigger] dec_value(digits) == size && llms_note(path, size)
                == "\nFound llms.txt: "@ + path + " ("@ + digits + " bytes)"@,
{
    law_dec_digits_denote(size as nat);
    lemma_dec_digits_decimal(size as nat);
    assert(dec_value(dec_digits(size as nat)) == size);
}

/// The error for a failed status names that status in full, with its
/// reason phrase (or `Unknown`): `HTTP <status>: <reason>`, and the
/// server's `HTTP error <status>: <reason>. ...`.
pub proof fn law_status_error_names_status(code: u16, reason: Option<Seq<char>>)
    ensures
        exists|digits: Seq<char>|
            is_decimal(digits) && #[trigger] dec_value(digits) == code && http_error_message(code, reason)
                == "HTTP "@ + digits + ": "@ + shown_reason(reason) && server_http_error_message(
                code,
                reason,
            ) == "HTTP error "@ + digits + ": "@ + shown_reason(reason)
                + ". The server returned an error response."@,
        shown_reason(reason) == (match reason {
            Some(r) => r,
            None => "Unknown"@,
        }),
{
    law_dec_digits_denote(code as nat);
    lemma_dec_digits_decimal(code as nat);
    assert(dec_value(dec_digits(code as nat)) == code);
}

} // verus!
