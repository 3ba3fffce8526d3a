//! The server's name for a stored URL: the URL itself made safe for the
//! file system (`://` and the characters `/ \ : * ? " < > | & = #`
//! turned into `_`, trailing `_` dropped, cut at 240 bytes), with `.html`
//! added when the URL's last path segment has no `.`.
use vstd::prelude::*;
use crate::filename::{UrlParts, has_dot, last_path_segment, last_segment};
use crate::text::push_char;

verus! {

/// A character that the server's names do not keep.
pub open spec fn is_unsafe_char(c: char) -> bool {
    c == '/' || c == '\\' || c == ':' || c == '*' || c == '?' || c == '"' || c == '<' || c == '>'
        || c == '|' || c == '&' || c == '=' || c == '#'
}

/// `s` with every `://` replaced by `_`, matches taken from the left
/// without overlap (as `str::replace` does).
pub open spec fn replace_scheme_sep(s: Seq<char>) -> Seq<char>
    decreases s.len(),
{
    if s.len() < 3 {
        s
    } else if s[0] == ':' && s[1] == '/' && s[2] == '/' {
        seq!['_'] + replace_scheme_sep(s.skip(3))
    } else {
        seq![s[0]] + replace_scheme_sep(s.skip(1))
    }
}

/// `s` with every unsafe character replaced by `_`.
pub open spec fn replace_unsafe(s: Seq<char>) -> Seq<char> {
    s.map_values(|c: char| if is_unsafe_char(c) { '_' } else { c })
}

/// `s` without its trailing `_` characters.
pub open spec fn trim_underscores(s: Seq<char>) -> Seq<char>
    decreases s.len(),
{
    if s.len() > 0 && s.last() == '_' {
        trim_underscores(s.drop_last())
    } else {
        s
    }
}

/// The number of bytes of `c` in UTF-8 (`char::len_utf8`).
pub open spec fn utf8_width(c: char) -> int {
    if (c as u32) < 0x80 {
        1
    } else if (c as u32) < 0x800 {
        2
    } else if (c as u32) < 0x10000 {
        3
    } else {
        4
    }
}

/// The number of bytes of `s` in UTF-8.
pub open spec fn byte_len(s: Seq<char>) -> int
    decreases s.len(),
{
    if s.len() == 0 {
        0
    } else {
        utf8_width(s[0]) + byte_len(s.drop_first())
    }
}

/// How many leading characters of `s` fit in `n` bytes.
pub open spec fn fit_count(s: Seq<char>, n: int) -> int
    decreases s.len(),
{
    if s.len() == 0 {
        0
    } else if utf8_width(s[0]) <= n {
        1 + fit_count(s.drop_first(), n - utf8_width(s[0]))
    } else {
        0
    }
}

/// How many bytes the leading characters of `s` that fit in `n` bytes take.
pub open spec fn fit_bytes(s: Seq<char>, n: int) -> int
    decreases s.len(),
{
    if s.len() == 0 {
        0
    } else if utf8_width(s[0]) <= n {
        utf8_width(s[0]) + fit_bytes(s.drop_first(), n - utf8_width(s[0]))
    } else {
        0
    }
}

/// The longest name the server keeps, in bytes.
pub open spec fn name_limit() -> int {
    240
}

/// The serialization made safe, before the length limit.
pub open spec fn safe_base(serialization: Seq<char>) -> Seq<char> {
    trim_underscores(replace_unsafe(replace_scheme_sep(serialization)))
}

/// The safe name can be cut at the limit: it is short enough, or a
/// character ends exactly at byte 240, where a byte slice can stop.
pub open spec fn cuts_cleanly(base: Seq<char>) -> bool {
    byte_len(base) <= name_limit() || fit_bytes(base, name_limit()) == name_limit()
}

/// The safe name cut to the limit (and trailing `_` dropped again).
pub open spec fn limited(base: Seq<char>) -> Seq<char> {
    if byte_len(base) > name_limit() {
        trim_underscores(base.take(fit_count(base, name_limit())))
    } else {
        base
    }
}

/// Whether the URL's last path segment holds a `.`.
pub open spec fn has_extension(path: Seq<char>) -> bool {
    last_segment(path) matches Some(seg) && seg.contains('.')
}

/// The server's name for a URL with this serialization and path.
pub open spec fn spec_url_safe_filename(serialization: Seq<char>, path: Seq<char>) -> Seq<char> {
    let name = limited(safe_base(serialization));
    if has_extension(path) {
        name
    } else {
        name + seq!['.', 'h', 't', 'm', 'l']
    }
}

/// The serialization of `url` can be cut at the limit.
pub open spec fn url_cuts_cleanly(url: UrlParts) -> bool {
    cuts_cleanly(safe_base(url.serialization@))
}

proof fn lemma_replace_step(s: Seq<char>)
    requires
        s.len() > 0,
        !(s.len() >= 3 && s[0] == ':' && s[1] == '/' && s[2] == '/'),
    ensures
        replace_scheme_sep(s) == seq![s[0]] + replace_scheme_sep(s.skip(1)),
{
    if s.len() < 3 {
        assert(s.skip(1).len() < 3);
        assert(seq![s[0]] + s.skip(1) =~= s);
    }
}

/// `s` with every `://` replaced by `_`.
fn replaced_scheme_sep(s: &str) -> (r: String)
    ensures
        r@ == replace_scheme_sep(s@),
{
    let n = s.unicode_len();
    let mut out = String::new();
    let mut i: usize = 0;
    assert(s@.skip(0) =~= s@);
    assert(out@ + replace_scheme_sep(s@) =~= replace_scheme_sep(s@));
    while i < n
        invariant
            n == s@.len(),
            i <= n,
            replace_scheme_sep(s@) == out@ + replace_scheme_sep(s@.skip(i as int)),
        decreases n - i,
    {
        let t = Ghost(s@.skip(i as int));
        if n - i > 2 && s.get_char(i) == ':' && s.get_char(i + 1) == '/' && s.get_char(i + 2) == '/' {
            assert(t@.skip(3) =~= s@.skip(i + 3));
            push_char(&mut out, '_');
            i = i + 3;
        } else {
            proof {
                lemma_replace_step(t@);
                assert(t@.skip(1) =~= s@.skip(i + 1));
            }
            push_char(&mut out, s.get_char(i));
            i = i + 1;
        }
    }
    assert(s@.skip(n as int) =~= Seq::<char>::empty());
    out
}

/// `s` with every unsafe character replaced by `_`.
fn replaced_unsafe(s: &str) -> (r: String)
    ensures
        r@ == replace_unsafe(s@),
{
    let n = s.unicode_len();
    let mut out = String::new();
    let mut i: usize = 0;
    while i < n
        invariant
            n == s@.len(),
            i <= n,
            out@ == replace_unsafe(s@.take(i as int)),
        decreases n - i,
    {
        let c = s.get_char(i);
        if c == '/' || c == '\\' || c == ':' || c == '*' || c == '?' || c == '"' || c == '<' || c
            == '>' || c == '|' || c == '&' || c == '=' || c == '#' {
            push_char(&mut out, '_');
        } else {
            push_char(&mut out, c);
        }
        assert(replace_unsafe(s@.take(i + 1)) =~= replace_unsafe(s@.take(i as int)).push(
            if is_unsafe_char(c) { '_' } else { c },
        ));
        i = i + 1;
    }
    assert(s@.take(n as int) =~= s@);
    out
}

/// `s` without its trailing `_` characters.
fn trimmed(s: &str) -> (r: String)
    ensures
        r@ == trim_underscores(s@),
{
    let n = s.unicode_len();
    let mut j: usize = n;
    assert(s@.take(n as int) =~= s@);
    while j > 0 && s.get_char(j - 1) == '_'
        invariant
            n == s@.len(),
            j <= n,
            trim_underscores(s@) == trim_underscores(s@.take(j as int)),
        decreases j,
    {
        assert(s@.take(j as int).drop_last() =~= s@.take(j - 1));
        j = j - 1;
    }
    if j == 0 {
        assert(s@.take(0) =~= Seq::<char>::empty());
    }
    String::from_str(s.substring_char(0, j))
}

/// The number of bytes of `c` in UTF-8.
fn width(c: char) -> (w: usize)
    ensures
        w == utf8_width(c),
{
    let v = c as u32;
    if v < 0x80 {
        1
    } else if v < 0x800 {
        2
    } else if v < 0x10000 {
        3
    } else {
        4
    }
}

/// The safe name cut to the limit, when it can be cut there.
fn limited_name(base: &str) -> (r: Option<String>)
    ensures
        match r {
            Some(name) => cuts_cleanly(base@) && name@ == limited(base@),
            None => !cuts_cleanly(base@),
        },
{
    let n = base.unicode_len();
    let mut k: usize = 0;
    let mut acc: usize = 0;
    assert(base@.skip(0) =~= base@);
    while k < n && acc + width(base.get_char(k)) <= 240
        invariant
            n == base@.len(),
            k <= n,
            acc <= 240,
            byte_len(base@) == acc + byte_len(base@.skip(k as int)),
            fit_count(base@, 240) == k + fit_count(base@.skip(k as int), 240 - acc),
            fit_bytes(base@, 240) == acc + fit_bytes(base@.skip(k as int), 240 - acc),
        decreases n - k,
    {
        let ghost t = base@.skip(k as int);
        assert(t[0] == base@[k as int]);
        assert(t.drop_first() =~= base@.skip(k + 1));
        acc = acc + width(base.get_char(k));
        k = k + 1;
    }
    if k == n {
        assert(base@.skip(n as int) =~= Seq::<char>::empty());
        return Some(String::from_str(base));
    }
    let ghost t = base@.skip(k as int);
    assert(t[0] == base@[k as int]);
    assert(byte_len(t) >= utf8_width(t[0])) by {
        assert(byte_len(t) == utf8_width(t[0]) + byte_len(t.drop_first()));
        lemma_byte_len_nonneg(t.drop_first());
    }
    if acc != 240 {
        return None;
    }
    let cut = base.substring_char(0, k);
    Some(trimmed(cut))
}

proof fn lemma_byte_len_nonneg(s: Seq<char>)
    ensures
        byte_len(s) >= 0,
    decreases s.len(),
{
    if s.len() > 0 {
        lemma_byte_len_nonneg(s.drop_first());
    }
}

/// The server's name for `url`, or `None` when its safe form cannot be
/// cut at 240 bytes (a character straddles that byte).
pub fn url_safe_filename_checked(url: &UrlParts) -> (r: Option<String>)
    ensures
        match r {
            Some(name) => url_cuts_cleanly(*url) && name@ == spec_url_safe_filename(
                url.serialization@,
                url.path@,
            ),
            None => !url_cuts_cleanly(*url),
        },
{
    let replaced = replaced_scheme_sep(url.serialization.as_str());
    let safe = replaced_unsafe(replaced.as_str());
    let base = trimmed(safe.as_str());
    let extension = match last_path_segment(url.path.as_str()) {
        Some(seg) => has_dot(seg.as_str()),
        None => false,
    };
    match limited_name(base.as_str()) {
        None => None,
        Some(mut name) => {
            if !extension {
                name.append(".html");
                proof {
                    reveal_strlit(".html");
                }
            }
            Some(name)
        },
    }
}

/// The server's name for `url`.
pub fn url_safe_filename(url: &UrlParts) -> (r: String)
    requires
        url_cuts_cleanly(*url),
    ensures
        r@ == spec_url_safe_filename(url.serialization@, url.path@),
{
    match url_safe_filename_checked(url) {
        Some(name) => name,
        None => String::new(),
    }
}

} // verus!
