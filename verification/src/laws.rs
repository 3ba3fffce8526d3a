//! What holds of every stored name, whatever the URL.
use vstd::prelude::*;
use crate::filename::{
    after_last_slash, hash_suffix, is_ascii_seq, is_kept, last_segment, sanitize,
    sanitize_char, spec_filename,
};
use crate::fetch::{fetch_path, library_path, stored_path};
use crate::safename::{
    byte_len, cuts_cleanly, fit_bytes, fit_count, is_unsafe_char, limited, name_limit,
    replace_scheme_sep, replace_unsafe, safe_base, spec_url_safe_filename, trim_underscores,
    utf8_width,
};
use crate::text::{dec_char, dec_digits, hex_char, hex_digits};

verus! {

/// A lower-case hexadecimal digit.
pub open spec fn is_hex_char(c: char) -> bool {
    ('0' <= c && c <= '9') || ('a' <= c && c <= 'f')
}

/// A name that, joined to a directory, names an entry directly inside it:
/// not empty, without `/`, not ending in `.` (so neither `.` nor `..`).
pub open spec fn is_plain_name(name: Seq<char>) -> bool {
    &&& name.len() > 0
    &&& !name.contains('/')
    &&& name.last() != '.'
}

proof fn lemma_hex_char(d: nat)
    requires
        d < 16,
    ensures
        is_hex_char(hex_char(d)),
{
}

proof fn lemma_hex_digits(n: nat)
    ensures
        hex_digits(n).len() >= 1,
        forall|i: int| 0 <= i < hex_digits(n).len() ==> is_hex_char(#[trigger] hex_digits(n)[i]),
    decreases n,
{
    if n < 16 {
        lemma_hex_char(n);
    } else {
        lemma_hex_digits(n / 16);
        lemma_hex_char(n % 16);
    }
}

proof fn lemma_hex_char_kept(c: char)
    requires
        is_hex_char(c),
    ensures
        is_kept(c),
{
}

proof fn lemma_sanitize_kept(s: Seq<char>)
    ensures
        sanitize(s).len() == s.len(),
        forall|i: int| 0 <= i < s.len() ==> is_kept(#[trigger] sanitize(s)[i]),
{
    assert forall|i: int| 0 <= i < s.len() implies is_kept(#[trigger] sanitize(s)[i]) by {
        assert(sanitize(s)[i] == sanitize_char(s[i]));
    }
}

proof fn lemma_after_last_slash_ascii(s: Seq<char>)
    requires
        is_ascii_seq(s),
    ensures
        is_ascii_seq(after_last_slash(s)),
    decreases s.len(),
{
    if s.len() > 0 && s.last() != '/' {
        lemma_after_last_slash_ascii(s.drop_last());
        let a = after_last_slash(s.drop_last());
        assert forall|i: int| 0 <= i < a.push(s.last()).len() implies (a.push(s.last())[i] as u32)
            < 128 by {
            if i < a.len() {
                assert(a.push(s.last())[i] == a[i]);
            }
        }
    }
}

/// Every hash suffix is one to four hexadecimal digits long.
pub proof fn law_hash_suffix_short(hash: u64)
    ensures
        1 <= hash_suffix(hash).len() <= 4,
{
    let n = (hash % 0x10000) as nat;
    reveal_with_fuel(hex_digits, 4);
    assert(n / 16 / 16 / 16 < 16);
}

/// Every stored name is plain (so the file lies directly inside the
/// download directory), and each of its characters is an alphanumeric,
/// `.`, `-` or `_`.
pub proof fn law_filename_is_plain(hash: u64, path: Seq<char>)
    ensures
        is_plain_name(spec_filename(hash, path)),
        forall|i: int|
            0 <= i < spec_filename(hash, path).len() ==> is_kept(
                #[trigger] spec_filename(hash, path)[i],
            ),
{
    let name = spec_filename(hash, path);
    let h = hash_suffix(hash);
    lemma_hex_digits((hash % 0x10000) as nat);
    assert forall|i: int| 0 <= i < h.len() implies is_kept(#[trigger] h[i]) by {
        lemma_hex_char_kept(h[i]);
    }
    let html = seq!['.', 'h', 't', 'm', 'l'];
    match last_segment(path) {
        Some(seg) => {
            if seg.contains('.') {
                let s = sanitize(seg);
                lemma_sanitize_kept(seg);
                let t = s + seq!['_'];
                assert(name == t + h);
                assert forall|i: int| 0 <= i < name.len() implies is_kept(#[trigger] name[i]) by {
                    if i < s.len() {
                        assert(name[i] == s[i]);
                    } else if i == s.len() {
                        assert(name[i] == '_');
                    } else {
                        assert(name[i] == h[i - t.len()]);
                    }
                }
                assert(name.last() == h.last());
            } else {
                assert(name == h + html);
                assert forall|i: int| 0 <= i < name.len() implies is_kept(#[trigger] name[i]) by {
                    if i < h.len() {
                        assert(name[i] == h[i]);
                    } else {
                        assert(name[i] == html[i - h.len()]);
                    }
                }
            }
        },
        None => {
            assert(name == h + html);
            assert forall|i: int| 0 <= i < name.len() implies is_kept(#[trigger] name[i]) by {
                if i < h.len() {
                    assert(name[i] == h[i]);
                } else {
                    assert(name[i] == html[i - h.len()]);
                }
            }
        },
    }
    if name.contains('/') {
        let k = choose|k: int| 0 <= k < name.len() && name[k] == '/';
        assert(is_kept(name[k]));
    }
}

/// For a URL path in ASCII (as `Url::path` always is), the stored name is
/// ASCII too: letters, digits, `.`, `-` and `_` only.
pub proof fn law_filename_ascii(hash: u64, path: Seq<char>)
    requires
        is_ascii_seq(path),
    ensures
        is_ascii_seq(spec_filename(hash, path)),
{
    let name = spec_filename(hash, path);
    let h = hash_suffix(hash);
    lemma_hex_digits((hash % 0x10000) as nat);
    let html = seq!['.', 'h', 't', 'm', 'l'];
    if last_segment(path) is Some && last_segment(path).unwrap().contains('.') {
        let seg = last_segment(path).unwrap();
        assert(is_ascii_seq(path.drop_first()));
        lemma_after_last_slash_ascii(path.drop_first());
        let s = sanitize(seg);
        let t = s + seq!['_'];
        assert(name == t + h);
        assert forall|i: int| 0 <= i < name.len() implies (name[i] as u32) < 128 by {
            if i < s.len() {
                assert(name[i] == sanitize_char(seg[i]));
                assert((seg[i] as u32) < 128);
            } else if i == s.len() {
                assert(name[i] == '_');
            } else {
                assert(name[i] == h[i - t.len()]);
                assert(is_hex_char(h[i - t.len()]));
            }
        }
    } else {
        assert(name == h + html);
        assert forall|i: int| 0 <= i < name.len() implies (name[i] as u32) < 128 by {
            if i < h.len() {
                assert(name[i] == h[i]);
                assert(is_hex_char(h[i]));
            } else {
                assert(name[i] == html[i - h.len()]);
            }
        }
    }
}

/// The number a hexadecimal digit stands for.
pub open spec fn hex_digit_value(c: char) -> int {
    if '0' <= c && c <= '9' {
        c as int - 48
    } else {
        c as int - 97 + 10
    }
}

/// The number that a string of hexadecimal digits stands for.
pub open spec fn hex_value(s: Seq<char>) -> int
    decreases s.len(),
{
    if s.len() == 0 {
        0
    } else {
        hex_value(s.drop_last()) * 16 + hex_digit_value(s.last())
    }
}

/// The number that a string of decimal digits stands for.
pub open spec fn dec_value(s: Seq<char>) -> int
    decreases s.len(),
{
    if s.len() == 0 {
        0
    } else {
        dec_value(s.drop_last()) * 10 + (s.last() as int - 48)
    }
}

/// A hexadecimal numeral stands for the number it was written for.
pub proof fn law_hex_digits_denote(n: nat)
    ensures
        hex_value(hex_digits(n)) == n,
    decreases n,
{
    let d = n % 16;
    assert(hex_digit_value(hex_char(d)) == d);
    if n >= 16 {
        law_hex_digits_denote(n / 16);
        let s = hex_digits(n);
        assert(s.drop_last() == hex_digits(n / 16));
        assert(s.last() == hex_char(d));
        assert(hex_value(s) == hex_value(s.drop_last()) * 16 + hex_digit_value(s.last()));
        assert(n == (n / 16) * 16 + d);
    } else {
        let s = hex_digits(n);
        assert(s.drop_last() =~= Seq::<char>::empty());
        assert(hex_value(s) == hex_value(s.drop_last()) * 16 + hex_digit_value(s.last()));
    }
}

/// A decimal numeral stands for the number it was written for.
pub proof fn law_dec_digits_denote(n: nat)
    ensures
        dec_value(dec_digits(n)) == n,
    decreases n,
{
    let d = n % 10;
    assert(dec_char(d) as int - 48 == d);
    if n >= 10 {
        law_dec_digits_denote(n / 10);
        let s = dec_digits(n);
        assert(s.drop_last() == dec_digits(n / 10));
        assert(s.last() == dec_char(d));
        assert(dec_value(s) == dec_value(s.drop_last()) * 10 + (s.last() as int - 48));
        assert(n == (n / 10) * 10 + d);
    } else {
        let s = dec_digits(n);
        assert(s.drop_last() =~= Seq::<char>::empty());
        assert(dec_value(s) == dec_value(s.drop_last()) * 10 + (s.last() as int - 48));
    }
}

/// The hash suffix of a stored name stands for the low 16 bits of the hash.
pub proof fn law_hash_suffix_denotes(hash: u64)
    ensures
        hex_value(crate::filename::hash_suffix(hash)) == hash % 0x10000,
{
    law_hex_digits_denote((hash % 0x10000) as nat);
}

/// Every URL that parses is stored by the library in a file directly
/// inside `.tempwebfetch`, under a plain name, whatever the URL holds.
pub proof fn law_fetch_path_inside(url: Seq<char>)
    ensures
        fetch_path(url) matches Some(p) ==> exists|name: Seq<char>|
            is_plain_name(name) && p == #[trigger] stored_path(name),
{
    if let Ok(parsed) = crate::filename::url_parse_outcome(url) {
        let (serialization, path) = parsed;
        let p = fetch_path(url).unwrap();
        let name = spec_filename(crate::filename::default_str_hash(serialization), path);
        law_filename_is_plain(crate::filename::default_str_hash(serialization), path);
        assert(p == library_path(parsed));
        assert(p == stored_path(name));
    }
}

/// The server's names hold none of the characters it replaces
/// (`/ \ : * ? " < > | & = #`): every one of them in the URL becomes `_`.
pub proof fn law_safe_filename_is_safe(serialization: Seq<char>, path: Seq<char>)
    ensures
        forall|i: int|
            0 <= i < spec_url_safe_filename(serialization, path).len() ==> !is_unsafe_char(
                #[trigger] spec_url_safe_filename(serialization, path)[i],
            ),
{
    let replaced = replace_unsafe(replace_scheme_sep(serialization));
    assert forall|i: int| 0 <= i < replaced.len() implies !is_unsafe_char(replaced[i]) by {}
    let base = safe_base(serialization);
    lemma_trim_prefix(replaced);
    assert forall|i: int| 0 <= i < base.len() implies !is_unsafe_char(base[i]) by {
        assert(base[i] == replaced[i]);
    }
    let name = limited(base);
    if name != base {
        let k = fit_count(base, 240);
        lemma_fit_count_bounds(base, 240);
        let cut = base.take(k);
        lemma_trim_prefix(cut);
        assert forall|i: int| 0 <= i < name.len() implies !is_unsafe_char(name[i]) by {
            assert(name[i] == cut[i]);
        }
    }
    let full = spec_url_safe_filename(serialization, path);
    let html = seq!['.', 'h', 't', 'm', 'l'];
    assert forall|j: int| 0 <= j < full.len() implies !is_unsafe_char(#[trigger] full[j]) by {
        if j >= name.len() {
            assert(full == name + html);
            assert(full[j] == html[j - name.len()]);
        } else {
            assert(full[j] == name[j]);
        }
    }
}

proof fn lemma_ascii_replace(s: Seq<char>)
    requires
        is_ascii_seq(s),
    ensures
        is_ascii_seq(replace_scheme_sep(s)),
    decreases s.len(),
{
    if s.len() >= 3 {
        if s[0] == ':' && s[1] == '/' && s[2] == '/' {
            lemma_ascii_replace(s.skip(3));
            let r = replace_scheme_sep(s.skip(3));
            assert forall|i: int| 0 <= i < (seq!['_'] + r).len() implies ((seq!['_'] + r)[i] as u32) < 128 by {
                if i > 0 {
                    assert((seq!['_'] + r)[i] == r[i - 1]);
                }
            }
        } else {
            lemma_ascii_replace(s.skip(1));
            let r = replace_scheme_sep(s.skip(1));
            assert forall|i: int| 0 <= i < (seq![s[0]] + r).len() implies ((seq![s[0]] + r)[i] as u32) < 128 by {
                if i > 0 {
                    assert((seq![s[0]] + r)[i] == r[i - 1]);
                }
            }
        }
    }
}

proof fn lemma_ascii_bytes(s: Seq<char>, n: int)
    requires
        is_ascii_seq(s),
        n >= 0,
    ensures
        byte_len(s) == s.len(),
        fit_bytes(s, n) == if s.len() < n { s.len() as int } else { n },
    decreases s.len(),
{
    if s.len() > 0 {
        assert(is_ascii_seq(s.drop_first()));
        assert(utf8_width(s[0]) == 1);
        lemma_ascii_bytes(s.drop_first(), n);
        if n > 0 {
            lemma_ascii_bytes(s.drop_first(), n - 1);
        }
    }
}

/// A URL in ASCII (as every URL that `url` serializes is) always has a
/// server name: its safe form can be cut at 240 bytes.
pub proof fn law_ascii_cuts_cleanly(serialization: Seq<char>)
    requires
        is_ascii_seq(serialization),
    ensures
        cuts_cleanly(safe_base(serialization)),
{
    lemma_ascii_replace(serialization);
    let r = replace_scheme_sep(serialization);
    let replaced = replace_unsafe(r);
    assert forall|i: int| 0 <= i < replaced.len() implies (replaced[i] as u32) < 128 by {
        assert((r[i] as u32) < 128);
    }
    let base = safe_base(serialization);
    lemma_trim_prefix(replaced);
    assert forall|i: int| 0 <= i < base.len() implies (base[i] as u32) < 128 by {
        assert(base[i] == replaced[i]);
    }
    lemma_ascii_bytes(base, name_limit());
}

proof fn lemma_byte_len_concat(a: Seq<char>, b: Seq<char>)
    ensures
        byte_len(a + b) == byte_len(a) + byte_len(b),
    decreases a.len(),
{
    if a.len() > 0 {
        lemma_byte_len_concat(a.drop_first(), b);
        assert((a + b).drop_first() =~= a.drop_first() + b);
        assert((a + b)[0] == a[0]);
    } else {
        assert(a + b =~= b);
    }
}

/// Every server name takes at most 245 bytes: 240 of the URL, and
/// `.html`.
pub proof fn law_safe_filename_short(serialization: Seq<char>, path: Seq<char>)
    ensures
        byte_len(spec_url_safe_filename(serialization, path)) <= name_limit() + 5,
{
    law_safe_filename_limited(serialization);
    let name = limited(safe_base(serialization));
    let html = seq!['.', 'h', 't', 'm', 'l'];
    lemma_byte_len_concat(name, html);
    reveal_with_fuel(byte_len, 6);
    assert(byte_len(html) == 5);
}

proof fn lemma_trim_prefix(s: Seq<char>)
    ensures
        trim_underscores(s).len() <= s.len(),
        forall|i: int| 0 <= i < trim_underscores(s).len() ==> #[trigger] trim_underscores(s)[i] == s[i],
    decreases s.len(),
{
    if s.len() > 0 && s.last() == '_' {
        lemma_trim_prefix(s.drop_last());
    }
}

proof fn lemma_fit_count_bounds(s: Seq<char>, n: int)
    ensures
        0 <= fit_count(s, n) <= s.len(),
    decreases s.len(),
{
    if s.len() > 0 {
        lemma_fit_count_bounds(s.drop_first(), n - crate::safename::utf8_width(s[0]));
    }
}

proof fn lemma_byte_len_drop_last(s: Seq<char>)
    requires
        s.len() > 0,
    ensures
        byte_len(s) == byte_len(s.drop_last()) + utf8_width(s.last()),
    decreases s.len(),
{
    if s.len() > 1 {
        let t = s.drop_first();
        lemma_byte_len_drop_last(t);
        assert(t.drop_last() =~= s.drop_last().drop_first());
        assert(t.last() == s.last());
        assert(s.drop_last()[0] == s[0]);
        assert(byte_len(s.drop_last()) == utf8_width(s[0]) + byte_len(s.drop_last().drop_first()));
    } else {
        assert(s.drop_last().len() == 0);
        assert(s.drop_first().len() == 0);
        assert(s.last() == s[0]);
        assert(byte_len(s) == utf8_width(s[0]) + byte_len(s.drop_first()));
    }
}

proof fn lemma_trim_bytes(s: Seq<char>)
    ensures
        byte_len(trim_underscores(s)) <= byte_len(s),
    decreases s.len(),
{
    if s.len() > 0 && s.last() == '_' {
        lemma_trim_bytes(s.drop_last());
        lemma_byte_len_drop_last(s);
    }
}

proof fn lemma_fit(s: Seq<char>, n: int)
    requires
        n >= 0,
    ensures
        byte_len(s.take(fit_count(s, n))) == fit_bytes(s, n),
        fit_bytes(s, n) <= n,
    decreases s.len(),
{
    lemma_fit_count_bounds(s, n);
    if s.len() > 0 && utf8_width(s[0]) <= n {
        let rest = s.drop_first();
        let w = utf8_width(s[0]);
        lemma_fit(rest, n - w);
        lemma_fit_count_bounds(rest, n - w);
        let k = fit_count(s, n);
        assert(s.take(k).drop_first() =~= rest.take(k - 1));
    } else {
        assert(s.take(0).len() == 0);
    }
}

/// The server's names, before `.html` is added, take at most 240 bytes.
pub proof fn law_safe_filename_limited(serialization: Seq<char>)
    ensures
        byte_len(limited(safe_base(serialization))) <= name_limit(),
{
    let base = safe_base(serialization);
    if byte_len(base) > name_limit() {
        lemma_fit(base, name_limit());
        lemma_trim_bytes(base.take(fit_count(base, name_limit())));
    }
}

} // verus!
