//! A fetch, as the sequence of decisions between its outside steps.
//!
//! `WebFetch::fetch` (the library's tool) and `WebFetch::fetch_for_server`
//! (the server's tool) check the URL and say what to do first; each later
//! step takes what the previous outside action came back with and says
//! what to do next, until a `FetchStep::Reply` ends the call. The caller
//! performs the actions (create the directory, look at the stored file,
//! download, read the body, write the file) and hands back their outcomes.
//! After a successful download, the `llms.txt` at the root of the URL's
//! host is looked for the same way; when it is found and stored, the reply
//! says where.
use vstd::prelude::*;
use crate::error::{DataView, ErrorCode, ErrorView, ToolError, one_entry, text_entry, two_entries};
use crate::filename::{
    UrlParts, default_str_hash, generate_filename, is_ascii_seq, join_url, parse_url, parts_view,
    spec_filename, url_join_outcome, url_parse_outcome,
};
use crate::laws::{
    is_plain_name, law_ascii_cuts_cleanly, law_filename_ascii, law_filename_is_plain,
    law_safe_filename_is_safe,
};
use crate::safename::{
    cuts_cleanly, is_unsafe_char, safe_base, spec_url_safe_filename, url_safe_filename_checked,
};
use crate::status::{
    canonical_reason_of, http_error_view, is_success, server_http_error_view, server_status_error,
    spec_is_success, status_error,
};
use crate::text::{dec_digits, push_decimal};

verus! {

/// Which tool a fetch serves: the library's (cache, hashed names, short
/// messages) or the server's (names made from the URL, advice in messages,
/// a note when a stored file is replaced).
#[derive(Clone, Copy, Debug, PartialEq, Eq, Structural)]
pub enum Mode {
    Library,
    Server,
}

/// Why a request got no response.
#[derive(Clone, Copy, Debug, PartialEq, Eq, Structural)]
pub enum FailureKind {
    Timeout,
    Connect,
    Other,
}

/// A request that got no response: why, and the error's text.
pub struct FetchFailure {
    pub kind: FailureKind,
    pub text: String,
}

/// The directory that fetched content is stored in.
pub open spec fn temp_dir() -> Seq<char> {
    ".tempwebfetch"@
}

/// The relative path of the stored file named `name`.
pub open spec fn stored_path(name: Seq<char>) -> Seq<char> {
    temp_dir().push('/') + name
}

/// A path `.tempwebfetch/<name>` whose name holds no `/`: a file directly
/// inside the download directory.
pub open spec fn is_stored_path(path: Seq<char>) -> bool {
    exists|name: Seq<char>| !name.contains('/') && path == #[trigger] stored_path(name)
}

/// What every successful reply starts with.
pub open spec fn download_prefix() -> Seq<char> {
    "Downloaded: .tempwebfetch/"@
}

/// `s` starts with `download_prefix()`.
pub open spec fn starts_as_download(s: Seq<char>) -> bool {
    s.len() >= 26 && s.take(26) == download_prefix()
}

/// Where the library stores the URL with this serialization and path.
pub open spec fn library_path(parts: (Seq<char>, Seq<char>)) -> Seq<char> {
    stored_path(spec_filename(default_str_hash(parts.0), parts.1))
}

/// Where the server stores the URL with this serialization and path.
pub open spec fn server_path(parts: (Seq<char>, Seq<char>)) -> Seq<char> {
    stored_path(spec_url_safe_filename(parts.0, parts.1))
}

/// Where the library stores the content of `url`, when `url` parses.
pub open spec fn fetch_path(url: Seq<char>) -> Option<Seq<char>> {
    match url_parse_outcome(url) {
        Ok(parsed) => Some(library_path(parsed)),
        Err(_) => None,
    }
}

/// Where a site's `llms.txt` lies, relative to any of its URLs: at the
/// root of the host.
pub open spec fn llms_reference() -> Seq<char> {
    "/llms.txt"@
}

/// The value of an optional URL.
pub open spec fn opt_parts_view(u: Option<UrlParts>) -> Option<(Seq<char>, Seq<char>)> {
    match u {
        Some(p) => Some(parts_view(p)),
        None => None,
    }
}

/// The `llms.txt` that the library looks for after fetching the URL
/// `parts`, given what joining `llms_reference()` to it came to (its URL
/// and stored path): none when there is none, or when it is the URL itself.
pub open spec fn library_llms(
    parts: (Seq<char>, Seq<char>),
    joined: Option<(Seq<char>, Seq<char>)>,
) -> Option<(Seq<char>, Seq<char>)> {
    match joined {
        Some(l) => if l.0 != parts.0 {
            Some((l.0, library_path(l)))
        } else {
            None
        },
        None => None,
    }
}

/// The `llms.txt` that the server looks for: as for the library, and only
/// where its server name can be made.
pub open spec fn server_llms(
    parts: (Seq<char>, Seq<char>),
    joined: Option<(Seq<char>, Seq<char>)>,
) -> Option<(Seq<char>, Seq<char>)> {
    match joined {
        Some(l) => if l.0 != parts.0 && cuts_cleanly(safe_base(l.0)) {
            Some((l.0, server_path(l)))
        } else {
            None
        },
        None => None,
    }
}

/// The error for a URL that does not parse.
pub open spec fn invalid_url_view(mode: Mode, url: Seq<char>, error: Seq<char>) -> ErrorView {
    ErrorView {
        code: ErrorCode::InvalidParams,
        message: match mode {
            Mode::Library => "Invalid URL: "@ + error,
            Mode::Server => "Invalid URL: "@ + error
                + ". Please provide a valid HTTP/HTTPS URL (e.g., https://example.com)"@,
        },
        data: seq![("url"@, DataView::Text(url)), ("error"@, DataView::Text(error))],
    }
}

/// The directory could not be created.
pub open spec fn dir_error_view(mode: Mode, error: Seq<char>) -> ErrorView {
    ErrorView {
        code: ErrorCode::InternalError,
        message: match mode {
            Mode::Library => "Failed to create .tempwebfetch directory: "@ + error,
            Mode::Server => "Failed to create .tempwebfetch directory: "@ + error
                + ". Check file permissions."@,
        },
        data: seq![("error"@, DataView::Text(error))],
    }
}

/// The request got no response.
pub open spec fn fetch_error_view(mode: Mode, url: Seq<char>, kind: FailureKind, error: Seq<char>) -> ErrorView {
    ErrorView {
        code: ErrorCode::InternalError,
        message: match (mode, kind) {
            (Mode::Server, FailureKind::Timeout) => "Request timed out. Check your network connection and try again."@,
            (Mode::Server, FailureKind::Connect) => "Failed to connect to the server. Check your network connection and that the URL is accessible."@,
            _ => "Failed to fetch URL: "@ + error,
        },
        data: seq![("url"@, DataView::Text(url)), ("error"@, DataView::Text(error))],
    }
}

/// The response had a failed status.
pub open spec fn status_error_view(mode: Mode, url: Seq<char>, code: u16) -> ErrorView {
    match mode {
        Mode::Library => http_error_view(url, code, canonical_reason_of(code)),
        Mode::Server => server_http_error_view(url, code, canonical_reason_of(code)),
    }
}

/// The response body could not be read.
pub open spec fn body_error_view(url: Seq<char>, error: Seq<char>) -> ErrorView {
    ErrorView {
        code: ErrorCode::InternalError,
        message: "Failed to read response body: "@ + error,
        data: seq![("url"@, DataView::Text(url)), ("error"@, DataView::Text(error))],
    }
}

/// The file could not be written.
pub open spec fn write_error_view(mode: Mode, path: Seq<char>, error: Seq<char>) -> ErrorView {
    ErrorView {
        code: ErrorCode::InternalError,
        message: match mode {
            Mode::Library => "Failed to write file: "@ + error,
            Mode::Server => "Failed to write file: "@ + error
                + ". Check disk space and file permissions."@,
        },
        data: seq![("path"@, DataView::Text(path)), ("error"@, DataView::Text(error))],
    }
}

/// `"Cached: <path> (<size> bytes)"`; an unreadable size counts as 0.
pub open spec fn cached_message(path: Seq<char>, size: Option<u64>) -> Seq<char> {
    let n: u64 = match size {
        Some(n) => n,
        None => 0,
    };
    "Cached: "@ + path + " ("@ + dec_digits(n as nat) + " bytes)"@
}

/// `"Downloaded: <path> (<size> bytes[, <content type>])"`.
pub open spec fn downloaded_message(
    path: Seq<char>,
    size: usize,
    content_type: Option<Seq<char>>,
) -> Seq<char> {
    let type_info = match content_type {
        Some(t) => ", "@ + t,
        None => Seq::empty(),
    };
    "Downloaded: "@ + path + " ("@ + dec_digits(size as nat) + " bytes"@ + type_info + ")"@
}

/// The reply to a completed download; the server adds that a stored file
/// was replaced.
pub open spec fn success_message(
    mode: Mode,
    path: Seq<char>,
    size: usize,
    content_type: Option<Seq<char>>,
    existed: bool,
) -> Seq<char> {
    if mode == Mode::Server && existed {
        downloaded_message(path, size, content_type) + " (overriding existing file)"@
    } else {
        downloaded_message(path, size, content_type)
    }
}

/// What the reply adds when the domain's `llms.txt` was stored.
pub open spec fn llms_note(path: Seq<char>, size: usize) -> Seq<char> {
    "\nFound llms.txt: "@ + path + " ("@ + dec_digits(size as nat) + " bytes)"@
}

/// The optional string's value.
pub open spec fn opt_view(s: Option<String>) -> Option<Seq<char>> {
    match s {
        Some(t) => Some(t@),
        None => None,
    }
}

/// The arguments of the library's fetch tool.
pub struct FetchRequest {
    /// The URL to download.
    pub url: String,
    /// Answer from the stored file, when there is one, without downloading.
    pub use_cache: bool,
}

/// What the logic reads of an HTTP response's head.
pub struct ResponseHead {
    /// The status number.
    pub status: u16,
    /// The `Content-Type` header, when present and visible ASCII.
    pub content_type: Option<String>,
}

/// What every step of a fetch carries: the tool, the URL being fetched,
/// the cache flag, the relative path of its stored file (always directly
/// inside `.tempwebfetch`), whether that file existed before, the
/// `llms.txt` still to look for, and, while `llms.txt` is being fetched,
/// the reply of the main download.
pub struct FetchContext {
    mode: Mode,
    url: String,
    use_cache: bool,
    path: String,
    existed: bool,
    llms: Option<(String, String)>,
    done: Option<String>,
}

impl FetchContext {
    #[verifier::type_invariant]
    spec fn inv(self) -> bool {
        &&& is_stored_path(self.path@)
        &&& self.llms matches Some(t) ==> is_stored_path(t.1@)
        &&& self.done matches Some(d) ==> starts_as_download(d@)
    }

    /// The tool the fetch serves.
    pub closed spec fn mode(self) -> Mode {
        self.mode
    }

    /// The URL being fetched.
    pub closed spec fn url(self) -> Seq<char> {
        self.url@
    }

    /// Whether the stored file may answer the fetch.
    pub closed spec fn use_cache(self) -> bool {
        self.use_cache
    }

    /// Where the content is stored.
    pub closed spec fn path(self) -> Seq<char> {
        self.path@
    }

    /// Whether the stored file existed before the download.
    pub closed spec fn existed(self) -> bool {
        self.existed
    }

    /// The `llms.txt` still to look for: its URL and stored path.
    pub closed spec fn llms(self) -> Option<(Seq<char>, Seq<char>)> {
        match self.llms {
            Some(t) => Some((t.0@, t.1@)),
            None => None,
        }
    }

    /// The reply of the main download, while `llms.txt` is being fetched.
    pub closed spec fn done(self) -> Option<Seq<char>> {
        opt_view(self.done)
    }
}

/// A fresh context for a fetch.
pub open spec fn is_fresh(
    ctx: FetchContext,
    mode: Mode,
    url: Seq<char>,
    use_cache: bool,
    path: Seq<char>,
    llms: Option<(Seq<char>, Seq<char>)>,
) -> bool {
    &&& ctx.mode() == mode
    &&& ctx.url() == url
    &&& ctx.use_cache() == use_cache
    &&& ctx.path() == path
    &&& !ctx.existed()
    &&& ctx.llms() == llms
    &&& ctx.done() is None
}

/// `b` is `a` with only the existed flag set to `existed`.
pub open spec fn with_existed(a: FetchContext, b: FetchContext, existed: bool) -> bool {
    &&& b.mode() == a.mode()
    &&& b.url() == a.url()
    &&& b.use_cache() == a.use_cache()
    &&& b.path() == a.path()
    &&& b.existed() == existed
    &&& b.llms() == a.llms()
    &&& b.done() == a.done()
}

/// Waits for the download directory to be created.
pub struct AwaitDir {
    ctx: FetchContext,
}

/// Waits to learn whether the stored file exists.
pub struct AwaitExists {
    ctx: FetchContext,
}

/// Waits for the size of the stored file.
pub struct AwaitSize {
    ctx: FetchContext,
}

/// Waits for the response to a download request.
pub struct AwaitResponse {
    ctx: FetchContext,
}

/// Waits for the response body to be read.
pub struct AwaitBody {
    ctx: FetchContext,
    content_type: Option<String>,
}

/// Waits for the body to be written to the stored file.
pub struct AwaitWrite {
    ctx: FetchContext,
    content_type: Option<String>,
    size: usize,
}

/// What to do next in a fetch.
#[allow(inconsistent_fields)]
pub enum FetchStep {
    /// Create the directory `dir` (and its parents) if missing.
    CreateDir { dir: String, next: AwaitDir },
    /// Find out whether the file at `path` exists.
    CheckExists { path: String, next: AwaitExists },
    /// Find out the size in bytes of the file at `path`.
    ReadSize { path: String, next: AwaitSize },
    /// Send a GET request for `url`.
    Download { url: String, next: AwaitResponse },
    /// Read the whole body of the response.
    ReadBody { next: AwaitBody },
    /// Write `contents` to the file at `path`, replacing it.
    WriteFile { path: String, contents: Vec<u8>, next: AwaitWrite },
    /// The fetch is over: answer with this text, or this error.
    Reply { result: Result<String, ToolError> },
}

/// `step` answers with the text `message`.
pub open spec fn replies_ok(step: FetchStep, message: Seq<char>) -> bool {
    step matches FetchStep::Reply { result: Ok(m) } && m@ == message
}

/// `step` answers with the error `error`.
pub open spec fn replies_err(step: FetchStep, error: ErrorView) -> bool {
    step matches FetchStep::Reply { result: Err(e) } && e@ == error
}

/// The next step downloads `ctx`'s URL, carrying `ctx` on.
pub open spec fn downloads(step: FetchStep, ctx: FetchContext) -> bool {
    step matches FetchStep::Download { url, next } && url@ == ctx.url() && next.ctx() == ctx
}

impl AwaitDir {
    pub closed spec fn ctx(self) -> FetchContext {
        self.ctx
    }
}

impl AwaitExists {
    pub closed spec fn ctx(self) -> FetchContext {
        self.ctx
    }
}

impl AwaitSize {
    pub closed spec fn ctx(self) -> FetchContext {
        self.ctx
    }
}

impl AwaitResponse {
    pub closed spec fn ctx(self) -> FetchContext {
        self.ctx
    }
}

impl AwaitBody {
    pub closed spec fn ctx(self) -> FetchContext {
        self.ctx
    }

    /// The content type that the response announced.
    pub closed spec fn content_type(self) -> Option<Seq<char>> {
        opt_view(self.content_type)
    }
}

impl AwaitWrite {
    pub closed spec fn ctx(self) -> FetchContext {
        self.ctx
    }

    /// The content type that the response announced.
    pub closed spec fn content_type(self) -> Option<Seq<char>> {
        opt_view(self.content_type)
    }

    /// The number of bytes of the body being written.
    pub closed spec fn size(self) -> usize {
        self.size
    }
}

/// `prefix` followed by `detail`.
fn joined(prefix: &str, detail: &str) -> (r: String)
    ensures
        r@ == prefix@ + detail@,
{
    let mut s = String::from_str(prefix);
    s.append(detail);
    s
}

/// `prefix`, `detail`, then `suffix`.
fn joined3(prefix: &str, detail: &str, suffix: &str) -> (r: String)
    ensures
        r@ == prefix@ + detail@ + suffix@,
{
    let mut s = joined(prefix, detail);
    s.append(suffix);
    s
}

proof fn lemma_ascii_concat(a: Seq<char>, b: Seq<char>)
    requires
        is_ascii_seq(a),
        is_ascii_seq(b),
    ensures
        is_ascii_seq(a + b),
{
    assert forall|i: int| 0 <= i < (a + b).len() implies ((a + b)[i] as u32) < 128 by {
        if i < a.len() {
            assert((a + b)[i] == a[i]);
        } else {
            assert((a + b)[i] == b[i - a.len()]);
        }
    }
}

/// Puts a stored name into the download directory.
fn stored_path_of(name: &str) -> (r: String)
    ensures
        r@ == stored_path(name@),
        is_ascii_seq(name@) ==> is_ascii_seq(r@),
        !name@.contains('/') ==> is_stored_path(r@),
{
    let r = joined(".tempwebfetch/", name);
    proof {
        reveal_strlit(".tempwebfetch/");
        reveal_strlit(".tempwebfetch");
        assert(".tempwebfetch/"@ =~= ".tempwebfetch"@.push('/'));
        if is_ascii_seq(name@) {
            lemma_ascii_concat(".tempwebfetch/"@, name@);
        }
        if !name@.contains('/') {
            assert(r@ == stored_path(name@));
        }
    }
    r
}

/// The library's stored path and `llms.txt` target for the URL `parts`,
/// given its joined `llms.txt` URL.
fn library_targets(parts: &UrlParts, joined: &Option<UrlParts>) -> (r: (String, Option<(String, String)>))
    ensures
        r.0@ == library_path(parts_view(*parts)),
        is_stored_path(r.0@),
        is_ascii_seq(parts.path@) ==> is_ascii_seq(r.0@),
        match r.1 {
            Some(t) => library_llms(parts_view(*parts), opt_parts_view(*joined)) == Some((t.0@, t.1@))
                && is_stored_path(t.1@),
            None => library_llms(parts_view(*parts), opt_parts_view(*joined)) is None,
        },
{
    let name = generate_filename(parts);
    proof {
        law_filename_is_plain(default_str_hash(parts.serialization@), parts.path@);
        if is_ascii_seq(parts.path@) {
            law_filename_ascii(default_str_hash(parts.serialization@), parts.path@);
        }
    }
    let path = stored_path_of(name.as_str());
    let llms = match joined {
        Some(l) => {
            if l.serialization == parts.serialization {
                None
            } else {
                let lname = generate_filename(l);
                proof {
                    law_filename_is_plain(default_str_hash(l.serialization@), l.path@);
                }
                Some((l.serialization.clone(), stored_path_of(lname.as_str())))
            }
        },
        None => None,
    };
    (path, llms)
}

/// The library's first step, given what parsing the URL came to and the
/// URL of its site's `llms.txt`.
pub fn start_fetch(request: FetchRequest, parsed: Result<UrlParts, String>, llms_txt: Option<UrlParts>) -> (r: FetchStep)
    ensures
        match parsed {
            Err(e) => replies_err(r, invalid_url_view(Mode::Library, request.url@, e@)),
            Ok(p) => r matches FetchStep::CreateDir { dir, next } && dir@ == temp_dir() && is_fresh(
                next.ctx(),
                Mode::Library,
                request.url@,
                request.use_cache,
                library_path(parts_view(p)),
                library_llms(parts_view(p), opt_parts_view(llms_txt)),
            ) && (is_ascii_seq(p.path@) ==> is_ascii_seq(next.ctx().path())),
        },
{
    match parsed {
        Err(e) => {
            let message = joined("Invalid URL: ", e.as_str());
            let data = two_entries(text_entry("url", request.url.as_str()), text_entry("error", e.as_str()));
            FetchStep::Reply { result: Err(ToolError { code: ErrorCode::InvalidParams, message, data }) }
        },
        Ok(p) => {
            let (path, llms) = library_targets(&p, &llms_txt);
            let ctx = FetchContext {
                mode: Mode::Library,
                url: request.url,
                use_cache: request.use_cache,
                path,
                existed: false,
                llms,
                done: None,
            };
            let dir = String::from_str(".tempwebfetch");
            FetchStep::CreateDir { dir, next: AwaitDir { ctx } }
        },
    }
}

/// Puts the server's name of a URL into the download directory.
fn server_path_of(url: &UrlParts) -> (r: Option<String>)
    ensures
        match r {
            Some(path) => cuts_cleanly(safe_base(url.serialization@)) && path@ == server_path(
                parts_view(*url),
            ) && is_stored_path(path@),
            None => !cuts_cleanly(safe_base(url.serialization@)),
        },
{
    match url_safe_filename_checked(url) {
        Some(name) => {
            proof {
                law_safe_filename_is_safe(url.serialization@, url.path@);
                if name@.contains('/') {
                    let i = choose|i: int| 0 <= i < name@.len() && name@[i] == '/';
                    assert(!is_unsafe_char(name@[i]));
                }
            }
            Some(stored_path_of(name.as_str()))
        },
        None => None,
    }
}

/// The server's stored path and `llms.txt` target for the URL `parts`,
/// given its joined `llms.txt` URL; `None` when the URL's safe name
/// cannot be cut at 240 bytes.
fn server_targets(parts: &UrlParts, joined: &Option<UrlParts>) -> (r: Option<(String, Option<(String, String)>)>)
    ensures
        match r {
            Some(t) => cuts_cleanly(safe_base(parts.serialization@)) && t.0@ == server_path(
                parts_view(*parts),
            ) && is_stored_path(t.0@) && match t.1 {
                Some(l) => server_llms(parts_view(*parts), opt_parts_view(*joined)) == Some((l.0@, l.1@))
                    && is_stored_path(l.1@),
                None => server_llms(parts_view(*parts), opt_parts_view(*joined)) is None,
            },
            None => !cuts_cleanly(safe_base(parts.serialization@)),
        },
{
    let path = match server_path_of(parts) {
        Some(path) => path,
        None => return None,
    };
    let llms = match joined {
        Some(l) => {
            if l.serialization == parts.serialization {
                None
            } else {
                match server_path_of(l) {
                    Some(lpath) => Some((l.serialization.clone(), lpath)),
                    None => None,
                }
            }
        },
        None => None,
    };
    Some((path, llms))
}

/// The server's first step, given what parsing the URL came to and the
/// URL of its site's `llms.txt`; `None` when the URL's safe name cannot be
/// cut at 240 bytes (a character straddles that byte).
pub fn start_server_fetch(url: String, parsed: Result<UrlParts, String>, llms_txt: Option<UrlParts>) -> (r: Option<FetchStep>)
    ensures
        match parsed {
            Err(e) => r matches Some(s) && replies_err(s, invalid_url_view(Mode::Server, url@, e@)),
            Ok(p) => if cuts_cleanly(safe_base(p.serialization@)) {
                r matches Some(FetchStep::CreateDir { dir, next }) && dir@ == temp_dir() && is_fresh(
                    next.ctx(),
                    Mode::Server,
                    url@,
                    false,
                    server_path(parts_view(p)),
                    server_llms(parts_view(p), opt_parts_view(llms_txt)),
                )
            } else {
                r is None
            },
        },
{
    match parsed {
        Err(e) => {
            let message = joined3(
                "Invalid URL: ",
                e.as_str(),
                ". Please provide a valid HTTP/HTTPS URL (e.g., https://example.com)",
            );
            let data = two_entries(text_entry("url", url.as_str()), text_entry("error", e.as_str()));
            Some(FetchStep::Reply { result: Err(ToolError { code: ErrorCode::InvalidParams, message, data }) })
        },
        Ok(p) => match server_targets(&p, &llms_txt) {
            None => None,
            Some((path, llms)) => {
                let ctx = FetchContext {
                    mode: Mode::Server,
                    url,
                    use_cache: false,
                    path,
                    existed: false,
                    llms,
                    done: None,
                };
                let dir = String::from_str(".tempwebfetch");
                Some(FetchStep::CreateDir { dir, next: AwaitDir { ctx } })
            },
        },
    }
}

/// The URL of the site's `llms.txt`, for a URL that parsed.
fn llms_txt_of(parsed: &Result<UrlParts, String>) -> (r: Option<UrlParts>)
    ensures
        match parsed {
            Ok(p) => opt_parts_view(r) == url_join_outcome(p.serialization@, llms_reference()),
            Err(_) => r is None,
        },
        r matches Some(l) ==> is_ascii_seq(l.serialization@),
{
    match parsed {
        Ok(p) => join_url(p.serialization.as_str(), "/llms.txt"),
        Err(_) => None,
    }
}

/// The fetch tool.
pub struct WebFetch {}

impl WebFetch {
    /// A fetch tool.
    pub fn new() -> (r: WebFetch)
        ensures
            r == (WebFetch {  }),
    {
        WebFetch {  }
    }

    /// Starts a fetch of the library's tool: an unparsable URL is answered
    /// at once with an invalid-parameters error; otherwise the download
    /// directory is created first, and the site's `llms.txt` is the one
    /// that `/llms.txt` joined to the URL names.
    pub fn fetch(&self, request: FetchRequest) -> (r: FetchStep)
        ensures
            match url_parse_outcome(request.url@) {
                Err(e) => replies_err(r, invalid_url_view(Mode::Library, request.url@, e)),
                Ok(parsed) => r matches FetchStep::CreateDir { dir, next } && dir@ == temp_dir()
                    && is_fresh(
                    next.ctx(),
                    Mode::Library,
                    request.url@,
                    request.use_cache,
                    library_path(parsed),
                    library_llms(parsed, url_join_outcome(parsed.0, llms_reference())),
                ) && fetch_path(request.url@) == Some(next.ctx().path()) && is_ascii_seq(
                    next.ctx().path(),
                ),
            },
    {
        let parsed = parse_url(request.url.as_str());
        let llms_txt = llms_txt_of(&parsed);
        start_fetch(request, parsed, llms_txt)
    }

    /// Starts a fetch of the server's tool: as `fetch`, with the server's
    /// names and messages and without the cache.
    pub fn fetch_for_server(&self, url: String) -> (r: FetchStep)
        ensures
            match url_parse_outcome(url@) {
                Err(e) => replies_err(r, invalid_url_view(Mode::Server, url@, e)),
                Ok(parsed) => r matches FetchStep::CreateDir { dir, next } && dir@ == temp_dir()
                    && is_fresh(
                    next.ctx(),
                    Mode::Server,
                    url@,
                    false,
                    server_path(parsed),
                    server_llms(parsed, url_join_outcome(parsed.0, llms_reference())),
                ),
            },
    {
        let parsed = parse_url(url.as_str());
        let llms_txt = llms_txt_of(&parsed);
        proof {
            if parsed is Ok {
                law_ascii_cuts_cleanly(parsed.unwrap().serialization@);
            }
        }
        match start_server_fetch(url, parsed, llms_txt) {
            Some(step) => step,
            None => {
                proof {
                    assert(false);
                }
                FetchStep::Reply { result: Ok(String::new()) }
            },
        }
    }
}

impl Default for WebFetch {
    fn default() -> (r: WebFetch)
        ensures
            r == (WebFetch {  }),
    {
        WebFetch::new()
    }
}

/// Sends `ctx`'s URL.
fn download(ctx: FetchContext) -> (r: FetchStep)
    ensures
        downloads(r, ctx),
{
    let url = ctx.url.clone();
    FetchStep::Download { url, next: AwaitResponse { ctx } }
}

/// Ends the `llms.txt` lookup with the main download's reply.
fn reply_done(ctx: &FetchContext) -> (r: FetchStep)
    requires
        ctx.done() is Some,
    ensures
        replies_ok(r, ctx.done().unwrap()),
{
    match &ctx.done {
        Some(d) => FetchStep::Reply { result: Ok(d.clone()) },
        None => FetchStep::Reply { result: Ok(String::new()) },
    }
}

impl AwaitDir {
    /// The directory was created (or failed to be). The stored file is
    /// looked for next when the library may answer from it, and always by
    /// the server (to say whether it is replaced); otherwise the URL is
    /// downloaded.
    pub fn dir_created(self, outcome: Result<(), String>) -> (r: FetchStep)
        ensures
            match outcome {
                Err(e) => replies_err(r, dir_error_view(self.ctx().mode(), e@)),
                Ok(_) => if self.ctx().mode() == Mode::Server || self.ctx().use_cache() {
                    r matches FetchStep::CheckExists { path, next } && path@ == self.ctx().path()
                        && next.ctx() == self.ctx()
                } else {
                    downloads(r, self.ctx())
                },
            },
    {
        match outcome {
            Err(e) => {
                let message = match self.ctx.mode {
                    Mode::Library => joined("Failed to create .tempwebfetch directory: ", e.as_str()),
                    Mode::Server => joined3(
                        "Failed to create .tempwebfetch directory: ",
                        e.as_str(),
                        ". Check file permissions.",
                    ),
                };
                let data = one_entry(text_entry("error", e.as_str()));
                FetchStep::Reply { result: Err(ToolError { code: ErrorCode::InternalError, message, data }) }
            },
            Ok(()) => {
                if self.ctx.mode == Mode::Server || self.ctx.use_cache {
                    let path = self.ctx.path.clone();
                    FetchStep::CheckExists { path, next: AwaitExists { ctx: self.ctx } }
                } else {
                    download(self.ctx)
                }
            },
        }
    }
}

impl AwaitExists {
    /// Whether the stored file exists. For the library, an existing file
    /// has its size read next (the fetch will be answered from it) and a
    /// missing one is downloaded; the server downloads either way,
    /// remembering whether the file existed.
    pub fn exists_checked(self, found: bool) -> (r: FetchStep)
        ensures
            if self.ctx().mode() == Mode::Library {
                if found {
                    r matches FetchStep::ReadSize { path, next } && path@ == self.ctx().path()
                        && next.ctx() == self.ctx()
                } else {
                    downloads(r, self.ctx())
                }
            } else {
                r matches FetchStep::Download { url, next } && url@ == self.ctx().url()
                    && with_existed(self.ctx(), next.ctx(), found)
            },
    {
        if self.ctx.mode == Mode::Library {
            if found {
                let path = self.ctx.path.clone();
                FetchStep::ReadSize { path, next: AwaitSize { ctx: self.ctx } }
            } else {
                download(self.ctx)
            }
        } else {
            proof {
                use_type_invariant(&self.ctx);
            }
            let mut ctx = self.ctx;
            ctx.existed = found;
            download(ctx)
        }
    }
}

impl AwaitSize {
    /// The stored file's size (`None`: unreadable): the fetch is answered
    /// from the stored file, without a download.
    pub fn size_read(self, size: Option<u64>) -> (r: FetchStep)
        ensures
            replies_ok(r, cached_message(self.ctx().path(), size)),
            r matches FetchStep::Reply { result: Ok(m) } && m@.take(22) == "Cached: .tempwebfetch/"@,
    {
        proof {
            use_type_invariant(&self.ctx);
        }
        let n: u64 = match size {
            Some(n) => n,
            None => 0,
        };
        let mut message = joined("Cached: ", self.ctx.path.as_str());
        message.append(" (");
        push_decimal(&mut message, n);
        message.append(" bytes)");
        proof {
            let name = choose|name: Seq<char>|
                !name.contains('/') && self.ctx.path@ == #[trigger] stored_path(name);
            reveal_strlit("Cached: .tempwebfetch/");
            reveal_strlit("Cached: ");
            reveal_strlit(".tempwebfetch");
            assert(message@.take(22) =~= "Cached: .tempwebfetch/"@);
        }
        FetchStep::Reply { result: Ok(message) }
    }
}

impl AwaitResponse {
    /// The response arrived, or the request failed. While `llms.txt` is
    /// looked for, anything but a success ends the fetch with the main
    /// download's reply. Otherwise a failed request or status ends it with
    /// an error; a success has its body read next.
    pub fn responded(self, outcome: Result<ResponseHead, FetchFailure>) -> (r: FetchStep)
        ensures
            match outcome {
                Ok(head) => if spec_is_success(head.status) {
                    r matches FetchStep::ReadBody { next } && next.ctx() == self.ctx()
                        && next.content_type() == opt_view(head.content_type)
                } else {
                    match self.ctx().done() {
                        Some(d) => replies_ok(r, d),
                        None => replies_err(r, status_error_view(self.ctx().mode(), self.ctx().url(), head.status)),
                    }
                },
                Err(f) => match self.ctx().done() {
                    Some(d) => replies_ok(r, d),
                    None => replies_err(
                        r,
                        fetch_error_view(self.ctx().mode(), self.ctx().url(), f.kind, f.text@),
                    ),
                },
            },
    {
        match outcome {
            Ok(head) => {
                if is_success(head.status) {
                    FetchStep::ReadBody { next: AwaitBody { ctx: self.ctx, content_type: head.content_type } }
                } else if self.ctx.done.is_some() {
                    reply_done(&self.ctx)
                } else {
                    let error = match self.ctx.mode {
                        Mode::Library => status_error(self.ctx.url.as_str(), head.status),
                        Mode::Server => server_status_error(self.ctx.url.as_str(), head.status),
                    };
                    FetchStep::Reply { result: Err(error) }
                }
            },
            Err(f) => {
                if self.ctx.done.is_some() {
                    reply_done(&self.ctx)
                } else {
                    let message = match (self.ctx.mode, f.kind) {
                        (Mode::Server, FailureKind::Timeout) => String::from_str(
                            "Request timed out. Check your network connection and try again.",
                        ),
                        (Mode::Server, FailureKind::Connect) => String::from_str(
                            "Failed to connect to the server. Check your network connection and that the URL is accessible.",
                        ),
                        _ => joined("Failed to fetch URL: ", f.text.as_str()),
                    };
                    let data = two_entries(text_entry("url", self.ctx.url.as_str()), text_entry("error", f.text.as_str()));
                    FetchStep::Reply { result: Err(ToolError { code: ErrorCode::InternalError, message, data }) }
                }
            },
        }
    }
}

impl AwaitBody {
    /// The body was read, or failed to be. A body read is written to the
    /// stored file next, byte for byte; a failure ends the fetch (with the
    /// main download's reply while `llms.txt` is looked for).
    pub fn body_read(self, outcome: Result<Vec<u8>, String>) -> (r: FetchStep)
        ensures
            match outcome {
                Err(e) => match self.ctx().done() {
                    Some(d) => replies_ok(r, d),
                    None => replies_err(r, body_error_view(self.ctx().url(), e@)),
                },
                Ok(bytes) => r matches FetchStep::WriteFile { path, contents, next } && path@
                    == self.ctx().path() && contents@ == bytes@ && next.ctx() == self.ctx()
                    && next.size() == bytes@.len() && next.content_type() == self.content_type(),
            },
    {
        match outcome {
            Err(e) => {
                if self.ctx.done.is_some() {
                    reply_done(&self.ctx)
                } else {
                    let message = joined("Failed to read response body: ", e.as_str());
                    let data = two_entries(text_entry("url", self.ctx.url.as_str()), text_entry("error", e.as_str()));
                    FetchStep::Reply { result: Err(ToolError { code: ErrorCode::InternalError, message, data }) }
                }
            },
            Ok(bytes) => {
                let path = self.ctx.path.clone();
                let size = bytes.len();
                FetchStep::WriteFile {
                    path,
                    contents: bytes,
                    next: AwaitWrite { ctx: self.ctx, content_type: self.content_type, size },
                }
            },
        }
    }
}

/// The reply text of a completed download.
fn success_text(ctx: &FetchContext, size: usize, content_type: &Option<String>) -> (r: String)
    ensures
        r@ == success_message(ctx.mode(), ctx.path(), size, opt_view(*content_type), ctx.existed()),
        starts_as_download(r@),
{
    proof {
        use_type_invariant(ctx);
    }
    let mut message = joined("Downloaded: ", ctx.path.as_str());
    message.append(" (");
    push_decimal(&mut message, size as u64);
    message.append(" bytes");
    match content_type {
        Some(t) => {
            message.append(", ");
            message.append(t.as_str());
        },
        None => {},
    }
    message.append(")");
    let ghost plain = message@;
    if ctx.mode == Mode::Server && ctx.existed {
        message.append(" (overriding existing file)");
    }
    proof {
        let name = choose|name: Seq<char>| !name.contains('/') && ctx.path@ == #[trigger] stored_path(name);
        reveal_strlit("Downloaded: .tempwebfetch/");
        reveal_strlit("Downloaded: ");
        reveal_strlit(".tempwebfetch");
        assert(plain =~= downloaded_message(ctx.path(), size, opt_view(*content_type)));
        assert(message@.take(26) =~= "Downloaded: .tempwebfetch/"@);
    }
    message
}

impl AwaitWrite {
    /// The body was written to the stored file, or failed to be. After the
    /// main download, the domain's `llms.txt` is looked for next when there
    /// is one to look for; otherwise the fetch is answered with where the
    /// content now lies. After `llms.txt`, the answer is the main reply,
    /// with where `llms.txt` lies when it was stored.
    pub fn written(self, outcome: Result<(), String>) -> (r: FetchStep)
        ensures
            match outcome {
                Err(e) => match self.ctx().done() {
                    Some(d) => replies_ok(r, d),
                    None => replies_err(r, write_error_view(self.ctx().mode(), self.ctx().path(), e@)),
                },
                Ok(_) => match self.ctx().done() {
                    Some(d) => replies_ok(r, d + llms_note(self.ctx().path(), self.size())),
                    None => {
                        let m = success_message(
                            self.ctx().mode(),
                            self.ctx().path(),
                            self.size(),
                            self.content_type(),
                            self.ctx().existed(),
                        );
                        match self.ctx().llms() {
                            Some(t) => r matches FetchStep::Download { url, next } && url@ == t.0
                                && next.ctx().mode() == self.ctx().mode() && next.ctx().url() == t.0
                                && next.ctx().use_cache() == self.ctx().use_cache()
                                && next.ctx().path() == t.1 && !next.ctx().existed()
                                && next.ctx().llms() is None && next.ctx().done() == Some(m),
                            None => replies_ok(r, m),
                        }
                    },
                },
            },
            r matches FetchStep::Reply { result: Ok(m) } ==> starts_as_download(m@),
    {
        proof {
            use_type_invariant(&self.ctx);
        }
        match outcome {
            Err(e) => {
                if self.ctx.done.is_some() {
                    reply_done(&self.ctx)
                } else {
                    let message = match self.ctx.mode {
                        Mode::Library => joined("Failed to write file: ", e.as_str()),
                        Mode::Server => joined3(
                            "Failed to write file: ",
                            e.as_str(),
                            ". Check disk space and file permissions.",
                        ),
                    };
                    let data = two_entries(text_entry("path", self.ctx.path.as_str()), text_entry("error", e.as_str()));
                    FetchStep::Reply { result: Err(ToolError { code: ErrorCode::InternalError, message, data }) }
                }
            },
            Ok(()) => {
                match &self.ctx.done {
                    Some(d) => {
                        let mut message = d.clone();
                        message.append("\nFound llms.txt: ");
                        message.append(self.ctx.path.as_str());
                        message.append(" (");
                        push_decimal(&mut message, self.size as u64);
                        message.append(" bytes)");
                        proof {
                            assert(message@.take(26) =~= d@.take(26));
                            assert(message@ =~= d@ + llms_note(self.ctx.path@, self.size));
                        }
                        FetchStep::Reply { result: Ok(message) }
                    },
                    None => {
                        let message = success_text(&self.ctx, self.size, &self.content_type);
                        match self.ctx.llms {
                            Some((llms_url, llms_path)) => {
                                let ghost t = (llms_url@, llms_path@);
                                assert(self.ctx().llms() == Some(t));
                                let ctx = FetchContext {
                                    mode: self.ctx.mode,
                                    url: llms_url,
                                    use_cache: self.ctx.use_cache,
                                    path: llms_path,
                                    existed: false,
                                    llms: None,
                                    done: Some(message),
                                };
                                download(ctx)
                            },
                            None => FetchStep::Reply { result: Ok(message) },
                        }
                    },
                }
            },
        }
    }
}

} // verus!
