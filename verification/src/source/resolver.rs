//! Download requests, plans and link checks, and deriving a file name from a URL.

use vstd::prelude::*;
use vstd::string::{StringSliceAdditionalSpecFns, is_ascii};
use vstd::utf8::{valid_utf8, decode_utf8, is_char_boundary, is_ascii_chars, pop_first_scalar,
    length_of_first_scalar, encode_utf8};
use crate::catalog::Kind;
use crate::config::Config;
use crate::error::Error;
use crate::http::{HttpResponse, first_header, spec_content_length};
use crate::paths::{join, spec_join};
use crate::text::{chars_of, opt_view, same, seq_contains, spec_trim, trim, contains};

verus! {

/// What the user asked to download.
#[derive(Debug)]
pub struct DownloadRequest {
    /// System name as typed, e.g. "win11", "ubuntu".
    pub system: String,
    /// Release, e.g. "25H2", or "latest".
    pub release: Option<String>,
    /// Edition, e.g. "Pro", "desktop".
    pub edition: Option<String>,
    /// Language, e.g. "zh-CN".
    pub lang: Option<String>,
    /// Architecture: x64 | arm64 | x86.
    pub arch: Option<String>,
    /// Effective download directory (already resolved from config/CLI).
    pub target_dir: String,
}

/// The result of link resolution: everything the dry-run mode prints.
#[derive(Debug)]
pub struct DownloadPlan {
    pub kind: Kind,
    /// The concrete download URL (or official page for release-page systems).
    pub url: String,
    /// Filename to save as, e.g. "Win11_25H2_x64.iso".
    pub file_name: String,
    /// Full destination path = target_dir / file_name.
    pub target_path: String,
    pub arch: String,
    /// Size in bytes, when known.
    pub size_hint: Option<u64>,
    /// SHA-256 hex, when known.
    pub checksum: Option<String>,
    /// Whether a bootable file can actually be downloaded.
    pub downloadable: bool,
    /// Human-readable source description.
    pub source: String,
}

/// A request as plain values.
pub struct RequestView {
    pub system: Seq<char>,
    pub release: Option<Seq<char>>,
    pub edition: Option<Seq<char>>,
    pub lang: Option<Seq<char>>,
    pub arch: Option<Seq<char>>,
    pub target_dir: Seq<char>,
}

impl View for DownloadRequest {
    type V = RequestView;

    open spec fn view(&self) -> RequestView {
        RequestView {
            system: self.system@,
            release: opt_view(self.release),
            edition: opt_view(self.edition),
            lang: opt_view(self.lang),
            arch: opt_view(self.arch),
            target_dir: self.target_dir@,
        }
    }
}

/// A plan as plain values.
pub struct PlanView {
    pub kind: Kind,
    pub url: Seq<char>,
    pub file_name: Seq<char>,
    pub target_path: Seq<char>,
    pub arch: Seq<char>,
    pub size_hint: Option<u64>,
    pub checksum: Option<Seq<char>>,
    pub downloadable: bool,
    pub source: Seq<char>,
}

impl View for DownloadPlan {
    type V = PlanView;

    open spec fn view(&self) -> PlanView {
        PlanView {
            kind: self.kind,
            url: self.url@,
            file_name: self.file_name@,
            target_path: self.target_path@,
            arch: self.arch@,
            size_hint: self.size_hint,
            checksum: opt_view(self.checksum),
            downloadable: self.downloadable,
            source: self.source@,
        }
    }
}

/// A fresh downloadable plan as `DownloadPlan::new` makes it.
pub open spec fn new_plan(kind: Kind, url: Seq<char>, file_name: Seq<char>, target_dir: Seq<char>,
    arch: Seq<char>, source: Seq<char>) -> PlanView {
    PlanView {
        kind,
        url,
        file_name,
        target_path: spec_join(target_dir, file_name),
        arch,
        size_hint: None,
        checksum: None,
        downloadable: true,
        source,
    }
}

/// The outcome of a resolution as plain values.
pub open spec fn plan_result(r: Result<DownloadPlan, Error>) -> Result<PlanView, crate::error::ErrorView> {
    match r {
        Ok(p) => Ok(p@),
        Err(e) => Err(e@),
    }
}

/// The release asked for: the request's, else the configured default.
pub open spec fn wanted(requested: Option<Seq<char>>, default: Seq<char>) -> Seq<char> {
    match requested {
        Some(r) => r,
        None => default,
    }
}

/// An empty release or `latest` means the newest one.
pub open spec fn is_latest(rel: Seq<char>) -> bool {
    rel.len() == 0 || rel == "latest"@
}

/// Whether `rel` is empty or `latest`.
pub fn latest_requested(rel: &str) -> (r: bool)
    ensures
        r == is_latest(rel@),
{
    rel.unicode_len() == 0 || crate::text::same(rel, "latest")
}

impl DownloadPlan {
    /// A downloadable plan saving `file_name` under `target_dir`, with no size
    /// or checksum known yet.
    pub fn new(kind: Kind, url: String, file_name: String, target_dir: &str, arch: &str, source: &str)
        -> (r: Self)
        ensures
            r.kind == kind,
            r.url@ == url@,
            r.file_name@ == file_name@,
            r.target_path@ == spec_join(target_dir@, file_name@),
            r.arch@ == arch@,
            r.size_hint is None,
            r.checksum is None,
            r.downloadable,
            r.source@ == source@,
            r@ == new_plan(kind, url@, file_name@, target_dir@, arch@, source@),
    {
        let target_path = join(target_dir, file_name.as_str());
        DownloadPlan {
            kind,
            url,
            file_name,
            target_path,
            arch: String::from_str(arch),
            size_hint: None,
            checksum: None,
            downloadable: true,
            source: String::from_str(source),
        }
    }
}

/// Result of the availability probe (HEAD request).
#[derive(Debug)]
pub struct LinkCheck {
    pub url: String,
    pub status: u16,
    pub size_hint: Option<u64>,
    pub content_type: Option<String>,
    pub ok: bool,
}

impl LinkCheck {
    /// Reads a probe's answer: reachable when the status is in `200..400`,
    /// with the size and type the headers give.
    pub fn from_response(url: &str, resp: &HttpResponse) -> (r: Self)
        ensures
            r.url@ == url@,
            r.status == resp.status,
            r.size_hint == spec_content_length(resp@),
            opt_view(r.content_type) == first_header(resp@.headers, "content-type"@),
            r.ok == (200 <= resp.status && resp.status < 400),
    {
        let ok = 200 <= resp.status && resp.status < 400;
        let content_type = match resp.header("content-type") {
            Some(s) => Some(String::from_str(s)),
            None => None,
        };
        LinkCheck {
            url: String::from_str(url),
            status: resp.status,
            size_hint: resp.content_length(),
            content_type,
            ok,
        }
    }

    /// What a dry run reports for a plan that has only a page: no probe is
    /// made and the link is not reachable.
    pub fn page_only(url: &str) -> (r: Self)
        ensures
            r.url@ == url@,
            r.status == 0,
            r.size_hint is None,
            r.content_type is None,
            !r.ok,
    {
        LinkCheck { url: String::from_str(url), status: 0, size_hint: None, content_type: None, ok: false }
    }
}

/// Finds systems of one family in the catalog.
pub trait LinkResolver {
    /// The family this resolver serves.
    fn kind(&self) -> Kind;

    /// Whether the catalog knows `name`; `NotFound` when it does not.
    fn find(&self, name: &str) -> Result<(), Error>;
}

/// The per-source configuration handed to resolvers.
pub struct ResolverContext<'a> {
    pub config: &'a Config,
    pub kind: Kind,
}

// ---------------------------------------------------------------------------
// File names from URLs
// ---------------------------------------------------------------------------

/// The character sequences of an optional list of strings.
pub open spec fn opt_views(o: Option<Vec<String>>) -> Option<Seq<Seq<char>>> {
    match o {
        Some(v) => Some(crate::text::views(v@)),
        None => None,
    }
}

/// The path segments that `url::Url::parse` followed by `Url::path_segments`
/// gives for a URL; `None` when the URL does not parse or cannot be a base.
pub uninterp spec fn spec_url_path_segments(url: Seq<char>) -> Option<Seq<Seq<char>>>;

/// Calls `url::Url::parse` and then `Url::path_segments`. Believed: the result
/// is `spec_url_path_segments` of the input, and (as the crate documents)
/// every segment is a percent-encoded ASCII string.
#[verifier::external_body]
fn url_path_segments(url: &str) -> (r: Option<Vec<String>>)
    ensures
        opt_views(r) == spec_url_path_segments(url@),
        r matches Some(v) ==> forall|i: int| 0 <= i < v@.len() ==> is_ascii_chars(#[trigger] v@[i]@),
{
    let parsed = url::Url::parse(url).ok()?;
    let segments = parsed.path_segments()?;
    Some(segments.map(|s| s.to_string()).collect())
}

/// What `String::from_utf8_lossy` gives for a byte sequence.
pub uninterp spec fn spec_utf8_lossy(b: Seq<u8>) -> Seq<char>;

/// Calls `String::from_utf8_lossy`. Believed: the result is `spec_utf8_lossy`
/// of the bytes, which for valid UTF-8 is their decoding (as the standard
/// library documents).
#[verifier::external_body]
fn utf8_lossy(b: &[u8]) -> (r: String)
    ensures
        r@ == spec_utf8_lossy(b@),
        valid_utf8(b@) ==> r@ == decode_utf8(b@),
{
    String::from_utf8_lossy(b).to_string()
}

/// The value of an ASCII hexadecimal digit.
pub open spec fn hex_value(b: u8) -> Option<u8> {
    if 48 <= b && b <= 57 {
        Some((b - 48) as u8)
    } else if 97 <= b && b <= 102 {
        Some((b - 87) as u8)
    } else if 65 <= b && b <= 70 {
        Some((b - 55) as u8)
    } else {
        None
    }
}

/// What `u8::from_str_radix` gives for the two-byte string `b1 b2` in radix
/// 16: a `+` sign followed by one digit, or two digits.
pub open spec fn hex_pair(b1: u8, b2: u8) -> Option<u8> {
    if b1 == 43 {
        hex_value(b2)
    } else {
        match (hex_value(b1), hex_value(b2)) {
            (Some(h), Some(l)) => Some((h * 16 + l) as u8),
            _ => None,
        }
    }
}

/// Percent-decoding of bytes: `%` followed by two more bytes that read as a
/// hexadecimal byte becomes that byte; every other byte stays.
pub open spec fn spec_percent_decode(b: Seq<u8>) -> Seq<u8>
    decreases b.len(),
{
    if b.len() == 0 {
        b
    } else if b[0] == 37 && b.len() > 2 && hex_pair(b[1], b[2]) is Some {
        seq![hex_pair(b[1], b[2]).unwrap()] + spec_percent_decode(b.skip(3))
    } else {
        seq![b[0]] + spec_percent_decode(b.skip(1))
    }
}

/// The byte of an ASCII letter `a` to `z` in upper case; other bytes unchanged.
pub open spec fn ascii_upper(b: u8) -> u8 {
    if 97 <= b && b <= 122 { (b - 32) as u8 } else { b }
}

/// Hexadecimal digits read in either case: the `v`-th character of
/// `0123456789abcdef` and of `0123456789ABCDEF` both have value `v`.
pub proof fn lemma_hex_digits(v: int)
    requires
        0 <= v < 16,
    ensures
        hex_value("0123456789abcdef"@[v] as u8) == Some(v as u8),
        hex_value("0123456789ABCDEF"@[v] as u8) == Some(v as u8),
{
    reveal_strlit("0123456789abcdef");
    reveal_strlit("0123456789ABCDEF");
}

/// An escape decodes the same whatever the case of its hex digits: `%xy`
/// and `%XY` give the same byte, and the rest decodes the same.
pub proof fn lemma_percent_decode_ignores_case(b1: u8, b2: u8, rest: Seq<u8>)
    requires
        hex_value(b1) is Some || hex_value(ascii_upper(b1)) is Some,
        hex_value(b2) is Some || hex_value(ascii_upper(b2)) is Some,
    ensures
        spec_percent_decode(seq![37u8, b1, b2] + rest)
            == spec_percent_decode(seq![37u8, ascii_upper(b1), ascii_upper(b2)] + rest),
        spec_percent_decode(seq![37u8, b1, b2] + rest)
            == seq![hex_pair(b1, b2).unwrap()] + spec_percent_decode(rest),
{
    let a = seq![37u8, b1, b2] + rest;
    let u = seq![37u8, ascii_upper(b1), ascii_upper(b2)] + rest;
    assert(a[0] == 37 && a[1] == b1 && a[2] == b2);
    assert(u[0] == 37 && u[1] == ascii_upper(b1) && u[2] == ascii_upper(b2));
    assert(a.skip(3) =~= rest);
    assert(u.skip(3) =~= rest);
}

/// No `%` is followed by two bytes that end inside a character, which is
/// where taking them as a sub-string would panic.
pub open spec fn escapes_on_boundaries(b: Seq<u8>) -> bool {
    forall|i: int| 0 <= i && i + 2 < b.len() && b[i] == 37 ==> #[trigger] is_char_boundary(b, i + 3)
}

proof fn lemma_ascii_boundaries(b: Seq<u8>, k: int)
    requires
        valid_utf8(b),
        forall|i: int| 0 <= i < b.len() ==> #[trigger] b[i] < 128,
        0 <= k <= b.len(),
    ensures
        is_char_boundary(b, k),
    decreases b.len(),
{
    if k > 0 {
        assert(length_of_first_scalar(b) == 1);
        let rest = pop_first_scalar(b);
        assert(rest =~= b.subrange(1, b.len() as int));
        assert forall|i: int| 0 <= i < rest.len() implies #[trigger] rest[i] < 128 by {
            assert(rest[i] == b[i + 1]);
        }
        lemma_ascii_boundaries(rest, k - 1);
    }
}

proof fn lemma_ascii_escapes(s: &str)
    requires
        is_ascii(s),
    ensures
        escapes_on_boundaries(s.spec_bytes()),
{
    let b = s.spec_bytes();
    vstd::utf8::encode_utf8_valid_utf8(s@);
    vstd::utf8::is_ascii_chars_encode_utf8(s@);
    assert forall|i: int| 0 <= i < b.len() implies #[trigger] b[i] < 128 by {
        assert(s@[i] as u8 == b[i]);
    }
    assert forall|i: int| 0 <= i && i + 2 < b.len() && b[i] == 37 implies #[trigger] is_char_boundary(b, i + 3) by {
        lemma_ascii_boundaries(b, i + 3);
    }
}

fn hex_value_of(b: u8) -> (r: Option<u8>)
    ensures
        r == hex_value(b),
{
    if 48 <= b && b <= 57 {
        Some(b - 48)
    } else if 97 <= b && b <= 102 {
        Some(b - 87)
    } else if 65 <= b && b <= 70 {
        Some(b - 55)
    } else {
        None
    }
}

fn hex_pair_of(b1: u8, b2: u8) -> (r: Option<u8>)
    ensures
        r == hex_pair(b1, b2),
{
    if b1 == 43 {
        hex_value_of(b2)
    } else {
        match (hex_value_of(b1), hex_value_of(b2)) {
            (Some(h), Some(l)) => Some(h * 16 + l),
            _ => None,
        }
    }
}

/// Minimal percent-decoding of a path segment, read back as text with
/// invalid UTF-8 replaced.
fn percent_decode(s: &str) -> (r: String)
    requires
        escapes_on_boundaries(s.spec_bytes()),
    ensures
        r@ == decoded_text(spec_percent_decode(s.spec_bytes())),
{
    let bytes = s.as_bytes();
    let ghost b = s.spec_bytes();
    let mut out: Vec<u8> = Vec::new();
    let mut i: usize = 0;
    assert(b.skip(0) =~= b);
    while i < bytes.len()
        invariant
            bytes@ == b,
            i <= b.len(),
            spec_percent_decode(b) == out@ + spec_percent_decode(b.skip(i as int)),
        decreases bytes.len() - i,
    {
        let ghost t = b.skip(i as int);
        if bytes[i] == 37 && bytes.len() - i > 2 {
            assert(t[1] == b[i + 1] && t[2] == b[i + 2]);
            if let Some(v) = hex_pair_of(bytes[i + 1], bytes[i + 2]) {
                out.push(v);
                assert(t.skip(3) =~= b.skip(i + 3));
                i += 3;
                continue;
            }
        }
        out.push(bytes[i]);
        assert(t.skip(1) =~= b.skip(i + 1));
        i += 1;
    }
    assert(b.skip(i as int) =~= Seq::<u8>::empty());
    assert(out@ + Seq::<u8>::empty() =~= out@);
    utf8_lossy(out.as_slice())
}

/// The last non-empty segment.
pub open spec fn last_nonempty(segs: Seq<Seq<char>>) -> Option<Seq<char>>
    decreases segs.len(),
{
    if segs.len() == 0 {
        None
    } else if segs.last().len() > 0 {
        Some(segs.last())
    } else {
        last_nonempty(segs.drop_last())
    }
}

/// Bytes read as text: their decoding when they are valid UTF-8, else what
/// `String::from_utf8_lossy` makes of them.
pub open spec fn decoded_text(b: Seq<u8>) -> Seq<char> {
    if valid_utf8(b) { decode_utf8(b) } else { spec_utf8_lossy(b) }
}

/// A decoded name that names one file inside a directory: not empty, not
/// `.` or `..`, and without `/` or `\`.
pub open spec fn safe_name(d: Seq<char>) -> bool {
    &&& d.len() > 0
    &&& d != seq!['.']
    &&& d != seq!['.', '.']
    &&& !d.contains('/')
    &&& !d.contains('\\')
}

/// The file name a URL's path gives: its last non-empty segment
/// percent-decoded, unless that segment is blank or has no `.`, or what is
/// decoded is not a safe name (see `safe_name`); then the fallback.
pub open spec fn spec_name_from_segments(segs: Option<Seq<Seq<char>>>, fallback: Seq<char>) -> Seq<char> {
    match segs {
        None => fallback,
        Some(ss) => match last_nonempty(ss) {
            None => fallback,
            Some(seg) => if spec_trim(seg).len() == 0 || !seq_contains(seg, seq!['.']) {
                fallback
            } else {
                let d = decoded_text(spec_percent_decode(encode_utf8(seg)));
                if safe_name(d) {
                    d
                } else {
                    fallback
                }
            },
        },
    }
}

/// Whether a decoded name is safe (see `safe_name`).
fn is_safe_name(d: &str) -> (r: bool)
    ensures
        r == safe_name(d@),
{
    let n = d.unicode_len();
    if n == 0 {
        return false;
    }
    proof {
        reveal_strlit(".");
        reveal_strlit("..");
        assert("."@ =~= seq!['.']);
        assert(".."@ =~= seq!['.', '.']);
    }
    if same(d, ".") || same(d, "..") {
        return false;
    }
    let chars = chars_of(d);
    let mut i: usize = 0;
    while i < chars.len()
        invariant
            chars@ == d@,
            i <= chars@.len(),
            forall|k: int| 0 <= k < i ==> chars@[k] != '/' && chars@[k] != '\\',
        decreases chars.len() - i,
    {
        if chars[i] == '/' || chars[i] == '\\' {
            assert(d@[i as int] == chars@[i as int]);
            return false;
        }
        i += 1;
    }
    true
}

/// Picks the file name from a URL's path segments (as `url` reports them),
/// falling back to `fallback` when nothing sensible is found.
pub fn name_from_segments(segs: Option<Vec<String>>, fallback: &str) -> (r: String)
    requires
        segs matches Some(v) ==> forall|i: int| 0 <= i < v@.len() ==> is_ascii_chars(#[trigger] v@[i]@),
    ensures
        r@ == fallback@ || safe_name(r@),
        r@ == spec_name_from_segments(opt_views(segs), fallback@),
{
    let v = match segs {
        None => return String::from_str(fallback),
        Some(v) => v,
    };
    let ghost ss = crate::text::views(v@);
    let mut k: usize = v.len();
    assert(ss.take(v@.len() as int) =~= ss);
    while k > 0 && v[k - 1].unicode_len() == 0
        invariant
            ss == crate::text::views(v@),
            k <= v@.len(),
            last_nonempty(ss) == last_nonempty(ss.take(k as int)),
        decreases k,
    {
        assert(ss.take(k as int).drop_last() =~= ss.take(k - 1));
        k -= 1;
    }
    if k == 0 {
        return String::from_str(fallback);
    }
    assert(ss.take(k as int).last() == v@[k - 1]@);
    let seg = v[k - 1].as_str();
    let t = trim(seg);
    let has_dot = contains(seg, ".");
    proof {
        reveal_strlit(".");
        assert("."@ =~= seq!['.']);
    }
    if t.unicode_len() == 0 || !has_dot {
        return String::from_str(fallback);
    }
    proof {
        lemma_ascii_escapes(seg);
    }
    let decoded = percent_decode(seg);
    if is_safe_name(decoded.as_str()) {
        decoded
    } else {
        String::from_str(fallback)
    }
}

/// Derives a safe file name from a download URL: the last path segment
/// without query string, percent-decoded, falling back to `fallback` when
/// nothing sensible is found or the decoded segment would not name one file
/// inside the target directory.
pub fn file_name_from_url(url: &str, fallback: &str) -> (r: String)
    ensures
        r@ == fallback@ || safe_name(r@),
        r@ == spec_name_from_segments(spec_url_path_segments(url@), fallback@),
{
    let segs = url_path_segments(url);
    name_from_segments(segs, fallback)
}

} // verus!
