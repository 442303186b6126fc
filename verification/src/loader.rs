//! Loading an OpenAPI document: the size cap, the format sniff, the version
//! detection and the source record with its SHA-256.
//!
//! Reading a file or stdin, the DNS lookup and the download are I/O and are
//! made by the caller, which hands the bytes (or what went wrong) to the
//! functions here.
use vstd::prelude::*;
use crate::digest;
use crate::http::{DownloadError, DownloadErrorView};
use crate::safety::{self, SafetyError, SafetyErrorView, SafetyOpts};
use crate::text;
use crate::urls::{self, ParsedUrl, ParsedUrlView};

verus! {

/// The largest spec accepted: 10 MiB.
pub const SPEC_MAX_BYTES: usize = 10485760;

/// The download timeout, in seconds.
pub const SPEC_TIMEOUT_SECS: u64 = 15;

/// Why a spec could not be loaded.
#[derive(Debug, Clone)]
pub enum LoadError {
    /// The I/O error's text.
    Io(String),
    TooLarge,
    Safety(SafetyError),
    /// The download error's text.
    Download(String),
}

pub enum LoadErrorView {
    Io(Seq<char>),
    TooLarge,
    Safety(SafetyErrorView),
    Download(Seq<char>),
}

impl View for LoadError {
    type V = LoadErrorView;

    open spec fn view(&self) -> LoadErrorView {
        match self {
            LoadError::Io(s) => LoadErrorView::Io(s@),
            LoadError::TooLarge => LoadErrorView::TooLarge,
            LoadError::Safety(e) => LoadErrorView::Safety(e@),
            LoadError::Download(s) => LoadErrorView::Download(s@),
        }
    }
}

pub open spec fn load_message(e: LoadErrorView) -> Seq<char> {
    match e {
        LoadErrorView::Io(s) => "I/O error: "@ + s,
        LoadErrorView::TooLarge => "spec exceeds 10 MiB cap"@,
        LoadErrorView::Safety(e) => safety::safety_message(e),
        LoadErrorView::Download(s) => "download failed: "@ + s,
    }
}

impl LoadError {
    /// Exit code: 3 for a refused source, 4 for I/O, size and download failures.
    pub fn exit_code(&self) -> (r: i32)
        ensures
            r == (if self is Safety { 3i32 } else { 4i32 }),
    {
        match self {
            LoadError::Safety(_) => 3,
            LoadError::Io(_) | LoadError::Download(_) | LoadError::TooLarge => 4,
        }
    }

    /// The text the error is reported with (`load_message`).
    pub fn message(&self) -> (r: String)
        ensures
            r@ == load_message(self@),
    {
        match self {
            LoadError::Io(s) => text::cat("I/O error: ", s.as_str()),
            LoadError::TooLarge => "spec exceeds 10 MiB cap".to_owned(),
            LoadError::Safety(e) => e.message(),
            LoadError::Download(s) => text::cat("download failed: ", s.as_str()),
        }
    }
}

/// Where a spec comes from.
#[derive(Debug, Clone)]
pub enum SpecSource {
    /// A file path.
    File(String),
    Stdin,
    /// An `https` URL.
    Url(String),
}

pub enum SpecSourceView {
    File(Seq<char>),
    Stdin,
    Url(Seq<char>),
}

impl View for SpecSource {
    type V = SpecSourceView;

    open spec fn view(&self) -> SpecSourceView {
        match self {
            SpecSource::File(f) => SpecSourceView::File(f@),
            SpecSource::Stdin => SpecSourceView::Stdin,
            SpecSource::Url(u) => SpecSourceView::Url(u@),
        }
    }
}

/// The syntax of a spec document.
#[derive(Debug, Clone, Copy, PartialEq, Eq, Structural)]
pub enum SpecFormat {
    Json,
    Yaml,
}

/// The OpenAPI 3 minor version family, which decides the parser.
#[derive(Debug, Clone, Copy, PartialEq, Eq, Structural)]
pub enum OpenApiFamily {
    V3_0,
    V3_1,
}

/// The kind of source a spec was loaded from.
#[derive(Debug, Clone, Copy, PartialEq, Eq, Structural)]
pub enum SourceKind {
    File,
    Stdin,
    Url,
}

/// The record of where a spec came from and what it hashed to.
#[derive(Debug, Clone)]
pub struct SourceMeta {
    pub kind: SourceKind,
    /// The path, `-`, or the URL without credentials.
    pub locator: String,
    /// Lower-case hexadecimal SHA-256 of the bytes.
    pub sha256: String,
}

/// A spec as loaded: its bytes and what was read off them.
#[derive(Debug, Clone)]
pub struct LoadedSpec {
    pub bytes: Vec<u8>,
    pub source: SourceMeta,
    pub format: SpecFormat,
    pub family: OpenApiFamily,
    pub spec_version: String,
}

/// `u8::is_ascii_whitespace`: space, tab, line feed, form feed, carriage return.
pub open spec fn ascii_ws_byte(b: u8) -> bool {
    b == 0x20 || b == 0x09 || b == 0x0A || b == 0x0C || b == 0x0D
}

/// `i` is the first byte that is not ASCII whitespace.
pub open spec fn first_content(bytes: Seq<u8>, i: int) -> bool {
    0 <= i < bytes.len() && !ascii_ws_byte(bytes[i]) && forall|j: int|
        0 <= j < i ==> ascii_ws_byte(#[trigger] bytes[j])
}

/// JSON when the first byte that is not ASCII whitespace is `{` or `[`;
/// YAML otherwise (an empty or all-blank document too).
pub open spec fn sniff_spec(bytes: Seq<u8>) -> SpecFormat {
    if exists|i: int| first_content(bytes, i) {
        let i = choose|i: int| first_content(bytes, i);
        if bytes[i] == 0x7B || bytes[i] == 0x5B {
            SpecFormat::Json
        } else {
            SpecFormat::Yaml
        }
    } else {
        SpecFormat::Yaml
    }
}

/// JSON or YAML by the first non-blank byte (`sniff_spec`).
pub fn sniff_format(bytes: &[u8]) -> (r: SpecFormat)
    ensures
        r == sniff_spec(bytes@),
{
    let mut i: usize = 0;
    while i < bytes.len()
        invariant
            i <= bytes@.len(),
            forall|j: int| 0 <= j < i ==> ascii_ws_byte(#[trigger] bytes@[j]),
        decreases bytes@.len() - i,
    {
        let b = bytes[i];
        if !(b == 0x20 || b == 0x09 || b == 0x0A || b == 0x0C || b == 0x0D) {
            proof {
                assert(first_content(bytes@, i as int));
                let c = choose|k: int| first_content(bytes@, k);
                assert(first_content(bytes@, c));
                if c < i {
                    assert(ascii_ws_byte(bytes@[c]));
                } else if c > i {
                    assert(ascii_ws_byte(bytes@[i as int]));
                }
            }
            if b == 0x7B || b == 0x5B {
                return SpecFormat::Json;
            } else {
                return SpecFormat::Yaml;
            }
        }
        i = i + 1;
    }
    assert(!exists|k: int| first_content(bytes@, k));
    SpecFormat::Yaml
}

/// The string under a top-level key of a JSON document, as
/// `serde_json::from_slice::<serde_json::Value>` then `get(key)` and
/// `as_str` read it; `None` where the bytes do not parse, the key is absent or
/// its value is not a string.
pub uninterp spec fn json_top_str(bytes: Seq<u8>, key: Seq<char>) -> Option<Seq<char>>;

/// The same for a YAML document read with `serde_yaml::from_slice`.
pub uninterp spec fn yaml_top_str(bytes: Seq<u8>, key: Seq<char>) -> Option<Seq<char>>;

/// `serde_json::from_slice` of the document, then the string under `key`.
/// Claims only that the result is the one `json_top_str` names.
#[verifier::external_body]
fn json_top_string(bytes: &[u8], key: &str) -> (r: Option<String>)
    ensures
        urls::opt_str_view(r) == json_top_str(bytes@, key@),
{
    let v: serde_json::Value = serde_json::from_slice(bytes).ok()?;
    v.get(key).and_then(|s| s.as_str()).map(|s| s.to_owned())
}

/// `serde_yaml::from_slice` of the document, then the string under `key`.
/// Claims only that the result is the one `yaml_top_str` names.
#[verifier::external_body]
fn yaml_top_string(bytes: &[u8], key: &str) -> (r: Option<String>)
    ensures
        urls::opt_str_view(r) == yaml_top_str(bytes@, key@),
{
    let v: serde_json::Value = serde_yaml::from_slice(bytes).ok()?;
    v.get(key).and_then(|s| s.as_str()).map(|s| s.to_owned())
}

/// The string under a top-level key of the document in the given format.
pub open spec fn top_str(bytes: Seq<u8>, format: SpecFormat, key: Seq<char>) -> Option<Seq<char>> {
    match format {
        SpecFormat::Json => json_top_str(bytes, key),
        SpecFormat::Yaml => yaml_top_str(bytes, key),
    }
}

/// The string under a top-level key of the document (`top_str`).
pub fn top_level_string(bytes: &[u8], format: SpecFormat, key: &str) -> (r: Option<String>)
    ensures
        urls::opt_str_view(r) == top_str(bytes@, format, key@),
{
    match format {
        SpecFormat::Json => json_top_string(bytes, key),
        SpecFormat::Yaml => yaml_top_string(bytes, key),
    }
}

/// The declared `openapi` version (empty when absent), and its family:
/// 3.0 for versions that start with `3.0`, 3.1 otherwise.
pub open spec fn version_spec(bytes: Seq<u8>, format: SpecFormat) -> (OpenApiFamily, Seq<char>) {
    let ver = match top_str(bytes, format, "openapi"@) {
        Some(v) => v,
        None => Seq::empty(),
    };
    if text::has_prefix(ver, "3.0"@) {
        (OpenApiFamily::V3_0, ver)
    } else {
        (OpenApiFamily::V3_1, ver)
    }
}

/// The declared version and its family (`version_spec`).
pub fn detect_version(bytes: &[u8], format: SpecFormat) -> (r: (OpenApiFamily, String))
    ensures
        (r.0, r.1@) == version_spec(bytes@, format),
{
    let ver = match top_level_string(bytes, format, "openapi") {
        Some(v) => v,
        None => String::new(),
    };
    let vv = text::chars_of(ver.as_str());
    let p = text::chars_of("3.0");
    if text::vec_has_prefix(&vv, &p) {
        (OpenApiFamily::V3_0, ver)
    } else {
        (OpenApiFamily::V3_1, ver)
    }
}

pub open spec fn loaded_ok(
    r: LoadedSpec,
    bytes: Seq<u8>,
    kind: SourceKind,
    locator: Seq<char>,
) -> bool {
    &&& r.bytes@ == bytes
    &&& r.source.kind == kind
    &&& r.source.locator@ == locator
    &&& r.source.sha256@ == digest::hex_lower(digest::sha256_of(bytes))
    &&& r.format == sniff_spec(bytes)
    &&& (r.family, r.spec_version@) == version_spec(bytes, r.format)
}

/// Bytes of a spec turned into a `LoadedSpec`: refused above the cap, else
/// sniffed, versioned and hashed.
pub fn finish(bytes: Vec<u8>, kind: SourceKind, locator: String) -> (r: Result<LoadedSpec, LoadError>)
    ensures
        match r {
            Ok(l) => bytes@.len() <= SPEC_MAX_BYTES && loaded_ok(l, bytes@, kind, locator@)
                && l.source.sha256@.len() == 64,
            Err(e) => bytes@.len() > SPEC_MAX_BYTES && e@ == LoadErrorView::TooLarge,
        },
{
    if bytes.len() > SPEC_MAX_BYTES {
        return Err(LoadError::TooLarge);
    }
    let format = sniff_format(bytes.as_slice());
    let (family, spec_version) = detect_version(bytes.as_slice(), format);
    let digest = digest::sha256(bytes.as_slice());
    let sha256 = digest::hex_encode(digest.as_slice());
    Ok(LoadedSpec {
        bytes,
        source: SourceMeta { kind, locator, sha256 },
        format,
        family,
        spec_version,
    })
}

/// Spec bytes already in memory (`finish`).
pub fn load_bytes(bytes: Vec<u8>, kind: SourceKind, locator: &str) -> (r: Result<LoadedSpec, LoadError>)
    ensures
        match r {
            Ok(l) => bytes@.len() <= SPEC_MAX_BYTES && loaded_ok(l, bytes@, kind, locator@)
                && l.source.sha256@.len() == 64,
            Err(e) => bytes@.len() > SPEC_MAX_BYTES && e@ == LoadErrorView::TooLarge,
        },
{
    if bytes.len() > SPEC_MAX_BYTES {
        return Err(LoadError::TooLarge);
    }
    finish(bytes, kind, locator.to_owned())
}

/// One chunk read from a file or stdin: appended unless the spec would pass
/// the cap, which is `TooLarge`.
pub fn accept_chunk(buf: &mut Vec<u8>, chunk: &[u8]) -> (r: Result<(), LoadError>)
    ensures
        r is Ok <==> !crate::http::over_cap(old(buf)@.len(), chunk@.len(), SPEC_MAX_BYTES as nat),
        r is Ok ==> final(buf)@ == old(buf)@ + chunk@,
        r is Err ==> final(buf)@ == old(buf)@ && r->Err_0@ == LoadErrorView::TooLarge,
{
    if crate::http::capped_append(buf, chunk, SPEC_MAX_BYTES) {
        Ok(())
    } else {
        Err(LoadError::TooLarge)
    }
}

/// How a failed download is reported while loading.
pub fn download_outcome(r: Result<Vec<u8>, DownloadError>) -> (out: Result<Vec<u8>, LoadError>)
    ensures
        match r {
            Ok(b) => out is Ok && out->Ok_0@ == b@,
            Err(e) => out is Err && match e@ {
                DownloadErrorView::TooLarge => out->Err_0@ == LoadErrorView::TooLarge,
                DownloadErrorView::Failed(m) => out->Err_0@ == LoadErrorView::Download(m),
            },
        },
{
    match r {
        Ok(bytes) => Ok(bytes),
        Err(DownloadError::TooLarge) => Err(LoadError::TooLarge),
        Err(DownloadError::Failed(msg)) => Err(LoadError::Download(msg)),
    }
}

/// A spec URL checked for scheme and host, with the host to resolve next
/// (`host_str`, empty when there is none).
pub fn check_spec_url(raw: &str, opts: SafetyOpts) -> (r: Result<(ParsedUrl, String), LoadError>)
    ensures
        match r {
            Ok((u, h)) => safety::parse_https_spec(raw@, opts.allow_private) == Ok::<
                ParsedUrlView,
                SafetyErrorView,
            >(u@) && h@ == match u@.host_str {
                Some(s) => s,
                None => Seq::empty(),
            },
            Err(e) => safety::parse_https_spec(raw@, opts.allow_private) is Err && e@
                == LoadErrorView::Safety(safety::parse_https_spec(raw@, opts.allow_private)->Err_0),
        },
{
    match safety::parse_https_url_with(raw, opts) {
        Ok(u) => {
            let h = match &u.host_str {
                Some(s) => s.clone(),
                None => String::new(),
            };
            Ok((u, h))
        },
        Err(e) => Err(LoadError::Safety(e)),
    }
}

/// The locator recorded for a URL source: the URL without user name and
/// password, or the raw text where it does not parse.
pub fn url_locator(raw: &str) -> (r: String)
    ensures
        r@ == match urls::url_without_credentials(raw@) {
            Some(s) => s,
            None => raw@,
        },
{
    match urls::url_strip_credentials(raw) {
        Some(s) => s,
        None => raw.to_owned(),
    }
}

} // verus!
