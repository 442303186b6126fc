//! The Fetch Hive account API as the command-line tool sees it: the API URL
//! check, how an error response is reported, the account and quota labels,
//! and where a token comes from.
//!
//! The HTTP calls, the files and the environment are left to the caller,
//! which hands the status, the body text and the values it read to the
//! functions here.
use vstd::prelude::*;
use crate::cli_error::{CliError, CliErrorView};
use crate::text;
use crate::urls;

verus! {

/// The API used when nothing else is configured.
pub const DEFAULT_API_URL: &'static str = "https://api.fetchhive.com";

/// What the tool tells the API about itself.
#[derive(Debug, Clone)]
pub struct ClientMeta {
    pub name: String,
    pub version: String,
    pub os: String,
    pub hostname: String,
}

/// A persistent tunnel endpoint of the account.
#[derive(Debug, Clone)]
pub struct TunnelEndpoint {
    pub slug: String,
    pub public_url: String,
    pub online: bool,
    pub last_connected_at: Option<String>,
    pub created_at: Option<String>,
}

/// The account behind a token.
#[derive(Debug, Clone)]
pub struct Me {
    pub account: Account,
    pub user_email: String,
    pub token: TokenInfo,
    pub limits: EndpointLimit,
}

#[derive(Debug, Clone)]
pub struct Account {
    pub id: String,
    pub name: Option<String>,
    pub plan_type: Option<String>,
}

#[derive(Debug, Clone)]
pub struct TokenInfo {
    pub name: String,
    pub last_four: String,
    pub created_at: String,
}

/// Tunnel endpoints used, and the cap if there is one.
#[derive(Debug, Clone, Copy)]
pub struct EndpointLimit {
    pub used: u64,
    pub limit: Option<u64>,
}

/// What revoking the token did.
#[derive(Debug, Clone, Copy, PartialEq, Eq, Structural)]
pub enum Revoke {
    Revoked,
    AlreadyGone,
}

/// Why `whoami` failed: the token was revoked, or something else.
#[derive(Debug, Clone)]
pub enum WhoamiError {
    Revoked(CliError),
    Other(CliError),
}

impl WhoamiError {
    /// The error either way.
    pub fn into_cli(self) -> (r: CliError)
        ensures
            r == match self {
                WhoamiError::Revoked(e) => e,
                WhoamiError::Other(e) => e,
            },
    {
        match self {
            WhoamiError::Revoked(err) => err,
            WhoamiError::Other(err) => err,
        }
    }
}

/// The string under a top-level key of a JSON body, as
/// `serde_json::from_str::<serde_json::Value>` then `get(key)` and `as_str`
/// read it; `None` where the body does not parse, the key is absent or its
/// value is not a string.
pub uninterp spec fn json_body_str(body: Seq<char>, key: Seq<char>) -> Option<Seq<char>>;

/// Whether a JSON body parses and has the top-level key.
pub uninterp spec fn json_body_has(body: Seq<char>, key: Seq<char>) -> bool;

/// Parse then `get(key)` and `as_str`. Claims only that the result is the one
/// `json_body_str` names.
#[verifier::external_body]
fn body_str_field(body: &str, key: &str) -> (r: Option<String>)
    ensures
        urls::opt_str_view(r) == json_body_str(body@, key@),
{
    let v: serde_json::Value = serde_json::from_str(body).ok()?;
    v.get(key).and_then(|s| s.as_str()).map(|s| s.to_owned())
}

/// Parse then `get(key).is_some()`. Claims only that the result is the one
/// `json_body_has` names.
#[verifier::external_body]
fn body_has_field(body: &str, key: &str) -> (r: bool)
    ensures
        r == json_body_has(body@, key@),
{
    match serde_json::from_str::<serde_json::Value>(body) {
        Ok(v) => v.get(key).is_some(),
        Err(_) => false,
    }
}

pub open spec fn or_empty(o: Option<Seq<char>>) -> Seq<char> {
    match o {
        Some(s) => s,
        None => Seq::empty(),
    }
}

/// How an error response of the API is reported. A rate limit names the
/// wait; a body that carries a token is never echoed; an unavailable login,
/// a revoked token, then the error code and message of the body.
pub open spec fn map_status_spec(status: u16, body: Seq<char>, retry_after: Option<u64>) -> CliErrorView {
    let code = or_empty(json_body_str(body, "error_code"@));
    if status == 429 {
        CliErrorView::Upstream(
            "Fetch Hive login is rate limited."@ + match retry_after {
                Some(secs) => " Retry after "@ + text::dec_str(secs as nat) + " seconds."@,
                None => Seq::empty(),
            },
        )
    } else if json_body_has(body, "access_token"@) || text::contains_seq(body, "fh_cli_"@) {
        CliErrorView::Upstream("Fetch Hive returned a token on an error response"@)
    } else if code == "cli_device_unavailable"@ || status == 503 {
        CliErrorView::Upstream(
            "Fetch Hive login is temporarily unavailable; local commands and anonymous tunnels still work."@,
        )
    } else if status == 401 || code == "cli_token_invalid"@ || code == "unauthorized"@ {
        CliErrorView::Usage("Token revoked or expired; run `mcp-gateway login`"@)
    } else {
        let message = match json_body_str(body, "error"@) {
            Some(m) => m,
            None => match json_body_str(body, "message"@) {
                Some(m) => m,
                None => "request failed"@,
            },
        };
        if code.len() == 0 {
            CliErrorView::Upstream(
                "Fetch Hive returned HTTP "@ + text::dec_str(status as nat) + ": "@ + message,
            )
        } else {
            CliErrorView::Upstream(code + ": "@ + message)
        }
    }
}

/// How an error response of the API is reported (`map_status_spec`).
pub fn map_status(status: u16, body: &str, retry_after: Option<u64>) -> (r: CliError)
    ensures
        r@ == map_status_spec(status, body@, retry_after),
{
    if status == 429 {
        let wait = match retry_after {
            Some(secs) => {
                let d = text::dec_string(secs);
                text::cat3(" Retry after ", d.as_str(), " seconds.")
            },
            None => String::new(),
        };
        return CliError::Upstream(text::cat("Fetch Hive login is rate limited.", wait.as_str()));
    }
    let bv = text::chars_of(body);
    if body_has_field(body, "access_token") || text::vec_contains(&bv, &text::chars_of("fh_cli_")) {
        return CliError::upstream("Fetch Hive returned a token on an error response");
    }
    let code = match body_str_field(body, "error_code") {
        Some(c) => c,
        None => String::new(),
    };
    if text::str_eq(code.as_str(), "cli_device_unavailable") || status == 503 {
        return CliError::upstream(
            "Fetch Hive login is temporarily unavailable; local commands and anonymous tunnels still work.",
        );
    }
    if status == 401 || text::str_eq(code.as_str(), "cli_token_invalid") || text::str_eq(
        code.as_str(),
        "unauthorized",
    ) {
        return CliError::usage("Token revoked or expired; run `mcp-gateway login`");
    }
    let message = match body_str_field(body, "error") {
        Some(m) => m,
        None => match body_str_field(body, "message") {
            Some(m) => m,
            None => "request failed".to_owned(),
        },
    };
    if code.as_str().unicode_len() == 0 {
        let d = text::dec_string(status as u64);
        let a = text::cat3("Fetch Hive returned HTTP ", d.as_str(), ": ");
        CliError::Upstream(text::cat(a.as_str(), message.as_str()))
    } else {
        CliError::Upstream(text::cat3(code.as_str(), ": ", message.as_str()))
    }
}

/// `StatusCode::is_success`: 200 to 299.
pub open spec fn is_success(status: u16) -> bool {
    200 <= status <= 299
}

/// A revoked token: status 401, or an error code that says so.
pub open spec fn revoked_spec(status: u16, body: Seq<char>) -> bool {
    status == 401 || json_body_str(body, "error_code"@) == Some("cli_token_invalid"@)
        || json_body_str(body, "error_code"@) == Some("unauthorized"@)
}

/// Whether an error response says the token was revoked (`revoked_spec`).
pub fn revoked_response(status: u16, body: &str) -> (r: bool)
    ensures
        r == revoked_spec(status, body@),
{
    if status == 401 {
        return true;
    }
    match body_str_field(body, "error_code") {
        Some(c) => text::str_eq(c.as_str(), "cli_token_invalid") || text::str_eq(
            c.as_str(),
            "unauthorized",
        ),
        None => false,
    }
}

/// A failed `whoami`: revoked, or something else, with the reported error.
pub fn whoami_error(status: u16, body: &str, retry_after: Option<u64>) -> (r: WhoamiError)
    ensures
        match r {
            WhoamiError::Revoked(e) => revoked_spec(status, body@) && e@ == map_status_spec(
                status,
                body@,
                retry_after,
            ),
            WhoamiError::Other(e) => !revoked_spec(status, body@) && e@ == map_status_spec(
                status,
                body@,
                retry_after,
            ),
        },
{
    let err = map_status(status, body, retry_after);
    if revoked_response(status, body) {
        WhoamiError::Revoked(err)
    } else {
        WhoamiError::Other(err)
    }
}

/// The answer to revoking the token: success revokes it, 401 and 404 mean it
/// was already gone, anything else is an error.
pub fn revoke_outcome(status: u16, body: &str, retry_after: Option<u64>) -> (r: Result<Revoke, CliError>)
    ensures
        match r {
            Ok(k) => (is_success(status) && k == Revoke::Revoked) || (!is_success(status) && (
            status == 401 || status == 404) && k == Revoke::AlreadyGone),
            Err(e) => !is_success(status) && status != 401 && status != 404 && e@
                == map_status_spec(status, body@, retry_after),
        },
{
    let success = 200 <= status && status <= 299;
    if status == 401 || status == 404 || success {
        return Ok(
            if success {
                Revoke::Revoked
            } else {
                Revoke::AlreadyGone
            },
        );
    }
    Err(map_status(status, body, retry_after))
}

/// A value trimmed of whitespace, or nothing if that leaves it empty.
pub open spec fn blank_spec(v: Option<Seq<char>>) -> Option<Seq<char>> {
    match v {
        Some(s) => if text::trim_ws(s).len() > 0 {
            Some(text::trim_ws(s))
        } else {
            None
        },
        None => None,
    }
}

/// A value trimmed of whitespace, or nothing if that leaves it empty (`blank_spec`).
pub fn blank_to_none(value: Option<&str>) -> (r: Option<String>)
    ensures
        urls::opt_str_view(r) == blank_spec(crate::names::opt_view(value)),
{
    match value {
        Some(s) => {
            let t = text::trim(s);
            if t.len() > 0 {
                Some(text::string_of(&t))
            } else {
                None
            }
        },
        None => None,
    }
}

pub open spec fn quota_spec(limit: EndpointLimit) -> Seq<char> {
    match limit.limit {
        Some(cap) => text::dec_str(limit.used as nat) + "/"@ + text::dec_str(cap as nat),
        None => text::dec_str(limit.used as nat) + " (no cap)"@,
    }
}

/// `used/cap`, or `used (no cap)`.
pub fn quota_text(limit: &EndpointLimit) -> (r: String)
    ensures
        r@ == quota_spec(*limit),
{
    let u = text::dec_string(limit.used);
    match limit.limit {
        Some(cap) => {
            let c = text::dec_string(cap);
            text::cat3(u.as_str(), "/", c.as_str())
        },
        None => text::cat(u.as_str(), " (no cap)"),
    }
}

pub open spec fn quota_line_spec(limit: EndpointLimit) -> Seq<char> {
    match limit.limit {
        Some(cap) => if limit.used >= cap {
            quota_spec(limit) + " endpoints used · delete one or upgrade"@
        } else {
            quota_spec(limit) + " endpoints used"@
        },
        None => quota_spec(limit) + " endpoints used"@,
    }
}

/// The quota line: at the cap it says to delete an endpoint or upgrade.
pub fn quota_line(limit: &EndpointLimit) -> (r: String)
    ensures
        r@ == quota_line_spec(*limit),
{
    let q = quota_text(limit);
    match limit.limit {
        Some(cap) => {
            if limit.used >= cap {
                return text::cat(q.as_str(), " endpoints used · delete one or upgrade");
            }
        },
        None => {},
    }
    text::cat(q.as_str(), " endpoints used")
}

/// What `char::to_uppercase` yields for a character, collected.
pub uninterp spec fn char_upper_text(c: char) -> Seq<char>;

/// `char::to_uppercase` collected into a `String`. For an ASCII character
/// the documented mapping is the ASCII one; other characters are only named.
#[verifier::external_body]
fn char_to_upper(c: char) -> (r: String)
    ensures
        r@ == char_upper_text(c),
        text::is_ascii_char(c) ==> r@ == seq![text::upper(c)],
{
    c.to_uppercase().collect::<String>()
}

/// A character upper-cased: the ASCII mapping for an ASCII character, what
/// `char::to_uppercase` yields for any other.
pub open spec fn upper_first(c: char) -> Seq<char> {
    if text::is_ascii_char(c) {
        seq![text::upper(c)]
    } else {
        char_upper_text(c)
    }
}

/// The plan's name with its first letter upper-cased; `Unknown` when there
/// is none.
pub open spec fn plan_spec(plan: Option<Seq<char>>) -> Seq<char> {
    match blank_spec(plan) {
        Some(p) => upper_first(p[0]) + p.skip(1),
        None => "Unknown"@,
    }
}

/// The plan label (`plan_spec`).
pub fn plan_label(plan: Option<&str>) -> (r: String)
    ensures
        r@ == plan_spec(crate::names::opt_view(plan)),
{
    match blank_to_none(plan) {
        Some(p) => {
            let v = text::chars_of(p.as_str());
            let first = char_to_upper(v[0]);
            let mut out = text::chars_of(first.as_str());
            let mut i: usize = 1;
            let ghost head = out@;
            while i < v.len()
                invariant
                    1 <= i <= v.len(),
                    out@ == head + v@.subrange(1, i as int),
                decreases v.len() - i,
            {
                out.push(v[i]);
                assert(v@.subrange(1, i + 1) =~= v@.subrange(1, i as int).push(v@[i as int]));
                i = i + 1;
            }
            assert(v@.subrange(1, v.len() as int) =~= v@.skip(1));
            text::string_of(&out)
        },
        None => "Unknown".to_owned(),
    }
}

/// `name (Plan)`, or only the plan label without a name.
pub open spec fn account_spec(name: Option<Seq<char>>, plan: Option<Seq<char>>) -> Seq<char> {
    match blank_spec(name) {
        Some(n) => n + " ("@ + plan_spec(plan) + ")"@,
        None => plan_spec(plan),
    }
}

/// The account label (`account_spec`).
pub fn account_label(name: Option<&str>, plan: Option<&str>) -> (r: String)
    ensures
        r@ == account_spec(crate::names::opt_view(name), crate::names::opt_view(plan)),
{
    let p = plan_label(plan);
    match blank_to_none(name) {
        Some(n) => {
            let a = text::cat3(n.as_str(), " (", p.as_str());
            text::cat(a.as_str(), ")")
        },
        None => p,
    }
}

/// The trimmed value when it is not empty.
pub open spec fn nonblank(v: Option<Seq<char>>) -> Option<Seq<char>> {
    blank_spec(v)
}

/// The API URL: the flag, else `MCP_GATEWAY_API_URL`, else the stored one,
/// each trimmed and only when not empty; else the default.
pub open spec fn api_url_spec(flag: Option<Seq<char>>, env: Option<Seq<char>>, stored: Option<Seq<char>>) -> Seq<char> {
    if nonblank(flag) is Some {
        nonblank(flag)->0
    } else if nonblank(env) is Some {
        nonblank(env)->0
    } else if nonblank(stored) is Some {
        nonblank(stored)->0
    } else {
        DEFAULT_API_URL@
    }
}

/// The API URL to use (`api_url_spec`); `env` is the value of `MCP_GATEWAY_API_URL`.
pub fn api_url_for(flag: Option<&str>, env: Option<&str>, stored: Option<&str>) -> (r: String)
    ensures
        r@ == api_url_spec(
            crate::names::opt_view(flag),
            crate::names::opt_view(env),
            crate::names::opt_view(stored),
        ),
{
    if let Some(f) = blank_to_none(flag) {
        return f;
    }
    if let Some(e) = blank_to_none(env) {
        return e;
    }
    if let Some(s) = blank_to_none(stored) {
        return s;
    }
    DEFAULT_API_URL.to_owned()
}

/// Where a token came from.
#[derive(Debug, Clone, Copy, PartialEq, Eq, Structural)]
pub enum TokenSource {
    Flag,
    Env,
    File,
}

/// A token and where it came from.
#[derive(Debug, Clone)]
pub struct ResolvedToken {
    pub token: String,
    pub source: TokenSource,
}

/// The token: the flag, else `MCP_GATEWAY_CLI_TOKEN`, each trimmed and only
/// when not empty; else the stored token as it is.
pub open spec fn token_spec(flag: Option<Seq<char>>, env: Option<Seq<char>>, stored: Option<Seq<char>>) -> Option<(Seq<char>, TokenSource)> {
    if nonblank(flag) is Some {
        Some((nonblank(flag)->0, TokenSource::Flag))
    } else if nonblank(env) is Some {
        Some((nonblank(env)->0, TokenSource::Env))
    } else {
        match stored {
            Some(t) => Some((t, TokenSource::File)),
            None => None,
        }
    }
}

/// The token to use (`token_spec`); `env` is the value of `MCP_GATEWAY_CLI_TOKEN`.
pub fn resolve_token(flag: Option<&str>, env: Option<&str>, stored: Option<&str>) -> (r: Option<ResolvedToken>)
    ensures
        match r {
            Some(t) => token_spec(
                crate::names::opt_view(flag),
                crate::names::opt_view(env),
                crate::names::opt_view(stored),
            ) == Some((t.token@, t.source)),
            None => token_spec(
                crate::names::opt_view(flag),
                crate::names::opt_view(env),
                crate::names::opt_view(stored),
            ) is None,
        },
{
    if let Some(f) = blank_to_none(flag) {
        return Some(ResolvedToken { token: f, source: TokenSource::Flag });
    }
    if let Some(e) = blank_to_none(env) {
        return Some(ResolvedToken { token: e, source: TokenSource::Env });
    }
    match stored {
        Some(t) => Some(ResolvedToken { token: t.to_owned(), source: TokenSource::File }),
        None => None,
    }
}

/// The stored login.
#[derive(Debug, Clone)]
pub struct StoredCredentials {
    pub api_url: String,
    pub token: String,
    pub account_id: String,
    pub account_name: Option<String>,
    pub user_email: String,
    pub plan_type: Option<String>,
    pub logged_in_at: String,
}

/// What reading the credentials file gave: no file, a read error, a parse
/// error (each with its text), or the parsed `[fetchhive]` section.
#[derive(Debug, Clone)]
pub enum CredentialsFile {
    Absent,
    ReadFailed(String),
    ParseFailed(String),
    Parsed(StoredCredentials),
}

pub open spec fn read_error_text(path: Seq<char>, err: Seq<char>) -> Seq<char> {
    "could not read "@ + path + ": "@ + err
}

pub open spec fn parse_error_text(path: Seq<char>, err: Seq<char>) -> Seq<char> {
    "could not parse "@ + path + ": "@ + err
}

pub open spec fn empty_token_text(path: Seq<char>) -> Seq<char> {
    path + " has an empty token. Run `mcp-gateway login --force`."@
}

/// The stored login from what reading the file at `path` gave: no file is no
/// login; a read error is an I/O error and a parse error a usage error, each
/// naming the file; an empty token is a usage error; otherwise the section,
/// with a blank account name or plan dropped and the others trimmed.
pub fn load(path: &str, found: CredentialsFile) -> (r: Result<Option<StoredCredentials>, CliError>)
    ensures
        match r {
            Ok(Some(c)) => loaded_email_spec(path@, found) == Ok::<Option<Seq<char>>, CliErrorView>(
                Some(c.user_email@),
            ),
            Ok(None) => loaded_email_spec(path@, found) == Ok::<Option<Seq<char>>, CliErrorView>(None),
            Err(e) => loaded_email_spec(path@, found) == Err::<Option<Seq<char>>, CliErrorView>(e@),
        },
        match found {
            CredentialsFile::Absent => r matches Ok(None),
            CredentialsFile::ReadFailed(e) => r matches Err(err) && err@ == CliErrorView::Io(
                read_error_text(path@, e@),
            ),
            CredentialsFile::ParseFailed(e) => r matches Err(err) && err@ == CliErrorView::Usage(
                parse_error_text(path@, e@),
            ),
            CredentialsFile::Parsed(s) => if s.token@.len() == 0 {
                r matches Err(err) && err@ == CliErrorView::Usage(empty_token_text(path@))
            } else {
                r matches Ok(Some(c)) && c.api_url@ == s.api_url@ && c.token@ == s.token@
                    && c.account_id@ == s.account_id@ && c.user_email@ == s.user_email@
                    && c.logged_in_at@ == s.logged_in_at@
                    && urls::opt_str_view(c.account_name) == blank_spec(urls::opt_str_view(s.account_name))
                    && urls::opt_str_view(c.plan_type) == blank_spec(urls::opt_str_view(s.plan_type))
            },
        },
{
    match found {
        CredentialsFile::Absent => Ok(None),
        CredentialsFile::ReadFailed(e) => {
            let head = text::cat3("could not read ", path, ": ");
            let msg = text::cat(head.as_str(), e.as_str());
            proof {
                reveal_strlit("could not read ");
                reveal_strlit(": ");
            }
            Err(CliError::Io(msg))
        },
        CredentialsFile::ParseFailed(e) => {
            let head = text::cat3("could not parse ", path, ": ");
            let msg = text::cat(head.as_str(), e.as_str());
            Err(CliError::Usage(msg))
        },
        CredentialsFile::Parsed(s) => {
            if s.token.as_str().unicode_len() == 0 {
                let msg = text::cat(path, " has an empty token. Run `mcp-gateway login --force`.");
                return Err(CliError::Usage(msg));
            }
            let account_name = match &s.account_name {
                Some(n) => blank_to_none(Some(n.as_str())),
                None => None,
            };
            let plan_type = match &s.plan_type {
                Some(p) => blank_to_none(Some(p.as_str())),
                None => None,
            };
            Ok(Some(StoredCredentials {
                api_url: s.api_url,
                token: s.token,
                account_id: s.account_id,
                account_name,
                user_email: s.user_email,
                plan_type,
                logged_in_at: s.logged_in_at,
            }))
        },
    }
}

/// What `doctor` says about the stored login.
#[derive(Debug, Clone)]
pub enum DoctorNote {
    Missing,
    LoggedIn { email: String },
    Loose { email: String },
    Unreadable(String),
}

/// What `doctor` says, as plain values.
pub enum DoctorNoteView {
    Missing,
    LoggedIn(Seq<char>),
    Loose(Seq<char>),
    Unreadable(Seq<char>),
}

impl View for DoctorNote {
    type V = DoctorNoteView;

    open spec fn view(&self) -> DoctorNoteView {
        match self {
            DoctorNote::Missing => DoctorNoteView::Missing,
            DoctorNote::LoggedIn { email } => DoctorNoteView::LoggedIn(email@),
            DoctorNote::Loose { email } => DoctorNoteView::Loose(email@),
            DoctorNote::Unreadable(m) => DoctorNoteView::Unreadable(m@),
        }
    }
}

pub open spec fn loaded_view(l: Result<Option<String>, CliError>) -> Result<Option<Seq<char>>, CliErrorView> {
    match l {
        Ok(Some(e)) => Ok(Some(e@)),
        Ok(None) => Ok(None),
        Err(e) => Err(e@),
    }
}

pub open spec fn mode_view(m: Result<Option<u32>, String>) -> Result<Option<u32>, Seq<char>> {
    match m {
        Ok(o) => Ok(o),
        Err(e) => Err(e@),
    }
}

/// The doctor's note: no file is `Missing`, and so is a login that loads as
/// none; a login that does not load is `Unreadable` with the error's message;
/// a file others can read or write (any of the mode bits 0o077) is `Loose`;
/// a mode that cannot be read is `Unreadable`; otherwise `LoggedIn`.
pub open spec fn doctor_note_spec(
    exists: bool,
    loaded: Result<Option<Seq<char>>, CliErrorView>,
    mode: Result<Option<u32>, Seq<char>>,
) -> DoctorNoteView {
    if !exists {
        DoctorNoteView::Missing
    } else {
        match loaded {
            Ok(None) => DoctorNoteView::Missing,
            Err(e) => DoctorNoteView::Unreadable(crate::cli_error::cli_message(e)),
            Ok(Some(email)) => match mode {
                Ok(Some(m)) => if m & 0o077 != 0 {
                    DoctorNoteView::Loose(email)
                } else {
                    DoctorNoteView::LoggedIn(email)
                },
                Ok(None) => DoctorNoteView::LoggedIn(email),
                Err(msg) => DoctorNoteView::Unreadable(msg),
            },
        }
    }
}

/// The stored e-mail address that `load` gives for what was read, or its error.
pub open spec fn loaded_email_spec(path: Seq<char>, found: CredentialsFile) -> Result<Option<Seq<char>>, CliErrorView> {
    match found {
        CredentialsFile::Absent => Ok(None),
        CredentialsFile::ReadFailed(e) => Err(CliErrorView::Io(read_error_text(path, e@))),
        CredentialsFile::ParseFailed(e) => Err(CliErrorView::Usage(parse_error_text(path, e@))),
        CredentialsFile::Parsed(s) => if s.token@.len() == 0 {
            Err(CliErrorView::Usage(empty_token_text(path)))
        } else {
            Ok(Some(s.user_email@))
        },
    }
}

/// The doctor's note over the credentials file: no file is `Missing`; a file
/// that does not parse is `Unreadable` with a message that starts with
/// `could not parse`; one that cannot be read is `Unreadable` with
/// `could not read`; one with an empty token is `Unreadable`; a valid one is
/// `Loose` with the stored e-mail address when the mode has any of the bits
/// 0o077, else `LoggedIn` with it.
pub proof fn law_doctor_note_over_file(path: Seq<char>, found: CredentialsFile, mode: Result<Option<u32>, Seq<char>>)
    ensures
        found is Absent ==> doctor_note_spec(false, loaded_email_spec(path, found), mode) is Missing,
        found matches CredentialsFile::ParseFailed(e) ==> (doctor_note_spec(
            true,
            loaded_email_spec(path, found),
            mode,
        ) == DoctorNoteView::Unreadable(parse_error_text(path, e@)) && text::has_prefix(
            parse_error_text(path, e@),
            "could not parse"@,
        )),
        found matches CredentialsFile::ReadFailed(e) ==> (doctor_note_spec(
            true,
            loaded_email_spec(path, found),
            mode,
        ) == DoctorNoteView::Unreadable(read_error_text(path, e@)) && text::has_prefix(
            read_error_text(path, e@),
            "could not read"@,
        )),
        found matches CredentialsFile::Parsed(s) ==> doctor_note_spec(
            true,
            loaded_email_spec(path, found),
            mode,
        ) == if s.token@.len() == 0 {
            DoctorNoteView::Unreadable(empty_token_text(path))
        } else {
            match mode {
                Ok(Some(m)) => if m & 0o077 != 0 {
                    DoctorNoteView::Loose(s.user_email@)
                } else {
                    DoctorNoteView::LoggedIn(s.user_email@)
                },
                Ok(None) => DoctorNoteView::LoggedIn(s.user_email@),
                Err(msg) => DoctorNoteView::Unreadable(msg),
            }
        },
{
    reveal_strlit("could not parse");
    reveal_strlit("could not parse ");
    reveal_strlit("could not read");
    reveal_strlit("could not read ");
    if let CredentialsFile::ParseFailed(e) = found {
        assert(parse_error_text(path, e@).subrange(0, 15) =~= "could not parse"@);
    }
    if let CredentialsFile::ReadFailed(e) = found {
        assert(read_error_text(path, e@).subrange(0, 14) =~= "could not read"@);
    }
}

/// The doctor's note from what was found (`doctor_note_spec`).
pub fn doctor_note(
    exists: bool,
    loaded: Result<Option<String>, CliError>,
    mode: Result<Option<u32>, String>,
) -> (r: DoctorNote)
    ensures
        r@ == doctor_note_spec(exists, loaded_view(loaded), mode_view(mode)),
{
    if !exists {
        return DoctorNote::Missing;
    }
    let email = match loaded {
        Ok(Some(e)) => e,
        Ok(None) => {
            return DoctorNote::Missing;
        },
        Err(err) => {
            return DoctorNote::Unreadable(err.message());
        },
    };
    match mode {
        Ok(Some(m)) => {
            if m & 0o077 != 0 {
                DoctorNote::Loose { email }
            } else {
                DoctorNote::LoggedIn { email }
            }
        },
        Ok(None) => DoctorNote::LoggedIn { email },
        Err(err) => DoctorNote::Unreadable(err),
    }
}

/// Whole seconds to wait before polling for a device grant: the interval,
/// five more after a `slow_down`, saturating.
pub open spec fn poll_wait_spec(interval_secs: u64, slow_down: bool) -> nat {
    let want: int = interval_secs + if slow_down { 5int } else { 0int };
    if want > u64::MAX {
        u64::MAX as nat
    } else {
        want as nat
    }
}

/// How many whole seconds to wait before polling again (`poll_wait_spec`);
/// the caller sleeps that long.
pub fn poll_wait(interval_secs: u64, slow_down: bool) -> (r: u64)
    ensures
        r == poll_wait_spec(interval_secs, slow_down),
{
    let extra: u64 = if slow_down {
        5
    } else {
        0
    };
    interval_secs.saturating_add(extra)
}

/// The MCP gateway API URL, checked: https, or http for a loopback host, no
/// credentials; path, query and fragment dropped, trailing `/` trimmed.
pub open spec fn trim_end_slashes(s: Seq<char>) -> Seq<char>
    decreases s.len(),
{
    if s.len() > 0 && s.last() == '/' {
        trim_end_slashes(s.drop_last())
    } else {
        s
    }
}

pub open spec fn normalize_api_url_spec(raw: Seq<char>) -> Result<Seq<char>, CliErrorView> {
    let t = text::trim_ws(raw);
    let not_url = CliErrorView::Usage(
        "MCP_GATEWAY_API_URL is not a URL ("@ + raw + "). Use https://api.fetchhive.com"@,
    );
    let not_https = CliErrorView::Usage(
        "MCP_GATEWAY_API_URL must be https. http is only accepted for localhost."@,
    );
    match urls::url_parse_result(t) {
        Err(_) => Err(not_url),
        Ok(u) => {
            let host = or_empty(u.host_str);
            let loopback = host == "localhost"@ || host == "127.0.0.1"@ || host == "::1"@;
            if !(u.scheme == "https"@ || (u.scheme == "http"@ && loopback)) {
                Err(not_https)
            } else if u.username.len() > 0 || u.password is Some {
                Err(
                    CliErrorView::Usage(
                        "MCP_GATEWAY_API_URL must not include a username or password"@,
                    ),
                )
            } else {
                match urls::url_origin_text(t) {
                    Some(o) => Ok(trim_end_slashes(o)),
                    None => Err(not_url),
                }
            }
        },
    }
}

fn trim_end_slashes_exec(s: &str) -> (r: String)
    ensures
        r@ == trim_end_slashes(s@),
{
    let v = text::chars_of(s);
    let mut n = v.len();
    assert(v@.take(n as int) =~= v@);
    while n > 0 && v[n - 1] == '/'
        invariant
            n <= v.len(),
            trim_end_slashes(v@.take(n as int)) == trim_end_slashes(v@),
        decreases n,
    {
        assert(v@.take(n as int).drop_last() =~= v@.take(n - 1));
        n = n - 1;
    }
    let mut out: Vec<char> = Vec::new();
    let mut i: usize = 0;
    while i < n
        invariant
            n <= v.len(),
            i <= n,
            out@ == v@.take(i as int),
        decreases n - i,
    {
        out.push(v[i]);
        assert(v@.take(i + 1) =~= v@.take(i as int).push(v@[i as int]));
        i = i + 1;
    }
    assert(v@.take(v.len() as int) =~= v@);
    text::string_of(&out)
}

/// The checked API URL (`normalize_api_url_spec`).
pub fn normalize_api_url(raw: &str) -> (r: Result<String, CliError>)
    ensures
        match r {
            Ok(s) => normalize_api_url_spec(raw@) == Ok::<Seq<char>, CliErrorView>(s@),
            Err(e) => normalize_api_url_spec(raw@) == Err::<Seq<char>, CliErrorView>(e@),
        },
{
    let t = text::string_of(&text::trim(raw));
    let not_url = text::cat3(
        "MCP_GATEWAY_API_URL is not a URL (",
        raw,
        "). Use https://api.fetchhive.com",
    );
    let u = match urls::url_parse(t.as_str()) {
        Ok(u) => u,
        Err(_) => {
            return Err(CliError::Usage(not_url));
        },
    };
    let host = match &u.host_str {
        Some(h) => h.clone(),
        None => String::new(),
    };
    let loopback = text::str_eq(host.as_str(), "localhost") || text::str_eq(host.as_str(), "127.0.0.1")
        || text::str_eq(host.as_str(), "::1");
    let https = text::str_eq(u.scheme.as_str(), "https");
    let http = text::str_eq(u.scheme.as_str(), "http");
    if !(https || (http && loopback)) {
        return Err(
            CliError::usage("MCP_GATEWAY_API_URL must be https. http is only accepted for localhost."),
        );
    }
    if u.username.as_str().unicode_len() > 0 || u.password.is_some() {
        return Err(CliError::usage("MCP_GATEWAY_API_URL must not include a username or password"));
    }
    match urls::url_origin(t.as_str()) {
        Some(o) => Ok(trim_end_slashes_exec(o.as_str())),
        None => Err(CliError::Usage(not_url)),
    }
}

} // verus!
verus! {

/// The checked API URL never ends with `/`.
pub proof fn law_api_url_has_no_trailing_slash(raw: Seq<char>)
    requires
        normalize_api_url_spec(raw) is Ok,
    ensures
        normalize_api_url_spec(raw)->Ok_0.len() == 0 || normalize_api_url_spec(raw)->Ok_0.last()
            != '/',
{
    let t = text::trim_ws(raw);
    let o = urls::url_origin_text(t)->0;
    lemma_trim_end_slashes(o);
}

proof fn lemma_trim_end_slashes(s: Seq<char>)
    ensures
        trim_end_slashes(s).len() == 0 || trim_end_slashes(s).last() != '/',
    decreases s.len(),
{
    if s.len() > 0 && s.last() == '/' {
        lemma_trim_end_slashes(s.drop_last());
    }
}

/// A body that carries a token is never repeated back: unless the answer is
/// a rate limit, the error is the fixed text about a returned token.
pub proof fn law_token_bodies_are_not_echoed(status: u16, body: Seq<char>, retry_after: Option<u64>)
    requires
        status != 429,
        text::contains_seq(body, "fh_cli_"@),
    ensures
        map_status_spec(status, body, retry_after) == CliErrorView::Upstream(
            "Fetch Hive returned a token on an error response"@,
        ),
{
}

} // verus!
