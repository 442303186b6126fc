//! URL handling through the `url` crate.
//!
//! A `url::Url` is read once, at the call, into a plain `ParsedUrl`; the logic
//! of this crate works on that. What the `url` crate returns for a given input
//! takes the WHATWG URL standard to state, so each call's result has a name
//! here and is not spelled out.
use vstd::prelude::*;
use crate::ip::IpAddress;

verus! {

/// The host of a URL as the `url` crate classifies it (`url::Host`).
#[derive(Debug, Clone, PartialEq, Eq)]
pub enum UrlHost {
    Domain(String),
    Ipv4([u8; 4]),
    Ipv6([u8; 16]),
}

/// What this crate reads of a parsed URL.
#[derive(Debug, Clone)]
pub struct ParsedUrl {
    /// The serialization (`Url::as_str`).
    pub text: String,
    /// `Url::scheme`.
    pub scheme: String,
    /// `Url::host`.
    pub host: Option<UrlHost>,
    /// `Url::host_str` (IPv6 hosts in brackets).
    pub host_str: Option<String>,
    /// `Url::username`.
    pub username: String,
    /// `Url::password`.
    pub password: Option<String>,
}

pub enum UrlHostView {
    Domain(Seq<char>),
    Ip(IpAddress),
}

pub struct ParsedUrlView {
    pub text: Seq<char>,
    pub scheme: Seq<char>,
    pub host: Option<UrlHostView>,
    pub host_str: Option<Seq<char>>,
    pub username: Seq<char>,
    pub password: Option<Seq<char>>,
}

impl View for UrlHost {
    type V = UrlHostView;

    open spec fn view(&self) -> UrlHostView {
        match self {
            UrlHost::Domain(d) => UrlHostView::Domain(d@),
            UrlHost::Ipv4(a) => UrlHostView::Ip(IpAddress::V4(*a)),
            UrlHost::Ipv6(a) => UrlHostView::Ip(IpAddress::V6(*a)),
        }
    }
}

pub open spec fn opt_str_view(o: Option<String>) -> Option<Seq<char>> {
    match o {
        Some(s) => Some(s@),
        None => None,
    }
}

impl View for ParsedUrl {
    type V = ParsedUrlView;

    open spec fn view(&self) -> ParsedUrlView {
        ParsedUrlView {
            text: self.text@,
            scheme: self.scheme@,
            host: match self.host {
                Some(h) => Some(h@),
                None => None,
            },
            host_str: opt_str_view(self.host_str),
            username: self.username@,
            password: opt_str_view(self.password),
        }
    }
}

/// What `url::Url::parse` gives for an input: the parsed URL, or the text of
/// its `url::ParseError`.
pub uninterp spec fn url_parse_result(input: Seq<char>) -> Result<ParsedUrlView, Seq<char>>;

/// What `Url::join(input)` gives on the URL that `Url::parse(base)` gives:
/// the serialization of the joined URL and whether it has a host; `None`
/// where either call fails.
pub uninterp spec fn url_join_result(base: Seq<char>, input: Seq<char>) -> Option<(Seq<char>, bool)>;

/// The serialization of the URL that `Url::parse(input)` gives, after
/// `set_path("")`, `set_query(None)` and `set_fragment(None)`.
pub uninterp spec fn url_origin_text(input: Seq<char>) -> Option<Seq<char>>;

/// The serialization of the URL that `Url::parse(input)` gives, after
/// `set_username("")` and `set_password(None)`.
pub uninterp spec fn url_without_credentials(input: Seq<char>) -> Option<Seq<char>>;

/// `url::Url::parse`, read into a `ParsedUrl`; an error becomes its text.
/// Claims only that the result is the one `url_parse_result` names.
#[verifier::external_body]
pub(crate) fn url_parse(input: &str) -> (r: Result<ParsedUrl, String>)
    ensures
        match r {
            Ok(u) => url_parse_result(input@) == Ok::<ParsedUrlView, Seq<char>>(u@),
            Err(e) => url_parse_result(input@) == Err::<ParsedUrlView, Seq<char>>(e@),
        },
{
    let u = url::Url::parse(input).map_err(|e| e.to_string())?;
    let host = u.host().map(|h| match h {
        url::Host::Domain(d) => UrlHost::Domain(d.into()),
        url::Host::Ipv4(a) => UrlHost::Ipv4(a.octets()),
        url::Host::Ipv6(a) => UrlHost::Ipv6(a.octets()),
    });
    let (host_str, password) = (u.host_str().map(String::from), u.password().map(String::from));
    let (text, scheme, username) = (u.as_str().into(), u.scheme().into(), u.username().into());
    Ok(ParsedUrl { text, scheme, host, host_str, username, password })
}

/// `Url::join` on the parsed base: the joined serialization and
/// `Url::has_host`. Claims only that the result is the one `url_join_result`
/// names.
#[verifier::external_body]
pub(crate) fn url_join(base: &str, input: &str) -> (r: Option<(String, bool)>)
    ensures
        match r {
            Some((s, h)) => url_join_result(base@, input@) == Some((s@, h)),
            None => url_join_result(base@, input@) is None,
        },
{
    let joined = url::Url::parse(base).and_then(|b| b.join(input)).ok()?;
    Some((joined.to_string(), joined.has_host()))
}

/// The parsed URL with path, query and fragment cleared (`set_path("")`,
/// `set_query(None)`, `set_fragment(None)`), serialized. Claims that the
/// result is the one `url_origin_text` names, and that there is one exactly
/// when the input parses; the clearing calls cannot fail.
#[verifier::external_body]
pub(crate) fn url_origin(input: &str) -> (r: Option<String>)
    ensures
        opt_str_view(r) == url_origin_text(input@),
        r is Some <==> url_parse_result(input@) is Ok,
{
    let mut u = url::Url::parse(input).ok()?;
    u.set_path("");
    u.set_query(None);
    u.set_fragment(None);
    Some(u.as_str().to_string())
}

/// The parsed URL with user name and password cleared (`set_username("")`,
/// `set_password(None)`, whose refusals are ignored), serialized. Claims that
/// the result is the one `url_without_credentials` names, and that there is
/// one exactly when the input parses.
#[verifier::external_body]
pub(crate) fn url_strip_credentials(input: &str) -> (r: Option<String>)
    ensures
        opt_str_view(r) == url_without_credentials(input@),
        r is Some <==> url_parse_result(input@) is Ok,
{
    let mut u = url::Url::parse(input).ok()?;
    let _ = u.set_username("");
    let _ = u.set_password(None);
    Some(u.to_string())
}

} // verus!
