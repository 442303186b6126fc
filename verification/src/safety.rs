//! Outbound safety for spec loading and `$ref` fetches: only `https`, never
//! `localhost`, and never an address that reaches the machine itself, its
//! link, a cloud metadata service or (unless allowed) a private network.
//!
//! The DNS lookup itself is I/O and is made by the caller; the functions here
//! take what it gave and decide.
use vstd::prelude::*;
use crate::ip::{self, IpAddress};
use crate::text;
use crate::urls::{self, ParsedUrl, ParsedUrlView, UrlHost, UrlHostView};

verus! {

/// Options of the outbound checks.
#[derive(Debug, Clone, Copy)]
pub struct SafetyOpts {
    /// Skip RFC 1918 / ULA denials. Loopback and cloud metadata stay denied.
    pub allow_private: bool,
}

impl Default for SafetyOpts {
    fn default() -> (r: Self)
        ensures
            !r.allow_private,
    {
        SafetyOpts { allow_private: false }
    }
}

/// Why an outbound URL or host was refused.
#[derive(Debug, Clone)]
pub enum SafetyError {
    /// The URL's scheme (not `https`).
    NotHttps(String),
    Localhost,
    /// The refused address as text.
    BlockedAddress(String),
    /// The host and the resolver's error text.
    Dns(String, String),
    /// The URL parser's error text.
    InvalidUrl(String),
}

pub enum SafetyErrorView {
    NotHttps(Seq<char>),
    Localhost,
    BlockedAddress(Seq<char>),
    Dns(Seq<char>, Seq<char>),
    InvalidUrl(Seq<char>),
}

impl View for SafetyError {
    type V = SafetyErrorView;

    open spec fn view(&self) -> SafetyErrorView {
        match self {
            SafetyError::NotHttps(s) => SafetyErrorView::NotHttps(s@),
            SafetyError::Localhost => SafetyErrorView::Localhost,
            SafetyError::BlockedAddress(s) => SafetyErrorView::BlockedAddress(s@),
            SafetyError::Dns(h, e) => SafetyErrorView::Dns(h@, e@),
            SafetyError::InvalidUrl(s) => SafetyErrorView::InvalidUrl(s@),
        }
    }
}

/// The text each refusal is reported with.
pub open spec fn safety_message(e: SafetyErrorView) -> Seq<char> {
    match e {
        SafetyErrorView::NotHttps(s) => "only https URLs are allowed, got "@ + s,
        SafetyErrorView::Localhost => "localhost is not allowed"@,
        SafetyErrorView::BlockedAddress(s) => "blocked address: "@ + s,
        SafetyErrorView::Dns(h, e) => "could not resolve host "@ + h + ": "@ + e,
        SafetyErrorView::InvalidUrl(s) => "invalid URL: "@ + s,
    }
}

impl SafetyError {
    /// Process exit code for a refusal: always 3.
    pub fn exit_code(&self) -> (r: i32)
        ensures
            r == 3,
    {
        3
    }

    /// The text the refusal is reported with (`safety_message`).
    pub fn message(&self) -> (r: String)
        ensures
            r@ == safety_message(self@),
    {
        match self {
            SafetyError::NotHttps(s) => text::cat("only https URLs are allowed, got ", s.as_str()),
            SafetyError::Localhost => "localhost is not allowed".to_owned(),
            SafetyError::BlockedAddress(s) => text::cat("blocked address: ", s.as_str()),
            SafetyError::Dns(h, e) => {
                let a = text::cat3("could not resolve host ", h.as_str(), ": ");
                text::cat(a.as_str(), e.as_str())
            },
            SafetyError::InvalidUrl(s) => text::cat("invalid URL: ", s.as_str()),
        }
    }
}

pub type SafetyResult = Result<(), SafetyErrorView>;

/// Whether an address given as (is IPv4, octets) is refused.
pub open spec fn blocked_view(v: (bool, Seq<u8>), allow_private: bool) -> bool {
    if v.0 {
        ip::blocked_v4(v.1, allow_private)
    } else {
        ip::blocked_v6(v.1, allow_private)
    }
}

/// `localhost` or a name under it, in any letter case.
pub open spec fn is_localhost_name(host: Seq<char>) -> bool {
    let lower = text::lower_seq(host);
    lower == "localhost"@ || text::has_suffix(lower, ".localhost"@)
}

/// The host check: `localhost` names are refused; a host that is an IP
/// address literal is refused when the address is.
pub open spec fn check_host_spec(host: Seq<char>, allow_private: bool) -> SafetyResult {
    if is_localhost_name(host) {
        Err(SafetyErrorView::Localhost)
    } else if ip::parse_ip_spec(host) is Some && blocked_view(
        ip::parse_ip_spec(host)->0,
        allow_private,
    ) {
        Err(SafetyErrorView::BlockedAddress(host))
    } else {
        Ok(())
    }
}

/// `i` is the first refused address of the list.
pub open spec fn first_blocked(addrs: Seq<IpAddress>, allow_private: bool, i: int) -> bool {
    0 <= i < addrs.len() && ip::blocked_ip(addrs[i], allow_private) && forall|j: int|
        0 <= j < i ==> !ip::blocked_ip(#[trigger] addrs[j], allow_private)
}

/// The lookup result as plain values.
pub open spec fn lookup_view(lookup: Result<Vec<IpAddress>, String>) -> Result<Seq<IpAddress>, Seq<char>> {
    match lookup {
        Ok(v) => Ok(v@),
        Err(e) => Err(e@),
    }
}

/// The DNS check: after the host check, an IP literal needs no lookup; a
/// failed lookup, or one with no address, is a DNS error; the first refused
/// address is reported as text; otherwise the host is accepted.
pub open spec fn resolve_spec(
    host: Seq<char>,
    allow_private: bool,
    lookup: Result<Seq<IpAddress>, Seq<char>>,
) -> SafetyResult {
    if check_host_spec(host, allow_private) is Err {
        check_host_spec(host, allow_private)
    } else if ip::parse_ip_spec(host) is Some {
        Ok(())
    } else {
        match lookup {
            Err(e) => Err(SafetyErrorView::Dns(host, e)),
            Ok(addrs) => if addrs.len() == 0 {
                Err(SafetyErrorView::Dns(host, "no addresses"@))
            } else if exists|i: int| first_blocked(addrs, allow_private, i) {
                let i = choose|i: int| first_blocked(addrs, allow_private, i);
                Err(SafetyErrorView::BlockedAddress(ip::ip_text(addrs[i])))
            } else {
                Ok(())
            },
        }
    }
}

pub open spec fn unit_result_view(r: Result<(), SafetyError>) -> SafetyResult {
    match r {
        Ok(()) => Ok(()),
        Err(e) => Err(e@),
    }
}

/// The scheme check: only `https`.
pub open spec fn https_spec(u: ParsedUrlView) -> SafetyResult {
    if u.scheme != "https"@ {
        Err(SafetyErrorView::NotHttps(u.scheme))
    } else {
        Ok(())
    }
}

/// The check of a parsed URL's host.
pub open spec fn url_host_spec(u: ParsedUrlView, allow_private: bool) -> SafetyResult {
    match u.host {
        Some(UrlHostView::Domain(d)) => check_host_spec(d, allow_private),
        Some(UrlHostView::Ip(a)) => if ip::blocked_ip(a, allow_private) {
            Err(SafetyErrorView::BlockedAddress(ip::ip_text(a)))
        } else {
            Ok(())
        },
        None => Err(SafetyErrorView::InvalidUrl("missing host"@)),
    }
}

/// Parsing an outbound URL: a parse error, then the scheme, then the host.
pub open spec fn parse_https_spec(raw: Seq<char>, allow_private: bool) -> Result<ParsedUrlView, SafetyErrorView> {
    match urls::url_parse_result(raw) {
        Err(e) => Err(SafetyErrorView::InvalidUrl(e)),
        Ok(u) => if https_spec(u) is Err {
            Err(https_spec(u)->Err_0)
        } else if url_host_spec(u, allow_private) is Err {
            Err(url_host_spec(u, allow_private)->Err_0)
        } else {
            Ok(u)
        },
    }
}

pub open spec fn url_result_view(r: Result<ParsedUrl, SafetyError>) -> Result<ParsedUrlView, SafetyErrorView> {
    match r {
        Ok(u) => Ok(u@),
        Err(e) => Err(e@),
    }
}

/// Whether an outbound request must not reach `ip`.
pub fn is_blocked_ip_with(ip: IpAddress, opts: SafetyOpts) -> (r: bool)
    ensures
        r == ip::blocked_ip(ip, opts.allow_private),
{
    ip::is_blocked_address(ip, opts.allow_private)
}

/// `is_blocked_ip_with` under the default options (private networks refused).
pub fn is_blocked_ip(ip: IpAddress) -> (r: bool)
    ensures
        r == ip::blocked_ip(ip, false),
{
    is_blocked_ip_with(ip, SafetyOpts { allow_private: false })
}

/// The host check (`check_host_spec`).
pub fn check_host_with(host: &str, opts: SafetyOpts) -> (r: Result<(), SafetyError>)
    ensures
        unit_result_view(r) == check_host_spec(host@, opts.allow_private),
{
    let v = text::chars_of(host);
    let lower = text::lower_vec(&v);
    let loc = text::chars_of("localhost");
    let dot_loc = text::chars_of(".localhost");
    if text::seq_eq(&lower, &loc) || text::vec_has_suffix(&lower, &dot_loc) {
        return Err(SafetyError::Localhost);
    }
    match ip::parse_ip(host) {
        Some(a) => {
            if ip::is_blocked_address(a, opts.allow_private) {
                return Err(SafetyError::BlockedAddress(host.to_owned()));
            }
        },
        None => {},
    }
    Ok(())
}

/// `check_host_with` under the default options.
pub fn check_host(host: &str) -> (r: Result<(), SafetyError>)
    ensures
        unit_result_view(r) == check_host_spec(host@, false),
{
    check_host_with(host, SafetyOpts { allow_private: false })
}

/// Whether `host` passes the host check and still has to be resolved: an IP
/// literal needs no lookup.
pub fn needs_lookup(host: &str, opts: SafetyOpts) -> (r: Result<bool, SafetyError>)
    ensures
        match r {
            Ok(b) => check_host_spec(host@, opts.allow_private) is Ok && b == (
            ip::parse_ip_spec(host@) is None),
            Err(e) => check_host_spec(host@, opts.allow_private) == Err::<(), SafetyErrorView>(
                e@,
            ),
        },
{
    match check_host_with(host, opts) {
        Err(e) => Err(e),
        Ok(()) => Ok(ip::parse_ip(host).is_none()),
    }
}

/// The DNS check on what the lookup of `host` gave (`resolve_spec`).
pub fn resolve_and_check_with(
    host: &str,
    opts: SafetyOpts,
    lookup: Result<Vec<IpAddress>, String>,
) -> (r: Result<(), SafetyError>)
    ensures
        unit_result_view(r) == resolve_spec(host@, opts.allow_private, lookup_view(lookup)),
{
    match check_host_with(host, opts) {
        Err(e) => {
            return Err(e);
        },
        Ok(()) => {},
    }
    if ip::parse_ip(host).is_some() {
        return Ok(());
    }
    let addrs = match lookup {
        Err(e) => {
            return Err(SafetyError::Dns(host.to_owned(), e));
        },
        Ok(a) => a,
    };
    let ghost av = addrs@;
    assert(lookup_view(lookup) == Ok::<Seq<IpAddress>, Seq<char>>(av));
    let mut i: usize = 0;
    while i < addrs.len()
        invariant
            i <= addrs.len(),
            av == addrs@,
            check_host_spec(host@, opts.allow_private) is Ok,
            ip::parse_ip_spec(host@) is None,
            lookup_view(lookup) == Ok::<Seq<IpAddress>, Seq<char>>(av),
            forall|j: int| 0 <= j < i ==> !ip::blocked_ip(#[trigger] av[j], opts.allow_private),
        decreases addrs.len() - i,
    {
        if ip::is_blocked_address(addrs[i], opts.allow_private) {
            assert(first_blocked(av, opts.allow_private, i as int));
            proof {
                let c = choose|k: int| first_blocked(av, opts.allow_private, k);
                assert(first_blocked(av, opts.allow_private, c));
                if c < i {
                    assert(!ip::blocked_ip(av[c], opts.allow_private));
                } else if c > i {
                    assert(!ip::blocked_ip(av[i as int], opts.allow_private));
                }
                assert(c == i);
                assert(av.len() > 0);
                assert(ip::ip_text(av[c]) == ip::ip_text(addrs[i as int]));
            }
            return Err(SafetyError::BlockedAddress(ip::ip_to_string(addrs[i])));
        }
        i = i + 1;
    }
    if addrs.len() == 0 {
        return Err(SafetyError::Dns(host.to_owned(), "no addresses".to_owned()));
    }
    assert(!exists|k: int| first_blocked(av, opts.allow_private, k));
    Ok(())
}

/// `resolve_and_check_with` under the default options.
pub fn resolve_and_check(host: &str, lookup: Result<Vec<IpAddress>, String>) -> (r: Result<
    (),
    SafetyError,
>)
    ensures
        unit_result_view(r) == resolve_spec(host@, false, lookup_view(lookup)),
{
    resolve_and_check_with(host, SafetyOpts { allow_private: false }, lookup)
}

/// The scheme check (`https_spec`).
pub fn assert_https(url: &ParsedUrl) -> (r: Result<(), SafetyError>)
    ensures
        unit_result_view(r) == https_spec(url@),
{
    if !text::str_eq(url.scheme.as_str(), "https") {
        return Err(SafetyError::NotHttps(url.scheme.clone()));
    }
    Ok(())
}

fn check_url_host(url: &ParsedUrl, opts: SafetyOpts) -> (r: Result<(), SafetyError>)
    ensures
        unit_result_view(r) == url_host_spec(url@, opts.allow_private),
{
    match &url.host {
        Some(UrlHost::Domain(d)) => check_host_with(d.as_str(), opts),
        Some(UrlHost::Ipv4(o)) => {
            let a = IpAddress::V4(*o);
            if ip::is_blocked_address(a, opts.allow_private) {
                Err(SafetyError::BlockedAddress(ip::ip_to_string(a)))
            } else {
                Ok(())
            }
        },
        Some(UrlHost::Ipv6(o)) => {
            let a = IpAddress::V6(*o);
            if ip::is_blocked_address(a, opts.allow_private) {
                Err(SafetyError::BlockedAddress(ip::ip_to_string(a)))
            } else {
                Ok(())
            }
        },
        None => Err(SafetyError::InvalidUrl("missing host".to_owned())),
    }
}

/// Parses an outbound URL and checks its scheme and host (`parse_https_spec`).
pub fn parse_https_url_with(raw: &str, opts: SafetyOpts) -> (r: Result<ParsedUrl, SafetyError>)
    ensures
        url_result_view(r) == parse_https_spec(raw@, opts.allow_private),
{
    let url = match urls::url_parse(raw) {
        Ok(u) => u,
        Err(e) => {
            return Err(SafetyError::InvalidUrl(e));
        },
    };
    match assert_https(&url) {
        Err(e) => {
            return Err(e);
        },
        Ok(()) => {},
    }
    match check_url_host(&url, opts) {
        Err(e) => Err(e),
        Ok(()) => Ok(url),
    }
}

/// `parse_https_url_with` under the default options.
pub fn parse_https_url(raw: &str) -> (r: Result<ParsedUrl, SafetyError>)
    ensures
        url_result_view(r) == parse_https_spec(raw@, false),
{
    parse_https_url_with(raw, SafetyOpts { allow_private: false })
}

} // verus!
verus! {

/// Allowing private networks only ever lets more addresses through: an
/// address refused with private networks allowed is refused by default too.
pub proof fn law_allow_private_only_relaxes(a: IpAddress)
    ensures
        ip::blocked_ip(a, true) ==> ip::blocked_ip(a, false),
{
}

/// Loopback and the cloud metadata addresses stay refused whatever the
/// options: `127.0.0.0/8`, `169.254.169.254`, `::1`, `fd00:ec2::254`, and
/// IPv4 loopback or metadata inside an IPv4-mapped IPv6 address.
pub proof fn law_loopback_and_metadata_always_blocked(a: IpAddress, allow_private: bool)
    requires
        match a {
            IpAddress::V4(o) => o[0] == 127 || (o[0] == 169 && o[1] == 254 && o[2] == 169 && o[3]
                == 254),
            IpAddress::V6(o) => (ip::first_n_zero(o@, 15) && o[15] == 1) || ip::is_v6_metadata(o@)
                || (ip::first_n_zero(o@, 10) && o[10] == 0xff && o[11] == 0xff && (o[12] == 127
                || (o[12] == 169 && o[13] == 254 && o[14] == 169 && o[15] == 254))),
        },
    ensures
        ip::blocked_ip(a, allow_private),
{
    match a {
        IpAddress::V4(o) => {},
        IpAddress::V6(o) => {
            let s = o@;
            if ip::embedded_v4(s) is Some {
                let e = ip::embedded_v4(s)->0;
                assert(e == s.subrange(12, 16));
                if ip::first_n_zero(s, 15) && s[15] == 1 {
                    assert(s[12] == 0);
                    assert(s[13] == 0);
                    assert(s[14] == 0);
                    assert(e[0] == 0);
                } else if ip::is_v6_metadata(s) {
                    assert(s[0] == 0xfd);
                    assert(!ip::first_n_zero(s, 10));
                    assert(!ip::first_n_zero(s, 12));
                } else {
                    assert(e[0] == s[12]);
                    assert(e[1] == s[13] && e[2] == s[14] && e[3] == s[15]);
                }
            }
        },
    }
}

/// Every address of an accepted lookup was checked: when the DNS check
/// accepts a host name, none of the addresses it resolved to is refused.
pub proof fn law_accepted_lookup_has_no_blocked_address(
    host: Seq<char>,
    allow_private: bool,
    addrs: Seq<IpAddress>,
)
    requires
        ip::parse_ip_spec(host) is None,
        resolve_spec(host, allow_private, Ok(addrs)) is Ok,
    ensures
        forall|i: int| 0 <= i < addrs.len() ==> !ip::blocked_ip(#[trigger] addrs[i], allow_private),
{
    assert forall|i: int| 0 <= i < addrs.len() implies !ip::blocked_ip(
        #[trigger] addrs[i],
        allow_private,
    ) by {
        if ip::blocked_ip(addrs[i], allow_private) {
            lemma_some_first_blocked(addrs, allow_private, i);
        }
    }
}

proof fn lemma_some_first_blocked(addrs: Seq<IpAddress>, allow_private: bool, i: int)
    requires
        0 <= i < addrs.len(),
        ip::blocked_ip(addrs[i], allow_private),
    ensures
        exists|k: int| first_blocked(addrs, allow_private, k),
    decreases i,
{
    if forall|j: int| 0 <= j < i ==> !ip::blocked_ip(#[trigger] addrs[j], allow_private) {
        assert(first_blocked(addrs, allow_private, i));
    } else {
        let j = choose|j: int| 0 <= j < i && ip::blocked_ip(#[trigger] addrs[j], allow_private);
        lemma_some_first_blocked(addrs, allow_private, j);
    }
}

} // verus!
