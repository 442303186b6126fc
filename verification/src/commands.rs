//! Decisions of the command-line commands that do not need the network or
//! the disk: the HTTP bind address, the bootstrap spec URL, the IR cache
//! file name, the gateway token, and what the output settings let through.
use vstd::prelude::*;
use crate::cli_error::{CliError, CliErrorView};
use crate::ip;
use crate::text;

verus! {

/// The digits after an optional `+`.
pub open spec fn port_digits(s: Seq<char>) -> Seq<char> {
    if s.len() > 0 && s[0] == '+' {
        s.skip(1)
    } else {
        s
    }
}

/// `u16::from_str`: an optional `+`, then one or more decimal digits whose
/// value is at most 65535.
pub open spec fn parse_u16_spec(s: Seq<char>) -> Option<u16> {
    let d = port_digits(s);
    if d.len() > 0 && ip::all_digits(d) && ip::dec_value(d) <= 65535 {
        Some(ip::dec_value(d) as u16)
    } else {
        None
    }
}

/// A TCP port number written in decimal (`parse_u16_spec`).
pub fn parse_u16(s: &str) -> (r: Option<u16>)
    ensures
        r == parse_u16_spec(s@),
{
    let v = text::chars_of(s);
    let start: usize = if v.len() > 0 && v[0] == '+' {
        1
    } else {
        0
    };
    let ghost d = port_digits(s@);
    assert(d =~= v@.skip(start as int));
    if start >= v.len() {
        assert(d.len() == 0);
        return None;
    }
    let mut val: u32 = 0;
    let mut i: usize = start;
    while i < v.len()
        invariant
            start <= i <= v.len(),
            d == v@.skip(start as int),
            d == port_digits(s@),
            val == if ip::dec_value(d.take(i - start)) > 70000 {
                70000
            } else {
                ip::dec_value(d.take(i - start))
            },
            forall|j: int| 0 <= j < i - start ==> text::is_digit(#[trigger] d[j]),
        decreases v.len() - i,
    {
        let c = v[i];
        if !('0' <= c && c <= '9') {
            assert(d[i - start] == c);
            assert(!text::is_digit(d[i - start]));
            assert(!ip::all_digits(d));
            return None;
        }
        assert(d.take(i - start + 1).drop_last() =~= d.take(i - start));
        assert(d[i - start] == c);
        let digit: u32 = (c as u32) - ('0' as u32);
        let next: u32 = val * 10 + digit;
        val = if next > 70000 {
            70000
        } else {
            next
        };
        i = i + 1;
    }
    assert(d.take(i - start) =~= d);
    if val > 65535 {
        None
    } else {
        Some(val as u16)
    }
}

/// What `{:?}` writes for a string slice.
pub uninterp spec fn debug_text(s: Seq<char>) -> Seq<char>;

/// A printable ASCII character that `{:?}` writes as itself.
pub open spec fn plain_debug_char(c: char) -> bool {
    ' ' <= c && c <= '~' && c != '"' && c != '\\'
}

/// `format!("{s:?}")`. For text of printable ASCII characters other than `"`
/// and `\`, std documents the quoted text itself; other text is only named.
#[verifier::external_body]
pub(crate) fn debug_quote(s: &str) -> (r: String)
    ensures
        r@ == debug_text(s@),
        (forall|i: int| 0 <= i < s@.len() ==> plain_debug_char(#[trigger] s@[i])) ==> r@ == "\""@
            + s@ + "\""@,
{
    format!("{s:?}")
}

pub open spec fn opt_nonempty(o: Option<Seq<char>>) -> bool {
    o is Some && o->0.len() > 0
}

/// The HTTP listen address and whether it is exposed: `--bind` when given;
/// else `0.0.0.0:$PORT`, exposed, when `PORT` is set (a malformed `PORT` is a
/// usage error); else the configured address.
pub open spec fn http_bind_spec(
    bind_flag: Option<Seq<char>>,
    cfg_bind: Seq<char>,
    expose_flag: bool,
    port_env: Option<Seq<char>>,
) -> Result<(Seq<char>, bool), CliErrorView> {
    if opt_nonempty(bind_flag) {
        Ok((bind_flag->0, expose_flag))
    } else if port_env is Some && text::trim_ws(port_env->0).len() > 0 {
        let raw = text::trim_ws(port_env->0);
        match parse_u16_spec(raw) {
            Some(port) => Ok(("0.0.0.0:"@ + text::dec_str(port as nat), true)),
            None => Err(
                CliErrorView::Usage("PORT must be a TCP port number, got "@ + debug_text(raw)),
            ),
        }
    } else {
        Ok((cfg_bind, expose_flag))
    }
}

/// The HTTP listen address (`http_bind_spec`); `port_env` is the value of `PORT`.
pub fn resolve_http_bind(
    bind_flag: Option<&str>,
    cfg_bind: &str,
    expose_flag: bool,
    port_env: Option<&str>,
) -> (r: Result<(String, bool), CliError>)
    ensures
        match r {
            Ok((b, e)) => http_bind_spec(
                crate::names::opt_view(bind_flag),
                cfg_bind@,
                expose_flag,
                crate::names::opt_view(port_env),
            ) == Ok::<(Seq<char>, bool), CliErrorView>((b@, e)),
            Err(err) => http_bind_spec(
                crate::names::opt_view(bind_flag),
                cfg_bind@,
                expose_flag,
                crate::names::opt_view(port_env),
            ) == Err::<(Seq<char>, bool), CliErrorView>(err@),
        },
{
    match bind_flag {
        Some(b) => {
            if b.unicode_len() > 0 {
                return Ok((b.to_owned(), expose_flag));
            }
        },
        None => {},
    }
    match port_env {
        Some(p) => {
            let t = text::trim(p);
            if t.len() > 0 {
                let raw = text::string_of(&t);
                match parse_u16(raw.as_str()) {
                    Some(port) => {
                        let d = text::dec_string(port as u64);
                        return Ok((text::cat("0.0.0.0:", d.as_str()), true));
                    },
                    None => {
                        let q = debug_quote(raw.as_str());
                        return Err(
                            CliError::Usage(
                                text::cat("PORT must be a TCP port number, got ", q.as_str()),
                            ),
                        );
                    },
                }
            }
        },
        None => {},
    }
    Ok((cfg_bind.to_owned(), expose_flag))
}

/// Where `serve` listens: a non-empty `--bind` wins and keeps the expose
/// flag; otherwise a `PORT` that is not blank after trimming gives
/// `0.0.0.0:{port}`, exposed, when it reads as a `u16`, and otherwise a usage
/// error whose message starts with `PORT` (`nope` is such a value); otherwise
/// the configured address with the expose flag.
pub proof fn law_http_bind(
    bind_flag: Option<Seq<char>>,
    cfg_bind: Seq<char>,
    expose_flag: bool,
    port_env: Option<Seq<char>>,
)
    ensures
        opt_nonempty(bind_flag) ==> http_bind_spec(bind_flag, cfg_bind, expose_flag, port_env) == Ok::<
            (Seq<char>, bool),
            CliErrorView,
        >((bind_flag->0, expose_flag)),
        !opt_nonempty(bind_flag) && port_env is Some && text::trim_ws(port_env->0).len() > 0 ==> match parse_u16_spec(
            text::trim_ws(port_env->0),
        ) {
            Some(n) => http_bind_spec(bind_flag, cfg_bind, expose_flag, port_env) == Ok::<
                (Seq<char>, bool),
                CliErrorView,
            >(("0.0.0.0:"@ + text::dec_str(n as nat), true)),
            None => http_bind_spec(bind_flag, cfg_bind, expose_flag, port_env) matches Err(
                CliErrorView::Usage(m),
            ) && text::has_prefix(m, "PORT"@),
        },
        !opt_nonempty(bind_flag) && !(port_env is Some && text::trim_ws(port_env->0).len() > 0)
            ==> http_bind_spec(bind_flag, cfg_bind, expose_flag, port_env) == Ok::<
            (Seq<char>, bool),
            CliErrorView,
        >((cfg_bind, expose_flag)),
        parse_u16_spec("nope"@) is None,
{
    reveal_strlit("PORT");
    reveal_strlit("PORT must be a TCP port number, got ");
    reveal_strlit("nope");
    let d = port_digits("nope"@);
    assert(d.len() > 0 ==> !text::is_digit(d[0]));
    if !opt_nonempty(bind_flag) && port_env is Some && text::trim_ws(port_env->0).len() > 0 {
        let raw = text::trim_ws(port_env->0);
        let m = "PORT must be a TCP port number, got "@ + debug_text(raw);
        assert(m.subrange(0, 4) =~= "PORT"@);
    }
}

/// A persistent tunnel name is refused: persistent names are not available.
pub fn check_tunnel_name(tunnel_name: Option<&str>) -> (r: Result<(), CliError>)
    ensures
        tunnel_name is None <==> r is Ok,
        r matches Err(e) ==> e@ == CliErrorView::Usage("persistent names are not available yet"@),
{
    match tunnel_name {
        Some(_) => Err(CliError::usage("persistent names are not available yet")),
        None => Ok(()),
    }
}

pub open spec fn tunnel_auth_spec(
    tunnel: bool,
    auth: crate::cli_args::TunnelAuth,
    token: Option<Seq<char>>,
    anonymous: bool,
) -> Option<CliErrorView> {
    if !tunnel {
        None
    } else {
        match auth {
            crate::cli_args::TunnelAuth::Token => if token is Some && text::trim_ws(token->0).len() > 0 {
                None
            } else {
                Some(
                    CliErrorView::Usage(
                        "tunnel with --tunnel-auth token needs MCP_GATEWAY_TOKEN or --token-file; drop --tunnel, or pass --tunnel-auth public with --allow-anonymous"@,
                    ),
                )
            },
            crate::cli_args::TunnelAuth::Public => if anonymous {
                None
            } else {
                Some(CliErrorView::Usage("--tunnel-auth public requires --allow-anonymous"@))
            },
        }
    }
}

/// Whether `serve --tunnel` may start with this authentication: a token
/// tunnel needs a token that is not blank; a public tunnel needs anonymous
/// access to be allowed; without a tunnel there is nothing to check.
pub fn check_tunnel_auth(
    tunnel: bool,
    auth: crate::cli_args::TunnelAuth,
    token: Option<&str>,
    anonymous: bool,
) -> (r: Result<(), CliError>)
    ensures
        match tunnel_auth_spec(tunnel, auth, crate::names::opt_view(token), anonymous) {
            None => r is Ok,
            Some(e) => r matches Err(x) && x@ == e,
        },
{
    if !tunnel {
        return Ok(());
    }
    match auth {
        crate::cli_args::TunnelAuth::Token => {
            let blank = match token {
                Some(t) => text::trim(t).len() == 0,
                None => true,
            };
            if blank {
                Err(
                    CliError::usage(
                        "tunnel with --tunnel-auth token needs MCP_GATEWAY_TOKEN or --token-file; drop --tunnel, or pass --tunnel-auth public with --allow-anonymous",
                    ),
                )
            } else {
                Ok(())
            }
        },
        crate::cli_args::TunnelAuth::Public => {
            if anonymous {
                Ok(())
            } else {
                Err(CliError::usage("--tunnel-auth public requires --allow-anonymous"))
            }
        },
    }
}

/// The MCP path to serve: the configured one when the flag was left at
/// `/mcp` and a path is configured, else the flag.
pub fn serve_path(flag: &str, configured: &str) -> (r: String)
    ensures
        r@ == if flag@ == "/mcp"@ && configured@.len() > 0 {
            configured@
        } else {
            flag@
        },
{
    if text::str_eq(flag, "/mcp") && configured.unicode_len() > 0 {
        text::owned(configured)
    } else {
        text::owned(flag)
    }
}

/// The spec URL to bootstrap from: the `--url` flag unless it is blank, else
/// `MCP_GATEWAY_SPEC_URL`; trimmed, and nothing if that leaves it empty.
pub open spec fn bootstrap_url_spec(url_flag: Option<Seq<char>>, env: Option<Seq<char>>) -> Option<Seq<char>> {
    let chosen = if url_flag is Some && text::trim_ws(url_flag->0).len() > 0 {
        url_flag
    } else {
        env
    };
    match chosen {
        Some(s) => if text::trim_ws(s).len() > 0 {
            Some(text::trim_ws(s))
        } else {
            None
        },
        None => None,
    }
}

/// The bootstrap spec URL (`bootstrap_url_spec`); `env` is the value of
/// `MCP_GATEWAY_SPEC_URL`.
pub fn spec_bootstrap_url(url_flag: Option<&str>, env: Option<&str>) -> (r: Option<String>)
    ensures
        crate::urls::opt_str_view(r) == bootstrap_url_spec(
            crate::names::opt_view(url_flag),
            crate::names::opt_view(env),
        ),
{
    let chosen = match url_flag {
        Some(f) => {
            if text::trim(f).len() > 0 {
                Some(f)
            } else {
                env
            }
        },
        None => env,
    };
    match chosen {
        Some(s) => {
            let t = text::trim(s);
            if t.len() > 0 {
                Some(text::string_of(&t))
            } else {
                None
            }
        },
        None => None,
    }
}

/// What `Path::new(dir).join(name)` gives, as text.
pub uninterp spec fn path_joined(dir: Seq<char>, name: Seq<char>) -> Seq<char>;

/// `Path::join`, displayed. Claims only that the result is the one
/// `path_joined` names.
#[verifier::external_body]
fn path_join(dir: &str, name: &str) -> (r: String)
    ensures
        r@ == path_joined(dir@, name@),
{
    std::path::Path::new(dir).join(name).display().to_string()
}

/// The first twelve bytes of the digest text when it has that many, else all of it.
pub open spec fn pin_spec(sha256: Seq<char>) -> Seq<char> {
    let b = vstd::utf8::encode_utf8(sha256);
    if b.len() >= 12 {
        vstd::utf8::decode_utf8(b.subrange(0, 12))
    } else {
        sha256
    }
}

/// `{cache_dir}/{spec_name}-{pin}.ir.json`, the pin being the first twelve
/// bytes of the digest.
pub fn cache_file(cache_dir: &str, spec_name: &str, sha256: &str) -> (r: String)
    requires
        vstd::utf8::encode_utf8(sha256@).len() >= 12 ==> vstd::utf8::is_char_boundary(
            vstd::utf8::encode_utf8(sha256@),
            12,
        ),
    ensures
        r@ == path_joined(cache_dir@, spec_name@ + "-"@ + pin_spec(sha256@) + ".ir.json"@),
{
    let nbytes = sha256.as_bytes().len();
    let pin: &str = if nbytes >= 12 {
        let (a, _b) = sha256.split_at(12);
        proof {
            broadcast use vstd::utf8::encode_utf8_decode_utf8;
            assert(vstd::utf8::decode_utf8(vstd::utf8::encode_utf8(a@)) == a@);
            assert(vstd::utf8::encode_utf8(a@) =~= vstd::utf8::encode_utf8(sha256@).subrange(0, 12));
            assert(a@ == pin_spec(sha256@));
        }
        a
    } else {
        sha256
    };
    assert(pin@ == pin_spec(sha256@));
    let name = text::cat3(spec_name, "-", pin);
    let file = text::cat(name.as_str(), ".ir.json");
    path_join(cache_dir, file.as_str())
}

/// The gateway's own token: a token file wins; otherwise the configured
/// reference, where a failure is tolerated when anonymous access is allowed.
/// A token that is blank after trimming counts as none.
pub open spec fn mcp_token_spec(
    from_file: Option<Result<Seq<char>, CliErrorView>>,
    configured: Option<Result<Seq<char>, CliErrorView>>,
    allow_anonymous: bool,
) -> Result<Option<Seq<char>>, CliErrorView> {
    let keep = |s: Seq<char>| if text::trim_ws(s).len() > 0 { Some(s) } else { None };
    match from_file {
        Some(Ok(s)) => Ok(keep(s)),
        Some(Err(e)) => Err(e),
        None => match configured {
            Some(Ok(s)) => Ok(keep(s)),
            Some(Err(e)) => if allow_anonymous {
                Ok(None)
            } else {
                Err(e)
            },
            None => Ok(None),
        },
    }
}

pub open spec fn secret_result_view(r: Option<Result<String, CliError>>) -> Option<Result<Seq<char>, CliErrorView>> {
    match r {
        Some(Ok(s)) => Some(Ok(s@)),
        Some(Err(e)) => Some(Err(e@)),
        None => None,
    }
}

fn keep_nonblank(s: String) -> (r: Option<String>)
    ensures
        crate::urls::opt_str_view(r) == (if text::trim_ws(s@).len() > 0 {
            Some(s@)
        } else {
            None::<Seq<char>>
        }),
{
    if text::trim(s.as_str()).len() > 0 {
        Some(s)
    } else {
        None
    }
}

/// The gateway's own token (`mcp_token_spec`), from what reading the token
/// file and the configured reference gave.
pub fn mcp_token(
    from_file: Option<Result<String, CliError>>,
    configured: Option<Result<String, CliError>>,
    allow_anonymous: bool,
) -> (r: Result<Option<String>, CliError>)
    ensures
        match r {
            Ok(t) => mcp_token_spec(
                secret_result_view(from_file),
                secret_result_view(configured),
                allow_anonymous,
            ) == Ok::<Option<Seq<char>>, CliErrorView>(crate::urls::opt_str_view(t)),
            Err(e) => mcp_token_spec(
                secret_result_view(from_file),
                secret_result_view(configured),
                allow_anonymous,
            ) == Err::<Option<Seq<char>>, CliErrorView>(e@),
        },
{
    match from_file {
        Some(Ok(s)) => Ok(keep_nonblank(s)),
        Some(Err(e)) => Err(e),
        None => match configured {
            Some(Ok(s)) => Ok(keep_nonblank(s)),
            Some(Err(e)) => {
                if allow_anonymous {
                    Ok(None)
                } else {
                    Err(e)
                }
            },
            None => Ok(None),
        },
    }
}

/// The output settings: JSON, quiet, and the verbosity count.
#[derive(Debug, Clone, Copy)]
pub struct Output {
    pub json: bool,
    pub quiet: bool,
    pub verbose: u8,
}

impl Output {
    /// Whether a plain line goes to stdout: not quiet and not JSON.
    pub fn shows_line(&self) -> (r: bool)
        ensures
            r == (!self.quiet && !self.json),
    {
        !self.quiet && !self.json
    }

    /// Whether a line goes to stderr: not quiet.
    pub fn shows_err_line(&self) -> (r: bool)
        ensures
            r == !self.quiet,
    {
        !self.quiet
    }

    /// Whether a verbose line goes to stderr: verbose and not quiet.
    pub fn shows_verbose(&self) -> (r: bool)
        ensures
            r == (self.verbose > 0 && !self.quiet),
    {
        self.verbose > 0 && !self.quiet
    }
}

/// Where the tool keeps its files.
#[derive(Debug, Clone)]
pub struct PlatformPaths {
    pub config_file: String,
    pub credentials_file: String,
    pub cache_dir: String,
    pub log_file: String,
}

/// The directories the platform gives the tool (its configuration, local
/// data and cache directories).
#[derive(Debug, Clone)]
pub struct PlatformDirs {
    pub config_dir: String,
    pub data_local_dir: String,
    pub cache_dir: String,
}

/// What `Path::new(p).parent()` gives, as text.
pub uninterp spec fn path_parent_name(p: Seq<char>) -> Option<Seq<char>>;

/// `Path::parent`, displayed. Claims only that the result is the one
/// `path_parent_name` names.
#[verifier::external_body]
fn path_parent(p: &str) -> (r: Option<String>)
    ensures
        crate::urls::opt_str_view(r) == path_parent_name(p@),
{
    std::path::Path::new(p).parent().map(|q| q.display().to_string())
}

/// `credentials.toml` in the directory of the configuration file, or in the
/// working directory when that has none.
pub open spec fn credentials_beside_spec(config: Seq<char>) -> Seq<char> {
    match path_parent_name(config) {
        Some(parent) => if parent.len() > 0 {
            path_joined(parent, "credentials.toml"@)
        } else {
            "credentials.toml"@
        },
        None => "credentials.toml"@,
    }
}

/// The directory of a file, `.` when it has none.
pub open spec fn parent_or_dot(p: Seq<char>) -> Seq<char> {
    match path_parent_name(p) {
        Some(parent) => parent,
        None => "."@,
    }
}

/// The IR cache: `ir` under the platform cache directory, else a relative one.
pub open spec fn default_cache_spec(dirs: Option<(Seq<char>, Seq<char>, Seq<char>)>) -> Seq<char> {
    match dirs {
        Some((_, _, cache)) => path_joined(cache, "ir"@),
        None => ".cache/mcp-gateway/ir"@,
    }
}

/// Where the tool keeps its files (configuration, credentials, IR cache,
/// log): a `--config` path wins, then `$MCP_GATEWAY_CONFIG`, then the
/// platform directories, then the working directory.
pub open spec fn paths_spec(
    config_override: Option<Seq<char>>,
    env_config: Option<Seq<char>>,
    dirs: Option<(Seq<char>, Seq<char>, Seq<char>)>,
) -> (Seq<char>, Seq<char>, Seq<char>, Seq<char>) {
    match config_override {
        Some(p) => {
            let parent = parent_or_dot(p);
            (
                p,
                credentials_beside_spec(p),
                path_joined(path_joined(parent, "cache"@), "ir"@),
                path_joined(parent, "mcp-gateway.jsonl"@),
            )
        },
        None => match env_config {
            Some(e) => (
                e,
                credentials_beside_spec(e),
                default_cache_spec(dirs),
                path_joined(parent_or_dot(e), "mcp-gateway.jsonl"@),
            ),
            None => {
                let config = match dirs {
                    Some((c, _, _)) => path_joined(c, "config.toml"@),
                    None => "config.toml"@,
                };
                let log = match dirs {
                    Some((_, d, _)) => path_joined(d, "mcp-gateway.jsonl"@),
                    None => "mcp-gateway.jsonl"@,
                };
                (config, credentials_beside_spec(config), default_cache_spec(dirs), log)
            },
        },
    }
}

pub open spec fn dirs_view(dirs: Option<&PlatformDirs>) -> Option<(Seq<char>, Seq<char>, Seq<char>)> {
    match dirs {
        Some(d) => Some((d.config_dir@, d.data_local_dir@, d.cache_dir@)),
        None => None,
    }
}

fn credentials_beside(config: &str) -> (r: String)
    ensures
        r@ == credentials_beside_spec(config@),
{
    match path_parent(config) {
        Some(parent) => {
            if parent.as_str().unicode_len() > 0 {
                path_join(parent.as_str(), "credentials.toml")
            } else {
                "credentials.toml".to_owned()
            }
        },
        None => "credentials.toml".to_owned(),
    }
}

fn parent_or_dot_exec(p: &str) -> (r: String)
    ensures
        r@ == parent_or_dot(p@),
{
    match path_parent(p) {
        Some(parent) => parent,
        None => ".".to_owned(),
    }
}

fn default_cache(dirs: Option<&PlatformDirs>) -> (r: String)
    ensures
        r@ == default_cache_spec(dirs_view(dirs)),
{
    match dirs {
        Some(d) => path_join(d.cache_dir.as_str(), "ir"),
        None => ".cache/mcp-gateway/ir".to_owned(),
    }
}

impl PlatformPaths {
    /// Where the tool keeps its files (`paths_spec`), given the `--config`
    /// path, `$MCP_GATEWAY_CONFIG` and the platform directories, where there
    /// are any.
    pub fn resolve(config_override: Option<&str>, env_config: Option<&str>, dirs: Option<&PlatformDirs>) -> (r: PlatformPaths)
        ensures
            (r.config_file@, r.credentials_file@, r.cache_dir@, r.log_file@) == paths_spec(
                crate::names::opt_view(config_override),
                crate::names::opt_view(env_config),
                dirs_view(dirs),
            ),
    {
        match config_override {
            Some(p) => {
                let parent = parent_or_dot_exec(p);
                let cache = path_join(parent.as_str(), "cache");
                PlatformPaths {
                    config_file: p.to_owned(),
                    credentials_file: credentials_beside(p),
                    cache_dir: path_join(cache.as_str(), "ir"),
                    log_file: path_join(parent.as_str(), "mcp-gateway.jsonl"),
                }
            },
            None => match env_config {
                Some(e) => {
                    let parent = parent_or_dot_exec(e);
                    PlatformPaths {
                        config_file: e.to_owned(),
                        credentials_file: credentials_beside(e),
                        cache_dir: default_cache(dirs),
                        log_file: path_join(parent.as_str(), "mcp-gateway.jsonl"),
                    }
                },
                None => {
                    let config = match dirs {
                        Some(d) => path_join(d.config_dir.as_str(), "config.toml"),
                        None => "config.toml".to_owned(),
                    };
                    let log = match dirs {
                        Some(d) => path_join(d.data_local_dir.as_str(), "mcp-gateway.jsonl"),
                        None => "mcp-gateway.jsonl".to_owned(),
                    };
                    let credentials = credentials_beside(config.as_str());
                    PlatformPaths {
                        config_file: config,
                        credentials_file: credentials,
                        cache_dir: default_cache(dirs),
                        log_file: log,
                    }
                },
            },
        }
    }
}

/// A reserved named tunnel, ready to serve.
#[derive(Debug, Clone)]
pub struct NamedSession {
    pub slug: String,
    pub token: String,
    pub label: String,
    pub quota: String,
    pub created: bool,
}

} // verus!
verus! {

/// The configuration, or the error when there is no configuration file.
/// `loaded` is what reading the file gave, `None` when it does not exist.
pub fn load_cfg(
    config_file: &str,
    loaded: Option<Result<crate::config::GatewayConfig, CliError>>,
) -> (r: Result<crate::config::GatewayConfig, CliError>)
    ensures
        match loaded {
            None => r matches Err(e) && e@ == CliErrorView::Usage(
                "no config at "@ + config_file@ + "; run mcp-gateway init"@,
            ),
            Some(l) => r == l,
        },
{
    match loaded {
        None => Err(CliError::Usage(text::cat3("no config at ", config_file, "; run mcp-gateway init"))),
        Some(l) => l,
    }
}

/// What `whoami` reports for a revoked token, and whether it deletes the
/// credentials file: only with `--clear` and only when the token came from it.
pub fn revoked_whoami(err: &CliError, clear: bool, source: crate::fetchhive::TokenSource) -> (r: (
    bool,
    CliError,
))
    ensures
        r.0 == (clear && source == crate::fetchhive::TokenSource::File),
        r.1@ == CliErrorView::Usage(
            crate::cli_error::cli_message(err@) + ". "@ + if r.0 {
                "Removed credentials.toml."@
            } else if clear {
                "credentials.toml was left in place because this token did not come from that file."@
            } else {
                "Pass --clear to delete credentials.toml."@
            },
        ),
{
    let removed = clear && source == crate::fetchhive::TokenSource::File;
    let extra = if removed {
        "Removed credentials.toml."
    } else if clear {
        "credentials.toml was left in place because this token did not come from that file."
    } else {
        "Pass --clear to delete credentials.toml."
    };
    let m = err.message();
    (removed, CliError::Usage(text::cat3(m.as_str(), ". ", extra)))
}

/// What `logout` does.
#[derive(Debug, Clone, Copy, PartialEq, Eq, Structural)]
pub enum LogoutStep {
    /// No token: remove any file and say so.
    NotLoggedIn,
    /// The token does not come from the file: keep everything.
    Kept,
    /// Delete the file, after revoking the token remotely when asked.
    SignOut { revoke_remote: bool },
}

/// The logout decision from where the token came from (none when there is none).
pub fn logout_step(source: Option<crate::fetchhive::TokenSource>, keep_remote: bool) -> (r: LogoutStep)
    ensures
        r == match source {
            None => LogoutStep::NotLoggedIn,
            Some(s) => if s != crate::fetchhive::TokenSource::File {
                LogoutStep::Kept
            } else {
                LogoutStep::SignOut { revoke_remote: !keep_remote }
            },
        },
{
    match source {
        None => LogoutStep::NotLoggedIn,
        Some(s) => {
            if s != crate::fetchhive::TokenSource::File {
                LogoutStep::Kept
            } else {
                LogoutStep::SignOut { revoke_remote: !keep_remote }
            }
        },
    }
}

/// The name of a token source that `logout` leaves in place.
pub fn kept_source_name(source: crate::fetchhive::TokenSource) -> (r: &'static str)
    ensures
        r@ == match source {
            crate::fetchhive::TokenSource::Env => "MCP_GATEWAY_CLI_TOKEN"@,
            crate::fetchhive::TokenSource::Flag => "--cli-token"@,
            crate::fetchhive::TokenSource::File => "credentials.toml"@,
        },
{
    match source {
        crate::fetchhive::TokenSource::Env => "MCP_GATEWAY_CLI_TOKEN",
        crate::fetchhive::TokenSource::Flag => "--cli-token",
        crate::fetchhive::TokenSource::File => "credentials.toml",
    }
}

} // verus!
verus! {

// ---------------------------------------------------------------------------
// add-spec
// ---------------------------------------------------------------------------

/// Where `add-spec` reads the document from, after its checks: a spec of
/// that name exists and `--force` is not given; `--base-url` is not an
/// absolute http(s) URL; not exactly one of `--url` and `--file`.
pub open spec fn add_source_spec(
    exists: bool,
    name: Seq<char>,
    url: Option<Seq<char>>,
    file: Option<Seq<char>>,
    base_url: Option<Seq<char>>,
    force: bool,
) -> Result<crate::loader::SpecSourceView, CliErrorView> {
    if exists && !force {
        Err(CliErrorView::Usage("spec "@ + name + " already exists; pass --force to replace"@))
    } else if base_url matches Some(b) && !crate::server_url::is_absolute_http_spec(b) {
        Err(CliErrorView::Usage("--base-url must be an absolute http(s) URL (host + scheme)"@))
    } else {
        match (url, file) {
            (Some(u), None) => Ok(crate::loader::SpecSourceView::Url(u)),
            (None, Some(f)) => Ok(crate::loader::SpecSourceView::File(f)),
            _ => Err(CliErrorView::Usage("exactly one of --url or --file is required"@)),
        }
    }
}

/// The checks of `add-spec` and where it reads the document from
/// (`add_source_spec`, with whether the configuration has a spec of that
/// name).
pub fn add_source(
    cfg: &crate::config::GatewayConfig,
    name: &str,
    url: Option<&str>,
    file: Option<&str>,
    base_url: Option<&str>,
    force: bool,
) -> (r: Result<crate::loader::SpecSource, CliError>)
    ensures
        ({
            let exists = exists|i: int| 0 <= i < cfg.specs@.len() && cfg.specs@[i].name@ == name@;
            let want = add_source_spec(
                exists,
                name@,
                crate::names::opt_view(url),
                crate::names::opt_view(file),
                crate::names::opt_view(base_url),
                force,
            );
            match r {
                Ok(s) => want == Ok::<crate::loader::SpecSourceView, CliErrorView>(s@),
                Err(e) => want == Err::<crate::loader::SpecSourceView, CliErrorView>(e@),
            }
        }),
{
    let mut found = false;
    let mut i: usize = 0;
    while i < cfg.specs.len()
        invariant
            i <= cfg.specs@.len(),
            found == exists|j: int| 0 <= j < i && cfg.specs@[j].name@ == name@,
        decreases cfg.specs@.len() - i,
    {
        if text::str_eq(cfg.specs[i].name.as_str(), name) {
            found = true;
        }
        i = i + 1;
    }
    if found && !force {
        return Err(CliError::Usage(text::cat3("spec ", name, " already exists; pass --force to replace")));
    }
    match base_url {
        Some(b) => {
            if !crate::server_url::is_absolute_http_url(b) {
                return Err(CliError::usage("--base-url must be an absolute http(s) URL (host + scheme)"));
            }
        },
        None => {},
    }
    match (url, file) {
        (Some(u), None) => Ok(crate::loader::SpecSource::Url(u.to_owned())),
        (None, Some(f)) => Ok(crate::loader::SpecSource::File(f.to_owned())),
        _ => Err(CliError::usage("exactly one of --url or --file is required")),
    }
}

/// The names joined with `, `.
pub open spec fn joined(names: Seq<Seq<char>>) -> Seq<char>
    decreases names.len(),
{
    if names.len() == 0 {
        Seq::empty()
    } else if names.len() == 1 {
        names[0]
    } else {
        joined(names.drop_last()) + ", "@ + names.last()
    }
}

/// At most `max` tool names, joined, with `, …` when some are left out;
/// `(none)` for none.
pub open spec fn preview_spec(names: Seq<Seq<char>>, max: nat) -> Seq<char> {
    if names.len() == 0 {
        "(none)"@
    } else if names.len() <= max {
        joined(names)
    } else {
        joined(names.take(max as int)) + ", …"@
    }
}

fn join_names(names: &Vec<String>, n: usize) -> (r: String)
    requires
        n <= names@.len(),
    ensures
        r@ == joined(crate::schema::strings_view(names@).take(n as int)),
{
    let ghost sv = crate::schema::strings_view(names@);
    let mut out = String::new();
    let mut i: usize = 0;
    assert(sv.take(0) =~= Seq::<Seq<char>>::empty());
    while i < n
        invariant
            sv == crate::schema::strings_view(names@),
            n <= names@.len(),
            i <= n,
            out@ == joined(sv.take(i as int)),
        decreases n - i,
    {
        assert(sv.take(i + 1).drop_last() =~= sv.take(i as int));
        assert(sv.take(i + 1).last() == names@[i as int]@);
        if i == 0 {
            assert(sv.take(1) =~= seq![names@[0]@]);
            out = names[0].clone();
        } else {
            out = text::cat3(out.as_str(), ", ", names[i].as_str());
        }
        i = i + 1;
    }
    out
}

/// A preview of the compiled tool names (`preview_spec`).
pub fn preview_tool_names(names: &Vec<String>, max: usize) -> (r: String)
    ensures
        r@ == preview_spec(crate::schema::strings_view(names@), max as nat),
{
    let ghost sv = crate::schema::strings_view(names@);
    if names.len() == 0 {
        return "(none)".to_owned();
    }
    if names.len() <= max {
        let s = join_names(names, names.len());
        assert(sv.take(names@.len() as int) =~= sv);
        return s;
    }
    let s = join_names(names, max);
    text::cat(s.as_str(), ", …")
}

/// The specs with the one of the entry's name replaced by the entry, put
/// last.
pub open spec fn upsert_spec(specs: Seq<crate::config::SpecEntry>, entry: crate::config::SpecEntry) -> Seq<crate::config::SpecEntry> {
    specs.filter(|s: crate::config::SpecEntry| s.name@ != entry.name@).push(entry)
}

/// Registers a spec: any entry of the same name is dropped and the new one
/// goes last (`upsert_spec`).
pub fn register_spec(cfg: &mut crate::config::GatewayConfig, entry: crate::config::SpecEntry)
    ensures
        final(cfg).specs@ == upsert_spec(old(cfg).specs@, entry),
        final(cfg).schema_version == old(cfg).schema_version,
        final(cfg).server == old(cfg).server,
        final(cfg).ssrf == old(cfg).ssrf,
        final(cfg).cache == old(cfg).cache,
        final(cfg).log == old(cfg).log,
{
    let ghost old_specs = cfg.specs@;
    let ghost keep = |s: crate::config::SpecEntry| s.name@ != entry.name@;
    let mut rest: Vec<crate::config::SpecEntry> = Vec::new();
    std::mem::swap(&mut rest, &mut cfg.specs);
    let mut kept: Vec<crate::config::SpecEntry> = Vec::new();
    let n = rest.len();
    let mut i: usize = 0;
    assert(old_specs.take(0).filter(keep) =~= Seq::<crate::config::SpecEntry>::empty()) by {
        reveal(Seq::filter);
    }
    assert(old_specs.skip(0) =~= old_specs);
    while rest.len() > 0
        invariant
            n == old_specs.len(),
            i <= n,
            rest@ == old_specs.skip(i as int),
            kept@ == old_specs.take(i as int).filter(keep),
            keep == (|s: crate::config::SpecEntry| s.name@ != entry.name@),
        decreases rest@.len(),
    {
        let s = rest.remove(0);
        assert(s == old_specs[i as int]);
        proof {
            reveal(Seq::filter);
            assert(old_specs.take(i + 1).drop_last() =~= old_specs.take(i as int));
            assert(old_specs.take(i + 1).last() == s);
            assert(old_specs.skip(i + 1) =~= old_specs.skip(i as int).remove(0));
        }
        if !text::str_eq(s.name.as_str(), entry.name.as_str()) {
            kept.push(s);
        }
        i = i + 1;
    }
    assert(old_specs.take(i as int) =~= old_specs);
    kept.push(entry);
    cfg.specs = kept;
}

/// The IR cache directory: the configured one, else the platform's.
pub fn ir_cache_dir(configured: &str, platform: &str) -> (r: String)
    ensures
        r@ == if configured@.len() == 0 {
            platform@
        } else {
            configured@
        },
{
    if configured.unicode_len() == 0 {
        platform.to_owned()
    } else {
        configured.to_owned()
    }
}

} // verus!
verus! {

// ---------------------------------------------------------------------------
// init and logs
// ---------------------------------------------------------------------------

/// The configuration `init` writes: schema version 1, the given bind
/// address or `127.0.0.1:8787`, the MCP token referenced from
/// `$MCP_GATEWAY_TOKEN`, private networks as asked, no specs.
pub fn init_config(bind: Option<&str>, allow_private: bool) -> (r: crate::config::GatewayConfig)
    ensures
        r.schema_version == crate::config::SCHEMA_VERSION,
        r.server.bind@ == match bind {
            Some(b) => b@,
            None => "127.0.0.1:8787"@,
        },
        r.server.path@ == crate::config::DEFAULT_PATH@,
        !r.server.expose,
        !r.server.allow_anonymous,
        r.server.token matches Some(t) && t@ == crate::secrets::SecretRefView::Env("MCP_GATEWAY_TOKEN"@),
        r.ssrf.allow_private_networks == allow_private,
        !r.ssrf.allow_insecure_http,
        !r.ssrf.allow_metadata,
        r.specs@.len() == 0,
{
    let mut cfg = crate::config::GatewayConfig::default();
    cfg.schema_version = crate::config::SCHEMA_VERSION;
    cfg.server.bind = match bind {
        Some(b) => b.to_owned(),
        None => "127.0.0.1:8787".to_owned(),
    };
    cfg.server.expose = false;
    cfg.server.allow_anonymous = false;
    cfg.server.token = Some(crate::secrets::SecretRef::env("MCP_GATEWAY_TOKEN"));
    cfg.ssrf = crate::config::SsrfConfig {
        allow_private_networks: allow_private,
        allow_insecure_http: false,
        allow_metadata: false,
    };
    cfg
}

/// The MCP bearer token `init` prints: `fh_mcp_live_` and the random bytes
/// in lower-case hexadecimal.
pub fn live_token_text(random: &[u8]) -> (r: String)
    ensures
        r@ == "fh_mcp_live_"@ + crate::digest::hex_lower(random@),
{
    let h = crate::digest::hex_encode(random);
    text::cat("fh_mcp_live_", h.as_str())
}

/// A log line `logs` shows: it mentions the tool, when one is asked for,
/// and does not sort before `--since`, when given.
pub open spec fn log_line_shown_spec(line: Seq<char>, since: Option<Seq<char>>, tool: Option<Seq<char>>) -> bool {
    &&& (tool matches Some(t) ==> text::contains_seq(line, t))
    &&& (since matches Some(s) ==> !crate::names::seq_lt(line, s))
}

/// Whether `logs` shows a line (`log_line_shown_spec`).
pub fn log_line_shown(line: &str, since: Option<&str>, tool: Option<&str>) -> (r: bool)
    ensures
        r == log_line_shown_spec(line@, crate::names::opt_view(since), crate::names::opt_view(tool)),
{
    let l = text::chars_of(line);
    match tool {
        Some(t) => {
            if !text::vec_contains(&l, &text::chars_of(t)) {
                return false;
            }
        },
        None => {},
    }
    match since {
        Some(s) => !crate::names::seq_lt_pub(&l, &text::chars_of(s)),
        None => true,
    }
}

} // verus!
