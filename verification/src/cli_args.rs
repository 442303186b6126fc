//! The command line of the tool as plain values, and the decisions of the
//! `auth` commands on them.
//!
//! Parsing the arguments (with `clap`) is left to the caller, which fills
//! these types in.
use vstd::prelude::*;
use crate::cli_error::{CliError, CliErrorView};
use crate::config::{CustomHeaderRef, UpstreamAuth};
use crate::secrets::{SecretRef, SecretRefView};
use crate::text;

verus! {

/// The whole command line.
#[derive(Debug, Clone)]
pub struct Cli {
    pub globals: Globals,
    pub command: Commands,
}

/// Options every command takes.
#[derive(Debug, Clone)]
pub struct Globals {
    pub config: Option<String>,
    pub verbose: u8,
    pub quiet: bool,
    pub json: bool,
    pub color: ColorMode,
    pub allow_private_networks: bool,
    pub allow_metadata: bool,
}

#[derive(Debug, Clone, Copy, PartialEq, Eq, Structural)]
pub enum ColorMode {
    Auto,
    Always,
    Never,
}

/// The commands of the tool.
#[derive(Debug, Clone)]
pub enum Commands {
    Init { force: bool, bind: Option<String>, cloud: bool },
    AddSpec {
        name: String,
        url: Option<String>,
        file: Option<String>,
        base_url: Option<String>,
        insecure_http: bool,
        force: bool,
    },
    List,
    Inspect { name: Option<String>, tool: Option<String>, client: Option<ClientKind> },
    Auth(AuthCmd),
    Serve {
        name: String,
        stdio: bool,
        tunnel: bool,
        tunnel_name: Option<String>,
        tunnel_auth: TunnelAuth,
        bind: Option<String>,
        path: String,
        expose: bool,
        allow_anonymous: bool,
        token_file: Option<String>,
        allow_insecure_http: bool,
        base_url: Option<String>,
        url: Option<String>,
    },
    Tunnel {
        url: Option<String>,
        stdio: bool,
        command: Vec<String>,
        tunnel_auth: ProxyAuth,
        token: Option<String>,
        bind: Option<String>,
        name: Option<String>,
        no_probe: bool,
        allow_remote_upstream: bool,
    },
    Doctor { name: Option<String>, offline: bool },
    Test { name: String, tool: String, args: String, timeout: u64, base_url: Option<String> },
    Logs { follow: bool, since: Option<String>, tool: Option<String> },
    Version,
    Upgrade { version: Option<String>, dry_run: bool },
    Compile { spec: String, out: Option<String>, report: Option<String> },
    ListTools { ir: String, tag: Option<String> },
    Call {
        ir: String,
        tool_name: String,
        args: String,
        base_url: Option<String>,
        bearer_env: String,
        allow_disabled: bool,
    },
    Corpus { only: Option<String> },
}

/// The `auth` subcommands.
#[derive(Debug, Clone)]
pub enum AuthCmd {
    Add {
        name: String,
        kind: AuthType,
        header: Option<String>,
        query: Option<String>,
        from_env: Option<String>,
        from_file: Option<String>,
        from_env_headers: Vec<String>,
    },
    List { name: Option<String> },
    Remove { name: String },
}

/// How an upstream API is authenticated.
#[derive(Debug, Clone, Copy, PartialEq, Eq, Structural)]
pub enum AuthType {
    NoAuth,
    Bearer,
    Basic,
    ApiKeyHeader,
    ApiKeyQuery,
    CustomHeaders,
}

/// How remote clients of a served tunnel authenticate.
#[derive(Debug, Clone, Copy, PartialEq, Eq, Structural)]
pub enum TunnelAuth {
    Token,
    Public,
}

/// How remote clients of a proxied tunnel authenticate.
#[derive(Debug, Clone, Copy, PartialEq, Eq, Structural)]
pub enum ProxyAuth {
    Token,
    Passthrough,
    Public,
}

/// The MCP client a paste snippet is for.
#[derive(Debug, Clone, Copy, PartialEq, Eq, Structural)]
pub enum ClientKind {
    Cursor,
    ClaudeCode,
    Claude,
    Codex,
    Vscode,
    Chatgpt,
}

pub open spec fn auth_type_name_spec(kind: AuthType) -> Seq<char> {
    match kind {
        AuthType::NoAuth => "none"@,
        AuthType::Bearer => "bearer"@,
        AuthType::Basic => "basic"@,
        AuthType::ApiKeyHeader => "api_key_header"@,
        AuthType::ApiKeyQuery => "api_key_query"@,
        AuthType::CustomHeaders => "custom_headers"@,
    }
}

/// The name an auth type is stored and shown under.
pub fn auth_type_name(kind: AuthType) -> (r: &'static str)
    ensures
        r@ == auth_type_name_spec(kind),
{
    match kind {
        AuthType::NoAuth => "none",
        AuthType::Bearer => "bearer",
        AuthType::Basic => "basic",
        AuthType::ApiKeyHeader => "api_key_header",
        AuthType::ApiKeyQuery => "api_key_query",
        AuthType::CustomHeaders => "custom_headers",
    }
}

/// The credential reference of `auth add`: `--from-env` or `--from-file`,
/// exactly one of them, or neither for the `none` and `custom_headers` types.
pub open spec fn token_ref_spec(kind: AuthType, from_env: Option<Seq<char>>, from_file: Option<Seq<char>>) -> Result<Option<SecretRefView>, CliErrorView> {
    match (from_env, from_file) {
        (Some(env), None) => Ok(Some(SecretRefView::Env(env))),
        (None, Some(path)) => Ok(Some(SecretRefView::File(path))),
        (None, None) => if kind == AuthType::NoAuth || kind == AuthType::CustomHeaders {
            Ok(None)
        } else {
            Err(CliErrorView::Usage("exactly one of --from-env or --from-file is required"@))
        },
        _ => Err(CliErrorView::Usage("exactly one of --from-env or --from-file is required"@)),
    }
}

pub open spec fn opt_ref_view(r: Option<SecretRef>) -> Option<SecretRefView> {
    match r {
        Some(s) => Some(s@),
        None => None,
    }
}

/// The credential reference of `auth add` (`token_ref_spec`).
pub fn auth_token_ref(kind: AuthType, from_env: Option<&str>, from_file: Option<&str>) -> (r: Result<Option<SecretRef>, CliError>)
    ensures
        match r {
            Ok(t) => token_ref_spec(kind, crate::names::opt_view(from_env), crate::names::opt_view(from_file))
                == Ok::<Option<SecretRefView>, CliErrorView>(opt_ref_view(t)),
            Err(e) => token_ref_spec(kind, crate::names::opt_view(from_env), crate::names::opt_view(from_file))
                == Err::<Option<SecretRefView>, CliErrorView>(e@),
        },
{
    match (from_env, from_file) {
        (Some(env), None) => Ok(Some(SecretRef::env(env))),
        (None, Some(path)) => Ok(Some(SecretRef::file(path))),
        (None, None) => {
            if kind == AuthType::NoAuth || kind == AuthType::CustomHeaders {
                Ok(None)
            } else {
                Err(CliError::usage("exactly one of --from-env or --from-file is required"))
            }
        },
        _ => Err(CliError::usage("exactly one of --from-env or --from-file is required")),
    }
}

/// `HEADER=VAR` split at its first `=`.
pub open spec fn env_header_spec(item: Seq<char>) -> Result<(Seq<char>, Seq<char>), CliErrorView> {
    if exists|i: int| 0 <= i < item.len() && item[i] == '=' {
        let i = choose|i: int|
            0 <= i < item.len() && item[i] == '=' && forall|j: int| 0 <= j < i ==> item[j] != '=';
        Ok((item.take(i), item.skip(i + 1)))
    } else {
        Err(CliErrorView::Usage("--from-env-header expects HEADER=VAR"@))
    }
}

/// A `--from-env-header` value (`env_header_spec`).
pub fn parse_env_header(item: &str) -> (r: Result<(String, String), CliError>)
    ensures
        match r {
            Ok((h, v)) => env_header_spec(item@) == Ok::<(Seq<char>, Seq<char>), CliErrorView>(
                (h@, v@),
            ),
            Err(e) => env_header_spec(item@) == Err::<(Seq<char>, Seq<char>), CliErrorView>(e@),
        },
{
    let v = text::chars_of(item);
    let mut i: usize = 0;
    while i < v.len()
        invariant
            v@ == item@,
            i <= v.len(),
            forall|j: int| 0 <= j < i ==> v@[j] != '=',
        decreases v.len() - i,
    {
        if v[i] == '=' {
            proof {
                let c = choose|k: int|
                    0 <= k < v@.len() && v@[k] == '=' && forall|j: int| 0 <= j < k ==> v@[j] != '=';
                assert(0 <= i < v@.len() && v@[i as int] == '=' && forall|j: int|
                    0 <= j < i ==> v@[j] != '=');
                if c < i {
                    assert(v@[c] != '=');
                } else if c > i {
                    assert(v@[i as int] != '=');
                }
            }
            let mut h: Vec<char> = Vec::new();
            let mut k: usize = 0;
            while k < i
                invariant
                    k <= i < v.len(),
                    h@ == v@.take(k as int),
                decreases i - k,
            {
                h.push(v[k]);
                assert(v@.take(k + 1) =~= v@.take(k as int).push(v@[k as int]));
                k = k + 1;
            }
            let mut t: Vec<char> = Vec::new();
            let mut m: usize = i + 1;
            while m < v.len()
                invariant
                    i + 1 <= m <= v.len(),
                    t@ == v@.subrange(i + 1, m as int),
                decreases v.len() - m,
            {
                t.push(v[m]);
                assert(v@.subrange(i + 1, m + 1) =~= v@.subrange(i + 1, m as int).push(v@[m as int]));
                m = m + 1;
            }
            assert(t@ =~= v@.skip(i + 1));
            return Ok((text::string_of(&h), text::string_of(&t)));
        }
        i = i + 1;
    }
    Err(CliError::usage("--from-env-header expects HEADER=VAR"))
}

/// The error for a `--from-env` variable that is not set, with the hint.
pub fn unset_env_hint(env: &str, name: &str) -> (r: CliError)
    ensures
        r@ == CliErrorView::Usage(
            env@ + " is not set in the environment\nhint: export "@ + env@
                + "=…   or use --from-file /run/secrets/"@ + name@,
        ),
{
    let a = text::cat3(env, " is not set in the environment\nhint: export ", env);
    let b = text::cat3(a.as_str(), "=…   or use --from-file /run/secrets/", name);
    CliError::Usage(b)
}

/// The upstream credential record `auth add` stores.
pub fn upstream_auth(
    kind: AuthType,
    token: Option<SecretRef>,
    header: Option<String>,
    query: Option<String>,
    headers: Vec<CustomHeaderRef>,
) -> (r: UpstreamAuth)
    ensures
        r.kind@ == auth_type_name_spec(kind),
        r.token == token,
        r.header == header,
        r.query == query,
        r.username is None,
        r.password is None,
        r.headers == headers,
{
    UpstreamAuth {
        kind: auth_type_name(kind).to_owned(),
        token,
        header,
        query,
        username: None,
        password: None,
        headers,
    }
}

} // verus!
