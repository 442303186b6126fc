//! The gateway's configuration file, as plain values, and the checks made on
//! it once it is read: the schema version and the scan for live tokens.
//!
//! Reading and writing TOML is left to the caller.
use vstd::prelude::*;
use crate::cli_error::{CliError, CliErrorView};
use crate::secrets::{self, SecretRef, SecretRefView};
use crate::text;

verus! {

/// The newest configuration schema this tool understands.
pub const SCHEMA_VERSION: u32 = 1;

/// The comment written at the top of the configuration file.
pub const SECRET_WARNING: &'static str = "# WARNING: never commit tokens, passwords, or private keys to this file.\n# Use env references or file references. `mcp-gateway doctor` fails if it\n# finds a value that looks like a live token (fh_mcp_, sk_live, Bearer ).\n";

#[derive(Debug, Clone)]
pub struct GatewayConfig {
    pub schema_version: u32,
    pub server: ServerConfig,
    pub ssrf: SsrfConfig,
    pub cache: CacheConfig,
    pub log: LogConfig,
    pub specs: Vec<SpecEntry>,
}

#[derive(Debug, Clone)]
pub struct ServerConfig {
    pub bind: String,
    pub path: String,
    pub expose: bool,
    pub allow_anonymous: bool,
    pub token: Option<SecretRef>,
}

#[derive(Debug, Clone)]
pub struct SsrfConfig {
    pub allow_private_networks: bool,
    pub allow_insecure_http: bool,
    pub allow_metadata: bool,
}

#[derive(Debug, Clone)]
pub struct CacheConfig {
    pub dir: String,
    pub ttl: String,
}

#[derive(Debug, Clone)]
pub struct LogConfig {
    pub file: String,
    pub level: String,
}

#[derive(Debug, Clone)]
pub struct SpecEntry {
    pub name: String,
    pub url: Option<String>,
    pub file: Option<String>,
    pub ir_pin: Option<String>,
    pub enabled_tools: Vec<String>,
    pub disabled_tools: Vec<String>,
    pub upstream: Option<UpstreamAuth>,
}

#[derive(Debug, Clone)]
pub struct UpstreamAuth {
    pub kind: String,
    pub token: Option<SecretRef>,
    pub header: Option<String>,
    pub query: Option<String>,
    pub username: Option<SecretRef>,
    pub password: Option<SecretRef>,
    pub headers: Vec<CustomHeaderRef>,
}

#[derive(Debug, Clone)]
pub struct CustomHeaderRef {
    pub name: String,
    pub value: SecretRef,
}

/// The bind address when none is configured.
pub const DEFAULT_BIND: &'static str = "127.0.0.1:8787";

/// The MCP path when none is configured.
pub const DEFAULT_PATH: &'static str = "/mcp";

/// The cache time-to-live when none is configured.
pub const DEFAULT_TTL: &'static str = "168h";

/// The log level when none is configured.
pub const DEFAULT_LEVEL: &'static str = "info";

impl Default for ServerConfig {
    fn default() -> (r: Self)
        ensures
            r.bind@ == DEFAULT_BIND@,
            r.path@ == DEFAULT_PATH@,
            !r.expose,
            !r.allow_anonymous,
            r.token matches Some(t) && t@ == SecretRefView::Env("MCP_GATEWAY_TOKEN"@),
    {
        ServerConfig {
            bind: DEFAULT_BIND.to_owned(),
            path: DEFAULT_PATH.to_owned(),
            expose: false,
            allow_anonymous: false,
            token: Some(SecretRef::env("MCP_GATEWAY_TOKEN")),
        }
    }
}

impl Default for SsrfConfig {
    fn default() -> (r: Self)
        ensures
            !r.allow_private_networks && !r.allow_insecure_http && !r.allow_metadata,
    {
        SsrfConfig { allow_private_networks: false, allow_insecure_http: false, allow_metadata: false }
    }
}

impl Default for CacheConfig {
    fn default() -> (r: Self)
        ensures
            r.dir@.len() == 0 && r.ttl@.len() == 0,
    {
        CacheConfig { dir: String::new(), ttl: String::new() }
    }
}

impl Default for LogConfig {
    fn default() -> (r: Self)
        ensures
            r.file@.len() == 0 && r.level@.len() == 0,
    {
        LogConfig { file: String::new(), level: String::new() }
    }
}

impl Default for GatewayConfig {
    fn default() -> (r: Self)
        ensures
            r.schema_version == 0,
            r.specs@.len() == 0,
            r.server.bind@ == DEFAULT_BIND@,
            r.server.path@ == DEFAULT_PATH@,
            !r.server.expose,
            !r.server.allow_anonymous,
            r.server.token matches Some(t) && t@ == SecretRefView::Env("MCP_GATEWAY_TOKEN"@),
            !r.ssrf.allow_private_networks && !r.ssrf.allow_insecure_http && !r.ssrf.allow_metadata,
            r.cache.dir@.len() == 0 && r.cache.ttl@.len() == 0,
            r.log.file@.len() == 0 && r.log.level@.len() == 0,
    {
        GatewayConfig {
            schema_version: 0,
            server: ServerConfig::default(),
            ssrf: SsrfConfig::default(),
            cache: CacheConfig::default(),
            log: LogConfig::default(),
            specs: Vec::new(),
        }
    }
}

/// The checks on a configuration that was read, given its TOML text: a
/// schema newer than this tool, a missing one, and anything that looks like
/// a live token are usage errors.
pub open spec fn validate_spec(schema_version: u32, encoded: Seq<char>) -> Result<(), CliErrorView> {
    if schema_version > SCHEMA_VERSION {
        Err(
            CliErrorView::Usage(
                "config schema_version "@ + text::dec_str(schema_version as nat)
                    + " is newer than this CLI; run mcp-gateway upgrade"@,
            ),
        )
    } else if schema_version == 0 {
        Err(CliErrorView::Usage("config schema_version is required"@))
    } else if secrets::secret_literal_spec(encoded) {
        Err(
            CliErrorView::Usage(
                "config looks like it contains a live token (fh_mcp_, sk_live, or Bearer ); use env or file references"@,
            ),
        )
    } else {
        Ok(())
    }
}

/// `unknown spec '{name}'`.
pub open spec fn unknown_spec_message(name: Seq<char>) -> Seq<char> {
    "unknown spec '"@ + name + "'"@
}

/// The first entry with that name.
pub open spec fn first_named(specs: Seq<SpecEntry>, name: Seq<char>, i: int) -> bool {
    0 <= i < specs.len() && specs[i].name@ == name && forall|j: int|
        0 <= j < i ==> (#[trigger] specs[j]).name@ != name
}

impl GatewayConfig {
    /// The checks on a configuration that was read (`validate_spec`); `encoded`
    /// is its TOML text.
    pub fn validate(&self, encoded: &str) -> (r: Result<(), CliError>)
        ensures
            match r {
                Ok(()) => validate_spec(self.schema_version, encoded@) is Ok,
                Err(e) => validate_spec(self.schema_version, encoded@) == Err::<(), CliErrorView>(
                    e@,
                ),
            },
    {
        if self.schema_version > SCHEMA_VERSION {
            let d = text::dec_string(self.schema_version as u64);
            return Err(
                CliError::Usage(
                    text::cat3(
                        "config schema_version ",
                        d.as_str(),
                        " is newer than this CLI; run mcp-gateway upgrade",
                    ),
                ),
            );
        }
        if self.schema_version == 0 {
            return Err(CliError::usage("config schema_version is required"));
        }
        if secrets::looks_like_secret_literal(encoded) {
            return Err(
                CliError::usage(
                    "config looks like it contains a live token (fh_mcp_, sk_live, or Bearer ); use env or file references",
                ),
            );
        }
        Ok(())
    }

    /// The position of the first spec entry with that name.
    pub fn spec_index(&self, name: &str) -> (r: Result<usize, CliError>)
        ensures
            match r {
                Ok(i) => first_named(self.specs@, name@, i as int),
                Err(e) => (forall|j: int| 0 <= j < self.specs@.len() ==> (#[trigger] self.specs@[j]).name@
                    != name@) && e@ == CliErrorView::Usage(unknown_spec_message(name@)),
            },
    {
        let mut i: usize = 0;
        while i < self.specs.len()
            invariant
                i <= self.specs@.len(),
                forall|j: int| 0 <= j < i ==> (#[trigger] self.specs@[j]).name@ != name@,
            decreases self.specs@.len() - i,
        {
            if text::str_eq(self.specs[i].name.as_str(), name) {
                return Ok(i);
            }
            i = i + 1;
        }
        Err(CliError::Usage(text::cat3("unknown spec '", name, "'")))
    }

    /// The first spec entry with that name.
    pub fn spec(&self, name: &str) -> (r: Result<&SpecEntry, CliError>)
        ensures
            match r {
                Ok(s) => exists|i: int| first_named(self.specs@, name@, i) && *s == self.specs@[i],
                Err(e) => (forall|j: int| 0 <= j < self.specs@.len() ==> (#[trigger] self.specs@[j]).name@
                    != name@) && e@ == CliErrorView::Usage(unknown_spec_message(name@)),
            },
    {
        match self.spec_index(name) {
            Ok(i) => Ok(&self.specs[i]),
            Err(e) => Err(e),
        }
    }

    /// The first spec entry with that name, to change it.
    pub fn spec_mut(&mut self, name: &str) -> (r: Result<&mut SpecEntry, CliError>)
        ensures
            match r {
                Ok(s) => exists|i: int|
                    first_named(old(self).specs@, name@, i) && *s == old(self).specs@[i]
                        && final(self).specs@ == old(self).specs@.update(i, *final(s))
                        && final(self).schema_version == old(self).schema_version,
                Err(e) => *final(self) == *old(self) && (forall|j: int|
                    0 <= j < old(self).specs@.len() ==> (#[trigger] old(self).specs@[j]).name@
                        != name@) && e@ == CliErrorView::Usage(unknown_spec_message(name@)),
            },
    {
        match self.spec_index(name) {
            Ok(i) => Ok(&mut self.specs[i]),
            Err(e) => Err(e),
        }
    }
}

} // verus!
