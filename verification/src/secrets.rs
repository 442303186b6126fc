//! References to secrets in the configuration: an environment variable, a
//! file, or a `${VAR}` interpolation. Inline secret literals are refused.
//!
//! Reading the variable or the file is I/O and is left to the caller; the
//! functions here decide where a secret is read from and what is reported.
use vstd::prelude::*;
use crate::cli_error::{CliError, CliErrorView};
use crate::text;

verus! {

/// Where the configuration says a secret is.
#[derive(Debug, Clone)]
pub enum SecretRef {
    Env { env: String },
    File { file: String },
    Interpolated(String),
}

/// Where a secret is to be read from, once the reference is checked.
#[derive(Debug, Clone, PartialEq, Eq)]
pub enum SecretSource {
    /// An environment variable, by name.
    EnvVar(String),
    /// A file, by path.
    File(String),
}

/// A variable name inside `${...}`: ASCII letters, digits and `_`, not empty.
pub open spec fn valid_var_name(s: Seq<char>) -> bool {
    s.len() > 0 && forall|i: int| 0 <= i < s.len() ==> (text::is_alnum(#[trigger] s[i]) || s[i] == '_')
}

/// The text between `${` and `}` of the trimmed reference, when it has that shape.
pub open spec fn interpolation_inner(raw: Seq<char>) -> Option<Seq<char>> {
    let t = text::trim_ws(raw);
    if text::has_prefix(t, "${"@) && text::has_suffix(t.skip(2), "}"@) {
        Some(t.subrange(2, t.len() - 1))
    } else {
        None
    }
}

/// `${VAR}` gives `VAR`; a malformed name, or any other shape, is a usage error.
pub open spec fn parse_interpolation_spec(raw: Seq<char>) -> Result<Seq<char>, CliErrorView> {
    match interpolation_inner(raw) {
        Some(inner) => if valid_var_name(inner) {
            Ok(inner)
        } else {
            Err(CliErrorView::Usage("invalid interpolation: "@ + raw))
        },
        None => Err(
            CliErrorView::Usage(
                "secret references must be ${VAR}, { env = \"VAR\" }, or { file = \"PATH\" } (got "@
                    + raw + ")"@,
            ),
        ),
    }
}

pub open spec fn cli_result_view(r: Result<String, CliError>) -> Result<Seq<char>, CliErrorView> {
    match r {
        Ok(s) => Ok(s@),
        Err(e) => Err(e@),
    }
}

fn valid_var_name_exec(v: &Vec<char>) -> (r: bool)
    ensures
        r == valid_var_name(v@),
{
    if v.len() == 0 {
        return false;
    }
    let mut i: usize = 0;
    while i < v.len()
        invariant
            i <= v.len(),
            forall|j: int| 0 <= j < i ==> (text::is_alnum(#[trigger] v@[j]) || v@[j] == '_'),
        decreases v.len() - i,
    {
        let c = v[i];
        if !(('a' <= c && c <= 'z') || ('A' <= c && c <= 'Z') || ('0' <= c && c <= '9') || c
            == '_') {
            return false;
        }
        i = i + 1;
    }
    true
}

/// `${VAR}` gives `VAR` (`parse_interpolation_spec`).
pub fn parse_interpolation(raw: &str) -> (r: Result<String, CliError>)
    ensures
        cli_result_view(r) == parse_interpolation_spec(raw@),
{
    proof {
        reveal_strlit("${");
        reveal_strlit("}");
    }
    let t = text::trim(raw);
    let open = text::chars_of("${");
    let close = text::chars_of("}");
    let shaped = if text::vec_has_prefix(&t, &open) {
        let mut rest: Vec<char> = Vec::new();
        let mut i: usize = 2;
        while i < t.len()
            invariant
                2 <= i <= t.len(),
                rest@ == t@.subrange(2, i as int),
            decreases t.len() - i,
        {
            rest.push(t[i]);
            assert(t@.subrange(2, i + 1) =~= t@.subrange(2, i as int).push(t@[i as int]));
            i = i + 1;
        }
        assert(rest@ =~= t@.skip(2));
        if text::vec_has_suffix(&rest, &close) {
            let mut inner: Vec<char> = Vec::new();
            let mut k: usize = 0;
            while k + 1 < rest.len()
                invariant
                    k + 1 <= rest.len() || k == 0,
                    inner@ == rest@.take(k as int),
                    k <= rest.len(),
                decreases rest.len() - k,
            {
                inner.push(rest[k]);
                assert(rest@.take(k + 1) =~= rest@.take(k as int).push(rest@[k as int]));
                k = k + 1;
            }
            assert(rest@.len() >= 1);
            assert(inner@ =~= t@.subrange(2, t@.len() - 1));
            Some(inner)
        } else {
            None
        }
    } else {
        None
    };
    match shaped {
        Some(inner) => {
            if valid_var_name_exec(&inner) {
                Ok(text::string_of(&inner))
            } else {
                Err(CliError::Usage(text::cat("invalid interpolation: ", raw)))
            }
        },
        None => Err(
            CliError::Usage(
                text::cat3(
                    "secret references must be ${VAR}, { env = \"VAR\" }, or { file = \"PATH\" } (got ",
                    raw,
                    ")",
                ),
            ),
        ),
    }
}

/// The text contains a marker of a live credential.
pub open spec fn secret_literal_spec(raw: Seq<char>) -> bool {
    text::contains_seq(raw, "fh_mcp_"@) || text::contains_seq(raw, "sk_live"@)
        || text::contains_seq(raw, "Bearer "@)
}

/// Whether the text looks like an inline credential (`secret_literal_spec`).
pub fn looks_like_secret_literal(raw: &str) -> (r: bool)
    ensures
        r == secret_literal_spec(raw@),
{
    let v = text::chars_of(raw);
    text::vec_contains(&v, &text::chars_of("fh_mcp_")) || text::vec_contains(
        &v,
        &text::chars_of("sk_live"),
    ) || text::vec_contains(&v, &text::chars_of("Bearer "))
}

pub enum SecretRefView {
    Env(Seq<char>),
    File(Seq<char>),
    Interpolated(Seq<char>),
}

impl View for SecretRef {
    type V = SecretRefView;

    open spec fn view(&self) -> SecretRefView {
        match self {
            SecretRef::Env { env } => SecretRefView::Env(env@),
            SecretRef::File { file } => SecretRefView::File(file@),
            SecretRef::Interpolated(s) => SecretRefView::Interpolated(s@),
        }
    }
}

/// How a reference is shown: `env:VAR`, `file:PATH`, or `invalid`.
pub open spec fn display_spec(r: SecretRefView) -> Seq<char> {
    match r {
        SecretRefView::Env(e) => "env:"@ + e,
        SecretRefView::File(f) => "file:"@ + f,
        SecretRefView::Interpolated(s) => match parse_interpolation_spec(s) {
            Ok(var) => "env:"@ + var,
            Err(_) => "invalid"@,
        },
    }
}

/// Where a reference is read from, or why it cannot be: an inline literal
/// is refused before the interpolation is parsed.
pub open spec fn source_spec(r: SecretRefView) -> Result<(bool, Seq<char>), CliErrorView> {
    match r {
        SecretRefView::Env(e) => Ok((true, e)),
        SecretRefView::File(f) => Ok((false, f)),
        SecretRefView::Interpolated(raw) => if secret_literal_spec(raw) {
            Err(
                CliErrorView::Usage(
                    "inline secret literals are not allowed; use { env = \"VAR\" } or { file = \"PATH\" }"@,
                ),
            )
        } else {
            match parse_interpolation_spec(raw) {
                Ok(var) => Ok((true, var)),
                Err(e) => Err(e),
            }
        },
    }
}

pub open spec fn source_view(s: SecretSource) -> (bool, Seq<char>) {
    match s {
        SecretSource::EnvVar(v) => (true, v@),
        SecretSource::File(f) => (false, f@),
    }
}

impl SecretRef {
    pub fn env(name: &str) -> (r: Self)
        ensures
            r@ == SecretRefView::Env(name@),
    {
        SecretRef::Env { env: name.to_owned() }
    }

    pub fn file(path: &str) -> (r: Self)
        ensures
            r@ == SecretRefView::File(path@),
    {
        SecretRef::File { file: path.to_owned() }
    }

    /// How the reference is shown (`display_spec`).
    pub fn display(&self) -> (r: String)
        ensures
            r@ == display_spec(self@),
    {
        match self {
            SecretRef::Env { env } => text::cat("env:", env.as_str()),
            SecretRef::File { file } => text::cat("file:", file.as_str()),
            SecretRef::Interpolated(s) => match parse_interpolation(s.as_str()) {
                Ok(var) => text::cat("env:", var.as_str()),
                Err(_) => "invalid".to_owned(),
            },
        }
    }

    /// Where to read the secret from (`source_spec`).
    pub fn source(&self) -> (r: Result<SecretSource, CliError>)
        ensures
            match r {
                Ok(s) => source_spec(self@) == Ok::<(bool, Seq<char>), CliErrorView>(source_view(s)),
                Err(e) => source_spec(self@) == Err::<(bool, Seq<char>), CliErrorView>(e@),
            },
    {
        match self {
            SecretRef::Env { env } => Ok(SecretSource::EnvVar(env.clone())),
            SecretRef::File { file } => Ok(SecretSource::File(file.clone())),
            SecretRef::Interpolated(raw) => {
                if looks_like_secret_literal(raw.as_str()) {
                    return Err(
                        CliError::usage(
                            "inline secret literals are not allowed; use { env = \"VAR\" } or { file = \"PATH\" }",
                        ),
                    );
                }
                match parse_interpolation(raw.as_str()) {
                    Ok(var) => Ok(SecretSource::EnvVar(var)),
                    Err(e) => Err(e),
                }
            },
        }
    }
}

/// The error for an unset environment variable.
pub fn missing_env(var: &str) -> (r: CliError)
    ensures
        r@ == CliErrorView::Usage(var@ + " is not set in the environment"@),
{
    CliError::Usage(text::cat(var, " is not set in the environment"))
}

/// The error for a secret file that cannot be read.
pub fn unreadable_file(path: &str, err: &str) -> (r: CliError)
    ensures
        r@ == CliErrorView::Usage("cannot read secret file "@ + path@ + ": "@ + err@),
{
    let a = text::cat3("cannot read secret file ", path, ": ");
    CliError::Usage(text::cat(a.as_str(), err))
}

/// A secret read from a file loses one trailing line break (`\n` or `\r\n`).
pub open spec fn file_secret_spec(raw: Seq<char>) -> Seq<char> {
    if raw.len() > 0 && raw.last() == '\n' {
        let t = raw.drop_last();
        if t.len() > 0 && t.last() == '\r' {
            t.drop_last()
        } else {
            t
        }
    } else {
        raw
    }
}

/// The secret held in a file's text (`file_secret_spec`).
pub fn file_secret(raw: &str) -> (r: String)
    ensures
        r@ == file_secret_spec(raw@),
{
    let v = text::chars_of(raw);
    let mut n = v.len();
    if n > 0 && v[n - 1] == '\n' {
        n = n - 1;
        if n > 0 && v[n - 1] == '\r' {
            n = n - 1;
        }
    }
    let mut out: Vec<char> = Vec::new();
    let mut i: usize = 0;
    while i < n
        invariant
            n <= v.len(),
            i <= n,
            out@ == v@.take(i as int),
        decreases n - i,
    {
        out.push(v[i]);
        assert(v@.take(i + 1) =~= v@.take(i as int).push(v@[i as int]));
        i = i + 1;
    }
    assert(out@ =~= file_secret_spec(raw@));
    text::string_of(&out)
}

/// Whether a secret was found and is not empty.
pub fn present(resolved: &Result<String, CliError>) -> (r: bool)
    ensures
        r == match resolved {
            Ok(s) => s@.len() > 0,
            Err(_) => false,
        },
{
    match resolved {
        Ok(s) => s.as_str().unicode_len() > 0,
        Err(_) => false,
    }
}

} // verus!
