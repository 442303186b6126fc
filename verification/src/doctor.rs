//! The verdicts of `doctor`: the checks that follow from the configuration
//! alone, the tally of all checks, the closing line and the exit code.
//!
//! The probes themselves (binding the port, the outbound request, the SSRF
//! self-test, resolving secrets) are made by the caller, which hands their
//! outcomes to the functions here.
use vstd::prelude::*;
use crate::cli_error::ExitCode;
use crate::text;

verus! {

/// How a check came out.
#[derive(Debug, Clone, Copy, PartialEq, Eq, Structural)]
pub enum CheckStatus {
    Pass,
    Warn,
    Fail,
}

/// One line of the report.
#[derive(Debug, Clone)]
pub struct Check {
    pub status: CheckStatus,
    pub name: String,
    pub detail: String,
}

pub open spec fn status_text_spec(s: CheckStatus) -> Seq<char> {
    match s {
        CheckStatus::Pass => "ok"@,
        CheckStatus::Warn => "warn"@,
        CheckStatus::Fail => "fail"@,
    }
}

/// The status as the JSON report writes it (`status_text_spec`).
pub fn status_text(s: CheckStatus) -> (r: &'static str)
    ensures
        r@ == status_text_spec(s),
{
    match s {
        CheckStatus::Pass => "ok",
        CheckStatus::Warn => "warn",
        CheckStatus::Fail => "fail",
    }
}

/// How many of `checks` have status `s`.
pub open spec fn count_status(checks: Seq<Check>, s: CheckStatus) -> nat
    decreases checks.len(),
{
    if checks.len() == 0 {
        0
    } else {
        count_status(checks.drop_last(), s) + if checks.last().status == s {
            1nat
        } else {
            0nat
        }
    }
}

proof fn lemma_count_bounded(checks: Seq<Check>, s: CheckStatus)
    ensures
        count_status(checks, s) <= checks.len(),
    decreases checks.len(),
{
    if checks.len() > 0 {
        lemma_count_bounded(checks.drop_last(), s);
    }
}

/// The number of checks that passed, warned and failed.
pub fn tally(checks: &Vec<Check>) -> (r: (usize, usize, usize))
    ensures
        r.0 == count_status(checks@, CheckStatus::Pass),
        r.1 == count_status(checks@, CheckStatus::Warn),
        r.2 == count_status(checks@, CheckStatus::Fail),
{
    let mut oks: usize = 0;
    let mut warns: usize = 0;
    let mut fails: usize = 0;
    let mut i: usize = 0;
    while i < checks.len()
        invariant
            i <= checks.len(),
            oks == count_status(checks@.subrange(0, i as int), CheckStatus::Pass),
            warns == count_status(checks@.subrange(0, i as int), CheckStatus::Warn),
            fails == count_status(checks@.subrange(0, i as int), CheckStatus::Fail),
        decreases checks.len() - i,
    {
        proof {
            let s = checks@.subrange(0, i + 1);
            assert(s.drop_last() =~= checks@.subrange(0, i as int));
            lemma_count_bounded(checks@.subrange(0, i as int), CheckStatus::Pass);
            lemma_count_bounded(checks@.subrange(0, i as int), CheckStatus::Warn);
            lemma_count_bounded(checks@.subrange(0, i as int), CheckStatus::Fail);
        }
        match checks[i].status {
            CheckStatus::Pass => oks = oks + 1,
            CheckStatus::Warn => warns = warns + 1,
            CheckStatus::Fail => fails = fails + 1,
        }
        i = i + 1;
    }
    assert(checks@.subrange(0, checks.len() as int) =~= checks@);
    (oks, warns, fails)
}

pub open spec fn closing_line_spec(oks: nat, warns: nat, fails: nat) -> Seq<char> {
    "doctor: "@ + text::dec_str(oks) + " ok, "@ + text::dec_str(warns) + " warn, "@ + text::dec_str(fails)
        + " fail"@
}

/// `doctor: {ok} ok, {warn} warn, {fail} fail`.
pub fn closing_line(oks: usize, warns: usize, fails: usize) -> (r: String)
    ensures
        r@ == closing_line_spec(oks as nat, warns as nat, fails as nat),
{
    let a = text::dec_string(oks as u64);
    let b = text::dec_string(warns as u64);
    let c = text::dec_string(fails as u64);
    let mut s = text::cat("doctor: ", a.as_str());
    s.append(" ok, ");
    s.append(b.as_str());
    s.append(" warn, ");
    s.append(c.as_str());
    s.append(" fail");
    s
}

/// `doctor` exits with the policy code when any check failed.
pub fn doctor_exit(checks: &Vec<Check>) -> (r: ExitCode)
    ensures
        r == if count_status(checks@, CheckStatus::Fail) > 0 {
            ExitCode::Policy
        } else {
            ExitCode::Success
        },
{
    let (_, _, fails) = tally(checks);
    if fails > 0 {
        ExitCode::Policy
    } else {
        ExitCode::Success
    }
}

fn check(status: CheckStatus, name: &str, detail: &str) -> (r: Check)
    ensures
        r.status == status,
        r.name@ == name@,
        r.detail@ == detail@,
{
    Check { status, name: text::owned(name), detail: text::owned(detail) }
}

/// The checks that follow from the configuration once the probes are done:
/// whether every secret reference resolved, whether the MCP token is set,
/// and the private-network and metadata switches.
pub open spec fn policy_checks_spec(
    secrets_resolve: bool,
    token_present: bool,
    allow_private_networks: bool,
    allow_metadata: bool,
) -> Seq<(CheckStatus, Seq<char>, Seq<char>)> {
    seq![
        if secrets_resolve {
            (CheckStatus::Pass, "config secrets"@, "all env/file references resolve"@)
        } else {
            (CheckStatus::Fail, "config secrets"@, "one or more env/file references are missing"@)
        },
        if token_present {
            (CheckStatus::Pass, "mcp auth"@, "MCP_GATEWAY_TOKEN set"@)
        } else {
            (CheckStatus::Fail, "mcp auth"@, "MCP_GATEWAY_TOKEN is not set"@)
        },
    ] + (if allow_private_networks {
        seq![
            (
                CheckStatus::Warn,
                "private networks"@,
                "--allow-private-networks is on; metadata is still denied"@,
            ),
        ]
    } else {
        Seq::empty()
    }) + (if allow_metadata {
        seq![
            (
                CheckStatus::Fail,
                "metadata"@,
                "allow_metadata is on; doctor refuses this configuration"@,
            ),
        ]
    } else {
        Seq::empty()
    })
}

pub open spec fn checks_view(v: Seq<Check>) -> Seq<(CheckStatus, Seq<char>, Seq<char>)> {
    v.map_values(|c: Check| (c.status, c.name@, c.detail@))
}

/// The configuration checks (`policy_checks_spec`).
pub fn policy_checks(
    secrets_resolve: bool,
    token_present: bool,
    allow_private_networks: bool,
    allow_metadata: bool,
) -> (r: Vec<Check>)
    ensures
        checks_view(r@) == policy_checks_spec(
            secrets_resolve,
            token_present,
            allow_private_networks,
            allow_metadata,
        ),
{
    let mut out: Vec<Check> = Vec::new();
    if secrets_resolve {
        out.push(check(CheckStatus::Pass, "config secrets", "all env/file references resolve"));
    } else {
        out.push(check(CheckStatus::Fail, "config secrets", "one or more env/file references are missing"));
    }
    if token_present {
        out.push(check(CheckStatus::Pass, "mcp auth", "MCP_GATEWAY_TOKEN set"));
    } else {
        out.push(check(CheckStatus::Fail, "mcp auth", "MCP_GATEWAY_TOKEN is not set"));
    }
    let ghost base = checks_view(out@);
    if allow_private_networks {
        out.push(
            check(CheckStatus::Warn, "private networks", "--allow-private-networks is on; metadata is still denied"),
        );
    }
    let ghost mid = checks_view(out@);
    if allow_metadata {
        out.push(check(CheckStatus::Fail, "metadata", "allow_metadata is on; doctor refuses this configuration"));
    }
    assert(checks_view(out@) =~= policy_checks_spec(
        secrets_resolve,
        token_present,
        allow_private_networks,
        allow_metadata,
    ));
    out
}

/// How many of the SSRF self-test's targets must be blocked: the six that
/// are always denied, and the two private ones unless private networks are
/// allowed.
pub fn ssrf_expected(allow_private_networks: bool) -> (r: usize)
    ensures
        r == if allow_private_networks {
            6nat
        } else {
            8nat
        },
{
    if allow_private_networks {
        6
    } else {
        8
    }
}

} // verus!
