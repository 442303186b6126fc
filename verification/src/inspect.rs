//! What `inspect` shows of a configured spec: the paste snippet for an MCP
//! client, one compiled tool, or the summary and table of all its tools.
//!
//! Loading the compiled bundle, resolving the upstream URL and the token, and
//! rendering JSON values as text are left to the caller, which hands the
//! results to the functions here.
use vstd::prelude::*;
use crate::cli_args::ClientKind;
use crate::cli_error::{CliError, CliErrorView};
use crate::config::{SpecEntry, UpstreamAuth};
use crate::destructive::ToolAnnotations;
use crate::json::{Json, JsonView, Member};
use crate::names::{byte_len, string_views};
use crate::operation::Operation;
use crate::secrets::display_spec;
use crate::servers::Server;
use crate::text;
use crate::tunnel_screen::spaces;

verus! {

// ---------------------------------------------------------------------------
// Client paste snippets
// ---------------------------------------------------------------------------

/// A paste snippet: a JSON document, or lines of TOML.
pub enum Snippet {
    Json(Json),
    Toml(Vec<String>),
}

pub enum SnippetView {
    Json(JsonView),
    Toml(Seq<Seq<char>>),
}

impl View for Snippet {
    type V = SnippetView;

    open spec fn view(&self) -> SnippetView {
        match self {
            Snippet::Json(j) => SnippetView::Json(j@),
            Snippet::Toml(lines) => SnippetView::Toml(string_views(lines@)),
        }
    }
}

/// The gateway's URL as a client reaches it.
pub open spec fn snippet_url(bind: Seq<char>, path: Seq<char>) -> Seq<char> {
    "http://"@ + bind + path
}

/// A streamable-HTTP server entry with a bearer header.
pub open spec fn http_entry(url: Seq<char>, authorization: Seq<char>) -> JsonView {
    JsonView::Object(
        seq!["headers"@, "type"@, "url"@],
        seq![
            JsonView::Object(seq!["Authorization"@], seq![JsonView::Str(authorization)]),
            JsonView::Str("http"@),
            JsonView::Str(url),
        ],
    )
}

/// `{outer: {name: entry}}`.
pub open spec fn named_entry(outer: Seq<char>, name: Seq<char>, entry: JsonView) -> JsonView {
    JsonView::Object(seq![outer], seq![JsonView::Object(seq![name], seq![entry])])
}

/// The snippet for each client. Object members are in key order, as a JSON
/// map keeps them.
pub open spec fn snippet_spec(kind: ClientKind, name: Seq<char>, bind: Seq<char>, path: Seq<char>) -> SnippetView {
    let url = snippet_url(bind, path);
    match kind {
        ClientKind::Cursor => SnippetView::Json(
            named_entry("mcpServers"@, name, http_entry(url, "Bearer ${env:MCP_GATEWAY_TOKEN}"@)),
        ),
        ClientKind::ClaudeCode => SnippetView::Json(
            named_entry("mcpServers"@, name, http_entry(url, "Bearer ${MCP_GATEWAY_TOKEN}"@)),
        ),
        ClientKind::Claude => SnippetView::Json(
            named_entry(
                "mcpServers"@,
                name,
                JsonView::Object(
                    seq!["args"@, "command"@],
                    seq![
                        JsonView::Array(
                            seq![JsonView::Str("serve"@), JsonView::Str(name), JsonView::Str("--stdio"@)],
                        ),
                        JsonView::Str("mcp-gateway"@),
                    ],
                ),
            ),
        ),
        ClientKind::Vscode => SnippetView::Json(
            named_entry("servers"@, name, http_entry(url, "Bearer ${env:MCP_GATEWAY_TOKEN}"@)),
        ),
        ClientKind::Chatgpt => SnippetView::Json(
            JsonView::Object(
                seq!["authorization"@, "name"@, "url"@],
                seq![
                    JsonView::Str("Bearer $MCP_GATEWAY_TOKEN"@),
                    JsonView::Str(name),
                    JsonView::Str(url),
                ],
            ),
        ),
        ClientKind::Codex => SnippetView::Toml(
            seq![
                "[mcp_servers."@ + name + "]"@,
                "url = \""@ + url + "\""@,
                "bearer_token_env_var = \"MCP_GATEWAY_TOKEN\""@,
            ],
        ),
    }
}

/// Where each client reads its snippet from.
pub open spec fn snippet_target_spec(kind: ClientKind) -> Seq<char> {
    match kind {
        ClientKind::Cursor => ".cursor/mcp.json"@,
        ClientKind::ClaudeCode => ".mcp.json"@,
        ClientKind::Claude => "claude_desktop_config.json"@,
        ClientKind::Codex => "~/.codex/config.toml"@,
        ClientKind::Vscode => ".vscode/mcp.json"@,
        ClientKind::Chatgpt => "the connector settings"@,
    }
}

/// Where the snippet for `kind` is pasted (`snippet_target_spec`).
pub fn snippet_target(kind: ClientKind) -> (r: &'static str)
    ensures
        r@ == snippet_target_spec(kind),
{
    match kind {
        ClientKind::Cursor => ".cursor/mcp.json",
        ClientKind::ClaudeCode => ".mcp.json",
        ClientKind::Claude => "claude_desktop_config.json",
        ClientKind::Codex => "~/.codex/config.toml",
        ClientKind::Vscode => ".vscode/mcp.json",
        ClientKind::Chatgpt => "the connector settings",
    }
}

fn jstr(s: &str) -> (r: Json)
    ensures
        r@ == JsonView::Str(s@),
{
    Json::Str(text::owned(s))
}

fn obj1(k0: &str, v0: Json) -> (r: Json)
    ensures
        r@ == JsonView::Object(seq![k0@], seq![v0@]),
{
    let ghost g0 = v0@;
    let r = Json::Object(vec![Member { key: text::owned(k0), value: v0 }]);
    assert(r@->Object_0 =~= seq![k0@]);
    assert(r@->Object_1 =~= seq![g0]);
    r
}

fn obj2(k0: &str, v0: Json, k1: &str, v1: Json) -> (r: Json)
    ensures
        r@ == JsonView::Object(seq![k0@, k1@], seq![v0@, v1@]),
{
    let ghost g0 = v0@;
    let ghost g1 = v1@;
    let r = Json::Object(
        vec![Member { key: text::owned(k0), value: v0 }, Member { key: text::owned(k1), value: v1 }],
    );
    assert(r@->Object_0 =~= seq![k0@, k1@]);
    assert(r@->Object_1 =~= seq![g0, g1]);
    r
}

fn obj3(k0: &str, v0: Json, k1: &str, v1: Json, k2: &str, v2: Json) -> (r: Json)
    ensures
        r@ == JsonView::Object(seq![k0@, k1@, k2@], seq![v0@, v1@, v2@]),
{
    let ghost g0 = v0@;
    let ghost g1 = v1@;
    let ghost g2 = v2@;
    let r = Json::Object(
        vec![
            Member { key: text::owned(k0), value: v0 },
            Member { key: text::owned(k1), value: v1 },
            Member { key: text::owned(k2), value: v2 },
        ],
    );
    assert(r@->Object_0 =~= seq![k0@, k1@, k2@]);
    assert(r@->Object_1 =~= seq![g0, g1, g2]);
    r
}

fn http_entry_json(url: &str, authorization: &str) -> (r: Json)
    ensures
        r@ == http_entry(url@, authorization@),
{
    let headers = obj1("Authorization", jstr(authorization));
    obj3("headers", headers, "type", jstr("http"), "url", jstr(url))
}

/// The paste snippet for an MCP client (`snippet_spec`); `bind` and `path`
/// are the gateway's configured address and MCP path.
pub fn snippet(kind: ClientKind, name: &str, bind: &str, path: &str) -> (r: Snippet)
    ensures
        r@ == snippet_spec(kind, name@, bind@, path@),
{
    let url = text::cat3("http://", bind, path);
    match kind {
        ClientKind::Cursor => {
            let e = http_entry_json(url.as_str(), "Bearer ${env:MCP_GATEWAY_TOKEN}");
            Snippet::Json(obj1("mcpServers", obj1(name, e)))
        },
        ClientKind::ClaudeCode => {
            let e = http_entry_json(url.as_str(), "Bearer ${MCP_GATEWAY_TOKEN}");
            Snippet::Json(obj1("mcpServers", obj1(name, e)))
        },
        ClientKind::Claude => {
            let ghost a = seq![JsonView::Str("serve"@), JsonView::Str(name@), JsonView::Str("--stdio"@)];
            let args = Json::Array(vec![jstr("serve"), jstr(name), jstr("--stdio")]);
            assert(args@->Array_0 =~= a);
            let e = obj2("args", args, "command", jstr("mcp-gateway"));
            Snippet::Json(obj1("mcpServers", obj1(name, e)))
        },
        ClientKind::Vscode => {
            let e = http_entry_json(url.as_str(), "Bearer ${env:MCP_GATEWAY_TOKEN}");
            Snippet::Json(obj1("servers", obj1(name, e)))
        },
        ClientKind::Chatgpt => Snippet::Json(
            obj3(
                "authorization",
                jstr("Bearer $MCP_GATEWAY_TOKEN"),
                "name",
                jstr(name),
                "url",
                jstr(url.as_str()),
            ),
        ),
        ClientKind::Codex => {
            let l0 = text::cat3("[mcp_servers.", name, "]");
            let l1 = text::cat3("url = \"", url.as_str(), "\"");
            let l2 = text::owned("bearer_token_env_var = \"MCP_GATEWAY_TOKEN\"");
            let ghost g = seq![l0@, l1@, l2@];
            let lines = vec![l0, l1, l2];
            assert(string_views(lines@) =~= g);
            Snippet::Toml(lines)
        },
    }
}

} // verus!

verus! {

// ---------------------------------------------------------------------------
// One tool
// ---------------------------------------------------------------------------

pub open spec fn bool_text(b: bool) -> Seq<char> {
    if b {
        "true"@
    } else {
        "false"@
    }
}

/// An optional flag as `{:?}` writes it.
pub open spec fn opt_bool_text(o: Option<bool>) -> Seq<char> {
    match o {
        Some(b) => if b {
            "Some(true)"@
        } else {
            "Some(false)"@
        },
        None => "None"@,
    }
}

pub open spec fn annotations_spec(a: ToolAnnotations) -> Seq<char> {
    "annotations: readOnlyHint="@ + bool_text(a.read_only_hint) + " destructiveHint="@
        + opt_bool_text(a.destructive_hint) + " idempotentHint="@ + opt_bool_text(
        a.idempotent_hint,
    ) + " openWorldHint="@ + bool_text(a.open_world_hint)
}

/// How the upstream credential is shown: `none` without upstream auth, else
/// `{kind} ({token source}, present=yes|no)`, the token counting as present
/// only when one is configured and it resolved to a non-empty value.
pub open spec fn auth_spec(upstream: Option<UpstreamAuth>, token_present: bool) -> Seq<char> {
    match upstream {
        None => "none"@,
        Some(u) => u.kind@ + " ("@ + match u.token {
            Some(t) => display_spec(t@),
            None => "none"@,
        } + ", present="@ + if u.token is Some && token_present {
            "yes"@
        } else {
            "no"@
        } + ")"@,
    }
}

/// The text lines describing one tool; `schema` is its input schema as
/// compact JSON text.
pub open spec fn tool_lines_spec(op: Operation, auth: Seq<char>, schema: Seq<char>) -> Seq<Seq<char>> {
    seq![
        "tool: "@ + op.tool.name@,
        "id:   "@ + op.id@,
        "http: "@ + op.source.method@ + " "@ + op.source.path_template@,
        "auth: "@ + auth,
        annotations_spec(op.tool.annotations),
        "inputSchema: "@ + schema,
    ]
}

/// The position of the first operation whose tool is named `name`.
pub open spec fn first_tool(ops: Seq<Operation>, name: Seq<char>) -> Option<int>
    decreases ops.len(),
{
    if ops.len() == 0 {
        None
    } else if ops[0].tool.name@ == name {
        Some(0)
    } else {
        match first_tool(ops.drop_first(), name) {
            Some(i) => Some(i + 1),
            None => None,
        }
    }
}

pub open spec fn unknown_tool(name: Seq<char>) -> CliErrorView {
    CliErrorView::Usage("unknown tool "@ + name)
}

proof fn lemma_first_tool(ops: Seq<Operation>, name: Seq<char>, i: int)
    requires
        0 <= i <= ops.len(),
        forall|j: int| 0 <= j < i ==> ops[j].tool.name@ != name,
        i < ops.len() ==> ops[i].tool.name@ == name,
    ensures
        first_tool(ops, name) == if i < ops.len() {
            Some(i)
        } else {
            None::<int>
        },
    decreases ops.len(),
{
    if ops.len() > 0 && i > 0 {
        let rest = ops.drop_first();
        assert forall|j: int| 0 <= j < i - 1 implies rest[j].tool.name@ != name by {
            assert(rest[j] == ops[j + 1]);
        }
        if i < ops.len() {
            assert(rest[i - 1] == ops[i]);
        }
        lemma_first_tool(rest, name, i - 1);
    }
}

proof fn lemma_first_tool_found(ops: Seq<Operation>, name: Seq<char>)
    ensures
        first_tool(ops, name) matches Some(i) ==> 0 <= i < ops.len() && ops[i].tool.name@ == name,
    decreases ops.len(),
{
    if ops.len() > 0 {
        lemma_first_tool_found(ops.drop_first(), name);
    }
}

/// The operation whose tool is named `name`: the first such, or a usage
/// error naming the tool when there is none.
pub fn find_tool(ops: &Vec<Operation>, name: &str) -> (r: Result<usize, CliError>)
    ensures
        match r {
            Ok(i) => first_tool(ops@, name@) == Some(i as int),
            Err(e) => first_tool(ops@, name@) is None && e@ == unknown_tool(name@),
        },
{
    let mut i: usize = 0;
    while i < ops.len()
        invariant
            i <= ops.len(),
            forall|j: int| 0 <= j < i ==> ops@[j].tool.name@ != name@,
        decreases ops.len() - i,
    {
        if text::str_eq(ops[i].tool.name.as_str(), name) {
            proof {
                lemma_first_tool(ops@, name@, i as int);
            }
            return Ok(i);
        }
        i = i + 1;
    }
    proof {
        lemma_first_tool(ops@, name@, i as int);
    }
    Err(CliError::Usage(text::cat("unknown tool ", name)))
}

fn bool_str(b: bool) -> (r: &'static str)
    ensures
        r@ == bool_text(b),
{
    if b {
        "true"
    } else {
        "false"
    }
}

fn opt_bool_str(o: Option<bool>) -> (r: &'static str)
    ensures
        r@ == opt_bool_text(o),
{
    match o {
        Some(b) => if b {
            "Some(true)"
        } else {
            "Some(false)"
        },
        None => "None",
    }
}

/// The annotations line (`annotations_spec`).
pub fn annotations_line(a: &ToolAnnotations) -> (r: String)
    ensures
        r@ == annotations_spec(*a),
{
    let mut s = text::cat("annotations: readOnlyHint=", bool_str(a.read_only_hint));
    s.append(" destructiveHint=");
    s.append(opt_bool_str(a.destructive_hint));
    s.append(" idempotentHint=");
    s.append(opt_bool_str(a.idempotent_hint));
    s.append(" openWorldHint=");
    s.append(bool_str(a.open_world_hint));
    s
}

/// How the upstream credential is shown (`auth_spec`); `token_present` is
/// whether the configured token resolved to a non-empty value.
pub fn auth_text(upstream: &Option<UpstreamAuth>, token_present: bool) -> (r: String)
    ensures
        r@ == auth_spec(*upstream, token_present),
{
    match upstream {
        None => text::owned("none"),
        Some(u) => {
            let src = match &u.token {
                Some(t) => t.display(),
                None => text::owned("none"),
            };
            let present = if u.token.is_some() && token_present {
                "yes"
            } else {
                "no"
            };
            let mut s = text::cat3(u.kind.as_str(), " (", src.as_str());
            s.append(", present=");
            s.append(present);
            s.append(")");
            s
        },
    }
}

/// The text lines describing one tool (`tool_lines_spec`).
pub fn tool_lines(op: &Operation, auth: &str, schema: &str) -> (r: Vec<String>)
    ensures
        string_views(r@) == tool_lines_spec(*op, auth@, schema@),
{
    let l0 = text::cat("tool: ", op.tool.name.as_str());
    let l1 = text::cat("id:   ", op.id.as_str());
    let mut l2 = text::cat3("http: ", op.source.method.as_str(), " ");
    l2.append(op.source.path_template.as_str());
    let l3 = text::cat("auth: ", auth);
    let l4 = annotations_line(&op.tool.annotations);
    let l5 = text::cat("inputSchema: ", schema);
    let ghost g = seq![l0@, l1@, l2@, l3@, l4@, l5@];
    let r = vec![l0, l1, l2, l3, l4, l5];
    assert(string_views(r@) =~= g);
    r
}

} // verus!

verus! {

// ---------------------------------------------------------------------------
// The summary of a spec
// ---------------------------------------------------------------------------

/// `s` left-aligned in `w` characters.
pub open spec fn pad_spec(s: Seq<char>, w: nat) -> Seq<char> {
    if s.len() < w {
        s + spaces((w - s.len()) as nat)
    } else {
        s
    }
}

/// Width of the name column: the longest tool name in UTF-8 bytes, at
/// least 4.
pub open spec fn name_width(ops: Seq<Operation>) -> nat
    decreases ops.len(),
{
    if ops.len() == 0 {
        4
    } else {
        let w = name_width(ops.drop_last());
        let b = byte_len(ops.last().tool.name@);
        if b > w {
            b
        } else {
            w
        }
    }
}

pub open spec fn table_row(name: Seq<char>, method: Seq<char>, path: Seq<char>, w: nat) -> Seq<char> {
    pad_spec(name, w) + "  "@ + pad_spec(method, 6) + "  "@ + path
}

/// The upstream line: the resolved base URL, or else the first server's
/// template (or `(none)`) with a note that it is relative.
pub open spec fn upstream_line_spec(upstream: Option<Seq<char>>, servers: Seq<Server>) -> Seq<char> {
    match upstream {
        Some(u) => "upstream: "@ + u,
        None => "upstream: "@ + (if servers.len() > 0 {
            servers[0].url_template@
        } else {
            "(none)"@
        }) + "  (relative; pass --base-url or add-spec --url)"@,
    }
}

/// The summary lines: spec, title, upstream, tool and warning counts, a
/// blank line, then the table of tools under its header.
pub open spec fn summary_spec(
    spec_name: Seq<char>,
    title: Seq<char>,
    upstream: Option<Seq<char>>,
    servers: Seq<Server>,
    ops: Seq<Operation>,
    n_warnings: nat,
) -> Seq<Seq<char>> {
    let w = name_width(ops);
    seq![
        "spec: "@ + spec_name,
        "title: "@ + title,
        upstream_line_spec(upstream, servers),
        "tools: "@ + text::dec_str(ops.len()),
        "warnings: "@ + text::dec_str(n_warnings),
        Seq::empty(),
        table_row("NAME"@, "METHOD"@, "PATH"@, w),
    ] + Seq::new(
        ops.len(),
        |i: int| table_row(ops[i].tool.name@, ops[i].source.method@, ops[i].source.path_template@, w),
    )
}

fn pad(s: &str, w: usize) -> (r: Vec<char>)
    ensures
        r@ == pad_spec(s@, w as nat),
{
    let mut out = text::chars_of(s);
    let n = out.len();
    let mut k: usize = n;
    while k < w
        invariant
            n <= k,
            k <= w || k == n,
            n == s@.len(),
            out@ == s@ + spaces((k - n) as nat),
        decreases w - k,
    {
        out.push(' ');
        assert(spaces((k + 1 - n) as nat) =~= spaces((k - n) as nat).push(' '));
        k = k + 1;
    }
    assert(n < w ==> k == w);
    assert(n >= w ==> spaces((k - n) as nat) =~= Seq::<char>::empty());
    assert(out@ =~= pad_spec(s@, w as nat));
    out
}

fn row(name: &str, method: &str, path: &str, w: usize) -> (r: String)
    ensures
        r@ == table_row(name@, method@, path@, w as nat),
{
    let mut out = pad(name, w);
    text::append_str(&mut out, "  ");
    let m = pad(method, 6);
    text::append_chars(&mut out, &m);
    text::append_str(&mut out, "  ");
    text::append_str(&mut out, path);
    text::string_of(&out)
}

/// Width of the name column (`name_width`).
pub fn column_width(ops: &Vec<Operation>) -> (r: usize)
    ensures
        r == name_width(ops@),
{
    let mut w: usize = 4;
    let mut i: usize = 0;
    while i < ops.len()
        invariant
            i <= ops.len(),
            w == name_width(ops@.subrange(0, i as int)),
        decreases ops.len() - i,
    {
        let b = ops[i].tool.name.as_str().as_bytes().len();
        proof {
            assert(ops@.subrange(0, i + 1).drop_last() =~= ops@.subrange(0, i as int));
            assert(ops@.subrange(0, i + 1).last() == ops@[i as int]);
        }
        if b > w {
            w = b;
        }
        i = i + 1;
    }
    assert(ops@.subrange(0, ops.len() as int) =~= ops@);
    w
}

/// The upstream line (`upstream_line_spec`).
pub fn upstream_line(upstream: Option<&str>, servers: &Vec<Server>) -> (r: String)
    ensures
        r@ == upstream_line_spec(crate::names::opt_view(upstream), servers@),
{
    match upstream {
        Some(u) => text::cat("upstream: ", u),
        None => {
            let raw = if servers.len() > 0 {
                servers[0].url_template.as_str()
            } else {
                "(none)"
            };
            text::cat3("upstream: ", raw, "  (relative; pass --base-url or add-spec --url)")
        },
    }
}

/// The summary lines of a spec (`summary_spec`); `upstream` is the resolved
/// base URL, if it resolved.
pub fn summary_lines(
    spec_name: &str,
    title: &str,
    upstream: Option<&str>,
    servers: &Vec<Server>,
    ops: &Vec<Operation>,
    n_warnings: usize,
) -> (r: Vec<String>)
    ensures
        string_views(r@) == summary_spec(
            spec_name@,
            title@,
            crate::names::opt_view(upstream),
            servers@,
            ops@,
            n_warnings as nat,
        ),
{
    let w = column_width(ops);
    let mut out: Vec<String> = Vec::new();
    out.push(text::cat("spec: ", spec_name));
    out.push(text::cat("title: ", title));
    out.push(upstream_line(upstream, servers));
    let nt = text::dec_string(ops.len() as u64);
    out.push(text::cat("tools: ", nt.as_str()));
    let nw = text::dec_string(n_warnings as u64);
    out.push(text::cat("warnings: ", nw.as_str()));
    out.push(String::new());
    out.push(row("NAME", "METHOD", "PATH", w));
    let ghost head = string_views(out@);
    let mut i: usize = 0;
    while i < ops.len()
        invariant
            i <= ops.len(),
            w == name_width(ops@),
            out@.len() == 7 + i,
            string_views(out@) == head + Seq::new(
                i as nat,
                |k: int|
                    table_row(
                        ops@[k].tool.name@,
                        ops@[k].source.method@,
                        ops@[k].source.path_template@,
                        w as nat,
                    ),
            ),
        decreases ops.len() - i,
    {
        let op = &ops[i];
        let line = row(op.tool.name.as_str(), op.source.method.as_str(), op.source.path_template.as_str(), w);
        let ghost before = string_views(out@);
        out.push(line);
        proof {
            assert(string_views(out@) =~= before.push(line@));
            assert(head + Seq::new(
                (i + 1) as nat,
                |k: int|
                    table_row(
                        ops@[k].tool.name@,
                        ops@[k].source.method@,
                        ops@[k].source.path_template@,
                        w as nat,
                    ),
            ) =~= (head + Seq::new(
                i as nat,
                |k: int|
                    table_row(
                        ops@[k].tool.name@,
                        ops@[k].source.method@,
                        ops@[k].source.path_template@,
                        w as nat,
                    ),
            )).push(line@));
        }
        i = i + 1;
    }
    proof {
        reveal_strlit("NAME");
        reveal_strlit("METHOD");
        reveal_strlit("PATH");
        assert(string_views(out@) =~= summary_spec(
            spec_name@,
            title@,
            crate::names::opt_view(upstream),
            servers@,
            ops@,
            n_warnings as nat,
        ));
    }
    out
}

} // verus!

verus! {

/// The JSON summary of a spec. Members are in key order, as a JSON map keeps
/// them; an upstream that did not resolve is `null`.
pub open spec fn summary_json_spec(
    spec_name: Seq<char>,
    title: Seq<char>,
    upstream: Option<Seq<char>>,
    ops: Seq<Operation>,
    n_warnings: nat,
    ir_version: Seq<char>,
) -> JsonView {
    JsonView::Object(
        seq!["ir_version"@, "name"@, "title"@, "tool_names"@, "tools"@, "upstream"@, "warnings"@],
        seq![
            JsonView::Str(ir_version),
            JsonView::Str(spec_name),
            JsonView::Str(title),
            JsonView::Array(Seq::new(ops.len(), |i: int| JsonView::Str(ops[i].tool.name@))),
            JsonView::Number(text::dec_str(ops.len())),
            match upstream {
                Some(u) => JsonView::Str(u),
                None => JsonView::Null,
            },
            JsonView::Number(text::dec_str(n_warnings)),
        ],
    )
}

fn tool_names_json(ops: &Vec<Operation>) -> (r: Json)
    ensures
        r@ == JsonView::Array(Seq::new(ops@.len(), |i: int| JsonView::Str(ops@[i].tool.name@))),
{
    let mut items: Vec<Json> = Vec::new();
    let mut i: usize = 0;
    while i < ops.len()
        invariant
            i <= ops.len(),
            items@.len() == i,
            forall|k: int| 0 <= k < i ==> (#[trigger] items@[k])@ == JsonView::Str(ops@[k].tool.name@),
        decreases ops.len() - i,
    {
        items.push(jstr(ops[i].tool.name.as_str()));
        i = i + 1;
    }
    let r = Json::Array(items);
    assert(r@->Array_0 =~= Seq::new(ops@.len(), |i: int| JsonView::Str(ops@[i].tool.name@)));
    r
}

/// The JSON summary of a spec (`summary_json_spec`).
pub fn summary_json(
    spec_name: &str,
    title: &str,
    upstream: Option<&str>,
    ops: &Vec<Operation>,
    n_warnings: usize,
    ir_version: &str,
) -> (r: Json)
    ensures
        r@ == summary_json_spec(
            spec_name@,
            title@,
            crate::names::opt_view(upstream),
            ops@,
            n_warnings as nat,
            ir_version@,
        ),
{
    let v0 = jstr(ir_version);
    let v1 = jstr(spec_name);
    let v2 = jstr(title);
    let v3 = tool_names_json(ops);
    let v4 = Json::Number(text::dec_string(ops.len() as u64));
    let v5 = match upstream {
        Some(u) => jstr(u),
        None => Json::Null,
    };
    let v6 = Json::Number(text::dec_string(n_warnings as u64));
    let ghost vs = seq![v0@, v1@, v2@, v3@, v4@, v5@, v6@];
    let members = vec![
        Member { key: text::owned("ir_version"), value: v0 },
        Member { key: text::owned("name"), value: v1 },
        Member { key: text::owned("title"), value: v2 },
        Member { key: text::owned("tool_names"), value: v3 },
        Member { key: text::owned("tools"), value: v4 },
        Member { key: text::owned("upstream"), value: v5 },
        Member { key: text::owned("warnings"), value: v6 },
    ];
    let r = Json::Object(members);
    assert(r@->Object_0 =~= seq![
        "ir_version"@,
        "name"@,
        "title"@,
        "tool_names"@,
        "tools"@,
        "upstream"@,
        "warnings"@,
    ]);
    assert(r@->Object_1 =~= vs);
    let ghost ks = seq![
        "ir_version"@,
        "name"@,
        "title"@,
        "tool_names"@,
        "tools"@,
        "upstream"@,
        "warnings"@,
    ];
    let ghost sp = summary_json_spec(
        spec_name@,
        title@,
        crate::names::opt_view(upstream),
        ops@,
        n_warnings as nat,
        ir_version@,
    );
    assert(sp->Object_0 =~= ks);
    assert(sp->Object_1 =~= vs);
    assert(sp == JsonView::Object(ks, vs));
    assert(r@ == sp);
    r
}

// ---------------------------------------------------------------------------
// The command
// ---------------------------------------------------------------------------

/// What `inspect NAME` prints for a loaded spec: with a tool, that tool's
/// lines, or a usage error when no compiled tool has the name; without one,
/// the summary. `schemas[i]` is the input schema of `ops[i]` as compact JSON
/// text.
pub open spec fn inspect_spec(
    spec: SpecEntry,
    ops: Seq<Operation>,
    schemas: Seq<Seq<char>>,
    title: Seq<char>,
    upstream: Option<Seq<char>>,
    servers: Seq<Server>,
    n_warnings: nat,
    token_present: bool,
    tool: Option<Seq<char>>,
) -> Result<Seq<Seq<char>>, CliErrorView> {
    match tool {
        Some(t) => match first_tool(ops, t) {
            Some(i) => Ok(tool_lines_spec(ops[i], auth_spec(spec.upstream, token_present), schemas[i])),
            None => Err(unknown_tool(t)),
        },
        None => Ok(summary_spec(spec.name@, title, upstream, servers, ops, n_warnings)),
    }
}

/// The lines `inspect NAME` prints (`inspect_spec`).
pub fn inspect(
    spec: &SpecEntry,
    ops: &Vec<Operation>,
    schemas: &Vec<String>,
    title: &str,
    upstream: Option<&str>,
    servers: &Vec<Server>,
    n_warnings: usize,
    token_present: bool,
    tool: Option<&str>,
) -> (r: Result<Vec<String>, CliError>)
    requires
        schemas@.len() == ops@.len(),
    ensures
        match inspect_spec(
            *spec,
            ops@,
            string_views(schemas@),
            title@,
            crate::names::opt_view(upstream),
            servers@,
            n_warnings as nat,
            token_present,
            crate::names::opt_view(tool),
        ) {
            Ok(lines) => r matches Ok(v) && string_views(v@) == lines,
            Err(e) => r matches Err(x) && x@ == e,
        },
{
    match tool {
        Some(t) => {
            let found = find_tool(ops, t);
            proof {
                lemma_first_tool_found(ops@, t@);
            }
            let i = match found {
                Ok(i) => i,
                Err(e) => {
                    return Err(e);
                },
            };
            assert(string_views(schemas@)[i as int] == schemas@[i as int]@);
            let auth = auth_text(&spec.upstream, token_present);
            Ok(tool_lines(&ops[i], auth.as_str(), schemas[i].as_str()))
        },
        None => Ok(summary_lines(spec.name.as_str(), title, upstream, servers, ops, n_warnings)),
    }
}

} // verus!
verus! {

// ---------------------------------------------------------------------------
// Listings
// ---------------------------------------------------------------------------

/// One of `tags` is `tag`.
pub open spec fn has_tag(tags: Seq<String>, tag: Seq<char>) -> bool {
    exists|k: int| 0 <= k < tags.len() && (#[trigger] tags[k])@ == tag
}

/// A tool as `list-tools` prints it: name, title, `METHOD path` and whether
/// it is enabled, separated by tabs.
pub open spec fn tool_list_line_spec(op: Operation) -> Seq<char> {
    op.tool.name@ + "\t"@ + op.tool.title@ + "\t"@ + op.source.method@ + " "@ + op.source.path_template@
        + "\tenabled="@ + bool_text(op.enabled_by_default)
}

/// The lines of `list-tools`: every tool, or with a tag only the tools that
/// carry it, in order.
pub open spec fn tool_list_spec(ops: Seq<Operation>, tag: Option<Seq<char>>) -> Seq<Seq<char>>
    decreases ops.len(),
{
    if ops.len() == 0 {
        Seq::empty()
    } else {
        let rest = tool_list_spec(ops.drop_last(), tag);
        if tag is Some && !has_tag(ops.last().tags@, tag->0) {
            rest
        } else {
            rest.push(tool_list_line_spec(ops.last()))
        }
    }
}

fn tagged(tags: &Vec<String>, tag: &str) -> (r: bool)
    ensures
        r == has_tag(tags@, tag@),
{
    let mut k: usize = 0;
    while k < tags.len()
        invariant
            k <= tags.len(),
            forall|j: int| 0 <= j < k ==> (#[trigger] tags@[j])@ != tag@,
        decreases tags.len() - k,
    {
        if text::str_eq(tags[k].as_str(), tag) {
            return true;
        }
        k = k + 1;
    }
    false
}

/// One `list-tools` line (`tool_list_line_spec`).
pub fn tool_list_line(op: &Operation) -> (r: String)
    ensures
        r@ == tool_list_line_spec(*op),
{
    let mut s = text::cat3(op.tool.name.as_str(), "\t", op.tool.title.as_str());
    s.append("\t");
    s.append(op.source.method.as_str());
    s.append(" ");
    s.append(op.source.path_template.as_str());
    s.append("\tenabled=");
    s.append(bool_str(op.enabled_by_default));
    s
}

/// The lines of `list-tools` (`tool_list_spec`).
pub fn tool_list(ops: &Vec<Operation>, tag: Option<&str>) -> (r: Vec<String>)
    ensures
        string_views(r@) == tool_list_spec(ops@, crate::names::opt_view(tag)),
{
    let mut out: Vec<String> = Vec::new();
    let mut i: usize = 0;
    while i < ops.len()
        invariant
            i <= ops.len(),
            string_views(out@) == tool_list_spec(ops@.subrange(0, i as int), crate::names::opt_view(tag)),
        decreases ops.len() - i,
    {
        let ghost before = string_views(out@);
        let keep = match tag {
            Some(t) => tagged(&ops[i].tags, t),
            None => true,
        };
        proof {
            assert(ops@.subrange(0, i + 1).drop_last() =~= ops@.subrange(0, i as int));
            assert(ops@.subrange(0, i + 1).last() == ops@[i as int]);
        }
        if keep {
            let line = tool_list_line(&ops[i]);
            out.push(line);
            assert(string_views(out@) =~= before.push(line@));
        }
        i = i + 1;
    }
    assert(ops@.subrange(0, ops.len() as int) =~= ops@);
    out
}

/// A row of `list`: the spec name in 10 columns, the spec count and the
/// tool count in 6 each, the auth kind in 8, then `never`.
pub open spec fn list_row_spec(name: Seq<char>, tools: u64, auth: Seq<char>) -> Seq<char> {
    pad_spec(name, 10) + " "@ + pad_spec("1"@, 6) + " "@ + pad_spec(text::dec_str(tools as nat), 6) + " "@
        + pad_spec(auth, 8) + " never"@
}

/// A row of `list` (`list_row_spec`).
pub fn list_row(name: &str, tools: u64, auth: &str) -> (r: String)
    ensures
        r@ == list_row_spec(name@, tools, auth@),
{
    let mut out = pad(name, 10);
    text::append_str(&mut out, " ");
    let one = pad("1", 6);
    text::append_chars(&mut out, &one);
    text::append_str(&mut out, " ");
    let count = text::dec_string(tools);
    let c = pad(count.as_str(), 6);
    text::append_chars(&mut out, &c);
    text::append_str(&mut out, " ");
    let a = pad(auth, 8);
    text::append_chars(&mut out, &a);
    text::append_str(&mut out, " never");
    text::string_of(&out)
}

} // verus!
