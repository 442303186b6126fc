use mcp_gateway::cli_args::ClientKind;
use mcp_gateway::cli_error::{CliError, ExitCode};
use mcp_gateway::doctor::{closing_line, doctor_exit, policy_checks, ssrf_expected, tally, CheckStatus};
use mcp_gateway::config::{SpecEntry, UpstreamAuth};
use mcp_gateway::destructive::classify;
use mcp_gateway::draft::{Draft, SchemaSink};
use mcp_gateway::fetchhive::{doctor_note, load, CredentialsFile, DoctorNote, StoredCredentials};
use mcp_gateway::inspect::{
    annotations_line, auth_text, column_width, find_tool, inspect, snippet, snippet_target,
    summary_json, summary_lines, Snippet,
};
use mcp_gateway::json::{Json, Member};
use mcp_gateway::operation::{finish_operation, input_schema, Operation};
use mcp_gateway::params::ParamsOut;
use mcp_gateway::responses::lower_responses_bundled;
use mcp_gateway::secrets::SecretRef;
use mcp_gateway::servers::Server;
use mcp_gateway::tunnel_screen::{duration_ms, format_delay, request_line};
use std::time::Duration;

fn obj(members: Vec<(&str, Json)>) -> Json {
    Json::Object(members.into_iter().map(|(k, v)| Member { key: k.to_string(), value: v }).collect())
}

fn text_of(v: &Json) -> Option<&str> {
    match v {
        Json::Str(s) => Some(s.as_str()),
        _ => None,
    }
}

fn operation(method: &str, path: &str, tool: &str) -> Operation {
    let d = Draft {
        method: method.to_string(),
        path: path.to_string(),
        operation_id: Some(tool.to_string()),
        summary: Some(format!("{method} {path}")),
        description: None,
        tags: vec![],
        deprecated: false,
        op: obj(vec![]),
        path_item: obj(vec![]),
        class: classify(method, path, Some(tool)),
        candidate_name: tool.to_string(),
    };
    let doc = obj(vec![]);
    let mut sink = SchemaSink::new();
    let resp = lower_responses_bundled(&d, None, vec![], &mut sink.warnings);
    let schema = input_schema(&sink);
    let mut ws = sink.warnings;
    finish_operation(&doc, &d, tool.to_string(), &mut ws, ParamsOut::new(), None, None, schema, resp)
        .ok()
        .unwrap()
}

fn spec_entry(upstream: Option<UpstreamAuth>) -> SpecEntry {
    SpecEntry {
        name: "petstore".to_string(),
        url: None,
        file: Some("petstore.json".to_string()),
        ir_pin: None,
        enabled_tools: vec![],
        disabled_tools: vec![],
        upstream,
    }
}

fn bearer(token: Option<SecretRef>) -> UpstreamAuth {
    UpstreamAuth {
        kind: "bearer".to_string(),
        token,
        header: None,
        query: None,
        username: None,
        password: None,
        headers: vec![],
    }
}

fn ops() -> Vec<Operation> {
    vec![operation("GET", "/pets", "list_pets"), operation("POST", "/pets", "create_pet")]
}

// --- client snippets -----------------------------------------------------------------------

#[test]
fn cursor_uses_http_type() {
    let Snippet::Json(v) = snippet(ClientKind::Cursor, "petstore", "127.0.0.1:8787", "/mcp") else {
        panic!("expected a JSON snippet");
    };
    let entry = v.get("mcpServers").unwrap().get("petstore").unwrap();
    assert_eq!(text_of(entry.get("type").unwrap()), Some("http"));
    assert_eq!(text_of(entry.get("url").unwrap()), Some("http://127.0.0.1:8787/mcp"));
}

#[test]
fn claude_uses_stdio_command() {
    let Snippet::Json(v) = snippet(ClientKind::Claude, "petstore", "127.0.0.1:8787", "/mcp") else {
        panic!("expected a JSON snippet");
    };
    let entry = v.get("mcpServers").unwrap().get("petstore").unwrap();
    assert_eq!(text_of(entry.get("command").unwrap()), Some("mcp-gateway"));
    match entry.get("args").unwrap() {
        Json::Array(items) => {
            let args: Vec<Option<&str>> = items.iter().map(text_of).collect();
            assert_eq!(args, vec![Some("serve"), Some("petstore"), Some("--stdio")]);
        }
        _ => panic!("args is not an array"),
    }
}

#[test]
fn claude_code_and_vscode_use_http_entries() {
    let Snippet::Json(v) = snippet(ClientKind::ClaudeCode, "petstore", "127.0.0.1:8787", "/mcp") else {
        panic!("expected a JSON snippet");
    };
    let entry = v.get("mcpServers").unwrap().get("petstore").unwrap();
    assert_eq!(text_of(entry.get("type").unwrap()), Some("http"));
    let auth = entry.get("headers").unwrap().get("Authorization").unwrap();
    assert_eq!(text_of(auth), Some("Bearer ${MCP_GATEWAY_TOKEN}"));
    let Snippet::Json(v) = snippet(ClientKind::Vscode, "petstore", "0.0.0.0:9000", "/x") else {
        panic!("expected a JSON snippet");
    };
    let entry = v.get("servers").unwrap().get("petstore").unwrap();
    assert_eq!(text_of(entry.get("url").unwrap()), Some("http://0.0.0.0:9000/x"));
    assert_eq!(snippet_target(ClientKind::ClaudeCode), ".mcp.json");
    assert_eq!(snippet_target(ClientKind::Cursor), ".cursor/mcp.json");
}

#[test]
fn codex_gets_a_toml_table() {
    let Snippet::Toml(lines) = snippet(ClientKind::Codex, "petstore", "127.0.0.1:8787", "/mcp") else {
        panic!("expected TOML");
    };
    assert_eq!(
        lines,
        vec![
            "[mcp_servers.petstore]".to_string(),
            "url = \"http://127.0.0.1:8787/mcp\"".to_string(),
            "bearer_token_env_var = \"MCP_GATEWAY_TOKEN\"".to_string(),
        ]
    );
}

#[test]
fn chatgpt_gets_url_and_authorization() {
    let Snippet::Json(v) = snippet(ClientKind::Chatgpt, "petstore", "127.0.0.1:8787", "/mcp") else {
        panic!("expected a JSON snippet");
    };
    assert_eq!(text_of(v.get("name").unwrap()), Some("petstore"));
    assert_eq!(text_of(v.get("authorization").unwrap()), Some("Bearer $MCP_GATEWAY_TOKEN"));
}

// --- one tool ------------------------------------------------------------------------------

#[test]
fn inspect_tool_prints_http() {
    let ops = ops();
    let schemas = vec!["{}".to_string(), "{\"type\":\"object\"}".to_string()];
    let spec = spec_entry(Some(bearer(Some(SecretRef::env("PET_TOKEN")))));
    let lines = inspect(&spec, &ops, &schemas, "Petstore", None, &vec![], 0, true, Some("create_pet")).ok().unwrap();
    assert_eq!(lines[0], "tool: create_pet");
    assert!(lines[1].starts_with("id:   "));
    assert_eq!(lines[2], "http: POST /pets");
    assert_eq!(lines[3], "auth: bearer (env:PET_TOKEN, present=yes)");
    assert!(lines[4].starts_with("annotations: readOnlyHint=false destructiveHint="));
    assert_eq!(lines[5], "inputSchema: {\"type\":\"object\"}");
    assert_eq!(lines.len(), 6);
}

#[test]
fn unknown_tool_is_usage() {
    let ops = ops();
    let schemas = vec!["{}".to_string(), "{}".to_string()];
    let spec = spec_entry(None);
    match inspect(&spec, &ops, &schemas, "Petstore", None, &vec![], 0, false, Some("delete_pet")) {
        Err(CliError::Usage(m)) => assert_eq!(m, "unknown tool delete_pet"),
        other => panic!("expected a usage error, got {:?}", other.is_ok()),
    }
    assert_eq!(find_tool(&ops, "list_pets").ok(), Some(0));
}

#[test]
fn auth_text_shows_kind_source_and_presence() {
    assert_eq!(auth_text(&None, true), "none");
    assert_eq!(auth_text(&Some(bearer(None)), true), "bearer (none, present=no)");
    assert_eq!(
        auth_text(&Some(bearer(Some(SecretRef::env("T")))), false),
        "bearer (env:T, present=no)"
    );
}

#[test]
fn annotations_line_uses_debug_options() {
    let op = operation("GET", "/pets", "list_pets");
    let line = annotations_line(&op.tool.annotations);
    assert!(line.starts_with("annotations: readOnlyHint=true destructiveHint="));
    assert!(line.ends_with("openWorldHint=true"));
}

// --- the summary ---------------------------------------------------------------------------

#[test]
fn inspect_lists_compiled_tool_names() {
    let ops = ops();
    let lines = summary_lines("petstore", "Petstore", Some("https://petstore.example"), &vec![], &ops, 3);
    assert_eq!(
        lines,
        vec![
            "spec: petstore",
            "title: Petstore",
            "upstream: https://petstore.example",
            "tools: 2",
            "warnings: 3",
            "",
            "NAME        METHOD  PATH",
            "list_pets   GET     /pets",
            "create_pet  POST    /pets",
        ]
    );
    assert_eq!(column_width(&ops), 10);
}

#[test]
fn relative_upstream_falls_back_to_the_first_server() {
    let server = Server { url_template: "/v1".to_string(), variables: vec![], description: None };
    let lines = summary_lines("petstore", "Petstore", None, &vec![server], &vec![], 0);
    assert_eq!(lines[2], "upstream: /v1  (relative; pass --base-url or add-spec --url)");
    assert_eq!(lines[6], "NAME  METHOD  PATH");
    let lines = summary_lines("petstore", "Petstore", None, &vec![], &vec![], 0);
    assert_eq!(lines[2], "upstream: (none)  (relative; pass --base-url or add-spec --url)");
}

#[test]
fn inspect_json_includes_tool_names() {
    let ops = ops();
    let v = summary_json("petstore", "Petstore", None, &ops, 1, "2026-07-28");
    match v.get("tool_names").unwrap() {
        Json::Array(items) => {
            let names: Vec<Option<&str>> = items.iter().map(text_of).collect();
            assert_eq!(names, vec![Some("list_pets"), Some("create_pet")]);
        }
        _ => panic!("tool_names is not an array"),
    }
    assert!(matches!(v.get("upstream"), Some(Json::Null)));
    assert!(matches!(v.get("tools"), Some(Json::Number(n)) if n == "2"));
    assert_eq!(text_of(v.get("ir_version").unwrap()), Some("2026-07-28"));
}

// --- credentials ---------------------------------------------------------------------------

fn stored(token: &str) -> StoredCredentials {
    StoredCredentials {
        api_url: "https://api.fetchhive.com".to_string(),
        token: token.to_string(),
        account_id: "acct_1".to_string(),
        account_name: Some("  ".to_string()),
        user_email: "dev@example.com".to_string(),
        plan_type: Some(" team ".to_string()),
        logged_in_at: "2026-01-01T00:00:00Z".to_string(),
    }
}

#[test]
fn corrupt_credentials_are_not_logged_in() {
    let path = "/home/dev/.config/mcp-gateway/credentials.toml";
    let loaded = load(path, CredentialsFile::ParseFailed("expected `=`".to_string()));
    let note = doctor_note(true, loaded.map(|o| o.map(|c| c.user_email)), Ok(Some(0o600)));
    match note {
        DoctorNote::Unreadable(err) => assert!(err.contains("could not parse"), "{err}"),
        other => panic!("expected unreadable, got {other:?}"),
    }
}

#[test]
fn credentials_load_outcomes() {
    let path = "creds.toml";
    assert!(matches!(load(path, CredentialsFile::Absent), Ok(None)));
    match load(path, CredentialsFile::ReadFailed("denied".to_string())) {
        Err(CliError::Io(m)) => assert_eq!(m, "could not read creds.toml: denied"),
        _ => panic!("expected an I/O error"),
    }
    match load(path, CredentialsFile::Parsed(stored(""))) {
        Err(CliError::Usage(m)) => {
            assert_eq!(m, "creds.toml has an empty token. Run `mcp-gateway login --force`.")
        }
        _ => panic!("expected a usage error"),
    }
    let c = load(path, CredentialsFile::Parsed(stored("tok"))).ok().unwrap().unwrap();
    assert_eq!(c.account_name, None);
    assert_eq!(c.plan_type.as_deref(), Some("team"));
    assert_eq!(c.token, "tok");
    let note = doctor_note(true, Ok(Some(c.user_email)), Ok(Some(0o644)));
    assert!(matches!(note, DoctorNote::Loose { email } if email == "dev@example.com"));
}

// --- request lines -------------------------------------------------------------------------

fn delay(ms: u64) -> String {
    format_delay(duration_ms(Duration::from_millis(ms).as_millis())).unwrap()
}

#[test]
fn request_line_is_method_status_and_duration() {
    assert_eq!(request_line("POST", 200, &delay(12)), "POST    200 12ms");
    assert_eq!(request_line("GET", 0, &delay(5)), "GET       0 5ms");
}

#[test]
fn delays_of_a_second_are_left_to_the_caller() {
    assert_eq!(format_delay(999).as_deref(), Some("999ms"));
    assert_eq!(format_delay(1000), None);
    assert_eq!(duration_ms(u128::MAX), u64::MAX);
    assert_eq!(request_line("OPTIONS", 1234, "x"), "OPTIONS 1234 x");
}

// --- listings ------------------------------------------------------------------------------

#[test]
fn list_tools_filters_by_tag() {
    let mut ops = ops();
    ops[1].tags = vec!["pets".to_string()];
    let all = mcp_gateway::inspect::tool_list(&ops, None);
    assert_eq!(all.len(), 2);
    assert_eq!(
        all[1],
        format!("create_pet\tPOST /pets\tPOST /pets\tenabled={}", ops[1].enabled_by_default)
    );
    let tagged = mcp_gateway::inspect::tool_list(&ops, Some("pets"));
    assert_eq!(tagged, vec![all[1].clone()]);
    assert!(mcp_gateway::inspect::tool_list(&ops, Some("stores")).is_empty());
}

#[test]
fn list_rows_pad_their_columns() {
    assert_eq!(
        mcp_gateway::inspect::list_row("petstore", 12, "bearer"),
        "petstore   1      12     bearer   never"
    );
}

// --- doctor --------------------------------------------------------------------------------

#[test]
fn doctor_tallies_and_exits_with_policy_on_failure() {
    let checks = policy_checks(true, false, true, false);
    let names: Vec<&str> = checks.iter().map(|c| c.name.as_str()).collect();
    assert_eq!(names, vec!["config secrets", "mcp auth", "private networks"]);
    assert_eq!(checks[1].status, CheckStatus::Fail);
    assert_eq!(checks[1].detail, "MCP_GATEWAY_TOKEN is not set");
    let (oks, warns, fails) = tally(&checks);
    assert_eq!((oks, warns, fails), (1, 1, 1));
    assert_eq!(closing_line(oks, warns, fails), "doctor: 1 ok, 1 warn, 1 fail");
    assert_eq!(doctor_exit(&checks), ExitCode::Policy);
    let clean = policy_checks(true, true, false, false);
    assert_eq!(doctor_exit(&clean), ExitCode::Success);
    assert_eq!(policy_checks(false, true, false, true).len(), 3);
    assert_eq!(ssrf_expected(false), 8);
    assert_eq!(ssrf_expected(true), 6);
}
