use mcp_gateway::cli_args::TunnelAuth;
use mcp_gateway::cli_error::{CliError, ExitCode};
use mcp_gateway::commands::{
    add_source, cache_file, check_tunnel_auth, check_tunnel_name, init_config, serve_path, ir_cache_dir, kept_source_name, live_token_text,
    log_line_shown, logout_step, mcp_token, parse_u16, preview_tool_names, register_spec,
    resolve_http_bind, revoked_whoami, spec_bootstrap_url, LogoutStep, Output, PlatformDirs,
    PlatformPaths,
};
use mcp_gateway::digest::sha256_hex;
use mcp_gateway::loader::SpecSource;
use mcp_gateway::config::{GatewayConfig, SpecEntry};
use mcp_gateway::fetchhive::{
    account_label, api_url_for, blank_to_none, doctor_note, map_status, normalize_api_url,
    plan_label, poll_wait, quota_line, quota_text, resolve_token, revoke_outcome,
    revoked_response, whoami_error, DoctorNote, EndpointLimit, Revoke, TokenSource,
    WhoamiError,
};
use mcp_gateway::secrets::{
    file_secret, looks_like_secret_literal, parse_interpolation, present, SecretRef,
    SecretSource,
};
use mcp_gateway::tunnel_screen::{
    auth_value, header_lines, local_http_url, screen_mode, widest_header_line, HeaderView,
    ScreenMode, TunnelScreen, LABEL_WIDTH,
};
use std::time::Duration;

#[test]
fn port_env_binds_all_interfaces_and_exposes() {
    let (bind, expose) = resolve_http_bind(None, "127.0.0.1:8787", false, Some("10000")).unwrap();
    assert_eq!(bind, "0.0.0.0:10000");
    assert!(expose);
}

#[test]
fn explicit_bind_ignores_port_and_keeps_expose_off() {
    let (bind, expose) =
        resolve_http_bind(Some("0.0.0.0:8787"), "127.0.0.1:8787", false, Some("5000")).unwrap();
    assert_eq!(bind, "0.0.0.0:8787");
    assert!(!expose);
}

#[test]
fn empty_port_uses_config_bind() {
    let (bind, expose) = resolve_http_bind(None, "127.0.0.1:8787", false, Some("  ")).unwrap();
    assert_eq!(bind, "127.0.0.1:8787");
    assert!(!expose);
}

#[test]
fn invalid_port_is_usage() {
    let err = resolve_http_bind(None, "127.0.0.1:8787", false, Some("nope")).unwrap_err();
    assert!(err.message().contains("PORT"));
    assert_eq!(err.message(), "PORT must be a TCP port number, got \"nope\"");
    assert_eq!(err.exit_code(), ExitCode::Usage);
}

#[test]
fn port_numbers_parse_like_u16() {
    for s in ["0", "80", "+80", "00080", "65535"] {
        assert_eq!(parse_u16(s), s.parse::<u16>().ok(), "{s}");
    }
    for s in ["", "+", "-1", "65536", "99999999999", "8 0", "x"] {
        assert_eq!(parse_u16(s), None, "{s}");
        assert!(s.parse::<u16>().is_err(), "{s}");
    }
}

#[test]
fn bootstrap_url_prefers_a_non_blank_flag() {
    assert_eq!(
        spec_bootstrap_url(Some(" https://a/x.json "), Some("https://b")),
        Some("https://a/x.json".to_string())
    );
    assert_eq!(
        spec_bootstrap_url(Some("  "), Some(" https://b ")),
        Some("https://b".to_string())
    );
    assert_eq!(spec_bootstrap_url(None, Some("   ")), None);
    assert_eq!(spec_bootstrap_url(None, None), None);
}

#[test]
fn cache_file_pins_twelve_digest_characters() {
    let p = cache_file("/tmp/ir", "petstore", "0123456789abcdef");
    assert_eq!(p, "/tmp/ir/petstore-0123456789ab.ir.json");
    assert_eq!(cache_file("", "x", "abc"), "x-abc.ir.json");
}

fn sample() -> HeaderView {
    HeaderView {
        status: "online".to_owned(),
        version: "0.7.1".to_owned(),
        local_url: "http://127.0.0.1:8787/mcp".to_owned(),
        remote_url: "https://abcd2345.mcp.fetchhive.com/mcp".to_owned(),
        auth: auth_value(false).to_owned(),
        inflight: 1,
        total: 4,
        reconnects: 2,
    }
}

#[test]
fn header_names_status_version_urls_auth_lease_and_stats() {
    let lines = header_lines(&sample());
    assert_eq!(&lines[0][LABEL_WIDTH..], "online");
    assert_eq!(&lines[1][LABEL_WIDTH..], "0.7.1");
    assert_eq!(&lines[2][LABEL_WIDTH..], "http://127.0.0.1:8787/mcp");
    assert_eq!(
        &lines[3][LABEL_WIDTH..],
        "https://abcd2345.mcp.fetchhive.com/mcp"
    );
    assert_eq!(&lines[4][LABEL_WIDTH..], "bearer required");
    assert_eq!(
        &lines[5][LABEL_WIDTH..],
        "anonymous, released 30 minutes after disconnect"
    );
    assert_eq!(lines[6], "");
    assert_eq!(
        &lines[7][LABEL_WIDTH..],
        "in-flight 1    total 4    reconnects 2"
    );
    assert!(lines[0].starts_with("Session status"));
    assert!(lines[7].starts_with("Requests"));
}

#[test]
fn public_auth_uses_the_open_tunnel_warning() {
    assert_eq!(
        auth_value(true),
        "public, this URL is reachable by anyone on the internet"
    );
}

#[test]
fn local_url_joins_authority_and_path() {
    assert_eq!(
        local_http_url("127.0.0.1:8787", "/mcp"),
        "http://127.0.0.1:8787/mcp"
    );
    assert_eq!(local_http_url("h:1", "mcp"), "http://h:1/mcp");
}

#[test]
fn screen_mode_follows_output_and_terminal() {
    assert_eq!(widest_header_line(true), 71);
    assert_eq!(widest_header_line(false), 63);
    assert_eq!(screen_mode(true, false, true, Some((200, 50)), false), ScreenMode::Off);
    assert_eq!(screen_mode(false, true, true, Some((200, 50)), false), ScreenMode::Off);
    assert_eq!(
        screen_mode(false, false, true, Some((200, 50)), false),
        ScreenMode::Pinned { rows: 50 }
    );
    assert_eq!(screen_mode(false, false, true, Some((63, 50)), false), ScreenMode::Plain);
    assert_eq!(screen_mode(false, false, true, Some((200, 10)), false), ScreenMode::Plain);
    assert_eq!(screen_mode(false, false, false, Some((200, 50)), false), ScreenMode::Plain);
}

#[test]
fn finishing_a_pinned_screen_releases_the_scroll_region() {
    let mut s = TunnelScreen::open(ScreenMode::Pinned { rows: 40 }, "1.0", "http://x/mcp", false, "connecting");
    assert_eq!(s.remote_url, "waiting");
    s.apply_state("online", Some("https://r/mcp"));
    assert_eq!(s.remote_url, "https://r/mcp");
    let lines = s.lines(0, 1, 0);
    assert_eq!(&lines[0][LABEL_WIDTH..], "online");
    assert_eq!(s.finish(), Some("\x1b[r\x1b[40;1H".to_string()));
    assert_eq!(s.mode, ScreenMode::Off);
    assert_eq!(s.finish(), None);
}

#[test]
fn slow_down_adds_five_seconds() {
    assert_eq!(poll_wait(5, false), 5);
    assert_eq!(poll_wait(5, true), 10);
    assert_eq!(poll_wait(0, true), 5);
    assert_eq!(poll_wait(u64::MAX, true), u64::MAX);
}

#[test]
fn interpolation_round_trip() {
    assert_eq!(
        parse_interpolation("${PETSTORE_TOKEN}").unwrap(),
        "PETSTORE_TOKEN"
    );
    assert!(parse_interpolation("fh_mcp_live_abc").is_err());
}

#[test]
fn interpolation_errors_name_the_input() {
    assert_eq!(
        parse_interpolation("${A-B}").unwrap_err().message(),
        "invalid interpolation: ${A-B}"
    );
    assert_eq!(parse_interpolation("${}").unwrap_err().message(), "invalid interpolation: ${}");
    assert_eq!(parse_interpolation("  ${X_1}  ").unwrap(), "X_1");
    assert_eq!(
        parse_interpolation("x").unwrap_err().message(),
        "secret references must be ${VAR}, { env = \"VAR\" }, or { file = \"PATH\" } (got x)"
    );
}

#[test]
fn secret_literals_are_spotted() {
    assert!(looks_like_secret_literal("token fh_mcp_abc"));
    assert!(looks_like_secret_literal("sk_live_123"));
    assert!(looks_like_secret_literal("Bearer abc"));
    assert!(!looks_like_secret_literal("${TOKEN}"));
}

#[test]
fn secret_refs_display_and_source() {
    assert_eq!(SecretRef::env("A").display(), "env:A");
    assert_eq!(SecretRef::file("/p").display(), "file:/p");
    assert_eq!(SecretRef::Interpolated("${B}".into()).display(), "env:B");
    assert_eq!(SecretRef::Interpolated("oops".into()).display(), "invalid");
    assert_eq!(
        SecretRef::Interpolated("${B}".into()).source().unwrap(),
        SecretSource::EnvVar("B".into())
    );
    assert_eq!(
        SecretRef::Interpolated("Bearer x".into()).source().unwrap_err().message(),
        "inline secret literals are not allowed; use { env = \"VAR\" } or { file = \"PATH\" }"
    );
    assert_eq!(SecretRef::file("/p").source().unwrap(), SecretSource::File("/p".into()));
}

#[test]
fn file_secrets_lose_one_line_break() {
    assert_eq!(file_secret("abc\r\n"), "abc");
    assert_eq!(file_secret("abc\n\n"), "abc\n");
    assert_eq!(file_secret("abc"), "abc");
    assert!(present(&Ok("x".into())));
    assert!(!present(&Ok(String::new())));
    assert!(!present(&Err(CliError::usage("x"))));
}

#[test]
fn https_api_url_is_trimmed() {
    let url = normalize_api_url("https://api.fetchhive.com/v1/").unwrap();
    assert_eq!(url, "https://api.fetchhive.com");
}

#[test]
fn loopback_http_is_allowed() {
    let url = normalize_api_url("http://127.0.0.1:3456").unwrap();
    assert_eq!(url, "http://127.0.0.1:3456");
}

#[test]
fn loopback_http_covers_localhost_but_not_bracketed_ipv6() {
    assert_eq!(normalize_api_url("http://localhost:8080/").unwrap(), "http://localhost:8080");
    // The URL parser writes an IPv6 host in brackets, so it never equals `::1`.
    assert!(normalize_api_url("http://[::1]:3456").is_err());
}

#[test]
fn account_labels_capitalise_ascii_plans() {
    assert_eq!(account_label(None, Some("developer")), "Developer");
    assert_eq!(account_label(Some(" Acme "), Some("team")), "Acme (Team)");
    assert_eq!(account_label(Some("  "), None), "Unknown");
}

#[test]
fn public_http_is_refused() {
    let err = normalize_api_url("http://api.fetchhive.com").unwrap_err();
    assert!(err.message().contains("https"));
}

#[test]
fn api_url_with_credentials_is_refused() {
    let err = normalize_api_url("https://u:p@api.fetchhive.com").unwrap_err();
    assert_eq!(
        err.message(),
        "MCP_GATEWAY_API_URL must not include a username or password"
    );
    let err = normalize_api_url("nope").unwrap_err();
    assert_eq!(
        err.message(),
        "MCP_GATEWAY_API_URL is not a URL (nope). Use https://api.fetchhive.com"
    );
}

#[test]
fn error_body_does_not_echo_a_token() {
    let err = map_status(400, r#"{"access_token":"fh_cli_secret","error":"nope"}"#, None);
    assert!(!err.message().contains("fh_cli_"));
    assert!(!err.message().contains("secret"));
}

#[test]
fn error_message_does_not_echo_a_token() {
    let err = map_status(400, r#"{"error":"bad fh_cli_secret"}"#, None);
    assert!(!err.message().contains("fh_cli_"));
    assert!(!err.message().contains("secret"));
}

#[test]
fn status_mapping() {
    assert_eq!(
        map_status(429, "", Some(30)).message(),
        "Fetch Hive login is rate limited. Retry after 30 seconds."
    );
    assert_eq!(map_status(429, "", None).message(), "Fetch Hive login is rate limited.");
    assert_eq!(
        map_status(503, "{}", None).message(),
        "Fetch Hive login is temporarily unavailable; local commands and anonymous tunnels still work."
    );
    let e = map_status(401, "{}", None);
    assert_eq!(e.exit_code(), ExitCode::Usage);
    assert_eq!(e.message(), "Token revoked or expired; run `mcp-gateway login`");
    assert_eq!(
        map_status(500, "oops", None).message(),
        "Fetch Hive returned HTTP 500: request failed"
    );
    assert_eq!(
        map_status(402, r#"{"error_code":"plan_limit","message":"upgrade"}"#, None).message(),
        "plan_limit: upgrade"
    );
    assert_eq!(map_status(402, "{}", None).exit_code(), ExitCode::Upstream);
}

#[test]
fn revoked_and_revoke_outcomes() {
    assert!(revoked_response(401, ""));
    assert!(revoked_response(400, r#"{"error_code":"unauthorized"}"#));
    assert!(!revoked_response(400, r#"{"error_code":"other"}"#));
    assert!(matches!(whoami_error(401, "", None), WhoamiError::Revoked(_)));
    assert!(matches!(whoami_error(500, "", None), WhoamiError::Other(_)));
    assert_eq!(whoami_error(500, "", None).into_cli().exit_code(), ExitCode::Upstream);
    assert_eq!(revoke_outcome(204, "", None).unwrap(), Revoke::Revoked);
    assert_eq!(revoke_outcome(404, "", None).unwrap(), Revoke::AlreadyGone);
    assert_eq!(revoke_outcome(401, "", None).unwrap(), Revoke::AlreadyGone);
    assert!(revoke_outcome(500, "", None).is_err());
}

#[test]
fn labels_and_quotas() {
    assert_eq!(plan_label(Some(" developer ")), "Developer");
    assert_eq!(plan_label(Some("  ")), "Unknown");
    assert_eq!(plan_label(None), "Unknown");
    assert_eq!(plan_label(Some("ßig")), "SSig");
    assert_eq!(account_label(Some(" Acme "), Some("free")), "Acme (Free)");
    assert_eq!(account_label(Some(" "), Some("free")), "Free");
    let capped = EndpointLimit { used: 1, limit: Some(1) };
    let open = EndpointLimit { used: 3, limit: None };
    assert_eq!(quota_text(&capped), "1/1");
    assert_eq!(quota_text(&open), "3 (no cap)");
    assert_eq!(quota_line(&capped), "1/1 endpoints used · delete one or upgrade");
    assert_eq!(
        quota_line(&EndpointLimit { used: 0, limit: Some(1) }),
        "0/1 endpoints used"
    );
    assert_eq!(quota_line(&open), "3 (no cap) endpoints used");
    assert_eq!(blank_to_none(Some("  x ")), Some("x".to_string()));
    assert_eq!(blank_to_none(Some("  ")), None);
}

#[test]
fn flag_beats_the_file() {
    let resolved = resolve_token(Some("fh_cli_flag"), None, Some("fh_cli_file")).unwrap();
    assert_eq!(resolved.source, TokenSource::Flag);
    assert_eq!(resolved.token, "fh_cli_flag");
}

#[test]
fn env_token_beats_the_file_and_blank_values_are_skipped() {
    let r = resolve_token(Some("  "), Some(" fh_cli_env "), Some("fh_cli_file")).unwrap();
    assert_eq!(r.source, TokenSource::Env);
    assert_eq!(r.token, "fh_cli_env");
    let r = resolve_token(None, None, Some("fh_cli_file")).unwrap();
    assert_eq!(r.source, TokenSource::File);
    assert!(resolve_token(None, Some(""), None).is_none());
    assert_eq!(api_url_for(None, None, None), "https://api.fetchhive.com");
    assert_eq!(api_url_for(Some(" f "), Some("e"), Some("s")), "f");
    assert_eq!(api_url_for(None, Some(" "), Some("s")), "s");
}

#[test]
fn doctor_notes() {
    assert!(matches!(doctor_note(false, Ok(None), Ok(None)), DoctorNote::Missing));
    assert!(matches!(doctor_note(true, Ok(None), Ok(None)), DoctorNote::Missing));
    match doctor_note(true, Err(CliError::usage("could not parse x")), Ok(None)) {
        DoctorNote::Unreadable(m) => assert!(m.contains("could not parse")),
        _ => panic!("expected unreadable"),
    }
    assert!(matches!(
        doctor_note(true, Ok(Some("a@b".into())), Ok(Some(0o644))),
        DoctorNote::Loose { .. }
    ));
    assert!(matches!(
        doctor_note(true, Ok(Some("a@b".into())), Ok(Some(0o600))),
        DoctorNote::LoggedIn { .. }
    ));
}

#[test]
fn gateway_token_choice() {
    assert_eq!(mcp_token(Some(Ok("t".into())), None, false).unwrap(), Some("t".into()));
    assert_eq!(mcp_token(Some(Ok("  ".into())), None, false).unwrap(), None);
    assert!(mcp_token(None, Some(Err(CliError::usage("unset"))), false).is_err());
    assert_eq!(
        mcp_token(None, Some(Err(CliError::usage("unset"))), true).unwrap(),
        None
    );
    assert_eq!(mcp_token(None, None, false).unwrap(), None);
}

#[test]
fn exit_codes() {
    assert_eq!(ExitCode::Success.code(), 0);
    assert_eq!(ExitCode::Usage.code(), 1);
    assert_eq!(ExitCode::Policy.code(), 2);
    assert_eq!(ExitCode::SupplyChain.code(), 3);
    assert_eq!(ExitCode::Upstream.code(), 4);
    assert_eq!(ExitCode::Interrupted.code(), 130);
    assert_eq!(CliError::io("x").exit_code(), ExitCode::Usage);
    assert_eq!(CliError::policy("x").exit_code(), ExitCode::Policy);
    assert_eq!(CliError::supply("x").exit_code(), ExitCode::SupplyChain);
    assert_eq!(CliError::upstream("x").exit_code(), ExitCode::Upstream);
    assert_eq!(CliError::usage("msg").message(), "msg");
}

#[test]
fn output_settings() {
    let o = Output { json: false, quiet: false, verbose: 1 };
    assert!(o.shows_line() && o.shows_err_line() && o.shows_verbose());
    let q = Output { json: true, quiet: false, verbose: 0 };
    assert!(!q.shows_line() && q.shows_err_line() && !q.shows_verbose());
}

fn entry(name: &str) -> SpecEntry {
    SpecEntry {
        name: name.into(),
        url: None,
        file: None,
        ir_pin: None,
        enabled_tools: vec![],
        disabled_tools: vec![],
        upstream: None,
    }
}

#[test]
fn config_checks_and_lookup() {
    let mut cfg = GatewayConfig::default();
    assert_eq!(cfg.server.bind, "127.0.0.1:8787");
    assert_eq!(cfg.server.path, "/mcp");
    assert_eq!(
        cfg.validate("").unwrap_err().message(),
        "config schema_version is required"
    );
    cfg.schema_version = 2;
    assert_eq!(
        cfg.validate("").unwrap_err().message(),
        "config schema_version 2 is newer than this CLI; run mcp-gateway upgrade"
    );
    cfg.schema_version = 1;
    assert!(cfg.validate("schema_version = 1").is_ok());
    assert!(cfg.validate("token = \"sk_live_x\"").is_err());
    cfg.specs.push(entry("a"));
    cfg.specs.push(entry("b"));
    assert_eq!(cfg.spec("b").unwrap().name, "b");
    assert_eq!(cfg.spec("c").unwrap_err().message(), "unknown spec 'c'");
    cfg.spec_mut("a").unwrap().ir_pin = Some("pin".into());
    assert_eq!(cfg.specs[0].ir_pin.as_deref(), Some("pin"));
}

#[test]
fn override_wins() {
    let paths = PlatformPaths::resolve(Some("/tmp/mg/config.toml"), None, None);
    assert_eq!(paths.config_file, "/tmp/mg/config.toml");
    assert_eq!(paths.credentials_file, "/tmp/mg/credentials.toml");
    assert!(paths.cache_dir.ends_with("ir"));
}

#[test]
fn credentials_follow_config_parent() {
    let paths = PlatformPaths::resolve(Some("config.toml"), None, None);
    assert_eq!(paths.credentials_file, "credentials.toml");
}

#[test]
fn env_config_and_platform_dirs_place_the_files() {
    let dirs = PlatformDirs {
        config_dir: "/home/a/.config/mcp-gateway".to_string(),
        data_local_dir: "/home/a/.local/share/mcp-gateway".to_string(),
        cache_dir: "/home/a/.cache/mcp-gateway".to_string(),
    };
    let from_env = PlatformPaths::resolve(None, Some("/etc/mg/config.toml"), Some(&dirs));
    assert_eq!(from_env.config_file, "/etc/mg/config.toml");
    assert_eq!(from_env.credentials_file, "/etc/mg/credentials.toml");
    assert_eq!(from_env.cache_dir, "/home/a/.cache/mcp-gateway/ir");
    assert_eq!(from_env.log_file, "/etc/mg/mcp-gateway.jsonl");
    let default = PlatformPaths::resolve(None, None, Some(&dirs));
    assert_eq!(default.config_file, "/home/a/.config/mcp-gateway/config.toml");
    assert_eq!(default.credentials_file, "/home/a/.config/mcp-gateway/credentials.toml");
    assert_eq!(default.log_file, "/home/a/.local/share/mcp-gateway/mcp-gateway.jsonl");
    let bare = PlatformPaths::resolve(None, None, None);
    assert_eq!(bare.config_file, "config.toml");
    assert_eq!(bare.cache_dir, ".cache/mcp-gateway/ir");
    let overridden = PlatformPaths::resolve(Some("/tmp/mg/config.toml"), None, Some(&dirs));
    assert_eq!(overridden.cache_dir, "/tmp/mg/cache/ir");
}

#[test]
fn add_spec_checks_name_base_url_and_source() {
    let mut cfg = GatewayConfig::default();
    cfg.specs.push(entry("petstore"));
    match add_source(&cfg, "petstore", Some("https://x/openapi.json"), None, None, false) {
        Err(CliError::Usage(m)) => assert_eq!(m, "spec petstore already exists; pass --force to replace"),
        other => panic!("unexpected {other:?}"),
    }
    assert!(matches!(
        add_source(&cfg, "petstore", Some("https://x/openapi.json"), None, None, true),
        Ok(SpecSource::Url(u)) if u == "https://x/openapi.json"
    ));
    match add_source(&cfg, "other", None, Some("spec.yaml"), Some("/relative"), false) {
        Err(CliError::Usage(m)) => assert_eq!(m, "--base-url must be an absolute http(s) URL (host + scheme)"),
        other => panic!("unexpected {other:?}"),
    }
    assert!(matches!(
        add_source(&cfg, "other", None, Some("spec.yaml"), Some("https://api.example.com"), false),
        Ok(SpecSource::File(f)) if f == "spec.yaml"
    ));
    match add_source(&cfg, "other", Some("https://x"), Some("spec.yaml"), None, false) {
        Err(CliError::Usage(m)) => assert_eq!(m, "exactly one of --url or --file is required"),
        other => panic!("unexpected {other:?}"),
    }
    assert!(add_source(&cfg, "other", None, None, None, false).is_err());
}

#[test]
fn tool_name_preview_stops_at_the_limit() {
    let names: Vec<String> = (0..10).map(|i| format!("t{i}")).collect();
    assert_eq!(preview_tool_names(&names, 8), "t0, t1, t2, t3, t4, t5, t6, t7, …");
    assert_eq!(preview_tool_names(&names[..3].to_vec(), 8), "t0, t1, t2");
    assert_eq!(preview_tool_names(&Vec::new(), 8), "(none)");
}

#[test]
fn registering_a_spec_replaces_the_same_name_and_goes_last() {
    let mut cfg = GatewayConfig::default();
    cfg.specs.push(entry("a"));
    cfg.specs.push(entry("b"));
    cfg.specs.push(entry("c"));
    register_spec(&mut cfg, entry("a"));
    let names: Vec<&str> = cfg.specs.iter().map(|s| s.name.as_str()).collect();
    assert_eq!(names, vec!["b", "c", "a"]);
    assert_eq!(ir_cache_dir("", "/platform/ir"), "/platform/ir");
    assert_eq!(ir_cache_dir("/mine", "/platform/ir"), "/mine");
}

#[test]
fn ir_digest_is_sha256_hex() {
    assert_eq!(
        sha256_hex(b"abc"),
        "ba7816bf8f01cfea414140de5dae2223b00361a396177a9cb410ff61f20015ad"
    );
}

#[test]
fn whoami_and_logout_decisions_follow_the_token_source() {
    let err = CliError::Usage("token revoked".to_string());
    let (removed, e) = revoked_whoami(&err, true, TokenSource::File);
    assert!(removed);
    assert_eq!(e.message(), "token revoked. Removed credentials.toml.");
    let (removed, e) = revoked_whoami(&err, true, TokenSource::Env);
    assert!(!removed);
    assert_eq!(
        e.message(),
        "token revoked. credentials.toml was left in place because this token did not come from that file."
    );
    let (_, e) = revoked_whoami(&err, false, TokenSource::File);
    assert_eq!(e.message(), "token revoked. Pass --clear to delete credentials.toml.");
    assert_eq!(logout_step(None, false), LogoutStep::NotLoggedIn);
    assert_eq!(logout_step(Some(TokenSource::Flag), false), LogoutStep::Kept);
    assert_eq!(logout_step(Some(TokenSource::File), true), LogoutStep::SignOut { revoke_remote: false });
    assert_eq!(logout_step(Some(TokenSource::File), false), LogoutStep::SignOut { revoke_remote: true });
    assert_eq!(kept_source_name(TokenSource::Env), "MCP_GATEWAY_CLI_TOKEN");
    assert_eq!(kept_source_name(TokenSource::Flag), "--cli-token");
}

#[test]
fn init_writes_a_local_config_and_a_live_token() {
    let cfg = init_config(None, false);
    assert_eq!(cfg.schema_version, 1);
    assert_eq!(cfg.server.bind, "127.0.0.1:8787");
    assert_eq!(cfg.server.path, "/mcp");
    assert!(!cfg.ssrf.allow_private_networks);
    assert!(matches!(&cfg.server.token, Some(SecretRef::Env { env }) if env == "MCP_GATEWAY_TOKEN"));
    assert!(cfg.specs.is_empty());
    let open = init_config(Some("0.0.0.0:9000"), true);
    assert_eq!(open.server.bind, "0.0.0.0:9000");
    assert!(open.ssrf.allow_private_networks);
    assert_eq!(live_token_text(&[0x00, 0xab, 0x10]), "fh_mcp_live_00ab10");
}

#[test]
fn log_lines_filter_by_tool_and_since() {
    let l = "{\"ts\":\"2026-01-02T00:00:00Z\",\"tool\":\"list_pets\"}";
    assert!(log_line_shown(l, None, None));
    assert!(log_line_shown(l, None, Some("list_pets")));
    assert!(!log_line_shown(l, None, Some("get_pet")));
    assert!(log_line_shown(l, Some("{\"ts\":\"2026-01-01"), None));
    assert!(!log_line_shown(l, Some("{\"ts\":\"2026-02-01"), None));
    assert!(log_line_shown(l, Some(l), None));
}

#[test]
fn tunnel_checks_follow_the_auth_mode() {
    assert!(check_tunnel_auth(false, TunnelAuth::Token, None, false).is_ok());
    let err = check_tunnel_auth(true, TunnelAuth::Token, Some("  "), true).unwrap_err();
    assert!(err.message().starts_with("tunnel with --tunnel-auth token needs MCP_GATEWAY_TOKEN"));
    assert!(check_tunnel_auth(true, TunnelAuth::Token, Some("t0k"), false).is_ok());
    let err = check_tunnel_auth(true, TunnelAuth::Public, Some("t0k"), false).unwrap_err();
    assert_eq!(err.message(), "--tunnel-auth public requires --allow-anonymous");
    assert!(check_tunnel_auth(true, TunnelAuth::Public, None, true).is_ok());
    assert_eq!(check_tunnel_name(Some("demo")).unwrap_err().message(), "persistent names are not available yet");
    assert!(check_tunnel_name(None).is_ok());
    assert_eq!(serve_path("/mcp", "/gw"), "/gw");
    assert_eq!(serve_path("/custom", "/gw"), "/custom");
    assert_eq!(serve_path("/mcp", ""), "/mcp");
}
