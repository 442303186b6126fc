use mcp_gateway::category::category;
use mcp_gateway::destructive::{annotations, classify};
use mcp_gateway::error::CompileError;
use mcp_gateway::http::{capped_append, check_content_length, DownloadError};
use mcp_gateway::ip::{ip_to_string, parse_ip, IpAddress};
use mcp_gateway::loader::{
    accept_chunk, detect_version, download_outcome, load_bytes, sniff_format, url_locator,
    LoadError, OpenApiFamily, SourceKind, SpecFormat, SPEC_MAX_BYTES,
};
use mcp_gateway::media::{is_json_media_type, media_type_base};
use mcp_gateway::names::{
    candidate_name, method_path_fallback, names_fit, normalize, uniquify, NameKind, NameSource,
};
use mcp_gateway::parse::{require_openapi_3, validate_document, ParseError};
use mcp_gateway::refs::{rewrite_ref_str, split_url_frag, FetchBudget, RefError};
use mcp_gateway::safety::{
    check_host, check_host_with, is_blocked_ip, needs_lookup, parse_https_url,
    parse_https_url_with, resolve_and_check, resolve_and_check_with, SafetyError, SafetyOpts,
};
use mcp_gateway::server_url::{is_absolute_http_url, resolve_server_url};
use mcp_gateway::style::{parse_style, StyleSupport};

fn ip(s: &str) -> IpAddress {
    parse_ip(s).unwrap()
}

#[test]
fn crate_compiles() {}

#[test]
fn first_tag_wins() {
    assert_eq!(
        category(&["repos".to_string(), "other".to_string()], "/x", None),
        "repos"
    );
}

#[test]
fn skips_v1() {
    assert_eq!(category(&[], "/v1/customers", None), "customers");
}

#[test]
fn repos_path() {
    assert_eq!(category(&[], "/repos/{owner}/{repo}", None), "repos");
}

#[test]
fn schema_name_fallback() {
    assert_eq!(category(&[], "/{id}", Some("Charge")), "charge");
}

#[test]
fn untagged() {
    assert_eq!(category(&[], "/{id}", None), "untagged");
}

#[test]
fn get_refund_is_destructive() {
    let c = classify("GET", "/v1/charges/{id}/refund", Some("refundCharge"));
    assert!(c.destructive);
    assert!(!c.read_only);
}

#[test]
fn delete_without_keyword_is_destructive() {
    let c = classify("DELETE", "/repos/{owner}/{repo}", Some("repos/delete"));
    assert!(c.destructive);
    assert!(c.idempotent);
    let a = annotations(c);
    assert!(!a.read_only_hint);
    assert_eq!(a.destructive_hint, Some(true));
    assert_eq!(a.idempotent_hint, Some(true));
}

#[test]
fn get_is_read_only() {
    let c = classify("GET", "/repos/{owner}/{repo}", Some("repos/get"));
    assert!(c.read_only);
    assert!(!c.destructive);
}

#[test]
fn options_skipped() {
    assert!(classify("OPTIONS", "/", None).skip);
    assert!(classify("TRACE", "/", None).skip);
}

#[test]
fn classify_ignores_method_case_and_never_mixes_read_only_with_destructive() {
    let lower = classify("get", "/pets", Some("listPets"));
    let upper = classify("GET", "/pets", Some("listPets"));
    assert_eq!((lower.read_only, lower.destructive, lower.idempotent, lower.skip), (true, false, true, false));
    assert_eq!((upper.read_only, upper.destructive, upper.idempotent, upper.skip), (true, false, true, false));
    let post = classify("Post", "/pets/{id}/refund", None);
    assert_eq!((post.read_only, post.destructive, post.idempotent, post.skip), (false, true, false, false));
    let odd = classify("purge", "/cache/purge", None);
    assert_eq!((odd.read_only, odd.destructive, odd.idempotent, odd.skip), (false, false, false, true));
}

#[test]
fn deep_object_unsupported() {
    assert!(matches!(
        parse_style("query", Some("deepObject"), Some(true)),
        StyleSupport::Unsupported { .. }
    ));
}

#[test]
fn sniffs_json() {
    assert_eq!(sniff_format(b"  {\"openapi\":\"3.1.0\"}"), SpecFormat::Json);
}

#[test]
fn sniffs_yaml() {
    assert_eq!(sniff_format(b"openapi: 3.0.3\n"), SpecFormat::Yaml);
}

#[test]
fn sniff_of_blank_and_array_documents() {
    assert_eq!(sniff_format(b""), SpecFormat::Yaml);
    assert_eq!(sniff_format(b" \t\r\n"), SpecFormat::Yaml);
    assert_eq!(sniff_format(b"\n[1]"), SpecFormat::Json);
}

#[test]
fn detects_3_0_and_3_1() {
    let (f, v) = detect_version(br#"{"openapi":"3.0.3"}"#, SpecFormat::Json);
    assert_eq!(f, OpenApiFamily::V3_0);
    assert_eq!(v, "3.0.3");
    let (f, v) = detect_version(b"openapi: \"3.1.0\"\n", SpecFormat::Yaml);
    assert_eq!(f, OpenApiFamily::V3_1);
    assert_eq!(v, "3.1.0");
}

#[test]
fn missing_version_is_3_1_and_empty() {
    let (f, v) = detect_version(b"{}", SpecFormat::Json);
    assert_eq!(f, OpenApiFamily::V3_1);
    assert_eq!(v, "");
}

#[test]
fn load_bytes_sets_sha256() {
    let spec = load_bytes(
        b"openapi: 3.1.0\ninfo:\n  title: t\n  version: '1'\npaths: {}\n".to_vec(),
        SourceKind::File,
        "mem.yaml",
    )
    .unwrap();
    assert_eq!(spec.source.sha256.len(), 64);
    assert_eq!(spec.family, OpenApiFamily::V3_1);
    assert_eq!(spec.format, SpecFormat::Yaml);
}

#[test]
fn sha256_of_empty_spec_is_the_known_digest() {
    let spec = load_bytes(Vec::new(), SourceKind::Stdin, "-").unwrap();
    assert_eq!(
        spec.source.sha256,
        "e3b0c44298fc1c149afbf4c8996fb92427ae41e4649b934ca495991b7852b855"
    );
    assert_eq!(spec.source.locator, "-");
}

#[test]
fn rejects_oversize() {
    let err = load_bytes(vec![0; SPEC_MAX_BYTES + 1], SourceKind::Stdin, "-").unwrap_err();
    assert!(matches!(err, LoadError::TooLarge));
}

#[test]
fn load_error_codes_and_messages() {
    assert_eq!(LoadError::TooLarge.exit_code(), 4);
    assert_eq!(LoadError::Io("x".into()).exit_code(), 4);
    assert_eq!(LoadError::Download("x".into()).exit_code(), 4);
    assert_eq!(LoadError::Safety(SafetyError::Localhost).exit_code(), 3);
    assert_eq!(LoadError::TooLarge.message(), "spec exceeds 10 MiB cap");
    assert_eq!(LoadError::Io("gone".into()).message(), "I/O error: gone");
    assert_eq!(
        LoadError::Download("HTTP 404".into()).message(),
        "download failed: HTTP 404"
    );
}

#[test]
fn chunks_stop_at_the_cap() {
    let mut buf = vec![0u8; SPEC_MAX_BYTES - 2];
    assert!(accept_chunk(&mut buf, &[1, 2]).is_ok());
    assert_eq!(buf.len(), SPEC_MAX_BYTES);
    assert!(matches!(accept_chunk(&mut buf, &[3]), Err(LoadError::TooLarge)));
    assert_eq!(buf.len(), SPEC_MAX_BYTES);
}

#[test]
fn download_errors_map_to_load_errors() {
    assert!(matches!(
        download_outcome(Err(DownloadError::TooLarge)),
        Err(LoadError::TooLarge)
    ));
    match download_outcome(Err(DownloadError::Failed("HTTP 500".into()))) {
        Err(LoadError::Download(m)) => assert_eq!(m, "HTTP 500"),
        _ => panic!("expected a download error"),
    }
    assert_eq!(download_outcome(Ok(vec![1, 2])).unwrap(), vec![1, 2]);
}

#[test]
fn download_cap_and_messages() {
    let mut buf = Vec::new();
    assert!(capped_append(&mut buf, &[1, 2, 3], 3));
    assert!(!capped_append(&mut buf, &[4], 3));
    assert_eq!(buf, vec![1, 2, 3]);
    assert!(check_content_length(Some(4), 3).is_err());
    assert!(check_content_length(Some(3), 3).is_ok());
    assert!(check_content_length(None, 3).is_ok());
    assert_eq!(DownloadError::TooLarge.message(), "response exceeds size cap");
    assert_eq!(
        DownloadError::Failed("timeout".into()).message(),
        "download failed: timeout"
    );
}

#[test]
fn url_locator_drops_credentials() {
    assert_eq!(
        url_locator("https://user:pw@example.com/spec.json"),
        "https://example.com/spec.json"
    );
    assert_eq!(url_locator("not a url"), "not a url");
}

#[test]
fn github_repos_get() {
    let n = candidate_name(&NameSource {
        operation_id: Some("repos/get"),
        summary: Some("Get a repository"),
        description: None,
        method: "GET",
        path_template: "/repos/{owner}/{repo}",
    });
    assert_eq!(n.name, "repos_get");
    assert_eq!(n.source_kind, NameKind::OperationId);
}

#[test]
fn stripe_camel_case() {
    let n = normalize("getCharge", true);
    assert_eq!(n, "get_charge");
}

#[test]
fn reserved_prefixed() {
    assert_eq!(normalize("ping", true), "api_ping");
    assert_eq!(normalize("mcp.foo", false), "api_mcp_foo");
}

#[test]
fn truncate_64() {
    let long = "a".repeat(80);
    let n = normalize(&long, false);
    assert!(n.len() <= 64);
}

#[test]
fn fallback_path() {
    let n = candidate_name(&NameSource {
        operation_id: None,
        summary: None,
        description: None,
        method: "GET",
        path_template: "/repos/{owner}/{repo}",
    });
    assert_eq!(n.name, "get_repos_owner_repo");
    assert_eq!(n.source_kind, NameKind::Fallback);
}

#[test]
fn collision_suffix() {
    let names: Vec<String> = vec!["foo".into(), "foo".into(), "bar".into()];
    let keys: Vec<(String, String, String)> = vec![
        ("POST".into(), "/a".into(), "z".into()),
        ("GET".into(), "/a".into(), "a".into()),
        ("GET".into(), "/b".into(), "".into()),
    ];
    let out = uniquify(&names, &keys);
    assert_eq!(out[1], "foo");
    assert_eq!(out[0], "foo_2");
    assert_eq!(out[2], "bar");
}

#[test]
fn empty_operation_id_uses_method_path_fallback() {
    let n = candidate_name(&NameSource {
        operation_id: Some("!!!"),
        summary: None,
        description: None,
        method: "GET",
        path_template: "/repos/{owner}/{repo}",
    });
    assert_eq!(n.name, "get_repos_owner_repo");
    assert_eq!(n.source_kind, NameKind::Fallback);
}

#[test]
fn normalize_is_idempotent_on_examples() {
    for s in ["getCharge", "repos/get", "Get a repository", "ping", "__x__y"] {
        let once = normalize(s, true);
        assert_eq!(normalize(&once, true), once);
        assert_eq!(normalize(&once, false), once);
    }
}

#[test]
fn method_path_fallback_joins_method_and_path() {
    assert_eq!(
        method_path_fallback("GET", "/repos/{owner}/{repo}"),
        "get_repos__owner___repo_"
    );
}

#[test]
fn uniquify_skips_taken_suffixes_and_keeps_names_distinct() {
    let names: Vec<String> = vec![
        "foo".into(),
        "foo".into(),
        "foo_2".into(),
        "foo".into(),
        "bar".into(),
    ];
    let keys: Vec<(String, String, String)> = vec![
        ("GET".into(), "/a".into(), "".into()),
        ("GET".into(), "/b".into(), "".into()),
        ("GET".into(), "/c".into(), "".into()),
        ("GET".into(), "/d".into(), "".into()),
        ("GET".into(), "/e".into(), "".into()),
    ];
    let out = uniquify(&names, &keys);
    assert_eq!(out, vec!["foo", "foo_3", "foo_2", "foo_4", "bar"]);
    for i in 0..out.len() {
        for j in 0..out.len() {
            if i != j {
                assert_ne!(out[i], out[j]);
            }
        }
    }
}

#[test]
fn uniquify_equal_keys_keep_input_order() {
    let names: Vec<String> = vec!["x".into(), "x".into()];
    let keys: Vec<(String, String, String)> = vec![
        ("GET".into(), "/a".into(), "".into()),
        ("GET".into(), "/a".into(), "".into()),
    ];
    assert_eq!(uniquify(&names, &keys), vec!["x", "x_2"]);
}

#[test]
fn long_repeated_names_fit_up_to_128_bytes() {
    let keys: Vec<(String, String, String)> = vec![
        ("GET".into(), "/a".into(), "".into()),
        ("GET".into(), "/b".into(), "".into()),
    ];
    let fits: Vec<String> = vec!["a".repeat(126), "a".repeat(126)];
    assert!(names_fit(&fits, &keys));
    let out = uniquify(&fits, &keys);
    assert_eq!(out, vec!["a".repeat(126), format!("{}_2", "a".repeat(126))]);
    let long: Vec<String> = vec!["a".repeat(127), "a".repeat(127)];
    assert!(!names_fit(&long, &keys));
    let once: Vec<String> = vec!["a".repeat(300), "b".into()];
    assert!(names_fit(&once, &keys));
}

#[test]
fn hundred_byte_repeats_get_distinct_suffixes() {
    let keys: Vec<(String, String, String)> = vec![
        ("POST".into(), "/b".into(), "".into()),
        ("GET".into(), "/a".into(), "".into()),
        ("GET".into(), "/c".into(), "".into()),
    ];
    let names: Vec<String> = vec!["n".repeat(100), "n".repeat(100), "n".repeat(100)];
    assert!(names_fit(&names, &keys));
    let out = uniquify(&names, &keys);
    assert_eq!(out[1], "n".repeat(100));
    assert_eq!(out[2], format!("{}_2", "n".repeat(100)));
    assert_eq!(out[0], format!("{}_3", "n".repeat(100)));
}

#[test]
fn media_types() {
    assert_eq!(media_type_base(" Application/JSON; charset=utf-8"), "application/json");
    assert!(is_json_media_type("application/problem+json"));
    assert!(!is_json_media_type("text/plain"));
}

#[test]
fn rejects_swagger_2_with_a_version_message() {
    let err = validate_document(
        br#"{"swagger":"2.0","info":{"title":"x","version":"1"},"paths":{}}"#,
        SpecFormat::Json,
        OpenApiFamily::V3_1,
    )
    .unwrap_err();
    let msg = err.message();
    assert!(msg.contains("Swagger 2.0"), "{msg}");
    assert!(msg.contains("not supported"), "{msg}");
}

#[test]
fn rejects_openapi_2_without_panicking() {
    let err = validate_document(
        br#"{"openapi":"2.0","info":{"title":"x","version":"1"},"paths":{}}"#,
        SpecFormat::Json,
        OpenApiFamily::V3_1,
    )
    .unwrap_err();
    let msg = err.message();
    assert!(msg.contains("OpenAPI 2.0 is not supported"), "{msg}");
}

#[test]
fn version_requirement_messages() {
    assert!(require_openapi_3("3.0.3", None).is_ok());
    assert!(require_openapi_3("3.1.0", Some("2.0")).is_ok());
    assert_eq!(
        require_openapi_3("", None).unwrap_err(),
        "missing openapi version field; use an OpenAPI 3.0 or 3.1 document"
    );
    assert_eq!(
        require_openapi_3("", Some("2.0")).unwrap_err(),
        "Swagger 2.0 is not supported; use an OpenAPI 3.0 or 3.1 document"
    );
}

#[test]
fn valid_documents_pass_validation() {
    let v = validate_document(
        br#"{"openapi":"3.1.0","info":{"title":"x","version":"1"},"paths":{}}"#,
        SpecFormat::Json,
        OpenApiFamily::V3_1,
    )
    .unwrap();
    assert_eq!(v, "3.1.0");
    let v = validate_document(
        b"openapi: 3.0.3\ninfo:\n  title: x\n  version: '1'\npaths: {}\n",
        SpecFormat::Yaml,
        OpenApiFamily::V3_0,
    )
    .unwrap();
    assert_eq!(v, "3.0.3");
}

#[test]
fn broken_json_is_a_parse_error() {
    let err = validate_document(b"{", SpecFormat::Json, OpenApiFamily::V3_1).unwrap_err();
    assert_eq!(err.exit_code(), 1);
    let ParseError::Parse(m) = &err;
    assert!(!m.is_empty());
}

#[test]
fn compile_error_codes() {
    let e = CompileError::from(ParseError::Parse("bad".into()));
    assert_eq!(e.exit_code(), 1);
    assert_eq!(e.message(), "failed to parse OpenAPI document: bad");
    assert_eq!(CompileError::from(LoadError::TooLarge).exit_code(), 4);
    assert_eq!(
        CompileError::from(LoadError::Safety(SafetyError::Localhost)).exit_code(),
        3
    );
    assert_eq!(CompileError::from(SafetyError::Localhost).exit_code(), 3);
}

#[test]
fn rejects_http() {
    let err = parse_https_url("http://example.com/openapi.json").unwrap_err();
    assert!(matches!(err, SafetyError::NotHttps(_)));
}

#[test]
fn rejects_localhost() {
    let err = parse_https_url("https://localhost/spec.json").unwrap_err();
    assert!(matches!(err, SafetyError::Localhost));
}

#[test]
fn rejects_loopback_literal() {
    let err = parse_https_url("https://127.0.0.1/spec.json").unwrap_err();
    assert!(matches!(err, SafetyError::BlockedAddress(_)));
}

#[test]
fn rejects_metadata_ipv4() {
    assert!(is_blocked_ip(ip("169.254.169.254")));
}

#[test]
fn allows_public_https() {
    parse_https_url("https://example.com/openapi.json").unwrap();
}

#[test]
fn rejects_ipv4_compatible_loopback() {
    assert!(is_blocked_ip(ip("::127.0.0.1")));
    let err = parse_https_url("https://[::127.0.0.1]/spec.json").unwrap_err();
    assert!(matches!(err, SafetyError::BlockedAddress(_)));
}

#[test]
fn rejects_ipv4_mapped_loopback() {
    assert!(is_blocked_ip(ip("::ffff:127.0.0.1")));
}

#[test]
fn rejects_rfc1918_by_default() {
    let err = parse_https_url("https://10.0.0.1/spec.json").unwrap_err();
    assert!(matches!(err, SafetyError::BlockedAddress(_)));
}

#[test]
fn allow_private_skips_rfc1918_not_metadata() {
    let opts = SafetyOpts {
        allow_private: true,
    };
    parse_https_url_with("https://10.0.0.1/spec.json", opts).unwrap();
    let err = parse_https_url_with("https://169.254.169.254/spec.json", opts).unwrap_err();
    assert!(matches!(err, SafetyError::BlockedAddress(_)));
    let err = parse_https_url_with("https://127.0.0.1/spec.json", opts).unwrap_err();
    assert!(matches!(err, SafetyError::BlockedAddress(_)));
}

#[test]
fn safety_default_refuses_private_networks() {
    let opts = SafetyOpts::default();
    assert!(!opts.allow_private);
}

#[test]
fn host_checks() {
    assert!(matches!(check_host("LocalHost"), Err(SafetyError::Localhost)));
    assert!(matches!(check_host("api.localhost"), Err(SafetyError::Localhost)));
    match check_host("10.1.2.3") {
        Err(SafetyError::BlockedAddress(h)) => assert_eq!(h, "10.1.2.3"),
        _ => panic!("expected a blocked address"),
    }
    assert!(check_host("example.com").is_ok());
    assert!(check_host_with("192.168.1.1", SafetyOpts { allow_private: true }).is_ok());
    assert!(check_host("fd00::1").is_err());
    assert!(check_host_with("fd00::1", SafetyOpts { allow_private: true }).is_ok());
    assert!(check_host_with("fd00:ec2::254", SafetyOpts { allow_private: true }).is_err());
}

#[test]
fn blocked_ipv6_is_reported_in_std_text() {
    match parse_https_url("https://[fe80::1]/x") {
        Err(SafetyError::BlockedAddress(t)) => assert_eq!(t, "fe80::1"),
        _ => panic!("expected a blocked address"),
    }
}

#[test]
fn lookup_is_needed_only_for_names() {
    assert!(needs_lookup("example.com", SafetyOpts::default()).unwrap());
    assert!(!needs_lookup("93.184.216.34", SafetyOpts::default()).unwrap());
    assert!(needs_lookup("localhost", SafetyOpts::default()).is_err());
}

#[test]
fn resolve_checks_every_address() {
    assert!(resolve_and_check("example.com", Ok(vec![ip("93.184.216.34")])).is_ok());
    match resolve_and_check("example.com", Ok(vec![ip("93.184.216.34"), ip("10.0.0.5")])) {
        Err(SafetyError::BlockedAddress(a)) => assert_eq!(a, "10.0.0.5"),
        _ => panic!("expected a blocked address"),
    }
    match resolve_and_check("example.com", Ok(vec![])) {
        Err(SafetyError::Dns(h, e)) => {
            assert_eq!(h, "example.com");
            assert_eq!(e, "no addresses");
        }
        _ => panic!("expected a DNS error"),
    }
    match resolve_and_check("example.com", Err("timed out".into())) {
        Err(e) => assert_eq!(e.message(), "could not resolve host example.com: timed out"),
        _ => panic!("expected a DNS error"),
    }
    assert!(resolve_and_check("127.0.0.1", Ok(vec![])).is_err());
    assert!(resolve_and_check_with(
        "example.com",
        SafetyOpts {
            allow_private: true
        },
        Ok(vec![ip("10.0.0.5")])
    )
    .is_ok());
}

#[test]
fn safety_error_messages() {
    assert_eq!(SafetyError::Localhost.exit_code(), 3);
    assert_eq!(
        SafetyError::NotHttps("http".into()).message(),
        "only https URLs are allowed, got http"
    );
    assert_eq!(SafetyError::Localhost.message(), "localhost is not allowed");
    assert_eq!(
        SafetyError::BlockedAddress("127.0.0.1".into()).message(),
        "blocked address: 127.0.0.1"
    );
    assert_eq!(
        SafetyError::InvalidUrl("missing host".into()).message(),
        "invalid URL: missing host"
    );
    match parse_https_url("not a url") {
        Err(SafetyError::InvalidUrl(m)) => assert!(!m.is_empty()),
        _ => panic!("expected an invalid URL"),
    }
}

#[test]
fn ip_text_forms() {
    assert_eq!(ip_to_string(ip("10.0.0.1")), "10.0.0.1");
    assert_eq!(ip_to_string(ip("::1")), "::1");
    assert_eq!(ip_to_string(ip("::")), "::");
    assert_eq!(ip_to_string(ip("::ffff:127.0.0.1")), "::ffff:127.0.0.1");
    assert_eq!(ip_to_string(ip("1:0:0:2:0:0:0:3")), "1:0:0:2::3");
    assert_eq!(ip_to_string(ip("1:0:2:0:3:0:4:0")), "1:0:2:0:3:0:4:0");
    assert_eq!(ip_to_string(ip("FE80:0:0:0:0:0:0:1")), "fe80::1");
    assert_eq!(ip_to_string(ip("::127.0.0.1")), "::7f00:1");
}

#[test]
fn ip_parsing_accepts_std_forms() {
    let cases = [
        ("1.2.3.4", "1.2.3.4"),
        ("0.0.0.0", "0.0.0.0"),
        ("255.255.255.255", "255.255.255.255"),
        ("::", "::"),
        ("::1", "::1"),
        ("1::", "1::"),
        ("1:2:3:4:5:6:7:8", "1:2:3:4:5:6:7:8"),
        ("1:2:3:4:5:6:7::", "1:2:3:4:5:6:7:0"),
        ("::2:3:4:5:6:7:8", "0:2:3:4:5:6:7:8"),
        ("1:2:3:4:5:6:1.2.3.4", "1:2:3:4:5:6:102:304"),
        ("::ffff:1.2.3.4", "::ffff:1.2.3.4"),
        ("1::1.2.3.4", "1::102:304"),
        ("0001:00:0::1", "1::1"),
    ];
    for (s, shown) in cases {
        assert_eq!(parse_ip(s).map(ip_to_string), Some(shown.to_string()), "{s}");
    }
    assert_eq!(parse_ip("1.2.3.4"), Some(IpAddress::V4([1, 2, 3, 4])));
}

#[test]
fn ip_parsing_refuses_other_text() {
    for s in [
        "",
        "1.2.3",
        "1.2.3.4.5",
        "01.2.3.4",
        "256.1.1.1",
        ":::",
        "1:2:3:4:5:6:7:8:9",
        "1:2:3:4:5:6:7:8::",
        "1::2::3",
        "1.2.3.4::",
        "12345::",
        "::1.2.3.4:1",
        "1:2:3:4:5:6:7:1.2.3.4",
        "g::1",
        "[::1]",
    ] {
        assert!(parse_ip(s).is_none(), "{s}");
    }
}

#[test]
fn petstore_relative_server_against_document() {
    let resolved = resolve_server_url(
        Some("https://petstore3.swagger.io/api/v3/openapi.json"),
        "/api/v3",
    );
    assert_eq!(resolved, "https://petstore3.swagger.io/api/v3");
}

#[test]
fn leaves_absolute_github() {
    assert_eq!(
        resolve_server_url(Some("https://example.com/openapi.json"), "https://api.github.com"),
        "https://api.github.com"
    );
}

#[test]
fn keeps_relative_without_document() {
    assert_eq!(resolve_server_url(None, "/api/v3"), "/api/v3");
}

#[test]
fn templates_with_variables_count_as_absolute() {
    assert!(is_absolute_http_url("https://api.example.com/{region}"));
    assert!(!is_absolute_http_url("/api/v3"));
    assert!(!is_absolute_http_url("api/v3"));
}

#[test]
fn refs_rewrite_and_split() {
    assert_eq!(rewrite_ref_str("#/components/schemas/Pet"), "#/$defs/Pet");
    assert_eq!(rewrite_ref_str("#/definitions/Pet"), "#/$defs/Pet");
    assert_eq!(rewrite_ref_str("other.json#/Pet"), "other.json#/Pet");
    assert_eq!(
        split_url_frag("https://x/a.json#/b#c"),
        ("https://x/a.json".to_string(), Some("/b#c".to_string()))
    );
    assert_eq!(split_url_frag("a.json"), ("a.json".to_string(), None));
}

#[test]
fn fetch_budget_caps_remote_refs() {
    let mut b = FetchBudget::new();
    assert_eq!(b.before_fetch().unwrap(), 8 * 1024 * 1024);
    assert!(b.record(1024).is_ok());
    assert_eq!(b.before_fetch().unwrap(), 8 * 1024 * 1024 - 1024);
    let mut full = FetchBudget {
        fetches: 31,
        bytes: 0,
    };
    assert!(full.record(10).is_ok());
    assert!(matches!(full.before_fetch(), Err(RefError::Budget)));
    let mut big = FetchBudget::new();
    assert!(matches!(big.record(8 * 1024 * 1024 + 1), Err(RefError::Budget)));
    assert_eq!(RefError::Budget.message(), "remote $ref budget exceeded");
    assert_eq!(
        RefError::Unresolved("#/x".into()).message(),
        "unresolved $ref: #/x"
    );
}
