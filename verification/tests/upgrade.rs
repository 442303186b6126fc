use mcp_gateway::cli_error::CliError;
use mcp_gateway::upgrade::{asset_name, check_sum, host_triple, parse_sum, parse_sum_text, release_tag, tag_version};

#[test]
fn release_tags_have_one_leading_v() {
    assert_eq!(release_tag("1.2.3"), "v1.2.3");
    assert_eq!(release_tag("v1.2.3"), "v1.2.3");
    assert_eq!(release_tag("vv2"), "v2");
    assert_eq!(tag_version("v0.4.0"), "0.4.0");
    assert_eq!(tag_version("0.4.0"), "0.4.0");
}

#[test]
fn host_triples_name_the_release_targets() {
    assert_eq!(host_triple("x86_64", "linux"), "x86_64-unknown-linux-musl");
    assert_eq!(host_triple("aarch64", "linux"), "aarch64-unknown-linux-musl");
    assert_eq!(host_triple("x86_64", "macos"), "x86_64-apple-darwin");
    assert_eq!(host_triple("aarch64", "macos"), "aarch64-apple-darwin");
    assert_eq!(host_triple("x86_64", "windows"), "x86_64-pc-windows-msvc");
    assert_eq!(host_triple("riscv64", "linux"), "riscv64-unknown-linux");
    assert_eq!(asset_name("x86_64-apple-darwin"), "mcp-gateway-x86_64-apple-darwin.tar.xz");
}

#[test]
fn sums_are_read_by_line_and_word() {
    let sums = b"1111  mcp-gateway-a.tar.xz\r\n  2222\tmcp-gateway-b.tar.xz extra\n3333 mcp-gateway-b.tar.xz\n";
    assert_eq!(parse_sum(sums, "mcp-gateway-a.tar.xz").unwrap(), "1111");
    assert_eq!(parse_sum(sums, "mcp-gateway-b.tar.xz").unwrap(), "2222");
    match parse_sum(sums, "mcp-gateway-c.tar.xz") {
        Err(CliError::SupplyChain(m)) => assert_eq!(m, "mcp-gateway-c.tar.xz not listed in SHA256SUMS"),
        other => panic!("unexpected {other:?}"),
    }
    assert_eq!(parse_sum_text("4444 last-line-without-newline", "last-line-without-newline").unwrap(), "4444");
    assert!(parse_sum_text("", "x").is_err());
    assert!(parse_sum_text("only-one-word\n", "only-one-word").is_err());
}

#[test]
fn checksum_mismatch_refuses_the_upgrade() {
    assert!(check_sum("a.tar.xz", "abc", "abc").is_ok());
    match check_sum("a.tar.xz", "abc", "def") {
        Err(CliError::SupplyChain(m)) => {
            assert!(m.starts_with("checksum mismatch for a.tar.xz\n  expected sha256: abc\n  actual   sha256: def\n"));
            assert!(m.ends_with("gh attestation verify ./mcp-gateway --owner Fetch-Hive"));
        }
        other => panic!("unexpected {other:?}"),
    }
}
