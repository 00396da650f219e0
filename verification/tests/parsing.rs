use launch::auth::parse_challenge;
use launch::errors::LaunchError;
use launch::reference::{bearer_value, blob_url, manifest_url, token_url, ImageReference};

#[test]
fn parse_reference_without_tag() {
    let r = ImageReference::parse("alpine");
    assert_eq!(r.name, "alpine");
    assert_eq!(r.tag, "latest");
}

#[test]
fn parse_reference_with_tag() {
    let r = ImageReference::parse("alpine:3.18");
    assert_eq!(r.name, "alpine");
    assert_eq!(r.tag, "3.18");
}

#[test]
fn parse_reference_splits_on_first_colon() {
    let r = ImageReference::parse("alpine:3.18:extra");
    assert_eq!(r.name, "alpine");
    assert_eq!(r.tag, "3.18:extra");
}

#[test]
fn parse_challenge_reads_all_three_fields() {
    let header = "Bearer realm=\"https://auth.example/token\",service=\"registry.example\",scope=\"repository:library/alpine:pull\"";
    let c = parse_challenge(header).unwrap();
    assert_eq!(c.realm, "https://auth.example/token");
    assert_eq!(c.service, "registry.example");
    assert_eq!(c.scope, "repository:library/alpine:pull");
}

#[test]
fn parse_challenge_missing_scope_fails() {
    let header = "Bearer realm=\"https://auth.example/token\",service=\"registry.example\"";
    assert!(matches!(parse_challenge(header), Err(LaunchError::ProtocolError)));
}

#[test]
fn parse_challenge_missing_realm_fails() {
    let header = "Bearer service=\"registry.example\",scope=\"repository:library/alpine:pull\"";
    assert!(matches!(parse_challenge(header), Err(LaunchError::ProtocolError)));
}

#[test]
fn parse_challenge_without_scheme_separator_fails() {
    assert!(matches!(parse_challenge("Bearer"), Err(LaunchError::ProtocolError)));
}

#[test]
fn parse_challenge_malformed_piece_fails() {
    let header = "Bearer realm=\"https://auth.example/token\",service=\"registry.example\",garbage,scope=\"x\"";
    assert!(matches!(parse_challenge(header), Err(LaunchError::ProtocolError)));
}

#[test]
fn parse_challenge_last_binding_wins() {
    let header = "Bearer realm=\"first\",service=\"svc\",scope=\"scp\",realm=\"second\"";
    let c = parse_challenge(header).unwrap();
    assert_eq!(c.realm, "second");
    assert_eq!(c.service, "svc");
    assert_eq!(c.scope, "scp");
}

#[test]
fn manifest_url_shape() {
    let img = ImageReference::parse("alpine:3.18");
    assert_eq!(manifest_url(&img), "https://ghcr.io/v2/library/alpine/manifests/3.18");
}

#[test]
fn blob_url_shape() {
    let img = ImageReference::parse("alpine");
    assert_eq!(
        blob_url(&img, "sha256:0123"),
        "https://ghcr.io/v2/library/alpine/blobs/sha256:0123"
    );
}

#[test]
fn token_url_shape() {
    assert_eq!(
        token_url("https://auth.example/token", "registry.example", "repository:library/alpine:pull"),
        "https://auth.example/token?service=registry.example&scope=repository:library/alpine:pull"
    );
}

#[test]
fn bearer_value_shape() {
    assert_eq!(bearer_value("abc123"), "Bearer abc123");
}
