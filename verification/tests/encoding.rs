use sayless::addressing::{link_fingerprint, to_hex, url_identifier_from_string};
use sayless::base58::new_display_id;
use sayless::config::{token_config_info, IpRecordingConfig, ServiceConfig, TokenConfig, TokenConfigInfo};
use sayless::errors::ApiError;

const ALPHABET: &str = "123456789ABCDEFGHJKLMNPQRSTUVWXYZabcdefghijkmnopqrstuvwxyz";

#[test]
fn fingerprint_is_deterministic() {
    let a = link_fingerprint("https://example.com/a").expect("a valid URL fingerprints");
    let b = link_fingerprint("https://example.com/a").expect("a valid URL fingerprints");
    assert_eq!(a, b);
    assert_eq!(a.len(), 32);
}

#[test]
fn fingerprints_of_distinct_urls_differ() {
    let a = link_fingerprint("https://example.com/a").expect("a valid URL fingerprints");
    let b = link_fingerprint("https://example.com/b").expect("a valid URL fingerprints");
    assert_ne!(a, b);
}

#[test]
fn fingerprint_matches_the_digest_of_the_canonical_url() {
    let got = link_fingerprint("https://example.com/a").expect("a valid URL fingerprints");
    let expected = blake3::hash("https://example.com/a".as_bytes());
    assert_eq!(got.as_slice(), expected.as_bytes());
}

#[test]
fn fingerprint_rejects_malformed_urls() {
    assert!(link_fingerprint("").is_none());
    assert!(link_fingerprint("http://exa mple.com").is_none());
}

#[test]
fn hex_encoding_is_exact() {
    assert_eq!(to_hex(&vec![]), "");
    assert_eq!(to_hex(&vec![0x00]), "00");
    assert_eq!(to_hex(&vec![0xbe, 0xef]), "beef");
    assert_eq!(to_hex(&vec![0x01, 0x2a, 0xff]), "012aff");
}

#[test]
fn url_identifier_is_base64_url_safe_without_padding() {
    assert_eq!(url_identifier_from_string(""), "");
    assert_eq!(url_identifier_from_string("abc"), "YWJj");
    assert_eq!(url_identifier_from_string("https://example.com/a"), "aHR0cHM6Ly9leGFtcGxlLmNvbS9h");
    assert!(!url_identifier_from_string("???").contains('='), "no padding");
    assert!(!url_identifier_from_string("???").contains('/'), "url-safe alphabet");
}

#[test]
fn display_ids_have_the_requested_length_and_alphabet() {
    for len in [0usize, 1, 7, 44] {
        let id = new_display_id(len);
        assert_eq!(id.len(), len);
        assert!(id.chars().all(|c| ALPHABET.contains(c)));
    }
}

#[test]
fn display_ids_are_not_constant() {
    let a = new_display_id(44);
    let b = new_display_id(44);
    assert_ne!(a, b, "two 44-character draws colliding is practically impossible");
}

#[test]
fn error_status_codes() {
    assert_eq!(ApiError::BadRequest.status_code(), 400);
    assert_eq!(ApiError::Unauthorized.status_code(), 401);
    assert_eq!(ApiError::Forbidden.status_code(), 403);
    assert_eq!(ApiError::NotFound.status_code(), 404);
    assert_eq!(ApiError::InternalError.status_code(), 500);
}

#[test]
fn configuration_defaults() {
    let c = ServiceConfig::default();
    assert_eq!(c.max_strikes, 30);
    assert!(c.ip_recording.is_none());
    assert!(c.token_config.is_none());

    let ip = IpRecordingConfig::default();
    assert_eq!(ip.retention_period, 14 * 24 * 3600);
    assert_eq!(ip.retention_check_period, "0 0 * * *");
}

#[test]
fn token_config_info_mirrors_the_configuration() {
    let off = ServiceConfig::default();
    assert_eq!(token_config_info(&off), None);

    let on = ServiceConfig {
        max_strikes: 30,
        ip_recording: None,
        token_config: Some(TokenConfig {
            creation_requires_auth: true,
            master_token: "master-secret".to_owned(),
        }),
    };
    assert_eq!(
        token_config_info(&on),
        Some(TokenConfigInfo { link_creation_requires_auth: true })
    );
}
