use sayless::config::{IpRecordingConfig, ServiceConfig, TokenConfig};
use sayless::errors::ApiError;
use sayless::links::{create_link, get_link, get_link_info};
use sayless::perms::TokenPermissions;
use sayless::store::{Store, StrikeRow};
use sayless::tokens::create_token;

const ALPHABET: &str = "123456789ABCDEFGHJKLMNPQRSTUVWXYZabcdefghijkmnopqrstuvwxyz";
const NOW: i64 = 1_700_000_000;

fn open_config() -> ServiceConfig {
    ServiceConfig { max_strikes: 30, ip_recording: None, token_config: None }
}

fn auth_config(requires_auth: bool) -> ServiceConfig {
    ServiceConfig {
        max_strikes: 30,
        ip_recording: None,
        token_config: Some(TokenConfig {
            creation_requires_auth: requires_auth,
            master_token: "master-secret".to_owned(),
        }),
    }
}

#[test]
fn scenario_create_without_auth_or_recording() {
    let mut store = Store::new();
    let config = open_config();
    let r = create_link(&mut store, &config, "https://example.com/a", vec![1, 2], None, NOW);
    let link = r.expect("creation should succeed");
    assert_eq!(link.id.len(), 7);
    assert!(link.id.chars().all(|c| ALPHABET.contains(c)));
    assert_eq!(store.links.len(), 1);
    assert_eq!(store.origins.len(), 0, "origin recording is off");
}

#[test]
fn scenario_same_url_returns_same_id() {
    let mut store = Store::new();
    let config = open_config();
    let first = create_link(&mut store, &config, "https://example.com/a", vec![1, 2], None, NOW)
        .expect("first creation should succeed");
    let second =
        create_link(&mut store, &config, "https://example.com/a", vec![9, 9], None, NOW + 5)
            .expect("second creation should succeed");
    assert_eq!(second.id, first.id);
    assert_eq!(store.links.len(), 1, "dedup must not add a row");
}

#[test]
fn scenario_token_then_authorized_creation() {
    let mut store = Store::new();
    let config = auth_config(true);
    let perms = TokenPermissions::new().create_link();
    let issued = create_token(&mut store, "master-secret", "master-secret", perms, None, NOW)
        .expect("the master token may create tokens");
    assert_eq!(issued.token.len(), 44);
    assert!(issued.token.chars().all(|c| ALPHABET.contains(c)));

    let r = create_link(
        &mut store,
        &config,
        "https://example.com/b",
        vec![1, 2],
        Some(issued.token.as_str()),
        NOW + 10,
    );
    assert!(r.is_ok(), "a token with create_link_perm passes the auth gate");
}

#[test]
fn scenario_revoked_token_is_unauthorized() {
    let mut store = Store::new();
    let config = auth_config(true);
    let perms = TokenPermissions::new().create_link();
    let issued = create_token(&mut store, "master-secret", "master-secret", perms, None, NOW)
        .expect("the master token may create tokens");

    sayless::tokens::revoke_token(
        &mut store,
        "master-secret",
        issued.token.as_str(),
        issued.token.as_str(),
        NOW + 20,
    )
    .expect("a caller may revoke its own token");

    let r = create_link(
        &mut store,
        &config,
        "https://example.com/c",
        vec![1, 2],
        Some(issued.token.as_str()),
        NOW + 30,
    );
    assert_eq!(r.unwrap_err(), ApiError::Unauthorized);
    assert_eq!(ApiError::Unauthorized.status_code(), 401);
}

#[test]
fn scenario_strikes_at_threshold_forbidden() {
    let mut store = Store::new();
    store.strikes.push(StrikeRow { origin: vec![10, 0, 0, 1], amount: 30 });
    let config = ServiceConfig {
        max_strikes: 30,
        ip_recording: Some(IpRecordingConfig::default()),
        token_config: None,
    };
    let r =
        create_link(&mut store, &config, "https://example.com/d", vec![10, 0, 0, 1], None, NOW);
    assert_eq!(r.unwrap_err(), ApiError::Forbidden);
    assert_eq!(ApiError::Forbidden.status_code(), 403);
    assert_eq!(store.links.len(), 0, "a forbidden request writes nothing");
}

#[test]
fn strikes_below_threshold_allowed() {
    let mut store = Store::new();
    store.strikes.push(StrikeRow { origin: vec![10, 0, 0, 1], amount: 29 });
    let config = ServiceConfig {
        max_strikes: 30,
        ip_recording: Some(IpRecordingConfig::default()),
        token_config: None,
    };
    let r =
        create_link(&mut store, &config, "https://example.com/d", vec![10, 0, 0, 1], None, NOW);
    assert!(r.is_ok());
}

#[test]
fn unknown_origin_has_no_strikes() {
    let mut store = Store::new();
    let config = ServiceConfig {
        max_strikes: 30,
        ip_recording: Some(IpRecordingConfig::default()),
        token_config: None,
    };
    let r = create_link(&mut store, &config, "https://example.com/e", vec![8, 8], None, NOW);
    assert!(r.is_ok());
    assert_eq!(store.origins.len(), 1, "origin recording stores the requester");
    assert_eq!(store.origins[0].created_by, vec![8, 8]);
}

#[test]
fn missing_credential_is_unauthorized_when_required() {
    let mut store = Store::new();
    let config = auth_config(true);
    let r = create_link(&mut store, &config, "https://example.com/f", vec![1], None, NOW);
    assert_eq!(r.unwrap_err(), ApiError::Unauthorized);
}

#[test]
fn auth_not_required_lets_anonymous_callers_through() {
    let mut store = Store::new();
    let config = auth_config(false);
    let r = create_link(&mut store, &config, "https://example.com/g", vec![1], None, NOW);
    assert!(r.is_ok());
}

#[test]
fn malformed_url_is_bad_request() {
    let mut store = Store::new();
    let config = open_config();
    let r = create_link(&mut store, &config, "http://exa mple.com", vec![1], None, NOW);
    assert_eq!(r.unwrap_err(), ApiError::BadRequest);
    assert_eq!(ApiError::BadRequest.status_code(), 400);
    let r2 = create_link(&mut store, &config, "", vec![1], None, NOW);
    assert_eq!(r2.unwrap_err(), ApiError::BadRequest);
}

#[test]
fn url_is_stored_in_canonical_form() {
    let mut store = Store::new();
    let config = open_config();
    let first = create_link(&mut store, &config, "HTTP://example.com/a", vec![1], None, NOW)
        .expect("creation should succeed");
    let redirect = get_link(&store, first.id.as_str()).expect("the id should resolve");
    assert_eq!(redirect.location, "http://example.com/a", "the scheme is canonicalized");

    let second = create_link(&mut store, &config, "http://example.com/a", vec![2], None, NOW)
        .expect("creation should succeed");
    assert_eq!(second.id, first.id, "canonically equal URLs deduplicate");
}

#[test]
fn unknown_id_is_not_found() {
    let store = Store::new();
    let r = get_link(&store, "zzzzzzz");
    assert_eq!(r.unwrap_err(), ApiError::NotFound);
    assert_eq!(ApiError::NotFound.status_code(), 404);
    let config = open_config();
    let info = get_link_info(&store, &config, None, "zzzzzzz", NOW);
    assert_eq!(info.unwrap_err(), ApiError::NotFound);
}

#[test]
fn link_info_hides_origin_without_permission() {
    let mut store = Store::new();
    let config = ServiceConfig {
        max_strikes: 30,
        ip_recording: Some(IpRecordingConfig::default()),
        token_config: Some(TokenConfig {
            creation_requires_auth: false,
            master_token: "master-secret".to_owned(),
        }),
    };
    let link = create_link(&mut store, &config, "https://example.com/h", vec![4, 5], None, NOW)
        .expect("creation should succeed");

    let anonymous = get_link_info(&store, &config, None, link.id.as_str(), NOW)
        .expect("the info lookup should succeed");
    assert_eq!(anonymous.created_by, None);
    assert_eq!(anonymous.link, "https://example.com/h");
    assert_eq!(anonymous.created_at, NOW);

    let master = get_link_info(&store, &config, Some("master-secret"), link.id.as_str(), NOW)
        .expect("the info lookup should succeed");
    assert_eq!(master.created_by, Some(vec![4, 5]));
}

#[test]
fn link_info_reports_hex_fingerprint() {
    let mut store = Store::new();
    let config = open_config();
    let link = create_link(&mut store, &config, "https://example.com/i", vec![1], None, NOW)
        .expect("creation should succeed");
    let info = get_link_info(&store, &config, None, link.id.as_str(), NOW)
        .expect("the info lookup should succeed");
    let expected = blake3::hash("https://example.com/i".as_bytes()).to_hex().to_string();
    assert_eq!(info.hash, expected);
}
