use sayless::errors::ApiError;
use sayless::perms::TokenPermissions;
use sayless::store::{Store, TokenRow};
use sayless::tokens::{
    check_permission, create_token, create_token_with_value, revoke_token, SECONDS_PER_YEAR,
};

const NOW: i64 = 1_700_000_000;
const MASTER: &str = "master-secret";

fn stored(value: &str, perms: TokenPermissions, expires_at: i64) -> TokenRow {
    TokenRow { token: value.to_owned(), created_at: NOW - 100, expires_at, perms }
}

#[test]
fn master_token_passes_every_check() {
    let store = Store::new();
    let every = TokenPermissions::new().admin().create_link().create_token().view_ips();
    assert_eq!(check_permission(&store, MASTER, MASTER, every, NOW), Ok(true));
}

#[test]
fn admin_flag_passes_every_request() {
    let mut store = Store::new();
    store.tokens.push(stored("tok-admin", TokenPermissions::new().admin(), NOW + 1000));
    let every = TokenPermissions::new().create_link().create_token().view_ips();
    assert_eq!(check_permission(&store, MASTER, "tok-admin", every, NOW), Ok(true));
}

#[test]
fn empty_grant_passes_only_empty_request() {
    let mut store = Store::new();
    store.tokens.push(stored("tok-none", TokenPermissions::new(), NOW + 1000));
    assert_eq!(check_permission(&store, MASTER, "tok-none", TokenPermissions::new(), NOW), Ok(true));
    assert_eq!(
        check_permission(&store, MASTER, "tok-none", TokenPermissions::new().create_link(), NOW),
        Ok(false)
    );
    assert_eq!(
        check_permission(&store, MASTER, "tok-none", TokenPermissions::new().admin(), NOW),
        Ok(false)
    );
}

#[test]
fn expired_token_is_unauthorized_whatever_its_flags() {
    let mut store = Store::new();
    store.tokens.push(stored("tok-old", TokenPermissions::new().admin(), NOW - 1));
    assert_eq!(
        check_permission(&store, MASTER, "tok-old", TokenPermissions::new().create_link(), NOW),
        Err(ApiError::Unauthorized)
    );
}

#[test]
fn expiry_boundary_is_strict() {
    let mut store = Store::new();
    store.tokens.push(stored("tok-edge", TokenPermissions::new().admin(), NOW));
    assert_eq!(
        check_permission(&store, MASTER, "tok-edge", TokenPermissions::new(), NOW),
        Err(ApiError::Unauthorized),
        "a token expiring exactly now is no longer valid"
    );
    assert_eq!(
        check_permission(&store, MASTER, "tok-edge", TokenPermissions::new(), NOW - 1),
        Ok(true),
        "one second earlier it still is"
    );
}

#[test]
fn unknown_token_is_unauthorized() {
    let store = Store::new();
    assert_eq!(
        check_permission(&store, MASTER, "tok-ghost", TokenPermissions::new(), NOW),
        Err(ApiError::Unauthorized)
    );
}

#[test]
fn issued_token_defaults_to_one_year() {
    let mut store = Store::new();
    let perms = TokenPermissions::new().create_link();
    let issued = create_token(&mut store, MASTER, MASTER, perms, None, NOW)
        .expect("the master token may create tokens");
    assert_eq!(store.tokens.len(), 1);
    assert_eq!(store.tokens[0].token, issued.token);
    assert_eq!(store.tokens[0].created_at, NOW);
    assert_eq!(store.tokens[0].expires_at, NOW + SECONDS_PER_YEAR);
    assert!(store.tokens[0].perms.create_link_perm);
    assert!(!store.tokens[0].perms.admin_perm);
}

#[test]
fn issued_token_keeps_a_given_expiry() {
    let mut store = Store::new();
    let perms = TokenPermissions::new().view_ips();
    create_token_with_value(&mut store, MASTER, MASTER, perms, Some(NOW + 60), "tok-short".to_owned(), NOW)
        .expect("the master token may create tokens");
    assert_eq!(store.tokens[0].expires_at, NOW + 60);
}

#[test]
fn create_token_needs_create_token_or_admin() {
    let mut store = Store::new();
    store.tokens.push(stored("tok-linker", TokenPermissions::new().create_link(), NOW + 1000));
    store.tokens.push(stored("tok-issuer", TokenPermissions::new().create_token(), NOW + 1000));
    store.tokens.push(stored("tok-admin", TokenPermissions::new().admin(), NOW + 1000));

    let perms = TokenPermissions::new();
    let refused = create_token(&mut store, MASTER, "tok-linker", perms, None, NOW);
    assert_eq!(refused.unwrap_err(), ApiError::Forbidden);
    assert_eq!(store.tokens.len(), 3, "a forbidden request writes nothing");

    assert!(create_token(&mut store, MASTER, "tok-issuer", perms, None, NOW).is_ok());
    assert!(create_token(&mut store, MASTER, "tok-admin", perms, None, NOW).is_ok());
}

#[test]
fn create_token_with_unknown_credential_is_unauthorized() {
    let mut store = Store::new();
    let r = create_token(&mut store, MASTER, "tok-ghost", TokenPermissions::new(), None, NOW);
    assert_eq!(r.unwrap_err(), ApiError::Unauthorized);
}

#[test]
fn revoke_own_token_sets_expiry_to_now() {
    let mut store = Store::new();
    store.tokens.push(stored("tok-mine", TokenPermissions::new(), NOW + 1000));
    revoke_token(&mut store, MASTER, "tok-mine", "tok-mine", NOW)
        .expect("a caller may revoke its own token");
    assert_eq!(store.tokens.len(), 1, "revocation is a soft delete");
    assert_eq!(store.tokens[0].expires_at, NOW);
}

#[test]
fn admin_may_revoke_another_token() {
    let mut store = Store::new();
    store.tokens.push(stored("tok-admin", TokenPermissions::new().admin(), NOW + 1000));
    store.tokens.push(stored("tok-other", TokenPermissions::new(), NOW + 1000));
    revoke_token(&mut store, MASTER, "tok-admin", "tok-other", NOW)
        .expect("an admin may revoke any token");
    assert_eq!(store.tokens[1].expires_at, NOW);
    assert_eq!(store.tokens[0].expires_at, NOW + 1000, "the admin token itself is untouched");
}

#[test]
fn non_admin_may_not_revoke_another_token() {
    let mut store = Store::new();
    store.tokens.push(stored("tok-plain", TokenPermissions::new().create_link(), NOW + 1000));
    store.tokens.push(stored("tok-other", TokenPermissions::new(), NOW + 1000));
    let r = revoke_token(&mut store, MASTER, "tok-plain", "tok-other", NOW);
    assert_eq!(r.unwrap_err(), ApiError::Forbidden);
    assert_eq!(store.tokens[1].expires_at, NOW + 1000);
}

#[test]
fn revoking_an_unknown_value_changes_nothing() {
    let mut store = Store::new();
    store.tokens.push(stored("tok-keep", TokenPermissions::new(), NOW + 1000));
    revoke_token(&mut store, MASTER, MASTER, "tok-ghost", NOW)
        .expect("revocation aimed at no row still succeeds");
    assert_eq!(store.tokens[0].expires_at, NOW + 1000);
}

#[test]
fn permission_builders_set_single_flags() {
    let p = TokenPermissions::new();
    assert!(!p.admin_perm && !p.create_link_perm && !p.create_token_perm && !p.view_ips_perm);
    assert!(p.admin().admin_perm);
    assert!(p.create_link().create_link_perm);
    assert!(p.create_token().create_token_perm);
    assert!(p.view_ips().view_ips_perm);
}
