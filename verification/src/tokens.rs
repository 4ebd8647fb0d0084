//! The token authority: validating bearer credentials against the
//! permission model and the stored token rows, issuing new tokens, and
//! revoking them.

use vstd::prelude::*;

use crate::errors::ApiError;
use crate::perms::{
    check_satisfies, perm_request_admin, perm_request_create_token, satisfies, TokenPermissions,
};
use crate::store::{
    active_token_pred, first_where, lemma_first_where_none, Store, StoreView, TokenRow,
    TokenRowView,
};
use crate::strutil::str_eq;

verus! {

/// Seconds in the default validity window of a new token: one year of 365
/// days.
pub const SECONDS_PER_YEAR: i64 = 31536000;

/// A freshly issued token value, as returned to the caller.
#[derive(Debug)]
pub struct TokenCreated {
    pub token: String,
}

/// What a permission check decides, given the stored token rows.
///
/// The master token passes unconditionally and is never looked up. Any
/// other credential must match a stored row that is unexpired at `now`
/// (`expires_at` strictly in the future); otherwise the caller is
/// unauthenticated (`Unauthorized`). An authenticated caller's flags are
/// then held against the request: `Ok(false)` — insufficient privilege —
/// is turned into `Forbidden` by the operation that asked.
pub open spec fn spec_check_permission(
    tokens: Seq<TokenRowView>,
    master: Seq<char>,
    presented: Seq<char>,
    requested: TokenPermissions,
    now: int,
) -> Result<bool, ApiError> {
    if presented == master {
        Ok(true)
    } else {
        match first_where(tokens, active_token_pred(presented, now)) {
            None => Err(ApiError::Unauthorized),
            Some(row) => Ok(satisfies(row.perms, requested)),
        }
    }
}

/// Checks a presented credential against the master token and the stored
/// token rows, exactly as [`spec_check_permission`] says.
pub fn check_permission(
    store: &Store,
    master_token: &str,
    token: &str,
    requested: TokenPermissions,
    now: i64,
) -> (r: Result<bool, ApiError>)
    ensures
        r == spec_check_permission(store@.tokens, master_token@, token@, requested, now as int),
{
    if str_eq(token, master_token) {
        Ok(true)
    } else {
        match store.find_active_token(token, now) {
            None => Err(ApiError::Unauthorized),
            Some(i) => Ok(check_satisfies(store.tokens[i].perms, requested)),
        }
    }
}

/// The master token satisfies every permission check, whatever is
/// requested and whatever rows are stored.
pub proof fn lemma_master_token_passes(
    tokens: Seq<TokenRowView>,
    master: Seq<char>,
    requested: TokenPermissions,
    now: int,
)
    ensures
        spec_check_permission(tokens, master, master, requested, now) == Ok::<bool, ApiError>(true),
{
}

/// Expiry enforcement: a credential other than the master token whose
/// stored rows are all expired at `now` never passes the permission
/// check — it reports `Unauthorized`, whatever flags those rows carry and
/// whatever is requested.
pub proof fn lemma_expired_token_unauthorized(
    tokens: Seq<TokenRowView>,
    master: Seq<char>,
    presented: Seq<char>,
    requested: TokenPermissions,
    now: int,
)
    requires
        presented != master,
        forall|j: int|
            0 <= j < tokens.len() && (#[trigger] tokens[j]).token == presented
                ==> tokens[j].expires_at <= now,
    ensures
        spec_check_permission(tokens, master, presented, requested, now) == Err::<
            bool,
            ApiError,
        >(ApiError::Unauthorized),
{
    assert forall|j: int| 0 <= j < tokens.len() implies !active_token_pred(presented, now)(
        #[trigger] tokens[j],
    ) by {
        if tokens[j].token == presented {
            assert(tokens[j].expires_at <= now);
        }
    }
    lemma_first_where_none(tokens, active_token_pred(presented, now));
}

/// The expiry assigned to a token issued at `now` when the caller names
/// none: one year later, held inside the representable range.
pub open spec fn spec_default_expiry(now: int) -> int {
    if now + SECONDS_PER_YEAR <= i64::MAX {
        now + SECONDS_PER_YEAR
    } else {
        i64::MAX as int
    }
}

fn default_expiry(now: i64) -> (r: i64)
    ensures
        r as int == spec_default_expiry(now as int),
{
    if now <= i64::MAX - SECONDS_PER_YEAR {
        now + SECONDS_PER_YEAR
    } else {
        i64::MAX
    }
}

/// What issuing a token does, given the fresh value `fresh` drawn for it.
///
/// The caller must hold `create_token_perm` (or `admin_perm`, or be the
/// master token); an unauthenticated caller propagates `Unauthorized`, an
/// under-privileged one is `Forbidden`. On success a row carrying `fresh`,
/// the requested flags and the chosen expiry (the caller's, or one year)
/// is appended, and `fresh` is returned.
pub open spec fn spec_create_token(
    s: StoreView,
    master: Seq<char>,
    auth: Seq<char>,
    perms: TokenPermissions,
    expires_at: Option<int>,
    fresh: Seq<char>,
    now: int,
) -> Result<(Seq<char>, StoreView), ApiError> {
    match spec_check_permission(s.tokens, master, auth, perm_request_create_token(), now) {
        Err(e) => Err(e),
        Ok(false) => Err(ApiError::Forbidden),
        Ok(true) => {
            let exp = match expires_at {
                Some(t) => t,
                None => spec_default_expiry(now),
            };
            let row = TokenRowView { token: fresh, created_at: now, expires_at: exp, perms };
            Ok((fresh, StoreView { tokens: s.tokens.push(row), ..s }))
        },
    }
}

/// Issues a token with the given value, exactly as [`spec_create_token`]
/// says: the store is extended on success and untouched on failure.
pub fn create_token_with_value(
    store: &mut Store,
    master_token: &str,
    auth_token: &str,
    perms: TokenPermissions,
    expires_at: Option<i64>,
    new_token: String,
    now: i64,
) -> (r: Result<TokenCreated, ApiError>)
    ensures
        ({
            let exp = match expires_at {
                Some(t) => Some(t as int),
                None => None::<int>,
            };
            match spec_create_token(
                old(store)@,
                master_token@,
                auth_token@,
                perms,
                exp,
                new_token@,
                now as int,
            ) {
                Ok(p) => r matches Ok(tc) && tc.token@ == p.0 && final(store)@ == p.1,
                Err(e) => r == Err::<TokenCreated, ApiError>(e) && final(store)@ == old(store)@,
            }
        }),
{
    let requested = TokenPermissions::new().create_token();
    match check_permission(store, master_token, auth_token, requested, now) {
        Err(e) => Err(e),
        Ok(false) => Err(ApiError::Forbidden),
        Ok(true) => {
            let exp = match expires_at {
                Some(t) => t,
                None => default_expiry(now),
            };
            let value = new_token.clone();
            let row = TokenRow { token: new_token, created_at: now, expires_at: exp, perms };
            proof {
                let rv = row@;
            }
            store.tokens.push(row);
            proof {
                assert(store@.tokens =~= old(store)@.tokens.push(
                    TokenRowView {
                        token: new_token@,
                        created_at: now as int,
                        expires_at: exp as int,
                        perms,
                    },
                ));
                assert(store@ =~= (StoreView { tokens: store@.tokens, ..old(store)@ }));
            }
            Ok(TokenCreated { token: value })
        },
    }
}

/// Issues a token with a fresh 44-character value drawn from the base-58
/// alphabet.
pub fn create_token(
    store: &mut Store,
    master_token: &str,
    auth_token: &str,
    perms: TokenPermissions,
    expires_at: Option<i64>,
    now: i64,
) -> (r: Result<TokenCreated, ApiError>)
    ensures
        ({
            let exp = match expires_at {
                Some(t) => Some(t as int),
                None => None::<int>,
            };
            exists|fresh: Seq<char>|
                (crate::base58::is_display_id(fresh, 44) && match spec_create_token(
                    old(store)@,
                    master_token@,
                    auth_token@,
                    perms,
                    exp,
                    fresh,
                    now as int,
                ) {
                    Ok(p) => r matches Ok(tc) && tc.token@ == p.0 && final(store)@ == p.1,
                    Err(e) => r == Err::<TokenCreated, ApiError>(e) && final(store)@ == old(store)@,
                })
        }),
{
    let value = crate::base58::new_display_id(44);
    let ghost fresh = value@;
    let r = create_token_with_value(store, master_token, auth_token, perms, expires_at, value, now);
    r
}

/// A token row after a revocation aimed at `target`: a matching row's
/// expiry becomes `now`; any other row is untouched.
pub open spec fn spec_revoke_one(t: TokenRowView, target: Seq<char>, now: int) -> TokenRowView {
    if t.token == target {
        TokenRowView { expires_at: now, ..t }
    } else {
        t
    }
}

/// All token rows after a revocation aimed at `target`.
pub open spec fn spec_revoke_in(
    tokens: Seq<TokenRowView>,
    target: Seq<char>,
    now: int,
) -> Seq<TokenRowView> {
    tokens.map_values(|t: TokenRowView| spec_revoke_one(t, target, now))
}

/// What revoking a token does.
///
/// Allowed when the caller presents the very token being revoked, or holds
/// `admin_perm` (or is the master token). Revocation is a soft delete: the
/// matching rows' `expires_at` becomes `now`; no row is removed. Aiming at
/// a value no row carries still succeeds, changing nothing.
pub open spec fn spec_revoke_token(
    s: StoreView,
    master: Seq<char>,
    auth: Seq<char>,
    target: Seq<char>,
    now: int,
) -> Result<StoreView, ApiError> {
    let revoked = StoreView { tokens: spec_revoke_in(s.tokens, target, now), ..s };
    if auth == target {
        Ok(revoked)
    } else {
        match spec_check_permission(s.tokens, master, auth, perm_request_admin(), now) {
            Err(e) => Err(e),
            Ok(false) => Err(ApiError::Forbidden),
            Ok(true) => Ok(revoked),
        }
    }
}

/// Revokes a token, exactly as [`spec_revoke_token`] says.
pub fn revoke_token(
    store: &mut Store,
    master_token: &str,
    auth_token: &str,
    target: &str,
    now: i64,
) -> (r: Result<(), ApiError>)
    ensures
        match spec_revoke_token(
            old(store)@,
            master_token@,
            auth_token@,
            target@,
            now as int,
        ) {
            Ok(s2) => r is Ok && final(store)@ == s2,
            Err(e) => r == Err::<(), ApiError>(e) && final(store)@ == old(store)@,
        },
{
    let allowed: bool;
    if str_eq(auth_token, target) {
        allowed = true;
    } else {
        let requested = TokenPermissions::new().admin();
        match check_permission(store, master_token, auth_token, requested, now) {
            Err(e) => {
                return Err(e);
            },
            Ok(b) => {
                allowed = b;
            },
        }
    }
    if !allowed {
        return Err(ApiError::Forbidden);
    }
    let n = store.tokens.len();
    let mut out: Vec<TokenRow> = Vec::new();
    let mut i: usize = 0;
    while i < n
        invariant
            n == store.tokens.len(),
            store@ == old(store)@,
            i <= n,
            out@.len() == i,
            forall|j: int|
                0 <= j < i ==> (#[trigger] out@[j])@ == spec_revoke_one(
                    old(store)@.tokens[j],
                    target@,
                    now as int,
                ),
        decreases n - i,
    {
        let hit = str_eq(store.tokens[i].token.as_str(), target);
        let exp = if hit {
            now
        } else {
            store.tokens[i].expires_at
        };
        let row = TokenRow {
            token: store.tokens[i].token.clone(),
            created_at: store.tokens[i].created_at,
            expires_at: exp,
            perms: store.tokens[i].perms,
        };
        out.push(row);
        i = i + 1;
    }
    store.tokens = out;
    proof {
        assert(store@.tokens =~= spec_revoke_in(old(store)@.tokens, target@, now as int));
        assert(store@ =~= (StoreView {
            tokens: spec_revoke_in(old(store)@.tokens, target@, now as int),
            ..old(store)@
        }));
    }
    Ok(())
}

} // verus!
