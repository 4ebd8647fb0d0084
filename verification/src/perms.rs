//! The capability set attached to a token, and the pure permission test.
//!
//! A permission request is expressed with the same structure as a grant:
//! a check succeeds when, for every requested flag, the stored token
//! carries that flag or carries `admin_perm`, which satisfies every
//! request unconditionally.

use vstd::prelude::*;

verus! {

/// The four capability flags a token may carry. The same structure also
/// expresses a permission request: exactly the flags relevant to the
/// gated operation are set.
#[derive(Debug, Clone, Copy, PartialEq, Eq, Structural)]
pub struct TokenPermissions {
    pub admin_perm: bool,
    pub create_link_perm: bool,
    pub create_token_perm: bool,
    pub view_ips_perm: bool,
}

/// A grant `granted` covers a request `requested` when every requested
/// flag is either held directly or implied by `admin_perm`.
pub open spec fn satisfies(granted: TokenPermissions, requested: TokenPermissions) -> bool {
    &&& requested.admin_perm ==> granted.admin_perm
    &&& requested.create_link_perm ==> granted.create_link_perm || granted.admin_perm
    &&& requested.create_token_perm ==> granted.create_token_perm || granted.admin_perm
    &&& requested.view_ips_perm ==> granted.view_ips_perm || granted.admin_perm
}

impl TokenPermissions {
    /// The empty capability set: no flag set.
    pub fn new() -> (r: TokenPermissions)
        ensures
            r == (TokenPermissions {
                admin_perm: false,
                create_link_perm: false,
                create_token_perm: false,
                view_ips_perm: false,
            }),
    {
        TokenPermissions {
            admin_perm: false,
            create_link_perm: false,
            create_token_perm: false,
            view_ips_perm: false,
        }
    }

    pub fn admin(self) -> (r: TokenPermissions)
        ensures
            r == (TokenPermissions { admin_perm: true, ..self }),
    {
        TokenPermissions { admin_perm: true, ..self }
    }

    pub fn create_link(self) -> (r: TokenPermissions)
        ensures
            r == (TokenPermissions { create_link_perm: true, ..self }),
    {
        TokenPermissions { create_link_perm: true, ..self }
    }

    pub fn create_token(self) -> (r: TokenPermissions)
        ensures
            r == (TokenPermissions { create_token_perm: true, ..self }),
    {
        TokenPermissions { create_token_perm: true, ..self }
    }

    pub fn view_ips(self) -> (r: TokenPermissions)
        ensures
            r == (TokenPermissions { view_ips_perm: true, ..self }),
    {
        TokenPermissions { view_ips_perm: true, ..self }
    }
}

/// The request guarding link creation: `create_link_perm` only.
pub open spec fn perm_request_create_link() -> TokenPermissions {
    TokenPermissions {
        admin_perm: false,
        create_link_perm: true,
        create_token_perm: false,
        view_ips_perm: false,
    }
}

/// The request guarding token issuance: `create_token_perm` only.
pub open spec fn perm_request_create_token() -> TokenPermissions {
    TokenPermissions {
        admin_perm: false,
        create_link_perm: false,
        create_token_perm: true,
        view_ips_perm: false,
    }
}

/// The request guarding origin visibility: `view_ips_perm` only.
pub open spec fn perm_request_view_ips() -> TokenPermissions {
    TokenPermissions {
        admin_perm: false,
        create_link_perm: false,
        create_token_perm: false,
        view_ips_perm: true,
    }
}

/// The request guarding revocation of another caller's token: `admin_perm`
/// only.
pub open spec fn perm_request_admin() -> TokenPermissions {
    TokenPermissions {
        admin_perm: true,
        create_link_perm: false,
        create_token_perm: false,
        view_ips_perm: false,
    }
}

/// Executable form of [`satisfies`].
pub fn check_satisfies(granted: TokenPermissions, requested: TokenPermissions) -> (r: bool)
    ensures
        r == satisfies(granted, requested),
{
    (!requested.admin_perm || granted.admin_perm)
        && (!requested.create_link_perm || granted.create_link_perm || granted.admin_perm)
        && (!requested.create_token_perm || granted.create_token_perm || granted.admin_perm)
        && (!requested.view_ips_perm || granted.view_ips_perm || granted.admin_perm)
}

/// A grant with `admin_perm` set covers every request, whatever its other
/// flags.
pub proof fn lemma_admin_satisfies_all(granted: TokenPermissions, requested: TokenPermissions)
    requires
        granted.admin_perm,
    ensures
        satisfies(granted, requested),
{
}

/// A grant with no flag set covers exactly the empty request.
pub proof fn lemma_empty_grant_satisfies_only_empty(
    granted: TokenPermissions,
    requested: TokenPermissions,
)
    requires
        !granted.admin_perm,
        !granted.create_link_perm,
        !granted.create_token_perm,
        !granted.view_ips_perm,
    ensures
        satisfies(granted, requested) <==> requested == (TokenPermissions {
            admin_perm: false,
            create_link_perm: false,
            create_token_perm: false,
            view_ips_perm: false,
        }),
{
}

} // verus!
