//! The link-creation pipeline and the link lookups.
//!
//! Creating a link runs a strict gate sequence — authorization, abuse
//! check, URL validation — and then deduplicates by content fingerprint:
//! an existing link with the same fingerprint is returned as it stands; a
//! miss appends a fresh link row (and, when origin recording is enabled,
//! an origin row) and never updates or deletes anything.

use vstd::prelude::*;

use crate::addressing::{canonical_uri, digest, hex_of, link_digest_of, to_hex, uri_canon_of};
use crate::base58::{is_display_id, new_display_id};
use crate::config::{ServiceConfig, ServiceConfigView};
use crate::errors::ApiError;
use crate::perms::{perm_request_create_link, perm_request_view_ips, TokenPermissions};
use crate::store::{
    first_where, lemma_first_where_push_none, link_hash_pred, link_id_pred, origin_id_pred,
    spec_strike_amount, LinkRow, LinkRowView, OriginRow, OriginRowView, Store, StoreView,
    StrikeRowView, TokenRowView,
};
use crate::strutil::clone_bytes;
use crate::tokens::{check_permission, spec_check_permission};

verus! {

/// Characters in a link's display id.
pub const LINK_ID_LEN: usize = 7;

/// A created (or deduplicated) link, as returned to the caller.
#[derive(Debug)]
pub struct CreatedLink {
    pub id: String,
}

/// A redirect to a link's stored target.
#[derive(Debug)]
pub struct ShortLinkRedirect {
    pub location: String,
}

/// The authorization gate of link creation. It applies only when the
/// token subsystem is enabled and configured to require authentication:
/// a missing credential is `Unauthorized`, a failing permission check
/// propagates its error, and a valid credential without `create_link_perm`
/// (or `admin_perm`) is `Forbidden`.
pub open spec fn spec_auth_gate(
    tokens: Seq<TokenRowView>,
    cfg: ServiceConfigView,
    auth: Option<Seq<char>>,
    now: int,
) -> Result<(), ApiError> {
    match cfg.token_config {
        Some(tc) => {
            if tc.creation_requires_auth {
                match auth {
                    None => Err(ApiError::Unauthorized),
                    Some(tok) => match spec_check_permission(
                        tokens,
                        tc.master_token,
                        tok,
                        perm_request_create_link(),
                        now,
                    ) {
                        Err(e) => Err(e),
                        Ok(true) => Ok(()),
                        Ok(false) => Err(ApiError::Forbidden),
                    },
                }
            } else {
                Ok(())
            }
        },
        None => Ok(()),
    }
}

/// The abuse gate of link creation. It applies only when origin recording
/// is enabled: a requester whose strike count has reached the configured
/// maximum is `Forbidden`; a requester with no strike row is treated as
/// having none.
pub open spec fn spec_strike_gate(
    strikes: Seq<StrikeRowView>,
    requester: Seq<u8>,
    cfg: ServiceConfigView,
) -> Result<(), ApiError> {
    if cfg.ip_recording is Some {
        match spec_strike_amount(strikes, requester) {
            Some(a) => if a >= cfg.max_strikes {
                Err(ApiError::Forbidden)
            } else {
                Ok(())
            },
            None => Ok(()),
        }
    } else {
        Ok(())
    }
}

/// What creating a link does, given the fresh id `fresh_id` drawn for it.
///
/// The gates run in order — authorization, strikes, URL validity — and a
/// later gate never runs if an earlier one rejects. A structurally invalid
/// URL is `BadRequest`. Then the canonical URL's fingerprint is looked up:
/// a hit returns the stored row's id and leaves the store untouched; a
/// miss appends a link row carrying `fresh_id`, the fingerprint, the
/// canonical URL and `now`, plus — when origin recording is enabled — an
/// origin row binding `fresh_id` to the requester's address, and returns
/// `fresh_id`.
pub open spec fn spec_create_link(
    s: StoreView,
    cfg: ServiceConfigView,
    url: Seq<char>,
    requester: Seq<u8>,
    auth: Option<Seq<char>>,
    fresh_id: Seq<char>,
    now: int,
) -> Result<(Seq<char>, StoreView), ApiError> {
    match spec_auth_gate(s.tokens, cfg, auth, now) {
        Err(e) => Err(e),
        Ok(_) => match spec_strike_gate(s.strikes, requester, cfg) {
            Err(e) => Err(e),
            Ok(_) => match uri_canon_of(url) {
                None => Err(ApiError::BadRequest),
                Some(canon) => {
                    let h = link_digest_of(canon);
                    match first_where(s.links, link_hash_pred(h)) {
                        Some(row) => Ok((row.id, s)),
                        None => {
                            let s1 = StoreView {
                                links: s.links.push(
                                    LinkRowView { id: fresh_id, hash: h, link: canon, created_at: now },
                                ),
                                ..s
                            };
                            let s2 = if cfg.ip_recording is Some {
                                StoreView {
                                    origins: s1.origins.push(
                                        OriginRowView { id: fresh_id, created_by: requester },
                                    ),
                                    ..s1
                                }
                            } else {
                                s1
                            };
                            Ok((fresh_id, s2))
                        },
                    }
                },
            },
        },
    }
}

/// Creates a link with the given fresh id, exactly as [`spec_create_link`]
/// says: the store changes only on a dedup miss, and only by appended
/// rows.
pub fn create_link_with_id(
    store: &mut Store,
    config: &ServiceConfig,
    url: &str,
    requester: Vec<u8>,
    auth: Option<&str>,
    new_id: String,
    now: i64,
) -> (r: Result<CreatedLink, ApiError>)
    ensures
        ({
            let auth_v = match auth {
                Some(a) => Some(a@),
                None => None::<Seq<char>>,
            };
            match spec_create_link(
                old(store)@,
                config@,
                url@,
                requester@,
                auth_v,
                new_id@,
                now as int,
            ) {
                Ok(p) => r matches Ok(cl) && cl.id@ == p.0 && final(store)@ == p.1,
                Err(e) => r == Err::<CreatedLink, ApiError>(e) && final(store)@ == old(store)@,
            }
        }),
{
    if let Some(tc) = &config.token_config {
        if tc.creation_requires_auth {
            match auth {
                None => {
                    return Err(ApiError::Unauthorized);
                },
                Some(tok) => {
                    let requested = TokenPermissions::new().create_link();
                    match check_permission(store, tc.master_token.as_str(), tok, requested, now) {
                        Err(e) => {
                            return Err(e);
                        },
                        Ok(false) => {
                            return Err(ApiError::Forbidden);
                        },
                        Ok(true) => {},
                    }
                },
            }
        }
    }

    if config.ip_recording.is_some() {
        match store.find_strike_amount(&requester) {
            Some(amount) => {
                if amount >= config.max_strikes {
                    return Err(ApiError::Forbidden);
                }
            },
            None => {},
        }
    }

    let canon = match canonical_uri(url) {
        None => {
            return Err(ApiError::BadRequest);
        },
        Some(c) => c,
    };
    let hash = digest(canon.as_str());

    match store.find_link_by_hash(&hash) {
        Some(i) => Ok(CreatedLink { id: store.links[i].id.clone() }),
        None => {
            let returned_id = new_id.clone();
            let origin_id = new_id.clone();
            let record_origin = config.ip_recording.is_some();
            let ghost hash_view = hash@;
            let ghost canon_view = canon@;
            store.links.push(LinkRow { id: new_id, hash, link: canon, created_at: now });
            proof {
                assert(store@.links =~= old(store)@.links.push(
                    LinkRowView {
                        id: new_id@,
                        hash: hash_view,
                        link: canon_view,
                        created_at: now as int,
                    },
                ));
                assert(store@ =~= (StoreView { links: store@.links, ..old(store)@ }));
            }
            if record_origin {
                let ghost mid = store@;
                store.origins.push(OriginRow { id: origin_id, created_by: requester });
                proof {
                    assert(store@.origins =~= mid.origins.push(
                        OriginRowView { id: new_id@, created_by: requester@ },
                    ));
                    assert(store@ =~= (StoreView { origins: store@.origins, ..mid }));
                }
            }
            Ok(CreatedLink { id: returned_id })
        },
    }
}

/// Creates a link with a fresh seven-character display id drawn from the
/// base-58 alphabet.
pub fn create_link(
    store: &mut Store,
    config: &ServiceConfig,
    url: &str,
    requester: Vec<u8>,
    auth: Option<&str>,
    now: i64,
) -> (r: Result<CreatedLink, ApiError>)
    ensures
        ({
            let auth_v = match auth {
                Some(a) => Some(a@),
                None => None::<Seq<char>>,
            };
            exists|fresh: Seq<char>|
                (is_display_id(fresh, LINK_ID_LEN as int) && match spec_create_link(
                    old(store)@,
                    config@,
                    url@,
                    requester@,
                    auth_v,
                    fresh,
                    now as int,
                ) {
                    Ok(p) => r matches Ok(cl) && cl.id@ == p.0 && final(store)@ == p.1,
                    Err(e) => r == Err::<CreatedLink, ApiError>(e) && final(store)@ == old(store)@,
                })
        }),
{
    let id = new_display_id(LINK_ID_LEN);
    let ghost fresh = id@;
    let r = create_link_with_id(store, config, url, requester, auth, id, now);
    proof {
        assert(is_display_id(fresh, LINK_ID_LEN as int));
    }
    r
}

/// What resolving a display id does: the first matching link row's stored
/// target, or `NotFound`.
pub open spec fn spec_get_link(links: Seq<LinkRowView>, id: Seq<char>) -> Result<
    Seq<char>,
    ApiError,
> {
    match first_where(links, link_id_pred(id)) {
        Some(row) => Ok(row.link),
        None => Err(ApiError::NotFound),
    }
}

/// Resolves a display id to a redirect, exactly as [`spec_get_link`] says.
pub fn get_link(store: &Store, id: &str) -> (r: Result<ShortLinkRedirect, ApiError>)
    ensures
        match spec_get_link(store@.links, id@) {
            Ok(l) => r matches Ok(s) && s.location@ == l,
            Err(e) => r == Err::<ShortLinkRedirect, ApiError>(e),
        },
{
    match store.find_link_by_id(id) {
        Some(i) => Ok(ShortLinkRedirect { location: store.links[i].link.clone() }),
        None => Err(ApiError::NotFound),
    }
}

/// Everything reported about a link: its id, the lower-case hex form of
/// its content fingerprint, its target, its creation time, and — only for
/// a caller holding `view_ips_perm` — the recorded origin address.
#[derive(Debug)]
pub struct LinkInfo {
    pub id: String,
    pub hash: String,
    pub link: String,
    pub created_at: i64,
    pub created_by: Option<Vec<u8>>,
}

#[verifier::ext_equal]
pub struct LinkInfoView {
    pub id: Seq<char>,
    pub hash: Seq<char>,
    pub link: Seq<char>,
    pub created_at: int,
    pub created_by: Option<Seq<u8>>,
}

impl View for LinkInfo {
    type V = LinkInfoView;

    open spec fn view(&self) -> LinkInfoView {
        LinkInfoView {
            id: self.id@,
            hash: self.hash@,
            link: self.link@,
            created_at: self.created_at as int,
            created_by: match self.created_by {
                Some(ref b) => Some(b@),
                None => None,
            },
        }
    }
}

/// What the info lookup reports.
///
/// An unknown id is `NotFound`. A caller presenting a credential while the
/// token subsystem is enabled has it checked for `view_ips_perm`; a check
/// error (an unknown or expired credential) propagates. Only a caller the
/// check accepts sees the origin row's address; everyone else gets the
/// public fields.
pub open spec fn spec_get_link_info(
    s: StoreView,
    cfg: ServiceConfigView,
    auth: Option<Seq<char>>,
    id: Seq<char>,
    now: int,
) -> Result<LinkInfoView, ApiError> {
    match first_where(s.links, link_id_pred(id)) {
        None => Err(ApiError::NotFound),
        Some(row) => {
            let perm = match auth {
                None => Ok(false),
                Some(tok) => match cfg.token_config {
                    None => Ok(false),
                    Some(tc) => spec_check_permission(
                        s.tokens,
                        tc.master_token,
                        tok,
                        perm_request_view_ips(),
                        now,
                    ),
                },
            };
            match perm {
                Err(e) => Err(e),
                Ok(has_view_perm) => {
                    let created_by = if has_view_perm {
                        match first_where(s.origins, origin_id_pred(row.id)) {
                            Some(o) => Some(o.created_by),
                            None => None,
                        }
                    } else {
                        None
                    };
                    Ok(LinkInfoView {
                        id: row.id,
                        hash: hex_of(row.hash),
                        link: row.link,
                        created_at: row.created_at,
                        created_by,
                    })
                },
            }
        },
    }
}

/// Looks a link up by id, exactly as [`spec_get_link_info`] says.
pub fn get_link_info(
    store: &Store,
    config: &ServiceConfig,
    auth: Option<&str>,
    id: &str,
    now: i64,
) -> (r: Result<LinkInfo, ApiError>)
    ensures
        ({
            let auth_v = match auth {
                Some(a) => Some(a@),
                None => None::<Seq<char>>,
            };
            match spec_get_link_info(store@, config@, auth_v, id@, now as int) {
                Ok(v) => r matches Ok(info) && info@ == v,
                Err(e) => r == Err::<LinkInfo, ApiError>(e),
            }
        }),
{
    let i = match store.find_link_by_id(id) {
        None => {
            return Err(ApiError::NotFound);
        },
        Some(i) => i,
    };

    let has_view_perm: bool;
    match auth {
        None => {
            has_view_perm = false;
        },
        Some(tok) => match &config.token_config {
            None => {
                has_view_perm = false;
            },
            Some(tc) => {
                let requested = TokenPermissions::new().view_ips();
                match check_permission(store, tc.master_token.as_str(), tok, requested, now) {
                    Err(e) => {
                        return Err(e);
                    },
                    Ok(b) => {
                        has_view_perm = b;
                    },
                }
            },
        },
    }

    let created_by: Option<Vec<u8>> = if has_view_perm {
        match store.find_origin_by_id(store.links[i].id.as_str()) {
            Some(j) => Some(clone_bytes(&store.origins[j].created_by)),
            None => None,
        }
    } else {
        None
    };

    Ok(LinkInfo {
        id: store.links[i].id.clone(),
        hash: to_hex(&store.links[i].hash),
        link: store.links[i].link.clone(),
        created_at: store.links[i].created_at,
        created_by,
    })
}

/// Idempotent dedup: once a creation for `url` has succeeded, any later
/// creation for the same `url` that succeeds — whatever its requester,
/// credential, fresh id or time — returns the very same id and leaves the
/// store exactly as the first creation left it.
pub proof fn lemma_create_link_idempotent(
    s: StoreView,
    cfg: ServiceConfigView,
    url: Seq<char>,
    requester1: Seq<u8>,
    requester2: Seq<u8>,
    auth1: Option<Seq<char>>,
    auth2: Option<Seq<char>>,
    id1: Seq<char>,
    id2: Seq<char>,
    now1: int,
    now2: int,
    r1: (Seq<char>, StoreView),
    r2: (Seq<char>, StoreView),
)
    requires
        spec_create_link(s, cfg, url, requester1, auth1, id1, now1) == Ok::<
            (Seq<char>, StoreView),
            ApiError,
        >(r1),
        spec_create_link(r1.1, cfg, url, requester2, auth2, id2, now2) == Ok::<
            (Seq<char>, StoreView),
            ApiError,
        >(r2),
    ensures
        r2.0 == r1.0,
        r2.1 == r1.1,
{
    let canon = uri_canon_of(url)->Some_0;
    let h = link_digest_of(canon);
    match first_where(s.links, link_hash_pred(h)) {
        Some(row) => {
        },
        None => {
            let row = LinkRowView { id: id1, hash: h, link: canon, created_at: now1 };
            assert(link_hash_pred(h)(row));
            lemma_first_where_push_none(s.links, link_hash_pred(h), row);
            assert(r1.1.links == s.links.push(row));
        },
    }
}

/// Strike gating: when origin recording is enabled and the requester's
/// strike count has reached the configured maximum, link creation fails
/// with `Forbidden` — provided the authorization gate, which runs first,
/// has let the request through.
pub proof fn lemma_strike_gating(
    s: StoreView,
    cfg: ServiceConfigView,
    url: Seq<char>,
    requester: Seq<u8>,
    auth: Option<Seq<char>>,
    fresh_id: Seq<char>,
    now: int,
    amount: u16,
)
    requires
        cfg.ip_recording is Some,
        spec_auth_gate(s.tokens, cfg, auth, now) is Ok,
        spec_strike_amount(s.strikes, requester) == Some(amount),
        amount >= cfg.max_strikes,
    ensures
        spec_create_link(s, cfg, url, requester, auth, fresh_id, now) == Err::<
            (Seq<char>, StoreView),
            ApiError,
        >(ApiError::Forbidden),
{
}

} // verus!
