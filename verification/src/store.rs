//! The relational rows the core reads and writes, an in-memory store of
//! them, and verified lookups.
//!
//! The storage engine itself is outside the core; the store here gives the
//! four tables (`links`, `origins`, `strikes`, `tokens`) their row-level
//! semantics. A lookup without an ordering clause is modelled as returning
//! the first matching row.

use vstd::prelude::*;

use crate::perms::TokenPermissions;
use crate::strutil::{bytes_eq, str_eq};

verus! {

/// A shortened link: display id, content fingerprint, target URL in
/// canonical form, and creation time (Unix seconds).
pub struct LinkRow {
    pub id: String,
    pub hash: Vec<u8>,
    pub link: String,
    pub created_at: i64,
}

#[verifier::ext_equal]
pub struct LinkRowView {
    pub id: Seq<char>,
    pub hash: Seq<u8>,
    pub link: Seq<char>,
    pub created_at: int,
}

impl View for LinkRow {
    type V = LinkRowView;

    open spec fn view(&self) -> LinkRowView {
        LinkRowView {
            id: self.id@,
            hash: self.hash@,
            link: self.link@,
            created_at: self.created_at as int,
        }
    }
}

/// Which network address asked for a link to be created: the link's id and
/// an opaque binary encoding of the address.
pub struct OriginRow {
    pub id: String,
    pub created_by: Vec<u8>,
}

#[verifier::ext_equal]
pub struct OriginRowView {
    pub id: Seq<char>,
    pub created_by: Seq<u8>,
}

impl View for OriginRow {
    type V = OriginRowView;

    open spec fn view(&self) -> OriginRowView {
        OriginRowView { id: self.id@, created_by: self.created_by@ }
    }
}

/// The abuse count of an origin address, independent of any link.
pub struct StrikeRow {
    pub origin: Vec<u8>,
    pub amount: u16,
}

#[verifier::ext_equal]
pub struct StrikeRowView {
    pub origin: Seq<u8>,
    pub amount: u16,
}

impl View for StrikeRow {
    type V = StrikeRowView;

    open spec fn view(&self) -> StrikeRowView {
        StrikeRowView { origin: self.origin@, amount: self.amount }
    }
}

/// A stored capability token: opaque secret value, creation and expiry
/// times (Unix seconds), and the granted flags. Revocation sets
/// `expires_at` to the current time; rows are never removed.
pub struct TokenRow {
    pub token: String,
    pub created_at: i64,
    pub expires_at: i64,
    pub perms: TokenPermissions,
}

#[verifier::ext_equal]
pub struct TokenRowView {
    pub token: Seq<char>,
    pub created_at: int,
    pub expires_at: int,
    pub perms: TokenPermissions,
}

impl View for TokenRow {
    type V = TokenRowView;

    open spec fn view(&self) -> TokenRowView {
        TokenRowView {
            token: self.token@,
            created_at: self.created_at as int,
            expires_at: self.expires_at as int,
            perms: self.perms,
        }
    }
}

/// The in-memory store of the four tables.
pub struct Store {
    pub links: Vec<LinkRow>,
    pub origins: Vec<OriginRow>,
    pub strikes: Vec<StrikeRow>,
    pub tokens: Vec<TokenRow>,
}

#[verifier::ext_equal]
pub struct StoreView {
    pub links: Seq<LinkRowView>,
    pub origins: Seq<OriginRowView>,
    pub strikes: Seq<StrikeRowView>,
    pub tokens: Seq<TokenRowView>,
}

impl View for Store {
    type V = StoreView;

    open spec fn view(&self) -> StoreView {
        StoreView {
            links: self.links@.map_values(|r: LinkRow| r@),
            origins: self.origins@.map_values(|r: OriginRow| r@),
            strikes: self.strikes@.map_values(|r: StrikeRow| r@),
            tokens: self.tokens@.map_values(|r: TokenRow| r@),
        }
    }
}

impl Store {
    /// An empty store: all four tables hold no rows.
    pub fn new() -> (r: Store)
        ensures
            r@.links =~= Seq::<LinkRowView>::empty(),
            r@.origins =~= Seq::<OriginRowView>::empty(),
            r@.strikes =~= Seq::<StrikeRowView>::empty(),
            r@.tokens =~= Seq::<TokenRowView>::empty(),
    {
        Store { links: Vec::new(), origins: Vec::new(), strikes: Vec::new(), tokens: Vec::new() }
    }
}

/// The first element of `s` satisfying `p`, if any: the model of a
/// single-row lookup.
pub open spec fn first_where<T>(s: Seq<T>, p: spec_fn(T) -> bool) -> Option<T>
    decreases s.len(),
{
    if s.len() == 0 {
        None
    } else if p(s[0]) {
        Some(s[0])
    } else {
        first_where(s.skip(1), p)
    }
}

/// Skipping a prefix with no match leaves the first match unchanged.
pub proof fn lemma_first_where_skip<T>(s: Seq<T>, p: spec_fn(T) -> bool, i: int)
    requires
        0 <= i <= s.len(),
        forall|j: int| 0 <= j < i ==> !p(s[j]),
    ensures
        first_where(s, p) == first_where(s.skip(i), p),
    decreases i,
{
    if i > 0 {
        assert(!p(s[0]));
        assert forall|j: int| 0 <= j < i - 1 implies !p(s.skip(1)[j]) by {
            assert(s.skip(1)[j] == s[j + 1]);
        }
        lemma_first_where_skip(s.skip(1), p, i - 1);
        assert(s.skip(1).skip(i - 1) =~= s.skip(i));
    } else {
        assert(s.skip(0) =~= s);
    }
}

/// There is no match exactly when no element satisfies the predicate.
pub proof fn lemma_first_where_none<T>(s: Seq<T>, p: spec_fn(T) -> bool)
    ensures
        (first_where(s, p) is None) <==> (forall|j: int| 0 <= j < s.len() ==> !p(#[trigger] s[j])),
    decreases s.len(),
{
    if s.len() > 0 {
        lemma_first_where_none(s.skip(1), p);
        if first_where(s, p) is None {
            assert forall|j: int| 0 <= j < s.len() implies !p(#[trigger] s[j]) by {
                if j > 0 {
                    assert(s.skip(1)[j - 1] == s[j]);
                    assert(!p(s.skip(1)[j - 1]));
                }
            }
        }
        if forall|j: int| 0 <= j < s.len() ==> !p(#[trigger] s[j]) {
            assert(!p(s[0]));
            assert forall|j: int| 0 <= j < s.skip(1).len() implies !p(#[trigger] s.skip(1)[j]) by {
                assert(s.skip(1)[j] == s[j + 1]);
            }
        }
    }
}

/// Appending a matching row to a sequence with no match makes that row the
/// first match.
pub proof fn lemma_first_where_push_none<T>(s: Seq<T>, p: spec_fn(T) -> bool, x: T)
    requires
        first_where(s, p) is None,
        p(x),
    ensures
        first_where(s.push(x), p) == Some(x),
    decreases s.len(),
{
    if s.len() == 0 {
        assert(s.push(x)[0] == x);
    } else {
        assert(s.push(x)[0] == s[0]);
        assert(s.push(x).skip(1) =~= s.skip(1).push(x));
        lemma_first_where_push_none(s.skip(1), p, x);
    }
}

/// Rows with the given content fingerprint.
pub open spec fn link_hash_pred(h: Seq<u8>) -> spec_fn(LinkRowView) -> bool {
    |row: LinkRowView| row.hash == h
}

/// Rows with the given display id.
pub open spec fn link_id_pred(id: Seq<char>) -> spec_fn(LinkRowView) -> bool {
    |row: LinkRowView| row.id == id
}

/// Origin rows attached to the given display id.
pub open spec fn origin_id_pred(id: Seq<char>) -> spec_fn(OriginRowView) -> bool {
    |row: OriginRowView| row.id == id
}

/// Strike rows for the given origin address.
pub open spec fn strike_origin_pred(origin: Seq<u8>) -> spec_fn(StrikeRowView) -> bool {
    |row: StrikeRowView| row.origin == origin
}

/// Token rows carrying the given value and not yet expired at `now`
/// (`expires_at` strictly in the future).
pub open spec fn active_token_pred(tok: Seq<char>, now: int) -> spec_fn(TokenRowView) -> bool {
    |row: TokenRowView| row.token == tok && row.expires_at > now
}

/// The strike count on record for an origin address, if any.
pub open spec fn spec_strike_amount(strikes: Seq<StrikeRowView>, origin: Seq<u8>) -> Option<u16> {
    match first_where(strikes, strike_origin_pred(origin)) {
        Some(row) => Some(row.amount),
        None => None,
    }
}

impl Store {
    /// Index of the first link row with the given fingerprint, if any.
    pub fn find_link_by_hash(&self, h: &Vec<u8>) -> (r: Option<usize>)
        ensures
            match r {
                Some(i) => i < self.links.len() && first_where(self@.links, link_hash_pred(h@))
                    == Some(self@.links[i as int]),
                None => first_where(self@.links, link_hash_pred(h@)) is None,
            },
    {
        let n = self.links.len();
        let mut i: usize = 0;
        while i < n
            invariant
                n == self.links.len(),
                i <= n,
                forall|j: int| 0 <= j < i ==> !link_hash_pred(h@)(#[trigger] self@.links[j]),
            decreases n - i,
        {
            if bytes_eq(&self.links[i].hash, h) {
                proof {
                    lemma_first_where_skip(self@.links, link_hash_pred(h@), i as int);
                    assert(self@.links.skip(i as int)[0] == self@.links[i as int]);
                }
                return Some(i);
            }
            i = i + 1;
        }
        proof {
            lemma_first_where_skip(self@.links, link_hash_pred(h@), n as int);
        }
        None
    }

    /// Index of the first link row with the given display id, if any.
    pub fn find_link_by_id(&self, id: &str) -> (r: Option<usize>)
        ensures
            match r {
                Some(i) => i < self.links.len() && first_where(self@.links, link_id_pred(id@))
                    == Some(self@.links[i as int]),
                None => first_where(self@.links, link_id_pred(id@)) is None,
            },
    {
        let n = self.links.len();
        let mut i: usize = 0;
        while i < n
            invariant
                n == self.links.len(),
                i <= n,
                forall|j: int| 0 <= j < i ==> !link_id_pred(id@)(#[trigger] self@.links[j]),
            decreases n - i,
        {
            if str_eq(self.links[i].id.as_str(), id) {
                proof {
                    lemma_first_where_skip(self@.links, link_id_pred(id@), i as int);
                    assert(self@.links.skip(i as int)[0] == self@.links[i as int]);
                }
                return Some(i);
            }
            i = i + 1;
        }
        proof {
            lemma_first_where_skip(self@.links, link_id_pred(id@), n as int);
        }
        None
    }

    /// Index of the first origin row for the given display id, if any.
    pub fn find_origin_by_id(&self, id: &str) -> (r: Option<usize>)
        ensures
            match r {
                Some(i) => i < self.origins.len() && first_where(self@.origins, origin_id_pred(id@))
                    == Some(self@.origins[i as int]),
                None => first_where(self@.origins, origin_id_pred(id@)) is None,
            },
    {
        let n = self.origins.len();
        let mut i: usize = 0;
        while i < n
            invariant
                n == self.origins.len(),
                i <= n,
                forall|j: int| 0 <= j < i ==> !origin_id_pred(id@)(#[trigger] self@.origins[j]),
            decreases n - i,
        {
            if str_eq(self.origins[i].id.as_str(), id) {
                proof {
                    lemma_first_where_skip(self@.origins, origin_id_pred(id@), i as int);
                    assert(self@.origins.skip(i as int)[0] == self@.origins[i as int]);
                }
                return Some(i);
            }
            i = i + 1;
        }
        proof {
            lemma_first_where_skip(self@.origins, origin_id_pred(id@), n as int);
        }
        None
    }

    /// The strike count on record for an origin address, if any.
    pub fn find_strike_amount(&self, origin: &Vec<u8>) -> (r: Option<u16>)
        ensures
            r == spec_strike_amount(self@.strikes, origin@),
    {
        let n = self.strikes.len();
        let mut i: usize = 0;
        while i < n
            invariant
                n == self.strikes.len(),
                i <= n,
                forall|j: int| 0 <= j < i ==> !strike_origin_pred(origin@)(
                    #[trigger] self@.strikes[j],
                ),
            decreases n - i,
        {
            if bytes_eq(&self.strikes[i].origin, origin) {
                proof {
                    lemma_first_where_skip(self@.strikes, strike_origin_pred(origin@), i as int);
                    assert(self@.strikes.skip(i as int)[0] == self@.strikes[i as int]);
                }
                return Some(self.strikes[i].amount);
            }
            i = i + 1;
        }
        proof {
            lemma_first_where_skip(self@.strikes, strike_origin_pred(origin@), n as int);
        }
        None
    }

    /// Index of the first token row with the given value that is not yet
    /// expired at `now`, if any.
    pub fn find_active_token(&self, tok: &str, now: i64) -> (r: Option<usize>)
        ensures
            match r {
                Some(i) => i < self.tokens.len() && first_where(
                    self@.tokens,
                    active_token_pred(tok@, now as int),
                ) == Some(self@.tokens[i as int]),
                None => first_where(self@.tokens, active_token_pred(tok@, now as int)) is None,
            },
    {
        let n = self.tokens.len();
        let mut i: usize = 0;
        while i < n
            invariant
                n == self.tokens.len(),
                i <= n,
                forall|j: int| 0 <= j < i ==> !active_token_pred(tok@, now as int)(
                    #[trigger] self@.tokens[j],
                ),
            decreases n - i,
        {
            if self.tokens[i].expires_at > now && str_eq(self.tokens[i].token.as_str(), tok) {
                proof {
                    lemma_first_where_skip(self@.tokens, active_token_pred(tok@, now as int), i as int);
                    assert(self@.tokens.skip(i as int)[0] == self@.tokens[i as int]);
                }
                return Some(i);
            }
            i = i + 1;
        }
        proof {
            lemma_first_where_skip(self@.tokens, active_token_pred(tok@, now as int), n as int);
        }
        None
    }
}

} // verus!
