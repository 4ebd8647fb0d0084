//! The retention job: pruning origin rows whose parent link has aged past
//! the configured window.
//!
//! Only origin (attribution) rows are deleted; link rows are never
//! touched, so redirects keep working indefinitely.

use vstd::prelude::*;

use crate::store::{LinkRow, LinkRowView, OriginRow, OriginRowView, Store, StoreView};
use crate::strutil::{clone_bytes, str_eq};

verus! {

/// Whether some link row carries this display id with a creation time
/// before the cutoff.
pub open spec fn spec_parent_expired(links: Seq<LinkRowView>, id: Seq<char>, cutoff: int) -> bool {
    exists|j: int|
        0 <= j < links.len() && (#[trigger] links[j]).id == id && links[j].created_at < cutoff
}

/// Origin rows the sweep keeps: those without an expired parent link.
pub open spec fn retained_pred(links: Seq<LinkRowView>, cutoff: int) -> spec_fn(
    OriginRowView,
) -> bool {
    |o: OriginRowView| !spec_parent_expired(links, o.id, cutoff)
}

/// What one firing of the retention job does: every origin row whose
/// parent link was created before the cutoff is deleted; everything else,
/// the link rows above all, stays exactly as it was.
pub open spec fn spec_retention_sweep(s: StoreView, cutoff: int) -> StoreView {
    StoreView { origins: s.origins.filter(retained_pred(s.links, cutoff)), ..s }
}

/// The cutoff instant `now - retention_period`, or `None` where that
/// difference leaves the representable range.
pub fn retention_cutoff(now: i64, retention_period: i64) -> (r: Option<i64>)
    ensures
        match r {
            Some(c) => c as int == now as int - retention_period as int,
            None => ({
                let diff = now as int - retention_period as int;
                diff < i64::MIN || diff > i64::MAX
            }),
        },
{
    now.checked_sub(retention_period)
}

/// Whether the link table holds an expired parent for this id.
fn parent_expired(links: &Vec<LinkRow>, id: &str, cutoff: i64) -> (r: bool)
    ensures
        r == spec_parent_expired(links@.map_values(|r: LinkRow| r@), id@, cutoff as int),
{
    let ghost lv = links@.map_values(|r: LinkRow| r@);
    let n = links.len();
    let mut j: usize = 0;
    while j < n
        invariant
            n == links@.len(),
            j <= n,
            lv == links@.map_values(|r: LinkRow| r@),
            forall|k: int|
                0 <= k < j ==> !((#[trigger] lv[k]).id == id@ && lv[k].created_at < cutoff as int),
        decreases n - j,
    {
        if links[j].created_at < cutoff && str_eq(links[j].id.as_str(), id) {
            proof {
                assert(lv[j as int].id == id@ && lv[j as int].created_at < cutoff as int);
            }
            return true;
        }
        j = j + 1;
    }
    false
}

/// Deletes the origin rows whose parent link was created before `cutoff`,
/// exactly as [`spec_retention_sweep`] says.
pub fn retention_sweep(store: &mut Store, cutoff: i64)
    ensures
        final(store)@ == spec_retention_sweep(old(store)@, cutoff as int),
{
    let ghost lv = store@.links;
    let ghost p = retained_pred(lv, cutoff as int);
    let n = store.origins.len();
    let mut kept: Vec<OriginRow> = Vec::new();
    let mut i: usize = 0;
    proof {
        reveal(Seq::filter);
        assert(old(store)@.origins.take(0) =~= Seq::<OriginRowView>::empty());
        assert(kept@.map_values(|r: OriginRow| r@) =~= Seq::<OriginRowView>::empty());
        assert(old(store)@.origins.take(0).filter(p) =~= Seq::<OriginRowView>::empty());
    }
    while i < n
        invariant
            n == store.origins.len(),
            store@ == old(store)@,
            lv == old(store)@.links,
            p == retained_pred(lv, cutoff as int),
            i <= n,
            kept@.map_values(|r: OriginRow| r@) == old(store)@.origins.take(i as int).filter(p),
        decreases n - i,
    {
        let expired = parent_expired(&store.links, store.origins[i].id.as_str(), cutoff);
        let ghost prev = kept@.map_values(|r: OriginRow| r@);
        if !expired {
            let row = OriginRow {
                id: store.origins[i].id.clone(),
                created_by: clone_bytes(&store.origins[i].created_by),
            };
            kept.push(row);
        }
        i = i + 1;
        proof {
            reveal(Seq::filter);
            let t = old(store)@.origins.take(i as int);
            assert(t.drop_last() =~= old(store)@.origins.take(i as int - 1));
            assert(t.last() == old(store)@.origins[i as int - 1]);
            assert(p(t.last()) == !expired);
            if !expired {
                assert(t.filter(p) == t.drop_last().filter(p).push(t.last()));
                assert(kept@.map_values(|r: OriginRow| r@) =~= prev.push(
                    old(store)@.origins[i as int - 1],
                ));
            } else {
                assert(t.filter(p) == t.drop_last().filter(p));
            }
        }
    }
    store.origins = kept;
    proof {
        assert(old(store)@.origins.take(n as int) =~= old(store)@.origins);
        assert(store@.origins == old(store)@.origins.filter(p));
        assert(store@ =~= spec_retention_sweep(old(store)@, cutoff as int));
    }
}

/// Retention correctness: after a sweep no origin row remains whose parent
/// link was created before the cutoff, and the link, strike and token
/// tables are untouched.
pub proof fn lemma_retention_correct(s: StoreView, cutoff: int)
    ensures
        spec_retention_sweep(s, cutoff).links == s.links,
        spec_retention_sweep(s, cutoff).strikes == s.strikes,
        spec_retention_sweep(s, cutoff).tokens == s.tokens,
        forall|i: int|
            0 <= i < spec_retention_sweep(s, cutoff).origins.len() ==> !spec_parent_expired(
                s.links,
                (#[trigger] spec_retention_sweep(s, cutoff).origins[i]).id,
                cutoff,
            ),
{
    let p = retained_pred(s.links, cutoff);
    assert forall|i: int| 0 <= i < spec_retention_sweep(s, cutoff).origins.len()
        implies !spec_parent_expired(
        s.links,
        (#[trigger] spec_retention_sweep(s, cutoff).origins[i]).id,
        cutoff,
    ) by {
        s.origins.lemma_filter_pred(p, i);
        assert(p(s.origins.filter(p)[i]));
    }
}

} // verus!
