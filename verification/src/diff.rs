//! The diff engine: which sites of a fresh snapshot became newly
//! available, measured against the previous per-date snapshot.  Pure, no
//! I/O; the result keeps the order of the fresh snapshot.

use vstd::prelude::*;

use crate::snapshot::{lemma_filter_empty, sites_on, spec_group_get, Snapshot};
use crate::types::{CampgroundAvailability, SiteAvailability};

verus! {

/// Some site with this id was already marked available in `prev`.
pub open spec fn spec_known_available(prev: Seq<SiteAvailability>, site_id: Seq<char>) -> bool {
    exists|k: int|
        0 <= k < prev.len() && (#[trigger] prev[k]).site_id@ == site_id && prev[k].available
}

/// A site of the fresh snapshot is new when it is available and the
/// previous snapshot has no available entry with the same id on the same
/// date (a date absent from the previous snapshot counts as no entry).
pub open spec fn spec_site_is_new(prev: Snapshot, s: SiteAvailability) -> bool {
    &&& s.available
    &&& match prev.spec_get(s.date) {
        Some(ps) => !spec_known_available(ps, s.site_id@),
        None => true,
    }
}

/// Decide whether `sites` holds an available entry with id `id`.
#[verifier::loop_isolation(false)]
pub fn known_available(sites: &Vec<SiteAvailability>, id: &String) -> (r: bool)
    ensures
        r == spec_known_available(sites@, id@),
{
    let mut k: usize = 0;
    while k < sites.len()
        invariant
            0 <= k <= sites@.len(),
            forall|m: int|
                0 <= m < k ==> !((#[trigger] sites@[m]).site_id@ == id@ && sites@[m].available),
        decreases sites@.len() - k,
    {
        if sites[k].site_id == *id && sites[k].available {
            return true;
        }
        k = k + 1;
    }
    false
}

proof fn lemma_filter_push_diff(s: Seq<SiteAvailability>, x: SiteAvailability, prev: Snapshot)
    ensures
        s.push(x).filter(|t: SiteAvailability| spec_site_is_new(prev, t)) == if spec_site_is_new(
            prev,
            x,
        ) {
            s.filter(|t: SiteAvailability| spec_site_is_new(prev, t)).push(x)
        } else {
            s.filter(|t: SiteAvailability| spec_site_is_new(prev, t))
        },
{
    reveal(Seq::filter);
    assert(s.push(x).drop_last() =~= s);
    assert(s.push(x).last() == x);
}

/// A site counts as new against the cache itself: available, with no
/// available entry of the same id in the successful cached row of its
/// date inside the read window.
pub open spec fn spec_site_new_in_store(
    store: crate::store::AvailabilityStore,
    cg: Seq<char>,
    from: crate::dates::Date,
    to: crate::dates::Date,
    s: SiteAvailability,
) -> bool {
    &&& s.available
    &&& match crate::store::spec_read_at(store, cg, from, to, s.date) {
        Some(ps) => !spec_known_available(ps, s.site_id@),
        None => true,
    }
}

/// Filters under pointwise-equal predicates agree.
pub proof fn lemma_filter_congruent<A>(s: Seq<A>, p1: spec_fn(A) -> bool, p2: spec_fn(A) -> bool)
    requires
        forall|i: int| 0 <= i < s.len() ==> p1(#[trigger] s[i]) == p2(s[i]),
    ensures
        s.filter(p1) == s.filter(p2),
    decreases s.len(),
{
    reveal(Seq::filter);
    if s.len() > 0 {
        assert(forall|i: int|
            0 <= i < s.drop_last().len() ==> #[trigger] s.drop_last()[i] == s[i]);
        lemma_filter_congruent(s.drop_last(), p1, p2);
    }
}

/// Compare the fresh snapshot against the previous one and return the
/// newly available sites, in the fresh snapshot's order.
#[verifier::loop_isolation(false)]
pub fn find_new_availability(previous: &Snapshot, current: &CampgroundAvailability) -> (r: Vec<
    SiteAvailability,
>)
    ensures
        r@ == current.available_sites@.filter(
            |s: SiteAvailability| spec_site_is_new(*previous, s),
        ),
{
    let sites = &current.available_sites;
    let mut r: Vec<SiteAvailability> = Vec::new();
    let mut i: usize = 0;
    while i < sites.len()
        invariant
            0 <= i <= sites@.len(),
            r@ == sites@.subrange(0, i as int).filter(
                |s: SiteAvailability| spec_site_is_new(*previous, s),
            ),
        decreases sites@.len() - i,
    {
        let site = &sites[i];
        let ghost pre = sites@.subrange(0, i as int);
        proof {
            assert(sites@.subrange(0, i + 1 as int) =~= pre.push(sites@[i as int]));
            lemma_filter_push_diff(pre, sites@[i as int], *previous);
        }
        if site.available {
            let is_new = match previous.get(&site.date) {
                Some(prev_sites) => !known_available(prev_sites, &site.site_id),
                None => true,
            };
            if is_new {
                r.push(site.duplicate());
            }
        }
        i = i + 1;
    }
    proof {
        assert(sites@.subrange(0, i as int) =~= sites@);
    }
    r
}

/// Replaying a snapshot against its own per-date grouping finds nothing
/// new: once the cache holds exactly what a poll reported, polling the
/// same state again yields an empty diff.
pub proof fn lemma_replay_diff_empty(prev: Snapshot, current: CampgroundAvailability)
    requires
        forall|d: crate::dates::Date|
            #[trigger] spec_group_get(current.available_sites@, d) is Some ==> prev.spec_get(d)
                == spec_group_get(current.available_sites@, d),
    ensures
        current.available_sites@.filter(
            |s: SiteAvailability| spec_site_is_new(prev, s),
        ).len() == 0,
{
    let sites = current.available_sites@;
    let pred = |s: SiteAvailability| spec_site_is_new(prev, s);
    assert forall|i: int| 0 <= i < sites.len() implies !pred(#[trigger] sites[i]) by {
        let s = sites[i];
        if s.available {
            let on_date = sites_on(sites, s.date);
            Seq::lemma_filter_contains(sites, |t: SiteAvailability| t.date == s.date, i);
            assert(on_date.contains(s));
            let k = choose|k: int| 0 <= k < on_date.len() && on_date[k] == s;
            assert(spec_group_get(sites, s.date) is Some);
            assert(prev.spec_get(s.date) == Some(on_date));
            assert(spec_known_available(on_date, s.site_id@)) by {
                assert(on_date[k].site_id@ == s.site_id@ && on_date[k].available);
            }
        }
    }
    lemma_filter_empty(sites, pred);
}

/// A worker that writes a snapshot and immediately re-reads the same
/// window sees an empty diff: replaying the same upstream snapshot makes
/// no site count as new, hence produces no notifications.
pub proof fn lemma_replay_after_write(
    before: crate::store::AvailabilityStore,
    after: crate::store::AvailabilityStore,
    avail: CampgroundAvailability,
    from: crate::dates::Date,
    to: crate::dates::Date,
    prev: Snapshot,
)
    requires
        crate::store::snapshot_written(before, after, avail),
        forall|i: int|
            0 <= i < avail.available_sites@.len() ==> from.spec_le(
                (#[trigger] avail.available_sites@[i]).date,
            ) && avail.available_sites@[i].date.spec_le(to),
        forall|d: crate::dates::Date| #[trigger]
            prev.spec_get(d) == crate::store::spec_read_at(after, avail.campground_id@, from, to, d),
    ensures
        avail.available_sites@.filter(
            |s: SiteAvailability| spec_site_is_new(prev, s),
        ).len() == 0,
{
    let sites = avail.available_sites@;
    assert forall|d: crate::dates::Date|
        #[trigger] spec_group_get(sites, d) is Some implies prev.spec_get(d) == spec_group_get(
        sites,
        d,
    ) by {
        let on_date = sites_on(sites, d);
        crate::snapshot::lemma_filter_elements(sites, |s: SiteAvailability| s.date == d, 0);
        let i = choose|i: int| 0 <= i < sites.len() && #[trigger] sites[i] == on_date[0];
        sites.lemma_filter_pred(|s: SiteAvailability| s.date == d, 0);
        assert(from.spec_le(d) && d.spec_le(to));
        crate::store::lemma_write_then_read(before, after, avail, from, to, d);
    }
    lemma_replay_diff_empty(prev, avail);
}

} // verus!
