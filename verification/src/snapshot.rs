//! Per-date grouping of a campground snapshot: an association from dates
//! to the sites reported for that date, used as the previous-state input
//! of the diff engine and as the shape of cache reads.

use vstd::prelude::*;

use crate::dates::Date;
use crate::types::{CampgroundAvailability, SiteAvailability};

verus! {

/// The sites one poll reported for a single date.
#[derive(Clone, Debug)]
pub struct DailySites {
    pub date: Date,
    pub sites: Vec<SiteAvailability>,
}

/// A snapshot keyed by date: each date appears at most once.
#[derive(Clone, Debug)]
pub struct Snapshot {
    pub days: Vec<DailySites>,
}

/// Sites of `sites` that fall on date `d`, in order.
pub open spec fn sites_on(sites: Seq<SiteAvailability>, d: Date) -> Seq<SiteAvailability> {
    sites.filter(|s: SiteAvailability| s.date == d)
}

/// First entry of `days` for date `d`, if any.
pub open spec fn spec_get_from(days: Seq<DailySites>, d: Date) -> Option<Seq<SiteAvailability>>
    decreases days.len(),
{
    if days.len() == 0 {
        None
    } else if days[0].date == d {
        Some(days[0].sites@)
    } else {
        spec_get_from(days.drop_first(), d)
    }
}

/// The per-date grouping of a site list: the sites on `d`, or `None` when
/// no site falls on `d`.
pub open spec fn spec_group_get(sites: Seq<SiteAvailability>, d: Date) -> Option<
    Seq<SiteAvailability>,
> {
    if sites_on(sites, d).len() > 0 {
        Some(sites_on(sites, d))
    } else {
        None
    }
}

impl Snapshot {
    /// Each date appears at most once.
    pub open spec fn wf(self) -> bool {
        forall|i: int, j: int|
            0 <= i < j < self.days@.len() ==> (#[trigger] self.days@[i]).date != (
            #[trigger] self.days@[j]).date
    }

    /// Sites stored for date `d`, if any.
    pub open spec fn spec_get(self, d: Date) -> Option<Seq<SiteAvailability>> {
        spec_get_from(self.days@, d)
    }

    /// An empty snapshot.
    pub fn new() -> (r: Snapshot)
        ensures
            r.wf(),
            forall|d: Date| #[trigger] r.spec_get(d) is None,
            r.days@.len() == 0,
    {
        Snapshot { days: Vec::new() }
    }

    /// Look up the sites stored for date `d`.
    #[verifier::loop_isolation(false)]
    pub fn get(&self, d: &Date) -> (r: Option<&Vec<SiteAvailability>>)
        ensures
            match r {
                Some(v) => self.spec_get(*d) == Some(v@),
                None => self.spec_get(*d) is None,
            },
    {
        proof {
            assert(self.days@.skip(0) =~= self.days@);
        }
        let mut i: usize = 0;
        while i < self.days.len()
            invariant
                0 <= i <= self.days@.len(),
                spec_get_from(self.days@, *d) == spec_get_from(self.days@.skip(i as int), *d),
            decreases self.days@.len() - i,
        {
            proof {
                assert(self.days@.skip(i as int)[0] == self.days@[i as int]);
                assert(self.days@.skip(i as int).drop_first() =~= self.days@.skip(i + 1));
            }
            if self.days[i].date == *d {
                return Some(&self.days[i].sites);
            }
            i = i + 1;
        }
        None
    }
}

pub proof fn lemma_filter_push<A>(s: Seq<A>, x: A, pred: spec_fn(A) -> bool)
    ensures
        s.push(x).filter(pred) == if pred(x) {
            s.filter(pred).push(x)
        } else {
            s.filter(pred)
        },
{
    reveal(Seq::filter);
    assert(s.push(x).drop_last() =~= s);
    assert(s.push(x).last() == x);
}

/// A sequence with no matching element filters to empty.
pub proof fn lemma_filter_empty<A>(s: Seq<A>, pred: spec_fn(A) -> bool)
    requires
        forall|i: int| 0 <= i < s.len() ==> !pred(#[trigger] s[i]),
    ensures
        s.filter(pred).len() == 0,
    decreases s.len(),
{
    reveal(Seq::filter);
    if s.len() > 0 {
        assert(forall|i: int|
            0 <= i < s.drop_last().len() ==> #[trigger] s.drop_last()[i] == s[i]);
        lemma_filter_empty(s.drop_last(), pred);
    }
}

pub proof fn lemma_get_found(days: Seq<DailySites>, i: int, d: Date)
    requires
        0 <= i < days.len(),
        days[i].date == d,
    ensures
        spec_get_from(days, d) is Some,
    decreases days.len(),
{
    if i > 0 && days[0].date != d {
        assert(days.drop_first()[i - 1] == days[i]);
        lemma_get_found(days.drop_first(), i - 1, d);
    }
}

/// Each element a filter keeps comes from the filtered sequence.
pub proof fn lemma_filter_elements<A>(s: Seq<A>, pred: spec_fn(A) -> bool, k: int)
    requires
        0 <= k < s.filter(pred).len(),
    ensures
        exists|i: int| 0 <= i < s.len() && #[trigger] s[i] == s.filter(pred)[k],
    decreases s.len(),
{
    reveal(Seq::filter);
    if s.len() > 0 {
        let dropped = s.drop_last();
        if k < dropped.filter(pred).len() {
            lemma_filter_elements(dropped, pred, k);
            let i = choose|i: int| 0 <= i < dropped.len() && #[trigger] dropped[i] == dropped.filter(pred)[k];
            assert(s[i] == s.filter(pred)[k]);
        } else {
            assert(s[s.len() - 1] == s.filter(pred)[k]);
        }
    }
}

/// A stored date is the date of some entry.
pub proof fn lemma_get_exists(days: Seq<DailySites>, d: Date)
    requires
        spec_get_from(days, d) is Some,
    ensures
        exists|m: int| 0 <= m < days.len() && (#[trigger] days[m]).date == d,
    decreases days.len(),
{
    if days.len() > 0 {
        if days[0].date == d {
            assert(days[0].date == d);
        } else {
            lemma_get_exists(days.drop_first(), d);
            let m = choose|m: int|
                0 <= m < days.drop_first().len() && (#[trigger] days.drop_first()[m]).date == d;
            assert(days[m + 1].date == d);
        }
    }
}

/// The entry under date `d`, given its index and that no earlier entry
/// carries the date.
pub proof fn lemma_get_at(days: Seq<DailySites>, i: int, d: Date)
    requires
        0 <= i < days.len(),
        days[i].date == d,
        forall|k: int| 0 <= k < i ==> (#[trigger] days[k]).date != d,
    ensures
        spec_get_from(days, d) == Some(days[i].sites@),
    decreases days.len(),
{
    if i > 0 {
        assert(days.drop_first()[i - 1] == days[i]);
        assert(forall|k: int|
            0 <= k < i - 1 ==> #[trigger] days.drop_first()[k] == days[k + 1]);
        lemma_get_at(days.drop_first(), i - 1, d);
    }
}

proof fn lemma_get_none(days: Seq<DailySites>, d: Date)
    requires
        forall|k: int| 0 <= k < days.len() ==> (#[trigger] days[k]).date != d,
    ensures
        spec_get_from(days, d) is None,
    decreases days.len(),
{
    if days.len() > 0 {
        assert(forall|k: int|
            0 <= k < days.drop_first().len() ==> #[trigger] days.drop_first()[k] == days[k + 1]);
        lemma_get_none(days.drop_first(), d);
    }
}

pub proof fn lemma_get_after_push(days: Seq<DailySites>, day: DailySites, d: Date)
    ensures
        spec_get_from(days.push(day), d) == if spec_get_from(days, d) is Some {
            spec_get_from(days, d)
        } else if day.date == d {
            Some(day.sites@)
        } else {
            None
        },
    decreases days.len(),
{
    if days.len() == 0 {
        assert(days.push(day)[0] == day);
        assert(days.push(day).drop_first() =~= Seq::<DailySites>::empty());
        assert(spec_get_from(days.push(day).drop_first(), d) is None);
        assert(spec_get_from(days, d) is None);
    } else {
        assert(days.push(day)[0] == days[0]);
        assert(days.push(day).drop_first() =~= days.drop_first().push(day));
        lemma_get_after_push(days.drop_first(), day, d);
        if days[0].date == d {
            assert(spec_get_from(days.push(day), d) == Some(days[0].sites@));
            assert(spec_get_from(days, d) == Some(days[0].sites@));
        } else {
            assert(spec_get_from(days.push(day), d) == spec_get_from(
                days.drop_first().push(day),
                d,
            ));
            assert(spec_get_from(days, d) == spec_get_from(days.drop_first(), d));
        }
    }
}

proof fn lemma_get_after_update(days: Seq<DailySites>, j: int, day: DailySites, d: Date)
    requires
        0 <= j < days.len(),
        days[j].date == day.date,
        forall|k: int| 0 <= k < j ==> (#[trigger] days[k]).date != day.date,
    ensures
        spec_get_from(days.update(j, day), d) == if day.date == d {
            Some(day.sites@)
        } else {
            spec_get_from(days, d)
        },
    decreases days.len(),
{
    let upd = days.update(j, day);
    if j == 0 {
        assert(upd[0] == day);
        assert(upd.drop_first() =~= days.drop_first());
    } else {
        assert(upd[0] == days[0]);
        assert(upd.drop_first() =~= days.drop_first().update(j - 1, day));
        assert(forall|k: int|
            0 <= k < j - 1 ==> #[trigger] days.drop_first()[k] == days[k + 1]);
        lemma_get_after_update(days.drop_first(), j - 1, day, d);
    }
}

/// Group the sites of a snapshot by date.  Dates keep the order of first
/// appearance; sites keep their order within each date.
#[verifier::loop_isolation(false)]
pub fn group_by_date(avail: &CampgroundAvailability) -> (r: Snapshot)
    ensures
        r.wf(),
        forall|d: Date| #[trigger] r.spec_get(d) == spec_group_get(avail.available_sites@, d),
{
    let sites = &avail.available_sites;
    let mut r = Snapshot::new();
    let mut i: usize = 0;
    while i < sites.len()
        invariant
            0 <= i <= sites@.len(),
            r.wf(),
            forall|d: Date| #[trigger]
                spec_get_from(r.days@, d) == spec_group_get(sites@.subrange(0, i as int), d),
        decreases sites@.len() - i,
    {
        let site = &sites[i];
        let ghost pre = sites@.subrange(0, i as int);
        let ghost post = sites@.subrange(0, i + 1 as int);
        proof {
            assert(post =~= pre.push(sites@[i as int]));
            assert forall|d: Date| #[trigger]
                sites_on(post, d) == (if d == site.date {
                    sites_on(pre, d).push(*site)
                } else {
                    sites_on(pre, d)
                }) by {
                lemma_filter_push(pre, sites@[i as int], |s: SiteAvailability| s.date == d);
            }
        }
        // find the day entry for this site's date
        let mut j: usize = 0;
        let mut found = false;
        while j < r.days.len() && !found
            invariant
                0 <= j <= r.days@.len(),
                found ==> j < r.days@.len() && r.days@[j as int].date == site.date,
                forall|k: int| 0 <= k < j ==> (#[trigger] r.days@[k]).date != site.date,
            decreases r.days@.len() - j, (if found { 0int } else { 1int }),
        {
            if r.days[j].date == site.date {
                found = true;
            } else {
                j = j + 1;
            }
        }
        if found {
            let ghost days0 = r.days@;
            let mut day = r.days.remove(j);
            day.sites.push(site.duplicate());
            r.days.insert(j, day);
            proof {
                assert(r.days@ =~= days0.update(j as int, day));
                assert(forall|k: int|
                    0 <= k < days0.len() ==> (#[trigger] r.days@[k]).date == days0[k].date);
                assert forall|d: Date| #[trigger]
                    spec_get_from(r.days@, d) == spec_group_get(post, d) by {
                    lemma_get_after_update(days0, j as int, day, d);
                    assert(spec_get_from(days0, d) == spec_group_get(pre, d));
                    if d == site.date {
                        lemma_get_at(days0, j as int, d);
                        assert(days0[j as int].sites@ == sites_on(pre, d));
                        assert(day.sites@ == sites_on(pre, d).push(*site));
                    }
                }
            }
        } else {
            // no entry for this date yet
            let mut day_sites: Vec<SiteAvailability> = Vec::new();
            day_sites.push(site.duplicate());
            let day = DailySites { date: site.date, sites: day_sites };
            let ghost days0 = r.days@;
            proof {
                lemma_get_none(days0, site.date);
            }
            r.days.push(day);
            proof {
                assert forall|d: Date| #[trigger]
                    spec_get_from(r.days@, d) == spec_group_get(post, d) by {
                    lemma_get_after_push(days0, day, d);
                    assert(spec_get_from(days0, d) == spec_group_get(pre, d));
                    if d == site.date {
                        assert(sites_on(pre, d).len() == 0);
                        assert(day.sites@ =~= sites_on(pre, d).push(*site));
                    }
                }
                assert forall|a: int, b: int|
                    0 <= a < b < r.days@.len() implies (#[trigger] r.days@[a]).date != (
                #[trigger] r.days@[b]).date by {
                    if b == r.days@.len() - 1 {
                        assert(r.days@[a] == days0[a]);
                        if days0[a].date == site.date {
                            lemma_get_found(days0, a, site.date);
                        }
                    } else {
                        assert(r.days@[a] == days0[a]);
                        assert(r.days@[b] == days0[b]);
                    }
                }
            }
        }
        i = i + 1;
    }
    proof {
        assert(sites@.subrange(0, i as int) =~= sites@);
    }
    r
}

} // verus!
