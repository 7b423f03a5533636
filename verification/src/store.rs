//! The availability cache: one durable row per (campground, date) key,
//! with idempotent success and error upserts and range reads of the
//! successful rows, the shape the diff engine consumes.

use vstd::prelude::*;

use crate::dates::Date;
use crate::snapshot::{
    group_by_date, lemma_filter_elements, lemma_get_at, lemma_get_exists, sites_on,
    spec_get_from, spec_group_get, DailySites, Snapshot,
};
use crate::types::{
    duplicate_sites, AvailabilityRecord, CampgroundAvailability, CheckStatus, SiteAvailability,
};

verus! {

/// Number of available sites in a site list.
pub open spec fn spec_count_available(sites: Seq<SiteAvailability>) -> int {
    sites.filter(|s: SiteAvailability| s.available).len() as int
}

/// Count the available sites of a list.
#[verifier::loop_isolation(false)]
pub fn count_available(sites: &Vec<SiteAvailability>) -> (r: usize)
    ensures
        r == spec_count_available(sites@),
        r <= sites@.len(),
{
    proof {
        sites@.lemma_filter_len(|s: SiteAvailability| s.available);
    }
    let mut r: usize = 0;
    let mut i: usize = 0;
    while i < sites.len()
        invariant
            0 <= i <= sites@.len(),
            r == spec_count_available(sites@.subrange(0, i as int)),
            r <= i,
        decreases sites@.len() - i,
    {
        let ghost pre = sites@.subrange(0, i as int);
        proof {
            reveal(Seq::filter);
            assert(sites@.subrange(0, i + 1 as int).drop_last() =~= pre);
            pre.lemma_filter_len(|s: SiteAvailability| s.available);
        }
        if sites[i].available {
            r = r + 1;
        }
        i = i + 1;
    }
    proof {
        assert(sites@.subrange(0, i as int) =~= sites@);
    }
    r
}

/// `rec` sits under the (campground, date) key.
pub open spec fn key_matches(rec: AvailabilityRecord, cg: Seq<char>, d: Date) -> bool {
    rec.campground_id@ == cg && rec.date == d
}

/// First record of `records` under the key, if any.
pub open spec fn spec_find_from(
    records: Seq<AvailabilityRecord>,
    cg: Seq<char>,
    d: Date,
) -> Option<AvailabilityRecord>
    decreases records.len(),
{
    if records.len() == 0 {
        None
    } else if key_matches(records[0], cg, d) {
        Some(records[0])
    } else {
        spec_find_from(records.drop_first(), cg, d)
    }
}

/// The freshly written row of a successful check: success status, the
/// sites of that date, their counts, the check time, and no error.
pub open spec fn fresh_success_row(
    rec: AvailabilityRecord,
    cg: Seq<char>,
    d: Date,
    sites: Seq<SiteAvailability>,
    checked_at: u64,
) -> bool {
    &&& rec.campground_id@ == cg
    &&& rec.date == d
    &&& rec.check_status == CheckStatus::Success
    &&& rec.availability_data is Some
    &&& rec.availability_data.unwrap()@ == sites
    &&& rec.error_message is None
    &&& rec.available_sites == spec_count_available(sites)
    &&& rec.total_sites == sites.len()
    &&& rec.last_checked == checked_at
}

/// The durable availability cache.
pub struct AvailabilityStore {
    pub records: Vec<AvailabilityRecord>,
}

impl AvailabilityStore {
    /// Every row is well formed and every (campground, date) key holds at
    /// most one row.
    pub open spec fn wf(self) -> bool {
        &&& forall|i: int| 0 <= i < self.records@.len() ==> (#[trigger] self.records@[i]).wf()
        &&& forall|i: int, j: int|
            0 <= i < j < self.records@.len() ==> !key_matches(
                #[trigger] self.records@[i],
                (#[trigger] self.records@[j]).campground_id@,
                self.records@[j].date,
            )
    }

    /// The row under a key, if any.
    pub open spec fn spec_find(self, cg: Seq<char>, d: Date) -> Option<AvailabilityRecord> {
        spec_find_from(self.records@, cg, d)
    }

    /// An empty cache.
    pub fn new() -> (r: Self)
        ensures
            r.wf(),
            forall|cg: Seq<char>, d: Date| #[trigger] r.spec_find(cg, d) is None,
            r.records@.len() == 0,
    {
        AvailabilityStore { records: Vec::new() }
    }

    /// Index of the row under the key, if any.
    #[verifier::loop_isolation(false)]
    fn find_index(&self, cg: &String, d: &Date) -> (r: Option<usize>)
        ensures
            match r {
                Some(i) => i < self.records@.len() && key_matches(self.records@[i as int], cg@, *d)
                    && forall|k: int|
                    0 <= k < i ==> !key_matches(#[trigger] self.records@[k], cg@, *d),
                None => forall|k: int|
                    0 <= k < self.records@.len() ==> !key_matches(
                        #[trigger] self.records@[k],
                        cg@,
                        *d,
                    ),
            },
    {
        let mut i: usize = 0;
        while i < self.records.len()
            invariant
                0 <= i <= self.records@.len(),
                forall|k: int| 0 <= k < i ==> !key_matches(#[trigger] self.records@[k], cg@, *d),
            decreases self.records@.len() - i,
        {
            if self.records[i].campground_id == *cg && self.records[i].date == *d {
                return Some(i);
            }
            i = i + 1;
        }
        None
    }

    /// Look up the row under a key.
    pub fn find(&self, cg: &String, d: &Date) -> (r: Option<&AvailabilityRecord>)
        ensures
            match r {
                Some(rec) => self.spec_find(cg@, *d) == Some(*rec),
                None => self.spec_find(cg@, *d) is None,
            },
    {
        match self.find_index(cg, d) {
            Some(i) => {
                proof {
                    lemma_find_at(self.records@, i as int, cg@, *d);
                }
                Some(&self.records[i])
            },
            None => {
                proof {
                    lemma_find_none(self.records@, cg@, *d);
                }
                None
            },
        }
    }
}

proof fn lemma_find_at(records: Seq<AvailabilityRecord>, i: int, cg: Seq<char>, d: Date)
    requires
        0 <= i < records.len(),
        key_matches(records[i], cg, d),
        forall|k: int| 0 <= k < i ==> !key_matches(#[trigger] records[k], cg, d),
    ensures
        spec_find_from(records, cg, d) == Some(records[i]),
    decreases records.len(),
{
    if i > 0 {
        assert(records.drop_first()[i - 1] == records[i]);
        assert(forall|k: int|
            0 <= k < i - 1 ==> #[trigger] records.drop_first()[k] == records[k + 1]);
        lemma_find_at(records.drop_first(), i - 1, cg, d);
    }
}

proof fn lemma_find_none(records: Seq<AvailabilityRecord>, cg: Seq<char>, d: Date)
    requires
        forall|k: int| 0 <= k < records.len() ==> !key_matches(#[trigger] records[k], cg, d),
    ensures
        spec_find_from(records, cg, d) is None,
    decreases records.len(),
{
    if records.len() > 0 {
        assert(forall|k: int|
            0 <= k < records.drop_first().len() ==> #[trigger] records.drop_first()[k] == records[k
                + 1]);
        lemma_find_none(records.drop_first(), cg, d);
    }
}

proof fn lemma_find_after_update(
    records: Seq<AvailabilityRecord>,
    j: int,
    rec: AvailabilityRecord,
    cg: Seq<char>,
    d: Date,
)
    requires
        0 <= j < records.len(),
        key_matches(records[j], rec.campground_id@, rec.date),
        forall|k: int|
            0 <= k < j ==> !key_matches(#[trigger] records[k], rec.campground_id@, rec.date),
    ensures
        spec_find_from(records.update(j, rec), cg, d) == if cg == rec.campground_id@ && d
            == rec.date {
            Some(rec)
        } else {
            spec_find_from(records, cg, d)
        },
    decreases records.len(),
{
    let upd = records.update(j, rec);
    if j == 0 {
        assert(upd[0] == rec);
        assert(upd.drop_first() =~= records.drop_first());
    } else {
        assert(upd[0] == records[0]);
        assert(upd.drop_first() =~= records.drop_first().update(j - 1, rec));
        assert(forall|k: int|
            0 <= k < j - 1 ==> #[trigger] records.drop_first()[k] == records[k + 1]);
        lemma_find_after_update(records.drop_first(), j - 1, rec, cg, d);
    }
}

proof fn lemma_find_after_push(
    records: Seq<AvailabilityRecord>,
    rec: AvailabilityRecord,
    cg: Seq<char>,
    d: Date,
)
    ensures
        spec_find_from(records.push(rec), cg, d) == if spec_find_from(records, cg, d) is Some {
            spec_find_from(records, cg, d)
        } else if key_matches(rec, cg, d) {
            Some(rec)
        } else {
            None
        },
    decreases records.len(),
{
    if records.len() == 0 {
        assert(records.push(rec)[0] == rec);
        assert(records.push(rec).drop_first() =~= Seq::<AvailabilityRecord>::empty());
        assert(spec_find_from(records.push(rec).drop_first(), cg, d) is None);
        assert(spec_find_from(records, cg, d) is None);
    } else {
        assert(records.push(rec)[0] == records[0]);
        assert(records.push(rec).drop_first() =~= records.drop_first().push(rec));
        lemma_find_after_push(records.drop_first(), rec, cg, d);
        if key_matches(records[0], cg, d) {
            assert(spec_find_from(records.push(rec), cg, d) == Some(records[0]));
            assert(spec_find_from(records, cg, d) == Some(records[0]));
        } else {
            assert(spec_find_from(records.push(rec), cg, d) == spec_find_from(
                records.drop_first().push(rec),
                cg,
                d,
            ));
            assert(spec_find_from(records, cg, d) == spec_find_from(records.drop_first(), cg, d));
        }
    }
}

impl AvailabilityStore {
    /// Upsert one row, leaving every other key unchanged.
    fn upsert(&mut self, rec: AvailabilityRecord)
        requires
            old(self).wf(),
            rec.wf(),
        ensures
            final(self).wf(),
            final(self).spec_find(rec.campground_id@, rec.date) == Some(rec),
            forall|cg: Seq<char>, d: Date|
                !(cg == rec.campground_id@ && d == rec.date) ==> #[trigger] final(self).spec_find(
                    cg,
                    d,
                ) == old(self).spec_find(cg, d),
    {
        let ghost recs0 = self.records@;
        let idx = self.find_index(&rec.campground_id, &rec.date);
        match idx {
            Some(i) => {
                self.records.remove(i);
                self.records.insert(i, rec);
                proof {
                    assert(self.records@ =~= recs0.update(i as int, rec));
                    assert forall|cg: Seq<char>, d: Date| #[trigger]
                        spec_find_from(self.records@, cg, d) == (if cg == rec.campground_id@ && d
                        == rec.date {
                        Some(rec)
                    } else {
                        spec_find_from(recs0, cg, d)
                    }) by {
                        lemma_find_after_update(recs0, i as int, rec, cg, d);
                    }
                    assert(self.wf()) by {
                        assert forall|a: int, b: int|
                            0 <= a < b < self.records@.len() implies !key_matches(
                            #[trigger] self.records@[a],
                            (#[trigger] self.records@[b]).campground_id@,
                            self.records@[b].date,
                        ) by {
                            if a == i {
                                assert(self.records@[b] == recs0[b]);
                                assert(!key_matches(
                                    recs0[a],
                                    recs0[b].campground_id@,
                                    recs0[b].date,
                                ));
                            } else if b == i {
                                assert(self.records@[a] == recs0[a]);
                                assert(!key_matches(
                                    recs0[a],
                                    recs0[b].campground_id@,
                                    recs0[b].date,
                                ));
                            } else {
                                assert(self.records@[a] == recs0[a]);
                                assert(self.records@[b] == recs0[b]);
                            }
                        }
                    }
                }
            },
            None => {
                self.records.push(rec);
                proof {
                    lemma_find_none(recs0, rec.campground_id@, rec.date);
                    assert forall|cg: Seq<char>, d: Date| #[trigger]
                        spec_find_from(self.records@, cg, d) == (if cg == rec.campground_id@ && d
                        == rec.date {
                        Some(rec)
                    } else {
                        spec_find_from(recs0, cg, d)
                    }) by {
                        lemma_find_after_push(recs0, rec, cg, d);
                        if cg == rec.campground_id@ && d == rec.date {
                            assert(spec_find_from(recs0, cg, d) is None);
                        } else {
                            if !(spec_find_from(recs0, cg, d) is Some) && key_matches(
                                rec,
                                cg,
                                d,
                            ) {
                                assert(cg == rec.campground_id@ && d == rec.date);
                            }
                        }
                    }
                    assert(self.wf()) by {
                        assert forall|a: int, b: int|
                            0 <= a < b < self.records@.len() implies !key_matches(
                            #[trigger] self.records@[a],
                            (#[trigger] self.records@[b]).campground_id@,
                            self.records@[b].date,
                        ) by {
                            if b == self.records@.len() - 1 {
                                assert(self.records@[a] == recs0[a]);
                                assert(self.records@[b] == rec);
                                assert(!key_matches(recs0[a], rec.campground_id@, rec.date));
                            } else {
                                assert(self.records@[a] == recs0[a]);
                                assert(self.records@[b] == recs0[b]);
                            }
                        }
                    }
                }
            },
        }
    }
}

/// A write of `avail` has landed: every date of the snapshot carries its
/// fresh success row; every other key is as before.
pub open spec fn snapshot_written(
    before: AvailabilityStore,
    after: AvailabilityStore,
    avail: CampgroundAvailability,
) -> bool {
    &&& forall|d: Date|
        match spec_group_get(avail.available_sites@, d) {
            Some(sites) => {
                &&& #[trigger] after.spec_find(avail.campground_id@, d) is Some
                &&& fresh_success_row(
                    after.spec_find(avail.campground_id@, d).unwrap(),
                    avail.campground_id@,
                    d,
                    sites,
                    avail.checked_at,
                )
            },
            None => #[trigger] after.spec_find(avail.campground_id@, d) == before.spec_find(
                avail.campground_id@,
                d,
            ),
        }
    &&& forall|cg: Seq<char>, d: Date|
        cg != avail.campground_id@ ==> #[trigger] after.spec_find(cg, d) == before.spec_find(
            cg,
            d,
        )
}

impl AvailabilityStore {
    /// Write one poll's snapshot: upsert a success row for each date the
    /// snapshot covers, clearing any error, and touch nothing else.
    #[verifier::loop_isolation(false)]
    pub fn write_snapshot(&mut self, avail: &CampgroundAvailability)
        requires
            old(self).wf(),
            avail.wf(),
            avail.available_sites@.len() <= 0xFFFF_FFFF,
        ensures
            final(self).wf(),
            snapshot_written(*old(self), *final(self), *avail),
    {
        let grouped = group_by_date(avail);
        let ghost sites = avail.available_sites@;
        let ghost cg = avail.campground_id@;
        let mut k: usize = 0;
        while k < grouped.days.len()
            invariant
                0 <= k <= grouped.days@.len(),
                self.wf(),
                forall|m: int|
                    0 <= m < k ==> {
                        let dm = (#[trigger] grouped.days@[m]).date;
                        &&& self.spec_find(cg, dm) is Some
                        &&& fresh_success_row(
                            self.spec_find(cg, dm).unwrap(),
                            cg,
                            dm,
                            sites_on(sites, dm),
                            avail.checked_at,
                        )
                    },
                forall|d: Date|
                    (forall|m: int| 0 <= m < k ==> (#[trigger] grouped.days@[m]).date != d)
                        ==> #[trigger] self.spec_find(cg, d) == old(self).spec_find(cg, d),
                forall|cg2: Seq<char>, d: Date|
                    cg2 != cg ==> #[trigger] self.spec_find(cg2, d) == old(self).spec_find(cg2, d),
            decreases grouped.days@.len() - k,
        {
            let day = &grouped.days[k];
            proof {
                lemma_get_at(grouped.days@, k as int, day.date);
                assert(grouped.spec_get(day.date) == spec_group_get(sites, day.date));
                assert(spec_get_from(grouped.days@, day.date) == Some(day.sites@));
                assert(spec_group_get(sites, day.date) == Some(day.sites@));
                assert(day.sites@ == sites_on(sites, day.date));
                sites.lemma_filter_len(|s: SiteAvailability| s.date == day.date);
                lemma_filter_elements(sites, |s: SiteAvailability| s.date == day.date, 0);
                let i = choose|i: int|
                    0 <= i < sites.len() && #[trigger] sites[i] == sites_on(sites, day.date)[0];
                sites.lemma_filter_pred(|s: SiteAvailability| s.date == day.date, 0);
                assert(sites[i].wf());
                assert(day.date.wf());
            }
            let n_avail = count_available(&day.sites);
            let rec = AvailabilityRecord {
                campground_id: avail.campground_id.clone(),
                date: day.date,
                available_sites: n_avail as u32,
                total_sites: day.sites.len() as u32,
                availability_data: Some(duplicate_sites(&day.sites)),
                check_status: CheckStatus::Success,
                error_message: None,
                last_checked: avail.checked_at,
            };
            let ghost pre_store = *self;
            proof {
                assert(rec.wf());
                assert(fresh_success_row(rec, cg, day.date, day.sites@, avail.checked_at));
            }
            self.upsert(rec);
            proof {
                assert forall|m: int| 0 <= m < k + 1 implies {
                    let dm = (#[trigger] grouped.days@[m]).date;
                    &&& self.spec_find(cg, dm) is Some
                    &&& fresh_success_row(
                        self.spec_find(cg, dm).unwrap(),
                        cg,
                        dm,
                        sites_on(sites, dm),
                        avail.checked_at,
                    )
                } by {
                    let dm = grouped.days@[m].date;
                    if m == k {
                        assert(self.spec_find(cg, dm) == Some(rec));
                    } else {
                        assert(dm != day.date);
                        assert(self.spec_find(cg, dm) == pre_store.spec_find(cg, dm));
                    }
                }
                assert forall|d: Date|
                    (forall|m: int| 0 <= m < k + 1 ==> (#[trigger] grouped.days@[m]).date
                        != d) implies #[trigger] self.spec_find(cg, d) == old(self).spec_find(
                    cg,
                    d,
                ) by {
                    assert(grouped.days@[k as int].date != d);
                    assert(self.spec_find(cg, d) == pre_store.spec_find(cg, d));
                }
            }
            k = k + 1;
        }
        proof {
            assert forall|d: Date|
                match spec_group_get(sites, d) {
                    Some(day_sites) => {
                        &&& #[trigger] self.spec_find(cg, d) is Some
                        &&& fresh_success_row(
                            self.spec_find(cg, d).unwrap(),
                            cg,
                            d,
                            day_sites,
                            avail.checked_at,
                        )
                    },
                    None => #[trigger] self.spec_find(cg, d) == old(self).spec_find(cg, d),
                } by {
                assert(grouped.spec_get(d) == spec_group_get(sites, d));
                match spec_group_get(sites, d) {
                    Some(day_sites) => {
                        assert(spec_get_from(grouped.days@, d) is Some);
                        lemma_get_exists(grouped.days@, d);
                        let m = choose|m: int|
                            0 <= m < grouped.days@.len() && (#[trigger] grouped.days@[m]).date
                                == d;
                        assert(self.spec_find(cg, d) is Some && fresh_success_row(
                            self.spec_find(cg, d).unwrap(),
                            cg,
                            d,
                            sites_on(sites, d),
                            avail.checked_at,
                        ));
                        assert(day_sites == sites_on(sites, d));
                    },
                    None => {
                        assert forall|m: int|
                            0 <= m < grouped.days@.len() implies (#[trigger] grouped.days@[m]).date
                            != d by {
                            if grouped.days@[m].date == d {
                                lemma_get_at(grouped.days@, m, d);
                            }
                        }
                    },
                }
            }
        }
    }

    /// Record a failed check for one (campground, date) key: status turns
    /// to error with the message and check time; any cached site data of
    /// an earlier success stays; every other key is untouched.
    pub fn write_error(&mut self, cg: &String, date: Date, message: &String, now: u64)
        requires
            old(self).wf(),
            date.wf(),
        ensures
            final(self).wf(),
            final(self).spec_find(cg@, date) is Some,
            ({
                let rec = final(self).spec_find(cg@, date).unwrap();
                &&& rec.campground_id@ == cg@
                &&& rec.date == date
                &&& rec.check_status == CheckStatus::Error
                &&& rec.error_message is Some
                &&& rec.error_message.unwrap()@ == message@
                &&& rec.last_checked == now
                &&& match old(self).spec_find(cg@, date) {
                    Some(prev) => {
                        &&& (rec.availability_data is Some <==> prev.availability_data is Some)
                        &&& (rec.availability_data is Some ==> rec.availability_data.unwrap()@
                            == prev.availability_data.unwrap()@)
                        &&& rec.available_sites == prev.available_sites
                        &&& rec.total_sites == prev.total_sites
                    },
                    None => rec.availability_data is None,
                }
            }),
            forall|cg2: Seq<char>, d: Date|
                !(cg2 == cg@ && d == date) ==> #[trigger] final(self).spec_find(cg2, d) == old(
                    self,
                ).spec_find(cg2, d),
    {
        let idx = self.find_index(cg, &date);
        let rec = match idx {
            Some(i) => {
                proof {
                    lemma_find_at(self.records@, i as int, cg@, date);
                }
                let prev = &self.records[i];
                AvailabilityRecord {
                    campground_id: cg.clone(),
                    date,
                    available_sites: prev.available_sites,
                    total_sites: prev.total_sites,
                    availability_data: match &prev.availability_data {
                        Some(v) => Some(duplicate_sites(v)),
                        None => None,
                    },
                    check_status: CheckStatus::Error,
                    error_message: Some(message.clone()),
                    last_checked: now,
                }
            },
            None => {
                proof {
                    lemma_find_none(self.records@, cg@, date);
                }
                AvailabilityRecord {
                    campground_id: cg.clone(),
                    date,
                    available_sites: 0,
                    total_sites: 0,
                    availability_data: None,
                    check_status: CheckStatus::Error,
                    error_message: Some(message.clone()),
                    last_checked: now,
                }
            },
        };
        proof {
            assert(rec.wf());
            match old(self).spec_find(cg@, date) {
                Some(prev) => {
                    assert(rec.availability_data is Some <==> prev.availability_data is Some);
                    if prev.availability_data is Some {
                        assert(rec.availability_data.unwrap()@ == prev.availability_data.unwrap()@);
                    }
                },
                None => {},
            }
        }
        self.upsert(rec);
    }
}

/// What a range read of the cache yields at date `d`: the sites of the
/// success row under ((campground, d)) when `d` lies in the window, and
/// nothing otherwise.
pub open spec fn spec_read_at(
    store: AvailabilityStore,
    cg: Seq<char>,
    from: Date,
    to: Date,
    d: Date,
) -> Option<Seq<SiteAvailability>> {
    match store.spec_find(cg, d) {
        Some(rec) => if rec.check_status == CheckStatus::Success && from.spec_le(d) && d.spec_le(
            to,
        ) {
            Some(rec.availability_data.unwrap()@)
        } else {
            None
        },
        None => None,
    }
}

impl AvailabilityStore {
    /// Read the successful rows of one campground inside a date window,
    /// grouped by date.
    #[verifier::loop_isolation(false)]
    pub fn read_range(&self, cg: &String, from: &Date, to: &Date) -> (r: Snapshot)
        requires
            self.wf(),
            from.wf(),
            to.wf(),
        ensures
            r.wf(),
            forall|d: Date| #[trigger] r.spec_get(d) == spec_read_at(*self, cg@, *from, *to, d),
    {
        let mut r = Snapshot { days: Vec::new() };
        let mut i: usize = 0;
        while i < self.records.len()
            invariant
                0 <= i <= self.records@.len(),
                r.wf(),
                forall|d: Date| #[trigger]
                    spec_get_from(r.days@, d) == (match spec_find_from(
                        self.records@.subrange(0, i as int),
                        cg@,
                        d,
                    ) {
                        Some(rec) => if rec.check_status == CheckStatus::Success && from.spec_le(d)
                            && d.spec_le(*to) {
                            Some(rec.availability_data.unwrap()@)
                        } else {
                            None
                        },
                        None => None,
                    }),
            decreases self.records@.len() - i,
        {
            let recr = &self.records[i];
            let ghost pre = self.records@.subrange(0, i as int);
            let ghost post = self.records@.subrange(0, i + 1 as int);
            proof {
                assert(post =~= pre.push(self.records@[i as int]));
            }
            let matches_here = recr.campground_id == *cg && matches!(
                recr.check_status,
                CheckStatus::Success,
            ) && from.le(&recr.date) && recr.date.le(to);
            if matches_here {
                let ghost days0 = r.days@;
                let data = match &recr.availability_data {
                    Some(v) => duplicate_sites(v),
                    None => Vec::new(),
                };
                let day = DailySites { date: recr.date, sites: data };
                r.days.push(day);
                proof {
                    // no earlier kept day carries this date: an earlier
                    // kept day comes from an earlier row under the same
                    // key, which uniqueness rules out
                    assert forall|kk: int|
                        0 <= kk < days0.len() implies (#[trigger] days0[kk]).date
                        != recr.date by {
                        if days0[kk].date == recr.date {
                            crate::snapshot::lemma_get_found(days0, kk, recr.date);
                            assert(spec_find_from(pre, cg@, recr.date) is Some);
                            lemma_find_from_exists(pre, cg@, recr.date);
                            let jj = choose|jj: int|
                                0 <= jj < pre.len() && key_matches(
                                    #[trigger] pre[jj],
                                    cg@,
                                    recr.date,
                                );
                            assert(self.records@[jj] == pre[jj]);
                            assert(key_matches(
                                self.records@[jj],
                                self.records@[i as int].campground_id@,
                                self.records@[i as int].date,
                            ));
                        }
                    }
                    assert forall|d: Date| #[trigger]
                        spec_get_from(r.days@, d) == (match spec_find_from(post, cg@, d) {
                        Some(rec) => if rec.check_status == CheckStatus::Success && from.spec_le(d)
                            && d.spec_le(*to) {
                            Some(rec.availability_data.unwrap()@)
                        } else {
                            None
                        },
                        None => None,
                    }) by {
                        crate::snapshot::lemma_get_after_push(days0, day, d);
                        lemma_find_after_push(pre, self.records@[i as int], cg@, d);
                        if d == recr.date {
                            if spec_find_from(pre, cg@, d) is Some {
                                lemma_find_from_exists(pre, cg@, d);
                                let jj = choose|jj: int|
                                    0 <= jj < pre.len() && key_matches(#[trigger] pre[jj], cg@, d);
                                assert(self.records@[jj] == pre[jj]);
                                assert(key_matches(
                                    self.records@[jj],
                                    self.records@[i as int].campground_id@,
                                    self.records@[i as int].date,
                                ));
                            }
                            assert(spec_get_from(days0, d) is None);
                        }
                    }
                }
            } else {
                proof {
                    assert forall|d: Date| #[trigger]
                        spec_get_from(r.days@, d) == (match spec_find_from(post, cg@, d) {
                        Some(rec) => if rec.check_status == CheckStatus::Success && from.spec_le(d)
                            && d.spec_le(*to) {
                            Some(rec.availability_data.unwrap()@)
                        } else {
                            None
                        },
                        None => None,
                    }) by {
                        lemma_find_after_push(pre, self.records@[i as int], cg@, d);
                    }
                }
            }
            i = i + 1;
        }
        proof {
            assert(self.records@.subrange(0, i as int) =~= self.records@);
        }
        r
    }
}

proof fn lemma_find_from_exists(records: Seq<AvailabilityRecord>, cg: Seq<char>, d: Date)
    requires
        spec_find_from(records, cg, d) is Some,
    ensures
        exists|i: int| 0 <= i < records.len() && key_matches(#[trigger] records[i], cg, d),
    decreases records.len(),
{
    if records.len() > 0 {
        if key_matches(records[0], cg, d) {
        } else {
            lemma_find_from_exists(records.drop_first(), cg, d);
            let i = choose|i: int|
                0 <= i < records.drop_first().len() && key_matches(
                    #[trigger] records.drop_first()[i],
                    cg,
                    d,
                );
            assert(records[i + 1] == records.drop_first()[i]);
            assert(key_matches(records[i + 1], cg, d));
        }
    }
}

/// Every successful row of a well-formed cache carries site data: the
/// invariant the cache keeps for `check_status = success` rows.
pub proof fn lemma_success_rows_have_data(store: AvailabilityStore, i: int)
    requires
        store.wf(),
        0 <= i < store.records@.len(),
        store.records@[i].check_status == CheckStatus::Success,
    ensures
        store.records@[i].availability_data is Some,
        store.records@[i].error_message is None,
{
}

/// Writing a snapshot and reading the same window back yields exactly the
/// written sites, grouped by date: for every date of the window the read
/// returns the snapshot's sites for that date, or nothing where the
/// snapshot had none and the cache held no earlier successful row.
pub proof fn lemma_write_then_read(
    before: AvailabilityStore,
    after: AvailabilityStore,
    avail: CampgroundAvailability,
    from: Date,
    to: Date,
    d: Date,
)
    requires
        snapshot_written(before, after, avail),
        from.spec_le(d),
        d.spec_le(to),
    ensures
        spec_group_get(avail.available_sites@, d) is Some ==> spec_read_at(
            after,
            avail.campground_id@,
            from,
            to,
            d,
        ) == spec_group_get(avail.available_sites@, d),
        spec_group_get(avail.available_sites@, d) is None ==> spec_read_at(
            after,
            avail.campground_id@,
            from,
            to,
            d,
        ) == spec_read_at(before, avail.campground_id@, from, to, d),
{
}

} // verus!
