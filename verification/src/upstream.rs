//! The upstream client's pure half: the shapes the reservation service
//! answers with, the per-campsite parsing of availability maps into site
//! records, month-anchor computation for window requests, and request
//! parameter building.  The HTTP round trips live in the runner.

use vstd::prelude::*;

use crate::codec::{spec_decode_status, spec_parse_date_prefix, decode_status, parse_date_prefix};
use crate::dates::{lemma_day_order_gives_month_order, Date};
use crate::text::{iso_date_string, spec_iso_date};
use crate::types::{CampgroundAvailability, SiteAvailability};

verus! {

/// One campsite's availability map from the monthly endpoint: date-time
/// keys to status strings, with optional descriptive fields.
pub struct CampsiteAvailabilityData {
    pub availabilities: Vec<(String, String)>,
    pub campsite_id: Option<String>,
    pub campsite_type: Option<String>,
    pub campsite_loop: Option<String>,
}

/// The monthly availability endpoint's payload: campsite id to its data.
pub struct RecGovInternalAvailabilityResponse {
    pub campsites: Vec<(String, CampsiteAvailabilityData)>,
}

/// An availability entry is kept when its date-time key parses and the
/// date falls inside the requested window.
pub open spec fn spec_entry_kept(e: (String, String), start: Date, end: Date) -> bool {
    match spec_parse_date_prefix(e.0@) {
        Some(d) => start.spec_le(d) && d.spec_le(end),
        None => false,
    }
}

/// `sites` is exactly the parsing of the kept entries of one campsite's
/// availability map: one site per kept entry, in order, carrying the
/// campsite id, the given display name, the entry's date and its decoded
/// status.
pub open spec fn spec_parsed_sites(
    cid: Seq<char>,
    name: Seq<char>,
    entries: Seq<(String, String)>,
    sites: Seq<SiteAvailability>,
    start: Date,
    end: Date,
) -> bool {
    let kept = entries.filter(|e: (String, String)| spec_entry_kept(e, start, end));
    &&& sites.len() == kept.len()
    &&& forall|k: int|
        0 <= k < sites.len() ==> {
            let e = kept[k];
            let d = spec_parse_date_prefix(e.0@).unwrap();
            &&& (#[trigger] sites[k]).site_id@ == cid
            &&& sites[k].site_name@ == name
            &&& sites[k].date == d
            &&& sites[k].available == spec_decode_status(e.1@).0
            &&& sites[k].price_cents == spec_decode_status(e.1@).1
            &&& sites[k].wf()
            &&& start.spec_le(d) && d.spec_le(end)
        }
}

/// Parse one campsite's availability map into site records: entries with
/// unreadable dates or dates outside the window are dropped; each kept
/// entry decodes through the status table.  The site name falls back to
/// the campsite id when absent.
#[verifier::loop_isolation(false)]
pub fn parse_availability_data(
    campsite_id: &String,
    campsite_name: &Option<String>,
    availabilities: &Vec<(String, String)>,
    start: &Date,
    end: &Date,
) -> (r: Vec<SiteAvailability>)
    requires
        start.wf(),
        end.wf(),
    ensures
        spec_parsed_sites(
            campsite_id@,
            match campsite_name {
                Some(n) => n@,
                None => campsite_id@,
            },
            availabilities@,
            r@,
            *start,
            *end,
        ),
{
    let ghost pred = |e: (String, String)| spec_entry_kept(e, *start, *end);
    let ghost name: Seq<char> = match campsite_name {
        Some(n) => n@,
        None => campsite_id@,
    };
    let mut r: Vec<SiteAvailability> = Vec::new();
    let mut i: usize = 0;
    while i < availabilities.len()
        invariant
            0 <= i <= availabilities@.len(),
            spec_parsed_sites(
                campsite_id@,
                name,
                availabilities@.subrange(0, i as int),
                r@,
                *start,
                *end,
            ),
        decreases availabilities@.len() - i,
    {
        let entry = &availabilities[i];
        let ghost pre = availabilities@.subrange(0, i as int);
        proof {
            assert(availabilities@.subrange(0, i + 1 as int) =~= pre.push(
                availabilities@[i as int],
            ));
            crate::snapshot::lemma_filter_push(pre, availabilities@[i as int], pred);
        }
        match parse_date_prefix(entry.0.as_str()) {
            Some(date) => {
                if start.le(&date) && date.le(end) {
                    let (available, price_cents) = decode_status(entry.1.as_str());
                    let site_name = match campsite_name {
                        Some(n) => n.clone(),
                        None => campsite_id.clone(),
                    };
                    let site = SiteAvailability {
                        site_id: campsite_id.clone(),
                        site_name,
                        available,
                        date,
                        price_cents,
                    };
                    r.push(site);
                }
            },
            None => {},
        }
        i = i + 1;
    }
    proof {
        assert(availabilities@.subrange(0, i as int) =~= availabilities@);
    }
    r
}

/// The converted site list of a whole payload: campsite by campsite, in
/// payload order, each contributing exactly its kept entries, named by
/// the campsite's key.
pub open spec fn spec_converted(
    campsites: Seq<(String, CampsiteAvailabilityData)>,
    sites: Seq<SiteAvailability>,
    start: Date,
    end: Date,
) -> bool
    decreases campsites.len(),
{
    if campsites.len() == 0 {
        sites.len() == 0
    } else {
        let kept = campsites[0].1.availabilities@.filter(
            |e: (String, String)| spec_entry_kept(e, start, end),
        );
        &&& sites.len() >= kept.len()
        &&& spec_parsed_sites(
            campsites[0].0@,
            campsites[0].0@,
            campsites[0].1.availabilities@,
            sites.take(kept.len() as int),
            start,
            end,
        )
        &&& spec_converted(campsites.drop_first(), sites.skip(kept.len() as int), start, end)
    }
}

proof fn lemma_converted_push(
    cs: Seq<(String, CampsiteAvailabilityData)>,
    c: (String, CampsiteAvailabilityData),
    s: Seq<SiteAvailability>,
    b: Seq<SiteAvailability>,
    start: Date,
    end: Date,
)
    requires
        spec_converted(cs, s, start, end),
        spec_parsed_sites(c.0@, c.0@, c.1.availabilities@, b, start, end),
    ensures
        spec_converted(cs.push(c), s + b, start, end),
    decreases cs.len(),
{
    let kept_c = c.1.availabilities@.filter(
        |e: (String, String)| spec_entry_kept(e, start, end),
    );
    if cs.len() == 0 {
        assert(s.len() == 0);
        assert(cs.push(c)[0] == c);
        assert(b.len() == kept_c.len());
        assert((s + b).take(kept_c.len() as int) =~= b);
        assert((s + b).skip(kept_c.len() as int) =~= Seq::<SiteAvailability>::empty());
        assert(cs.push(c).drop_first() =~= Seq::<(String, CampsiteAvailabilityData)>::empty());
        assert(spec_converted(
            cs.push(c).drop_first(),
            (s + b).skip(kept_c.len() as int),
            start,
            end,
        ));
        assert(spec_parsed_sites(
            c.0@,
            c.0@,
            c.1.availabilities@,
            (s + b).take(kept_c.len() as int),
            start,
            end,
        ));
        assert((s + b).len() >= kept_c.len());
        assert(spec_converted(cs.push(c), s + b, start, end));
    } else {
        let kept0 = cs[0].1.availabilities@.filter(
            |e: (String, String)| spec_entry_kept(e, start, end),
        );
        let k0 = kept0.len() as int;
        assert(cs.push(c)[0] == cs[0]);
        assert((s + b).take(k0) =~= s.take(k0));
        assert((s + b).skip(k0) =~= s.skip(k0) + b);
        lemma_converted_push(cs.drop_first(), c, s.skip(k0), b, start, end);
        assert(cs.push(c).drop_first() =~= cs.drop_first().push(c));
    }
}

/// Convert the monthly endpoint's payload into one campground snapshot:
/// campsite by campsite, in payload order, each campsite's kept entries
/// become sites named by the campsite's key; the total site count is the
/// number of campsites the endpoint reported.  Every site date falls
/// inside the requested window.
#[verifier::loop_isolation(false)]
pub fn convert_response(
    campground_id: &String,
    response: &RecGovInternalAvailabilityResponse,
    start: &Date,
    end: &Date,
    checked_at: u64,
) -> (r: CampgroundAvailability)
    requires
        start.wf(),
        end.wf(),
    ensures
        r.wf(),
        r.campground_id@ == campground_id@,
        r.total_sites == response.campsites@.len(),
        r.checked_at == checked_at,
        spec_converted(response.campsites@, r.available_sites@, *start, *end),
        forall|k: int|
            0 <= k < r.available_sites@.len() ==> start.spec_le(
                (#[trigger] r.available_sites@[k]).date,
            ) && r.available_sites@[k].date.spec_le(*end),
{
    let mut sites: Vec<SiteAvailability> = Vec::new();
    proof {
        assert(response.campsites@.subrange(0, 0) =~= Seq::<(
            String,
            CampsiteAvailabilityData,
        )>::empty());
    }
    let mut i: usize = 0;
    while i < response.campsites.len()
        invariant
            0 <= i <= response.campsites@.len(),
            spec_converted(
                response.campsites@.subrange(0, i as int),
                sites@,
                *start,
                *end,
            ),
            forall|k: int|
                0 <= k < sites@.len() ==> (#[trigger] sites@[k]).wf() && start.spec_le(
                    sites@[k].date,
                ) && sites@[k].date.spec_le(*end),
        decreases response.campsites@.len() - i,
    {
        let entry = &response.campsites[i];
        let no_name: Option<String> = None;
        let mut parsed = parse_availability_data(
            &entry.0,
            &no_name,
            &entry.1.availabilities,
            start,
            end,
        );
        let ghost sites0 = sites@;
        let ghost parsed0 = parsed@;
        sites.append(&mut parsed);
        proof {
            assert(sites@ == sites0 + parsed0);
            lemma_converted_push(
                response.campsites@.subrange(0, i as int),
                response.campsites@[i as int],
                sites0,
                parsed0,
                *start,
                *end,
            );
            assert(response.campsites@.subrange(0, i + 1 as int) =~= response.campsites@.subrange(
                0,
                i as int,
            ).push(response.campsites@[i as int]));
            assert forall|k: int|
                0 <= k < sites@.len() implies (#[trigger] sites@[k]).wf() && start.spec_le(
                sites@[k].date,
            ) && sites@[k].date.spec_le(*end) by {
                if k < sites0.len() {
                    assert(sites@[k] == sites0[k]);
                } else {
                    assert(sites@[k] == parsed0[k - sites0.len()]);
                    let kept = response.campsites@[i as int].1.availabilities@.filter(
                        |e: (String, String)| spec_entry_kept(e, *start, *end),
                    );
                    assert(parsed0[k - sites0.len()].wf());
                }
            }
        }
        i = i + 1;
    }
    proof {
        assert(response.campsites@.subrange(0, i as int) =~= response.campsites@);
    }
    CampgroundAvailability {
        campground_id: campground_id.clone(),
        available_sites: sites,
        total_sites: response.campsites.len(),
        checked_at,
    }
}

/// The first days of the months a window touches, in order: the anchors
/// the monthly endpoint is called with, one per month from the window's
/// first month through its last.
#[verifier::loop_isolation(false)]
pub fn month_anchors(from: &Date, to: &Date) -> (r: Vec<Date>)
    requires
        from.wf(),
        to.wf(),
        from.spec_le(*to),
    ensures
        r@.len() == to.month_index() - from.month_index() + 1,
        forall|i: int|
            0 <= i < r@.len() ==> (#[trigger] r@[i]).wf() && r@[i].day == 1
                && r@[i].month_index() == from.month_index() + i,
{
    proof {
        lemma_day_order_gives_month_order(*from, *to);
    }
    let mut r: Vec<Date> = Vec::new();
    let mut y: u32 = from.year;
    let mut m: u32 = from.month;
    while y < to.year || (y == to.year && m <= to.month)
        invariant
            1 <= m <= 12,
            from.year <= y <= to.year || (y == to.year + 1 && m == 1),
            y * 12 + m - 13 == from.month_index() + r@.len(),
            y * 12 + m - 13 <= to.month_index() + 1,
            forall|i: int|
                0 <= i < r@.len() ==> (#[trigger] r@[i]).wf() && r@[i].day == 1
                    && r@[i].month_index() == from.month_index() + i,
        decreases to.month_index() + 1 - (y * 12 + m - 13),
    {
        r.push(Date { year: y, month: m, day: 1 });
        if m == 12 {
            m = 1;
            y = y + 1;
        } else {
            m = m + 1;
        }
    }
    r
}

/// Every date of the window has its month's anchor in the anchor list: a
/// window straddling a month boundary is covered on both sides.
pub proof fn lemma_anchors_cover_window(anchors: Seq<Date>, from: Date, to: Date, d: Date)
    requires
        from.wf(),
        to.wf(),
        d.wf(),
        from.spec_le(d),
        d.spec_le(to),
        anchors.len() == to.month_index() - from.month_index() + 1,
        forall|i: int|
            0 <= i < anchors.len() ==> (#[trigger] anchors[i]).wf() && anchors[i].day == 1
                && anchors[i].month_index() == from.month_index() + i,
    ensures
        exists|i: int|
            0 <= i < anchors.len() && (#[trigger] anchors[i]).year == d.year && anchors[i].month
                == d.month,
{
    lemma_day_order_gives_month_order(from, d);
    lemma_day_order_gives_month_order(d, to);
    let i = d.month_index() - from.month_index();
    assert(0 <= i < anchors.len());
    assert(anchors[i].month_index() == d.month_index());
    assert(anchors[i].year * 12 + anchors[i].month == d.year * 12 + d.month);
    assert(anchors[i].year == d.year && anchors[i].month == d.month);
}

/// The `start_date` parameter of a monthly request: the anchor day at
/// midnight, `YYYY-MM-DDT00:00:00.000Z`.
pub fn month_start_param(anchor: &Date) -> (r: String)
    requires
        anchor.wf(),
    ensures
        r@ == spec_iso_date(*anchor) + "T00:00:00.000Z"@,
{
    let mut s = iso_date_string(anchor);
    s.append("T00:00:00.000Z");
    s
}

/// Query parameters of a facility search: fixed paging, the query, then
/// the optional state, activity and API-key parameters, in that order.
pub fn build_search_params(
    query: &String,
    state: &Option<String>,
    activity: &Option<String>,
    api_key: &Option<String>,
) -> (r: Vec<(String, String)>)
    ensures
        r@.len() == 3 + (if state is Some {
            1int
        } else {
            0int
        }) + (if activity is Some {
            1int
        } else {
            0int
        }) + (if api_key is Some {
            1int
        } else {
            0int
        }),
        r@[0].0@ == "limit"@ && r@[0].1@ == "50"@,
        r@[1].0@ == "offset"@ && r@[1].1@ == "0"@,
        r@[2].0@ == "query"@ && r@[2].1@ == query@,
        state is Some ==> r@[3].0@ == "state"@ && r@[3].1@ == state.unwrap()@,
        activity is Some ==> {
            let i = 3 + if state is Some {
                1int
            } else {
                0int
            };
            r@[i].0@ == "activity"@ && r@[i].1@ == activity.unwrap()@
        },
        api_key is Some ==> r@[r@.len() - 1].0@ == "apikey"@ && r@[r@.len() - 1].1@
            == api_key.unwrap()@,
{
    let mut r: Vec<(String, String)> = Vec::new();
    r.push((String::from_str("limit"), String::from_str("50")));
    r.push((String::from_str("offset"), String::from_str("0")));
    r.push((String::from_str("query"), query.clone()));
    match state {
        Some(st) => {
            r.push((String::from_str("state"), st.clone()));
        },
        None => {},
    }
    match activity {
        Some(act) => {
            r.push((String::from_str("activity"), act.clone()));
        },
        None => {},
    }
    match api_key {
        Some(key) => {
            r.push((String::from_str("apikey"), key.clone()));
        },
        None => {},
    }
    r
}

} // verus!
