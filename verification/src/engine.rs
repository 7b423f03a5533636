//! The worker's decision core: the date window a poll must cover, which
//! scans a campground poll serves, the notification fan-out over the
//! newly available sites, and the job bookkeeping after a poll ends.
//! The runner performs the fetches, sleeps and database writes; every
//! value it stores or sends is computed and proved here.

use vstd::prelude::*;

use crate::dates::Date;
use crate::diff::find_new_availability;
use crate::notify::{
    send_availability_notification, spec_attempt_record, spec_should_email, spec_should_sms,
    EmailService, ScanDetails, SmsService,
};
use crate::scheduler::{job_after_error, job_after_success};
use crate::snapshot::Snapshot;
use crate::store::{snapshot_written, AvailabilityStore};
use crate::types::{
    CampgroundAvailability, NotificationRecord, NotificationStatus, PollingJob,
    ScanExecutorConfig, SiteAvailability, User, UserScan, MAX_TIMESTAMP,
};

verus! {

/// The poll window of a scan list: the earliest check-in and the latest
/// check-out, or today twice when there are no scans.
pub open spec fn spec_is_window(scans: Seq<UserScan>, today: Date, from: Date, to: Date) -> bool {
    if scans.len() == 0 {
        from == today && to == today
    } else {
        &&& (exists|i: int| 0 <= i < scans.len() && (#[trigger] scans[i]).check_in_date == from)
        &&& (exists|i: int| 0 <= i < scans.len() && (#[trigger] scans[i]).check_out_date == to)
        &&& forall|i: int|
            0 <= i < scans.len() ==> from.spec_le((#[trigger] scans[i]).check_in_date)
                && scans[i].check_out_date.spec_le(to)
    }
}

/// The date window the upstream poll must cover: the union of the scans'
/// windows, or today alone when no scan is left.
#[verifier::loop_isolation(false)]
pub fn calculate_date_range(scans: &Vec<UserScan>, today: &Date) -> (r: (Date, Date))
    requires
        today.wf(),
        forall|i: int| 0 <= i < scans@.len() ==> (#[trigger] scans@[i]).wf(),
    ensures
        r.0.wf(),
        r.1.wf(),
        r.0.spec_le(r.1),
        spec_is_window(scans@, *today, r.0, r.1),
{
    if scans.len() == 0 {
        return (today.clone(), today.clone());
    }
    let mut from = scans[0].check_in_date;
    let mut to = scans[0].check_out_date;
    let mut i: usize = 1;
    while i < scans.len()
        invariant
            1 <= i <= scans@.len(),
            from.wf(),
            to.wf(),
            exists|k: int| 0 <= k < i && (#[trigger] scans@[k]).check_in_date == from,
            exists|k: int| 0 <= k < i && (#[trigger] scans@[k]).check_out_date == to,
            forall|k: int|
                0 <= k < i ==> from.spec_le((#[trigger] scans@[k]).check_in_date)
                    && scans@[k].check_out_date.spec_le(to),
        decreases scans@.len() - i,
    {
        if scans[i].check_in_date.lt(&from) {
            from = scans[i].check_in_date;
        }
        if to.lt(&scans[i].check_out_date) {
            to = scans[i].check_out_date;
        }
        i = i + 1;
    }
    proof {
        let k = choose|k: int| 0 <= k < scans@.len() && (#[trigger] scans@[k]).check_in_date == from;
        assert(scans@[k].wf());
    }
    (from, to)
}

/// The scans of one campground that a poll serves: active, not past
/// check-out, not expired.
#[verifier::loop_isolation(false)]
pub fn eligible_scans_for_campground(
    scans: &Vec<UserScan>,
    campground_id: &String,
    today: &Date,
    now: u64,
) -> (r: Vec<UserScan>)
    requires
        today.wf(),
        forall|i: int| 0 <= i < scans@.len() ==> (#[trigger] scans@[i]).wf(),
    ensures
        r@ == scans@.filter(
            |s: UserScan| s.campground_id@ == campground_id@ && s.spec_eligible(*today, now),
        ),
{
    let ghost pred = |s: UserScan| s.campground_id@ == campground_id@ && s.spec_eligible(
        *today,
        now,
    );
    let mut r: Vec<UserScan> = Vec::new();
    let mut i: usize = 0;
    while i < scans.len()
        invariant
            0 <= i <= scans@.len(),
            r@ == scans@.subrange(0, i as int).filter(pred),
        decreases scans@.len() - i,
    {
        proof {
            let pre = scans@.subrange(0, i as int);
            assert(scans@.subrange(0, i + 1 as int) =~= pre.push(scans@[i as int]));
            crate::snapshot::lemma_filter_push(pre, scans@[i as int], pred);
        }
        if scans[i].campground_id == *campground_id && scans[i].is_eligible(today, now) {
            r.push(scans[i].duplicate());
        }
        i = i + 1;
    }
    proof {
        assert(scans@.subrange(0, i as int) =~= scans@);
    }
    r
}

/// A site is relevant to a scan when its date lies in the scan's half-open
/// window.
pub open spec fn spec_site_relevant(s: SiteAvailability, check_in: Date, check_out: Date) -> bool {
    check_in.spec_le(s.date) && s.date.spec_lt(check_out)
}

/// The newly available sites inside one scan's window.
#[verifier::loop_isolation(false)]
pub fn filter_relevant_sites(
    new_sites: &Vec<SiteAvailability>,
    check_in: &Date,
    check_out: &Date,
) -> (r: Vec<SiteAvailability>)
    requires
        check_in.wf(),
        check_out.wf(),
        forall|i: int| 0 <= i < new_sites@.len() ==> (#[trigger] new_sites@[i]).wf(),
    ensures
        r@ == new_sites@.filter(
            |s: SiteAvailability| spec_site_relevant(s, *check_in, *check_out),
        ),
{
    let ghost pred = |s: SiteAvailability| spec_site_relevant(s, *check_in, *check_out);
    let mut r: Vec<SiteAvailability> = Vec::new();
    let mut i: usize = 0;
    while i < new_sites.len()
        invariant
            0 <= i <= new_sites@.len(),
            r@ == new_sites@.subrange(0, i as int).filter(pred),
        decreases new_sites@.len() - i,
    {
        proof {
            let pre = new_sites@.subrange(0, i as int);
            assert(new_sites@.subrange(0, i + 1 as int) =~= pre.push(new_sites@[i as int]));
            crate::snapshot::lemma_filter_push(pre, new_sites@[i as int], pred);
        }
        if check_in.le(&new_sites[i].date) && new_sites[i].date.lt(check_out) {
            r.push(new_sites[i].duplicate());
        }
        i = i + 1;
    }
    proof {
        assert(new_sites@.subrange(0, i as int) =~= new_sites@);
    }
    r
}

/// Latch a scan's notification flag: it only moves to `true`, and nothing
/// else of the scan changes but the update stamp.
pub fn mark_notification_sent(scan: &mut UserScan, now: u64)
    ensures
        final (scan).notification_sent,
        final (scan).updated_at == now,
        same_except_notification(*final (scan), *old(scan)),
{
    scan.notification_sent = true;
    scan.updated_at = now;
}

/// Two scan rows agree on everything but the notification latch and the
/// update stamp.
pub open spec fn same_except_notification(a: UserScan, b: UserScan) -> bool {
    &&& a.id == b.id
    &&& a.user_id == b.user_id
    &&& a.campground_id@ == b.campground_id@
    &&& a.check_in_date == b.check_in_date
    &&& a.check_out_date == b.check_out_date
    &&& a.nights == b.nights
    &&& a.status == b.status
    &&& a.created_at == b.created_at
    &&& a.expires_at == b.expires_at
}

/// Every sent record's scan is latched: once a scan has one sent
/// notification record, its `notification_sent` flag is true.
pub open spec fn sent_latch_inv(scans: Seq<UserScan>, log: Seq<NotificationRecord>) -> bool {
    forall|k: int, i: int|
        0 <= k < log.len() && 0 <= i < scans.len() && (#[trigger] log[k]).status
            == NotificationStatus::Sent && log[k].user_scan_id == Some((#[trigger] scans[i]).id)
            ==> scans[i].notification_sent
}

/// A scan is owed a dispatch attempt: it is eligible and unnotified, a
/// new site falls in its window, and its user asked for a wired channel.
pub open spec fn spec_needs_dispatch(
    scan: UserScan,
    users: Seq<User>,
    new_sites: Seq<SiteAvailability>,
    has_email: bool,
    has_sms: bool,
    today: Date,
    now: u64,
) -> bool {
    &&& scan.spec_eligible(today, now)
    &&& !scan.notification_sent
    &&& new_sites.filter(
        |s: SiteAvailability| spec_site_relevant(s, scan.check_in_date, scan.check_out_date),
    ).len() > 0
    &&& exists|u: int|
        0 <= u < users.len() && (#[trigger] users[u]).id == scan.user_id && (spec_should_email(
            users[u],
            has_email,
        ) || spec_should_sms(users[u], has_sms))
}

/// Look a user up by id.
#[verifier::loop_isolation(false)]
fn find_user<'a>(users: &'a Vec<User>, user_id: u64) -> (r: Option<&'a User>)
    ensures
        match r {
            Some(u) => u.id == user_id && exists|i: int|
                0 <= i < users@.len() && #[trigger] users@[i] == *u,
            None => forall|i: int| 0 <= i < users@.len() ==> (#[trigger] users@[i]).id != user_id,
        },
{
    let mut i: usize = 0;
    while i < users.len()
        invariant
            0 <= i <= users@.len(),
            forall|k: int| 0 <= k < i ==> (#[trigger] users@[k]).id != user_id,
        decreases users@.len() - i,
    {
        if users[i].id == user_id {
            return Some(&users[i]);
        }
        i = i + 1;
    }
    None
}

/// Fan notifications out over the newly available sites: for each scan
/// that is eligible, unnotified, and touched by a new site, compose and
/// send through the wired transports, log one record per attempt, and
/// latch the scan once at least one transport succeeded.  Scans and the
/// log change in no other way; with no new sites nothing changes at all.
#[verifier::loop_isolation(false)]
pub fn send_notifications_for_new_availability<E: EmailService, S: SmsService>(
    scans: &mut Vec<UserScan>,
    log: &mut Vec<NotificationRecord>,
    users: &Vec<User>,
    new_sites: &Vec<SiteAvailability>,
    campground_name: &String,
    email_service: Option<&E>,
    sms_service: Option<&S>,
    today: &Date,
    now: u64,
)
    requires
        today.wf(),
        forall|i: int| 0 <= i < old(scans)@.len() ==> (#[trigger] old(scans)@[i]).wf(),
        forall|i: int, j: int|
            0 <= i < j < old(scans)@.len() ==> (#[trigger] old(scans)@[i]).id != (
            #[trigger] old(scans)@[j]).id,
        forall|i: int| 0 <= i < new_sites@.len() ==> (#[trigger] new_sites@[i]).wf(),
        forall|i: int, j: int|
            0 <= i < j < users@.len() ==> (#[trigger] users@[i]).id != (#[trigger] users@[j]).id,
    ensures
        final (scans)@.len() == old(scans)@.len(),
        forall|i: int|
            0 <= i < final (scans)@.len() ==> same_except_notification(
                #[trigger] final (scans)@[i],
                old(scans)@[i],
            ),
        forall|i: int|
            0 <= i < final (scans)@.len() ==> (old(scans)@[i].notification_sent ==> (
            #[trigger] final (scans)@[i]).notification_sent),
        final (log)@.len() >= old(log)@.len(),
        final (log)@.subrange(0, old(log)@.len() as int) == old(log)@,
        forall|k: int|
            old(log)@.len() <= k < final (log)@.len() ==> (#[trigger] final (log)@[k]).wf() && final (
            log)@[k].user_scan_id is Some && final (log)@[k].created_at == now,
        forall|k: int, i: int|
            old(log)@.len() <= k < final (log)@.len() && 0 <= i < final (scans)@.len() && (
            #[trigger] final (log)@[k]).status == NotificationStatus::Sent && final (
            log)@[k].user_scan_id == Some((#[trigger] final (scans)@[i]).id) ==> final (
            scans)@[i].notification_sent,
        forall|i: int|
            0 <= i < old(scans)@.len() && #[trigger] spec_needs_dispatch(
                old(scans)@[i],
                users@,
                new_sites@,
                email_service is Some,
                sms_service is Some,
                *today,
                now,
            ) ==> exists|k: int|
                old(log)@.len() <= k < final (log)@.len() && (#[trigger] final (
                log)@[k]).user_scan_id == Some(old(scans)@[i].id),
        new_sites@.len() == 0 ==> final (scans)@ == old(scans)@ && final (log)@ == old(log)@,
{
    let ghost scans0 = old(scans)@;
    let ghost log0 = old(log)@;
    let ghost has_email = email_service is Some;
    let ghost has_sms = sms_service is Some;
    let n = scans.len();
    let mut i: usize = 0;
    while i < n
        invariant
            0 <= i <= n,
            n == scans@.len() == scans0.len(),
            forall|t: int|
                0 <= t < n ==> same_except_notification(#[trigger] scans@[t], scans0[t]),
            forall|t: int|
                0 <= t < n ==> (scans0[t].notification_sent ==> (
                #[trigger] scans@[t]).notification_sent),
            forall|t: int| 0 <= t < n ==> (#[trigger] scans@[t]).wf(),
            log@.len() >= log0.len(),
            log@.subrange(0, log0.len() as int) == log0,
            forall|k: int|
                log0.len() <= k < log@.len() ==> (#[trigger] log@[k]).wf()
                    && log@[k].user_scan_id is Some && log@[k].created_at == now,
            forall|k: int, t: int|
                log0.len() <= k < log@.len() && 0 <= t < n && (#[trigger] log@[k]).status
                    == NotificationStatus::Sent && log@[k].user_scan_id == Some((
                #[trigger] scans@[t]).id) ==> scans@[t].notification_sent,
            forall|t: int|
                i <= t < n ==> (#[trigger] scans@[t]).notification_sent
                    == scans0[t].notification_sent,
            forall|t: int|
                0 <= t < i && #[trigger] spec_needs_dispatch(
                    scans0[t],
                    users@,
                    new_sites@,
                    has_email,
                    has_sms,
                    *today,
                    now,
                ) ==> exists|k: int|
                    log0.len() <= k < log@.len() && (#[trigger] log@[k]).user_scan_id == Some(
                        scans0[t].id,
                    ),
            new_sites@.len() == 0 ==> scans@ == scans0 && log@ == log0,
        decreases n - i,
    {
        let ghost log_at_entry = log@;
        let relevant = filter_relevant_sites(
            new_sites,
            &scans[i].check_in_date,
            &scans[i].check_out_date,
        );
        proof {
            if new_sites@.len() == 0 {
                crate::snapshot::lemma_filter_empty(
                    new_sites@,
                    |s: SiteAvailability| spec_site_relevant(
                        s,
                        scans@[i as int].check_in_date,
                        scans@[i as int].check_out_date,
                    ),
                );
            }
            // the scan's window and eligibility agree with its original row
            assert(scans@[i as int].check_in_date == scans0[i as int].check_in_date);
            assert(scans@[i as int].check_out_date == scans0[i as int].check_out_date);
        }
        let has_relevant = relevant.len() > 0;
        let already = scans[i].notification_sent;
        let elig = scans[i].is_eligible(today, now);
        let ghost needs = spec_needs_dispatch(
            scans0[i as int],
            users@,
            new_sites@,
            has_email,
            has_sms,
            *today,
            now,
        );
        if has_relevant && !already && elig {
            match find_user(users, scans[i].user_id) {
                Some(user) => {
                    let total = relevant.len();
                    let availability = CampgroundAvailability {
                        campground_id: scans[i].campground_id.clone(),
                        available_sites: relevant,
                        total_sites: total,
                        checked_at: now,
                    };
                    proof {
                        assert forall|k: int|
                            0 <= k < availability.available_sites@.len() implies (
                        #[trigger] availability.available_sites@[k]).wf() by {
                            let pred = |s: SiteAvailability| spec_site_relevant(
                                s,
                                scans@[i as int].check_in_date,
                                scans@[i as int].check_out_date,
                            );
                            crate::snapshot::lemma_filter_elements(new_sites@, pred, k);
                        }
                    }
                    let details = ScanDetails {
                        campground_id: scans[i].campground_id.clone(),
                        campground_name: campground_name.clone(),
                        check_in_date: scans[i].check_in_date,
                        check_out_date: scans[i].check_out_date,
                        nights: scans[i].nights,
                    };
                    let scan_id = scans[i].id;
                    let outcome = send_availability_notification(
                        email_service,
                        sms_service,
                        user,
                        &details,
                        scan_id,
                        &availability,
                        now,
                    );
                    let mut new_records = outcome.records;
                    let ghost recs = new_records@;
                    log.append(&mut new_records);
                    proof {
                        assert(log@ == log_at_entry + recs);
                        assert(log@.subrange(0, log0.len() as int) =~= log0);
                        assert(forall|k: int|
                            0 <= k < log_at_entry.len() ==> #[trigger] log@[k] == log_at_entry[k]);
                        assert(forall|k: int|
                            log_at_entry.len() <= k < log@.len() ==> #[trigger] log@[k] == recs[k
                                - log_at_entry.len()]);
                        assert forall|k: int|
                            log0.len() <= k < log@.len() implies (#[trigger] log@[k]).wf()
                            && log@[k].user_scan_id is Some && log@[k].created_at == now by {
                            if k >= log_at_entry.len() {
                                assert(spec_attempt_record(
                                    recs[k - log_at_entry.len()],
                                    *user,
                                    scan_id,
                                    availability,
                                    now,
                                ));
                            }
                        }
                        // a scan owed a dispatch got at least one record:
                        // its user is the unique row with its id, so the
                        // owed channel is wired, and the dispatch then
                        // logs at least one attempt
                        if needs {
                            let u = choose|u: int|
                                0 <= u < users@.len() && (#[trigger] users@[u]).id == scans0[i as int].user_id
                                    && (spec_should_email(users@[u], has_email) || spec_should_sms(
                                    users@[u],
                                    has_sms,
                                ));
                            let w = choose|w: int|
                                0 <= w < users@.len() && #[trigger] users@[w] == *user;
                            assert(users@[u].id == users@[w].id);
                            assert(u == w);
                            assert(recs.len() >= 1);
                            assert(log@[log_at_entry.len() as int].user_scan_id == Some(
                                scans0[i as int].id,
                            ));
                        }
                    }
                    if outcome.any_sent {
                        let ghost scans_pre = scans@;
                        let mut updated = scans.remove(i);
                        mark_notification_sent(&mut updated, now);
                        scans.insert(i, updated);
                        proof {
                            assert(scans@ =~= scans_pre.update(i as int, updated));
                            assert(forall|t: int|
                                0 <= t < n && t != i ==> #[trigger] scans@[t] == scans_pre[t]);
                        }
                    }
                    proof {
                        // every sent record appended this round names this
                        // scan, whose latch is now set
                        assert forall|k: int, t: int|
                            log0.len() <= k < log@.len() && 0 <= t < n && (
                        #[trigger] log@[k]).status == NotificationStatus::Sent
                            && log@[k].user_scan_id == Some((#[trigger] scans@[t]).id) implies scans@[t].notification_sent by {
                            if k >= log_at_entry.len() {
                                assert(log@[k] == recs[k - log_at_entry.len()]);
                                assert(outcome.any_sent);
                                assert(scans@[t].id == scan_id);
                                if t != i {
                                    assert(scans0[t].id != scans0[i as int].id);
                                    assert(false);
                                }
                            }
                        }
                    }
                },
                None => {
                    proof {
                        // no user row carries this scan's id, so no
                        // dispatch was owed
                        assert(!needs);
                    }
                },
            }
        } else {
            proof {
                if needs {
                    assert(scans@[i as int].notification_sent == scans0[i as int].notification_sent);
                    assert(scans0[i as int].spec_eligible(*today, now) == scans@[i as int].spec_eligible(
                        *today,
                        now,
                    ));
                    assert(has_relevant);
                    assert(false);
                }
            }
        }
        proof {
            assert forall|t: int|
                0 <= t < i + 1 && #[trigger] spec_needs_dispatch(
                    scans0[t],
                    users@,
                    new_sites@,
                    has_email,
                    has_sms,
                    *today,
                    now,
                ) implies exists|k: int|
                log0.len() <= k < log@.len() && (#[trigger] log@[k]).user_scan_id == Some(
                    scans0[t].id,
                ) by {
                if t < i {
                    let k0 = choose|k0: int|
                        log0.len() <= k0 < log_at_entry.len() && (
                        #[trigger] log_at_entry[k0]).user_scan_id == Some(scans0[t].id);
                    assert(log@[k0] == log_at_entry[k0]);
                }
            }
        }
        i = i + 1;
    }
    proof {
        assert(log@.subrange(0, log0.len() as int) =~= log0);
    }
}

/// Finish a successful poll: read the previous snapshot for the window,
/// write the fresh one, diff, fan out notifications, and return the job's
/// new bookkeeping with its error count cleared and the next poll one
/// frequency away.
pub fn handle_poll_success<E: EmailService, S: SmsService>(
    store: &mut AvailabilityStore,
    scans: &mut Vec<UserScan>,
    log: &mut Vec<NotificationRecord>,
    users: &Vec<User>,
    job: &PollingJob,
    campground_name: &String,
    current: &CampgroundAvailability,
    window_from: &Date,
    window_to: &Date,
    email_service: Option<&E>,
    sms_service: Option<&S>,
    today: &Date,
    now: u64,
    config: &ScanExecutorConfig,
) -> (r: PollingJob)
    requires
        old(store).wf(),
        current.wf(),
        current.available_sites@.len() <= 0xFFFF_FFFF,
        current.campground_id@ == job.campground_id@,
        window_from.wf(),
        window_to.wf(),
        today.wf(),
        job.wf(),
        now <= MAX_TIMESTAMP,
        forall|i: int| 0 <= i < old(scans)@.len() ==> (#[trigger] old(scans)@[i]).wf(),
        forall|i: int, j: int|
            0 <= i < j < old(scans)@.len() ==> (#[trigger] old(scans)@[i]).id != (
            #[trigger] old(scans)@[j]).id,
        forall|i: int, j: int|
            0 <= i < j < users@.len() ==> (#[trigger] users@[i]).id != (#[trigger] users@[j]).id,
    ensures
        final (store).wf(),
        snapshot_written(*old(store), *final (store), *current),
        r.consecutive_errors == 0,
        !r.is_being_polled,
        r.last_polled == Some(now),
        r.next_poll_at == now + job.poll_frequency_minutes as u64 * 60,
        r.campground_id@ == job.campground_id@,
        r.wf(),
        final (scans)@.len() == old(scans)@.len(),
        forall|i: int|
            0 <= i < final (scans)@.len() ==> same_except_notification(
                #[trigger] final (scans)@[i],
                old(scans)@[i],
            ),
        forall|i: int|
            0 <= i < final (scans)@.len() ==> (old(scans)@[i].notification_sent ==> (
            #[trigger] final (scans)@[i]).notification_sent),
        final (log)@.len() >= old(log)@.len(),
        final (log)@.subrange(0, old(log)@.len() as int) == old(log)@,
        forall|k: int, i: int|
            old(log)@.len() <= k < final (log)@.len() && 0 <= i < final (scans)@.len() && (
            #[trigger] final (log)@[k]).status == NotificationStatus::Sent && final (
            log)@[k].user_scan_id == Some((#[trigger] final (scans)@[i]).id) ==> final (
            scans)@[i].notification_sent,
        forall|i: int|
            0 <= i < old(scans)@.len() && spec_needs_dispatch(
                #[trigger] old(scans)@[i],
                users@,
                current.available_sites@.filter(
                    |s: SiteAvailability| crate::diff::spec_site_new_in_store(
                        *old(store),
                        current.campground_id@,
                        *window_from,
                        *window_to,
                        s,
                    ),
                ),
                email_service is Some,
                sms_service is Some,
                *today,
                now,
            ) ==> exists|k: int|
                old(log)@.len() <= k < final (log)@.len() && (#[trigger] final (
                log)@[k]).user_scan_id == Some(old(scans)@[i].id),
{
    let previous: Snapshot = store.read_range(&current.campground_id, window_from, window_to);
    store.write_snapshot(current);
    let new_sites = find_new_availability(&previous, current);
    proof {
        assert forall|i: int| 0 <= i < new_sites@.len() implies (#[trigger] new_sites@[i]).wf() by {
            crate::snapshot::lemma_filter_elements(
                current.available_sites@,
                |s: SiteAvailability| crate::diff::spec_site_is_new(previous, s),
                i,
            );
        }
        // the in-memory diff agrees with the diff against the cache itself
        crate::diff::lemma_filter_congruent(
            current.available_sites@,
            |s: SiteAvailability| crate::diff::spec_site_is_new(previous, s),
            |s: SiteAvailability| crate::diff::spec_site_new_in_store(
                *old(store),
                current.campground_id@,
                *window_from,
                *window_to,
                s,
            ),
        );
    }
    send_notifications_for_new_availability(
        scans,
        log,
        users,
        &new_sites,
        campground_name,
        email_service,
        sms_service,
        today,
        now,
    );
    job_after_success(job, now, config)
}

/// Finish a failed poll: record an error row for today under the job's
/// campground, bump the job's error count, and push its next poll out by
/// the backoff once the threshold is reached, else by the poll frequency.
pub fn handle_poll_failure(
    store: &mut AvailabilityStore,
    job: &PollingJob,
    error_message: &String,
    today: &Date,
    now: u64,
    config: &ScanExecutorConfig,
) -> (r: PollingJob)
    requires
        old(store).wf(),
        today.wf(),
        job.wf(),
        config.wf(),
        now <= MAX_TIMESTAMP,
        job.consecutive_errors < u32::MAX,
    ensures
        final (store).wf(),
        final (store).spec_find(job.campground_id@, *today) is Some,
        ({
            let rec = final (store).spec_find(job.campground_id@, *today).unwrap();
            &&& rec.check_status == crate::types::CheckStatus::Error
            &&& rec.error_message is Some
            &&& rec.error_message.unwrap()@ == error_message@
            &&& rec.last_checked == now
        }),
        forall|cg: Seq<char>, d: Date|
            !(cg == job.campground_id@ && d == *today) ==> #[trigger] final (store).spec_find(
                cg,
                d,
            ) == old(store).spec_find(cg, d),
        r.consecutive_errors == job.consecutive_errors + 1,
        !r.is_being_polled,
        r.campground_id@ == job.campground_id@,
        r.next_poll_at == now + if job.consecutive_errors + 1 >= config.max_consecutive_errors {
            config.error_backoff_secs as int
        } else {
            job.poll_frequency_minutes as int * 60
        },
        r.wf(),
{
    store.write_error(&job.campground_id, today.clone(), error_message, now);
    job_after_error(job, now, config)
}

/// The sent-record latch law is preserved by a notification pass: if every
/// sent record's scan was latched before, the same holds after, the pass
/// having latched every scan it produced a sent record for and never
/// cleared a latch.
pub proof fn lemma_latch_inv_preserved(
    scans0: Seq<UserScan>,
    log0: Seq<NotificationRecord>,
    scans1: Seq<UserScan>,
    log1: Seq<NotificationRecord>,
)
    requires
        sent_latch_inv(scans0, log0),
        scans1.len() == scans0.len(),
        forall|i: int| 0 <= i < scans1.len() ==> same_except_notification(#[trigger] scans1[i], scans0[i]),
        forall|i: int|
            0 <= i < scans1.len() ==> (scans0[i].notification_sent ==> (
            #[trigger] scans1[i]).notification_sent),
        log1.len() >= log0.len(),
        log1.subrange(0, log0.len() as int) == log0,
        forall|k: int, i: int|
            log0.len() <= k < log1.len() && 0 <= i < scans1.len() && (#[trigger] log1[k]).status
                == NotificationStatus::Sent && log1[k].user_scan_id == Some((
            #[trigger] scans1[i]).id) ==> scans1[i].notification_sent,
    ensures
        sent_latch_inv(scans1, log1),
{
    assert forall|k: int, i: int|
        0 <= k < log1.len() && 0 <= i < scans1.len() && (#[trigger] log1[k]).status
            == NotificationStatus::Sent && log1[k].user_scan_id == Some((#[trigger] scans1[i]).id)
        implies scans1[i].notification_sent by {
        if k < log0.len() {
            assert(log1[k] == log0.subrange(0, log0.len() as int)[k]);
            assert(log1[k] == log0[k]);
            assert(scans1[i].id == scans0[i].id);
            assert(scans0[i].notification_sent);
        }
    }
}

} // verus!
