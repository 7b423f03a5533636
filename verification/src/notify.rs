//! The notification pipeline: which channels a user gets, the exact
//! text of the email and SMS messages, and the per-scan dispatch that
//! sends through pluggable transports and logs one record per attempt.

use vstd::prelude::*;

use crate::dates::Date;
use crate::store::spec_count_available;
use crate::text::{
    decimal_string, long_date_string, mm_dd_string, mm_dd_yyyy_string, price_string, spec_decimal,
    spec_long_date, spec_mm_dd, spec_mm_dd_yyyy, spec_price,
};
use crate::types::{
    CampgroundAvailability, NotificationError, NotificationKind, NotificationRecord,
    NotificationStatus, SiteAvailability, User,
};

verus! {

/// The scan fields the notifier renders: identity and window of the watch
/// plus the campground's display name.
pub struct ScanDetails {
    pub campground_id: String,
    pub campground_name: String,
    pub check_in_date: Date,
    pub check_out_date: Date,
    pub nights: u32,
}

impl ScanDetails {
    pub open spec fn wf(self) -> bool {
        self.check_in_date.wf() && self.check_out_date.wf()
    }
}

/// An email goes out exactly when the user asked for email, verified the
/// address, and an email transport is wired in.
pub open spec fn spec_should_email(user: User, has_transport: bool) -> bool {
    user.preferences.email && user.email_verified && has_transport
}

/// An SMS goes out exactly when the user asked for SMS, verified the
/// phone, has a phone on file, and an SMS transport is wired in.
pub open spec fn spec_should_sms(user: User, has_transport: bool) -> bool {
    user.preferences.sms && user.phone_verified && user.phone is Some && has_transport
}

/// One line of the email's site list.
pub open spec fn spec_site_line(s: SiteAvailability) -> Seq<char> {
    "• "@ + s.site_name@ + " on "@ + spec_mm_dd_yyyy(s.date) + (match s.price_cents {
        Some(c) => " ($"@ + spec_price(c as int) + ")"@,
        None => Seq::<char>::empty(),
    })
}

/// Site lines joined with newlines.
pub open spec fn spec_join_lines(sites: Seq<SiteAvailability>) -> Seq<char>
    decreases sites.len(),
{
    if sites.len() == 0 {
        Seq::<char>::empty()
    } else if sites.len() == 1 {
        spec_site_line(sites[0])
    } else {
        spec_join_lines(sites.drop_last()) + "\n"@ + spec_site_line(sites.last())
    }
}

/// The email's site list: all available sites when five or fewer, else a
/// count line followed by the first five.
pub open spec fn spec_site_list(sites: Seq<SiteAvailability>) -> Seq<char> {
    let av = sites.filter(|s: SiteAvailability| s.available);
    if av.len() <= 5 {
        spec_join_lines(av)
    } else {
        spec_decimal(av.len() as int) + " sites available (showing first 5):\n"@ + spec_join_lines(
            av.subrange(0, 5),
        )
    }
}

/// The email subject.
pub open spec fn spec_email_subject(name: Seq<char>, ci: Date, co: Date) -> Seq<char> {
    "🏕️ Campsite Available: "@ + name + " ("@ + spec_mm_dd(ci) + " - "@ + spec_mm_dd(co) + ")"@
}

/// The email body.
pub open spec fn spec_email_body(scan: ScanDetails, sites: Seq<SiteAvailability>) -> Seq<char> {
    "Great news! New campsites are available for your search:\n\n🏕️ Campground: "@
        + scan.campground_name@ + "\n📅 Your Dates: "@ + spec_long_date(scan.check_in_date)
        + " to "@ + spec_long_date(scan.check_out_date) + " ("@ + spec_decimal(scan.nights as int)
        + " nights)\n\nAvailable Sites:\n"@ + spec_site_list(sites)
        + "\n\nVisit recreation.gov to book your site:\nhttps://www.recreation.gov/camping/campgrounds/"@
        + scan.campground_id@
        + "\n\nThis notification was sent because you set up a scan for this campground. You can manage your scans in the Campsite Tracker app.\n"@
}

/// The SMS body.
pub open spec fn spec_sms_message(scan: ScanDetails, sites: Seq<SiteAvailability>) -> Seq<char> {
    "🏕️ "@ + spec_decimal(spec_count_available(sites)) + " campsites available at "@
        + scan.campground_name@ + " for "@ + spec_mm_dd(scan.check_in_date) + "-"@ + spec_mm_dd(
        scan.check_out_date,
    ) + "! Check reservation site to book. -Campsite Tracker"@
}

/// Render one site line.
fn site_line(s: &SiteAvailability) -> (r: String)
    requires
        s.wf(),
    ensures
        r@ == spec_site_line(*s),
{
    let mut line = String::from_str("• ");
    line.append(s.site_name.as_str());
    line.append(" on ");
    let ds = mm_dd_yyyy_string(&s.date);
    line.append(ds.as_str());
    match s.price_cents {
        Some(c) => {
            line.append(" ($");
            let ps = price_string(c);
            line.append(ps.as_str());
            line.append(")");
        },
        None => {},
    }
    proof {
        assert(line@ =~= spec_site_line(*s));
    }
    line
}

/// Join the first `count` site lines with newlines.
#[verifier::loop_isolation(false)]
fn join_site_lines(sites: &Vec<SiteAvailability>, count: usize) -> (r: String)
    requires
        count <= sites@.len(),
        forall|i: int| 0 <= i < sites@.len() ==> (#[trigger] sites@[i]).wf(),
    ensures
        r@ == spec_join_lines(sites@.subrange(0, count as int)),
{
    let mut out = String::new();
    if count == 0 {
        proof {
            assert(out@ =~= spec_join_lines(sites@.subrange(0, 0)));
        }
        return out;
    }
    let first = site_line(&sites[0]);
    out.append(first.as_str());
    proof {
        assert(sites@.subrange(0, 1).len() == 1);
        assert(sites@.subrange(0, 1)[0] == sites@[0]);
        assert(out@ =~= spec_join_lines(sites@.subrange(0, 1)));
    }
    let mut i: usize = 1;
    while i < count
        invariant
            1 <= i <= count,
            out@ == spec_join_lines(sites@.subrange(0, i as int)),
        decreases count - i,
    {
        out.append("\n");
        let line = site_line(&sites[i]);
        out.append(line.as_str());
        proof {
            let pre = sites@.subrange(0, i as int);
            let post = sites@.subrange(0, i + 1 as int);
            assert(post.drop_last() =~= pre);
            assert(post.last() == sites@[i as int]);
            assert(out@ =~= spec_join_lines(post));
        }
        i = i + 1;
    }
    proof {
        assert(out@ =~= spec_join_lines(sites@.subrange(0, count as int)));
    }
    out
}

/// Keep the available sites, in order.
#[verifier::loop_isolation(false)]
fn available_only(sites: &Vec<SiteAvailability>) -> (r: Vec<SiteAvailability>)
    ensures
        r@ == sites@.filter(|s: SiteAvailability| s.available),
{
    let ghost pred = |s: SiteAvailability| s.available;
    let mut r: Vec<SiteAvailability> = Vec::new();
    let mut i: usize = 0;
    while i < sites.len()
        invariant
            0 <= i <= sites@.len(),
            r@ == sites@.subrange(0, i as int).filter(pred),
        decreases sites@.len() - i,
    {
        proof {
            let pre = sites@.subrange(0, i as int);
            assert(sites@.subrange(0, i + 1 as int) =~= pre.push(sites@[i as int]));
            crate::snapshot::lemma_filter_push(pre, sites@[i as int], pred);
        }
        if sites[i].available {
            r.push(sites[i].duplicate());
        }
        i = i + 1;
    }
    proof {
        assert(sites@.subrange(0, i as int) =~= sites@);
    }
    r
}

/// Compose the email notification: subject and plain-text body.
pub fn compose_notification_content(scan: &ScanDetails, availability: &CampgroundAvailability) -> (r:
    (String, String))
    requires
        scan.wf(),
        availability.wf(),
    ensures
        r.0@ == spec_email_subject(
            scan.campground_name@,
            scan.check_in_date,
            scan.check_out_date,
        ),
        r.1@ == spec_email_body(*scan, availability.available_sites@),
{
    // subject
    let mut subject = String::from_str("🏕️ Campsite Available: ");
    subject.append(scan.campground_name.as_str());
    subject.append(" (");
    let ci = mm_dd_string(&scan.check_in_date);
    subject.append(ci.as_str());
    subject.append(" - ");
    let co = mm_dd_string(&scan.check_out_date);
    subject.append(co.as_str());
    subject.append(")");
    proof {
        assert(subject@ =~= spec_email_subject(
            scan.campground_name@,
            scan.check_in_date,
            scan.check_out_date,
        ));
    }

    // site list
    let av = available_only(&availability.available_sites);
    proof {
        let pred = |s: SiteAvailability| s.available;
        assert forall|i: int| 0 <= i < av@.len() implies (#[trigger] av@[i]).wf() by {
            availability.available_sites@.lemma_filter_pred(pred, i);
            crate::snapshot::lemma_filter_elements(availability.available_sites@, pred, i);
        }
    }
    let site_list: String = if av.len() <= 5 {
        let whole = join_site_lines(&av, av.len());
        proof {
            assert(av@.subrange(0, av@.len() as int) =~= av@);
        }
        whole
    } else {
        let mut s = decimal_string(av.len() as u64);
        s.append(" sites available (showing first 5):\n");
        let head = join_site_lines(&av, 5);
        s.append(head.as_str());
        proof {
            assert(s@ =~= spec_site_list(availability.available_sites@));
        }
        s
    };
    proof {
        assert(site_list@ == spec_site_list(availability.available_sites@));
    }

    // body
    let mut body = String::from_str(
        "Great news! New campsites are available for your search:\n\n🏕️ Campground: ",
    );
    body.append(scan.campground_name.as_str());
    body.append("\n📅 Your Dates: ");
    let lci = long_date_string(&scan.check_in_date);
    body.append(lci.as_str());
    body.append(" to ");
    let lco = long_date_string(&scan.check_out_date);
    body.append(lco.as_str());
    body.append(" (");
    let nights = decimal_string(scan.nights as u64);
    body.append(nights.as_str());
    body.append(" nights)\n\nAvailable Sites:\n");
    body.append(site_list.as_str());
    body.append("\n\nVisit recreation.gov to book your site:\nhttps://www.recreation.gov/camping/campgrounds/");
    body.append(scan.campground_id.as_str());
    body.append(
        "\n\nThis notification was sent because you set up a scan for this campground. You can manage your scans in the Campsite Tracker app.\n",
    );
    proof {
        assert(body@ =~= spec_email_body(*scan, availability.available_sites@));
    }
    (subject, body)
}

/// Compose the short SMS notification.
pub fn create_sms_message(scan: &ScanDetails, availability: &CampgroundAvailability) -> (r: String)
    requires
        scan.wf(),
    ensures
        r@ == spec_sms_message(*scan, availability.available_sites@),
{
    proof {
        availability.available_sites@.lemma_filter_len(|s: SiteAvailability| s.available);
    }
    let count = crate::store::count_available(&availability.available_sites);
    let mut s = String::from_str("🏕️ ");
    let cs = decimal_string(count as u64);
    s.append(cs.as_str());
    s.append(" campsites available at ");
    s.append(scan.campground_name.as_str());
    s.append(" for ");
    let ci = mm_dd_string(&scan.check_in_date);
    s.append(ci.as_str());
    s.append("-");
    let co = mm_dd_string(&scan.check_out_date);
    s.append(co.as_str());
    s.append("! Check reservation site to book. -Campsite Tracker");
    proof {
        assert(s@ =~= spec_sms_message(*scan, availability.available_sites@));
    }
    s
}

/// An email transport: sends a message, answering an external id.
/// Implementations are chosen at startup; tests inject stubs.
pub trait EmailService {
    fn send_email(&self, to: &str, subject: &str, body: &str) -> Result<String, NotificationError>;
}

/// An SMS transport: sends a message, answering an external id.
pub trait SmsService {
    fn send_sms(&self, to: &str, message: &str) -> Result<String, NotificationError>;
}

/// Relies on uuid::Uuid::new_v4 and its hyphenated Display form: a fresh
/// random version-4 UUID rendered as 36 characters.
#[verifier::external_body]
fn new_uuid_string() -> (r: String)
    ensures
        r@.len() == 36,
{
    uuid::Uuid::new_v4().to_string()
}

/// A development email transport: always succeeds with a synthetic id.
pub struct MockEmailService;

impl EmailService for MockEmailService {
    fn send_email(&self, to: &str, subject: &str, body: &str) -> (r: Result<
        String,
        NotificationError,
    >)
        ensures
            r is Ok,
            r.unwrap()@.len() == 47,
            r.unwrap()@.subrange(0, 11) == "mock-email-"@,
    {
        let mut id = String::from_str("mock-email-");
        let tail = new_uuid_string();
        id.append(tail.as_str());
        proof {
            reveal_strlit("mock-email-");
            assert(id@.subrange(0, 11) =~= "mock-email-"@);
        }
        Ok(id)
    }
}

/// A development SMS transport: always succeeds with a synthetic id.
pub struct MockSmsService;

impl SmsService for MockSmsService {
    fn send_sms(&self, to: &str, message: &str) -> (r: Result<String, NotificationError>)
        ensures
            r is Ok,
            r.unwrap()@.len() == 45,
            r.unwrap()@.subrange(0, 9) == "mock-sms-"@,
    {
        let mut id = String::from_str("mock-sms-");
        let tail = new_uuid_string();
        id.append(tail.as_str());
        proof {
            reveal_strlit("mock-sms-");
            assert(id@.subrange(0, 9) =~= "mock-sms-"@);
        }
        Ok(id)
    }
}

/// The record fields every attempt shares.
pub open spec fn spec_attempt_record(
    rec: NotificationRecord,
    user: User,
    scan_id: u64,
    availability: CampgroundAvailability,
    now: u64,
) -> bool {
    &&& rec.wf()
    &&& rec.user_id == user.id
    &&& rec.user_scan_id == Some(scan_id)
    &&& rec.created_at == now
    &&& rec.availability_details.campground_id@ == availability.campground_id@
    &&& rec.availability_details.available_sites@ == availability.available_sites@
    &&& rec.availability_details.total_sites == availability.total_sites
    &&& rec.status == NotificationStatus::Sent ==> rec.sent_at == Some(now)
}

/// The email attempt's record.
pub open spec fn spec_email_record(
    rec: NotificationRecord,
    user: User,
    scan: ScanDetails,
    scan_id: u64,
    availability: CampgroundAvailability,
    now: u64,
) -> bool {
    &&& spec_attempt_record(rec, user, scan_id, availability, now)
    &&& rec.kind == NotificationKind::Email
    &&& rec.recipient@ == user.email@
    &&& rec.subject is Some
    &&& rec.subject.unwrap()@ == spec_email_subject(
        scan.campground_name@,
        scan.check_in_date,
        scan.check_out_date,
    )
    &&& rec.message@ == spec_email_body(scan, availability.available_sites@)
}

/// The SMS attempt's record.
pub open spec fn spec_sms_record(
    rec: NotificationRecord,
    user: User,
    scan: ScanDetails,
    scan_id: u64,
    availability: CampgroundAvailability,
    now: u64,
) -> bool {
    &&& spec_attempt_record(rec, user, scan_id, availability, now)
    &&& rec.kind == NotificationKind::Sms
    &&& user.phone is Some
    &&& rec.recipient@ == user.phone.unwrap()@
    &&& rec.subject is None
    &&& rec.message@ == spec_sms_message(scan, availability.available_sites@)
}

/// The outcome of one scan's dispatch: the records logged (one per
/// attempted transport), whether any transport succeeded, and the first
/// transport error if one failed.
pub struct DispatchOutcome {
    pub records: Vec<NotificationRecord>,
    pub any_sent: bool,
    pub error: Option<NotificationError>,
}

/// Dispatch one scan's notification: email first when owed, then SMS; a
/// failing transport is logged, reported, and aborts the remaining
/// transports.  Exactly one record is logged per attempted transport; a
/// record is `Sent` exactly when its transport answered an id.
pub fn send_availability_notification<E: EmailService, S: SmsService>(
    email_service: Option<&E>,
    sms_service: Option<&S>,
    user: &User,
    scan: &ScanDetails,
    scan_id: u64,
    availability: &CampgroundAvailability,
    now: u64,
) -> (r: DispatchOutcome)
    requires
        scan.wf(),
        availability.wf(),
    ensures
        ({
            let should_email = spec_should_email(*user, email_service is Some);
            let should_sms = spec_should_sms(*user, sms_service is Some);
            &&& r.records@.len() <= 2
            &&& forall|k: int|
                0 <= k < r.records@.len() ==> spec_attempt_record(
                    #[trigger] r.records@[k],
                    *user,
                    scan_id,
                    *availability,
                    now,
                )
            &&& (!should_email && !should_sms) ==> r.records@.len() == 0
            &&& should_email ==> r.records@.len() >= 1 && spec_email_record(
                r.records@[0],
                *user,
                *scan,
                scan_id,
                *availability,
                now,
            )
            &&& (should_email && r.records@[0].status == NotificationStatus::Failed)
                ==> r.records@.len() == 1
            &&& (should_email && r.records@[0].status == NotificationStatus::Sent && should_sms)
                ==> r.records@.len() == 2 && spec_sms_record(
                r.records@[1],
                *user,
                *scan,
                scan_id,
                *availability,
                now,
            )
            &&& (should_email && r.records@[0].status == NotificationStatus::Sent && !should_sms)
                ==> r.records@.len() == 1
            &&& (!should_email && should_sms) ==> r.records@.len() == 1 && spec_sms_record(
                r.records@[0],
                *user,
                *scan,
                scan_id,
                *availability,
                now,
            )
            &&& r.any_sent == exists|k: int|
                0 <= k < r.records@.len() && (#[trigger] r.records@[k]).status
                    == NotificationStatus::Sent
            &&& (r.error is Some <==> exists|k: int|
                0 <= k < r.records@.len() && (#[trigger] r.records@[k]).status
                    == NotificationStatus::Failed)
        }),
{
    let mut records: Vec<NotificationRecord> = Vec::new();
    let mut any_sent = false;

    let should_email = user.preferences.email && user.email_verified && email_service.is_some();
    if should_email {
        let (subject, message) = compose_notification_content(scan, availability);
        let svc = match email_service {
            Some(svc) => svc,
            None => {
                proof {
                    assert(false);
                }
                return DispatchOutcome { records, any_sent, error: None };
            },
        };
        let sent = svc.send_email(user.email.as_str(), subject.as_str(), message.as_str());
        match sent {
            Ok(external_id) => {
                let rec = NotificationRecord {
                    user_id: user.id,
                    user_scan_id: Some(scan_id),
                    kind: NotificationKind::Email,
                    recipient: user.email.clone(),
                    subject: Some(subject),
                    message,
                    availability_details: availability.duplicate(),
                    status: NotificationStatus::Sent,
                    sent_at: Some(now),
                    external_id: Some(external_id),
                    created_at: now,
                };
                records.push(rec);
                any_sent = true;
            },
            Err(e) => {
                let rec = NotificationRecord {
                    user_id: user.id,
                    user_scan_id: Some(scan_id),
                    kind: NotificationKind::Email,
                    recipient: user.email.clone(),
                    subject: Some(subject),
                    message,
                    availability_details: availability.duplicate(),
                    status: NotificationStatus::Failed,
                    sent_at: None,
                    external_id: None,
                    created_at: now,
                };
                records.push(rec);
                return DispatchOutcome { records, any_sent: false, error: Some(e) };
            },
        }
    }

    let should_sms = user.preferences.sms && user.phone_verified && user.phone.is_some()
        && sms_service.is_some();
    if should_sms {
        let phone = match &user.phone {
            Some(p) => p.clone(),
            None => {
                proof {
                    assert(false);
                }
                return DispatchOutcome { records, any_sent, error: None };
            },
        };
        let svc = match sms_service {
            Some(svc) => svc,
            None => {
                proof {
                    assert(false);
                }
                return DispatchOutcome { records, any_sent, error: None };
            },
        };
        let sms_message = create_sms_message(scan, availability);
        let sent = svc.send_sms(phone.as_str(), sms_message.as_str());
        match sent {
            Ok(external_id) => {
                let rec = NotificationRecord {
                    user_id: user.id,
                    user_scan_id: Some(scan_id),
                    kind: NotificationKind::Sms,
                    recipient: phone,
                    subject: None,
                    message: sms_message,
                    availability_details: availability.duplicate(),
                    status: NotificationStatus::Sent,
                    sent_at: Some(now),
                    external_id: Some(external_id),
                    created_at: now,
                };
                records.push(rec);
                any_sent = true;
            },
            Err(e) => {
                let rec = NotificationRecord {
                    user_id: user.id,
                    user_scan_id: Some(scan_id),
                    kind: NotificationKind::Sms,
                    recipient: phone,
                    subject: None,
                    message: sms_message,
                    availability_details: availability.duplicate(),
                    status: NotificationStatus::Failed,
                    sent_at: None,
                    external_id: None,
                    created_at: now,
                };
                records.push(rec);
                return DispatchOutcome { records, any_sent, error: Some(e) };
            },
        }
    }

    DispatchOutcome { records, any_sent, error: None }
}

} // verus!
