//! The surrounding application's interface types: the requests and
//! responses of the account and scan endpoints that feed the engine's
//! tables, and the plain validation rules they carry.

use vstd::prelude::*;

use crate::codec::is_digit_char;
use crate::dates::Date;
use crate::text::str_eq;
use crate::types::{ScanError, ScanStatus, UserScan, NotificationPreferences};

verus! {

/// Sign-up request of the account endpoint.
pub struct SignUpRequest {
    pub name: String,
    pub email: String,
    pub phone: String,
    pub password: String,
}

/// Login request of the account endpoint.
pub struct LoginRequest {
    pub email: String,
    pub password: String,
}

/// Profile update request.
pub struct UpdateProfileRequest {
    pub name: String,
    pub email: String,
    pub phone: String,
    pub notification_preferences: NotificationPreferences,
}

/// Email verification request: the code the user typed.
pub struct VerifyEmailRequest {
    pub code: String,
}

/// Phone verification request: the code the user typed.
pub struct VerifyPhoneRequest {
    pub code: String,
}

/// Answer of a verification endpoint.
pub struct VerificationResponse {
    pub message: String,
}

/// Query of the emailed verification link: the token it carries.
pub struct EmailVerificationQuery {
    pub token: String,
}

/// Admin request naming a user by email.
pub struct DeleteUserQuery {
    pub email: String,
}

/// Claims of an issued access token.
pub struct Claims {
    pub sub: String,
    pub email: String,
    pub role: String,
    pub exp: usize,
    pub iat: usize,
}

/// Request to create a scan.
pub struct CreateScanRequest {
    pub campground_id: String,
    pub campground_name: String,
    pub check_in_date: Date,
    pub check_out_date: Date,
}

/// Request to update a scan's status.
pub struct UpdateScanRequest {
    pub status: String,
}

/// A US phone number is accepted when it holds exactly ten digits, or
/// eleven beginning with the country code 1; every other character is
/// ignored.
pub open spec fn spec_valid_phone(s: Seq<char>) -> bool {
    let digits = s.filter(|c: char| is_digit_char(c));
    digits.len() == 10 || (digits.len() == 11 && digits[0] == '1')
}

/// Decide whether a phone number is acceptable.
#[verifier::loop_isolation(false)]
pub fn validate_phone_number(phone: &str) -> (r: bool)
    ensures
        r == spec_valid_phone(phone@),
{
    let ghost pred = |c: char| is_digit_char(c);
    let n = phone.unicode_len();
    let mut count: usize = 0;
    let mut first: char = '0';
    let mut i: usize = 0;
    while i < n
        invariant
            0 <= i <= n,
            n == phone@.len(),
            count == phone@.subrange(0, i as int).filter(pred).len(),
            count > 0 ==> first == phone@.subrange(0, i as int).filter(pred)[0],
        decreases n - i,
    {
        let c = phone.get_char(i);
        proof {
            let pre = phone@.subrange(0, i as int);
            assert(phone@.subrange(0, i + 1 as int) =~= pre.push(phone@[i as int]));
            crate::snapshot::lemma_filter_push(pre, phone@[i as int], pred);
        }
        let cv = c as u32;
        if 48 <= cv && cv <= 57 {
            if count == 0 {
                first = c;
            }
            count = count + 1;
        }
        i = i + 1;
    }
    proof {
        assert(phone@.subrange(0, i as int) =~= phone@);
    }
    count == 10 || (count == 11 && first == '1')
}

/// Read a scan status string; exactly `active`, `paused`, `completed` and
/// `cancelled` are accepted.
pub open spec fn spec_parse_scan_status(s: Seq<char>) -> Option<ScanStatus> {
    if s == "active"@ {
        Some(ScanStatus::Active)
    } else if s == "paused"@ {
        Some(ScanStatus::Paused)
    } else if s == "completed"@ {
        Some(ScanStatus::Completed)
    } else if s == "cancelled"@ {
        Some(ScanStatus::Cancelled)
    } else {
        None
    }
}

/// Parse a scan status string.
pub fn parse_scan_status(s: &str) -> (r: Option<ScanStatus>)
    ensures
        r == spec_parse_scan_status(s@),
{
    if str_eq(s, "active") {
        Some(ScanStatus::Active)
    } else if str_eq(s, "paused") {
        Some(ScanStatus::Paused)
    } else if str_eq(s, "completed") {
        Some(ScanStatus::Completed)
    } else if str_eq(s, "cancelled") {
        Some(ScanStatus::Cancelled)
    } else {
        None
    }
}

/// A scan status' wire name.
pub fn scan_status_name(s: ScanStatus) -> (r: &'static str)
    ensures
        spec_parse_scan_status(r@) == Some(s),
{
    proof {
        reveal_strlit("active");
        reveal_strlit("paused");
        reveal_strlit("completed");
        reveal_strlit("cancelled");
        assert("active"@[0] == 'a' && "paused"@[0] == 'p' && "completed"@[0] == 'c'
            && "cancelled"@[0] == 'c');
        assert("completed"@[1] == 'o' && "cancelled"@[1] == 'a');
        assert("paused"@ != "active"@);
        assert("completed"@ != "active"@ && "completed"@ != "paused"@);
        assert("cancelled"@ != "active"@ && "cancelled"@ != "paused"@ && "cancelled"@
            != "completed"@);
    }
    match s {
        ScanStatus::Active => "active",
        ScanStatus::Paused => "paused",
        ScanStatus::Completed => "completed",
        ScanStatus::Cancelled => "cancelled",
    }
}

/// Build the scan row a create request asks for: rejected with
/// `InvalidDateRange` exactly when check-out does not follow check-in;
/// otherwise an active, unnotified scan whose `nights` is the length of
/// the stay.
pub fn new_user_scan(request: &CreateScanRequest, id: u64, user_id: u64, now: u64) -> (r: Result<
    UserScan,
    ScanError,
>)
    requires
        request.check_in_date.wf(),
        request.check_out_date.wf(),
    ensures
        match r {
            Ok(scan) => {
                &&& request.check_in_date.spec_lt(request.check_out_date)
                &&& scan.wf()
                &&& scan.id == id
                &&& scan.user_id == user_id
                &&& scan.campground_id@ == request.campground_id@
                &&& scan.check_in_date == request.check_in_date
                &&& scan.check_out_date == request.check_out_date
                &&& scan.nights == request.check_out_date.day_index()
                    - request.check_in_date.day_index()
                &&& scan.status == ScanStatus::Active
                &&& !scan.notification_sent
                &&& scan.created_at == now
                &&& scan.updated_at == now
                &&& scan.expires_at is None
            },
            Err(e) => e is InvalidDateRange && !request.check_in_date.spec_lt(
                request.check_out_date,
            ),
        },
{
    if !request.check_in_date.lt(&request.check_out_date) {
        return Err(ScanError::InvalidDateRange);
    }
    let nights_i64 = crate::dates::days_between(&request.check_in_date, &request.check_out_date);
    let nights = nights_i64 as u32;
    Ok(
        UserScan {
            id,
            user_id,
            campground_id: request.campground_id.clone(),
            check_in_date: request.check_in_date,
            check_out_date: request.check_out_date,
            nights,
            status: ScanStatus::Active,
            notification_sent: false,
            created_at: now,
            updated_at: now,
            expires_at: None,
        },
    )
}

} // verus!
