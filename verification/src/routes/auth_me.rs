//! `GET /v1/auth/me`: who a token says the caller is.

use vstd::prelude::*;
use crate::clock;
use crate::jwt::ValidatedJwt;
use crate::nucleon_map;
use crate::nucleon_map::HabilitationMap;
use crate::numbers::push_padded;
use crate::text;
use crate::text::copy_list;
use crate::pipeline::Stage;

verus! {

// ---------------------------------------------------------------------------
// The calendar
// ---------------------------------------------------------------------------

/// The leap days of the years 1 to `n`.
#[verifier::opaque]
spec fn leaps(n: int) -> int {
    n / 4 - n / 100 + n / 400
}

proof fn lemma_leaps_step(y: int)
    requires
        y >= 1,
    ensures
        leaps(y) == leaps(y - 1) + clock::leap_day(y),
{
    reveal(leaps);
    assert(y / 4 - (y - 1) / 4 == if y % 4 == 0 {
        1int
    } else {
        0
    });
    assert(y / 100 - (y - 1) / 100 == if y % 100 == 0 {
        1int
    } else {
        0
    });
    assert(y / 400 - (y - 1) / 400 == if y % 400 == 0 {
        1int
    } else {
        0
    });
    assert(y % 400 == 0 ==> y % 100 == 0);
    assert(y % 100 == 0 ==> y % 4 == 0);
}

proof fn lemma_days_before_year(y: int)
    requires
        y >= 1970,
    ensures
        clock::days_before_year(y) == 365 * (y - 1970) + leaps(y - 1) - leaps(1969),
    decreases y,
{
    if y > 1970 {
        lemma_days_before_year(y - 1);
        lemma_leaps_step(y - 1);
    }
}

proof fn lemma_months(y: int)
    ensures
        clock::days_before_month(y, 1) == 0,
        clock::days_before_month(y, 2) == 31,
        clock::days_before_month(y, 3) == 59 + clock::leap_day(y),
        clock::days_before_month(y, 4) == 90 + clock::leap_day(y),
        clock::days_before_month(y, 5) == 120 + clock::leap_day(y),
        clock::days_before_month(y, 6) == 151 + clock::leap_day(y),
        clock::days_before_month(y, 7) == 181 + clock::leap_day(y),
        clock::days_before_month(y, 8) == 212 + clock::leap_day(y),
        clock::days_before_month(y, 9) == 243 + clock::leap_day(y),
        clock::days_before_month(y, 10) == 273 + clock::leap_day(y),
        clock::days_before_month(y, 11) == 304 + clock::leap_day(y),
        clock::days_before_month(y, 12) == 334 + clock::leap_day(y),
        clock::days_before_month(y, 13) == 365 + clock::leap_day(y),
{
    reveal_with_fuel(clock::days_before_month, 14);
}

/// The year of a 400-year era that begins in March, and the day within it.
proof fn lemma_year_of_era(doe: int, yoe: int, doy: int)
    requires
        0 <= doe < 146097,
        yoe == (doe - doe / 1460 + doe / 36524 - doe / 146096) / 365,
        doy == doe - (365 * yoe + yoe / 4 - yoe / 100),
    ensures
        0 <= yoe < 400,
        0 <= doy <= 364 + clock::leap_day(yoe + 1),
{
    let c = if doe == 146096 { 3 } else { doe / 36524 };
    let r = doe - 36524 * c;
    assert(0 <= c <= 3);
    assert(0 <= r <= 36524);
    assert(r == 36524 ==> c == 3);
    let q = r / 1461;
    let s = r - 1461 * q;
    assert(0 <= q <= 24);
    assert(0 <= s <= 1460);
    let y = if s == 1460 { 3 } else { s / 365 };
    let d = s - 365 * y;
    assert(0 <= y <= 3);
    assert(0 <= d <= 365);
    assert(d == 365 ==> y == 3);
    let e = (24 * c + q + s) / 1460;
    assert(0 <= e <= 1);
    assert(doe == 36524 * c + 1461 * q + s);
    assert(doe / 1460 == 25 * c + q + e) by {
        assert(doe == 1460 * (25 * c + q) + (24 * c + q + s));
    }
    if doe < 146096 {
        assert(doe / 36524 == c);
        assert(doe / 146096 == 0);
    } else {
        assert(doe / 36524 == 4);
        assert(doe / 146096 == 1);
    }
    assert(doe - doe / 1460 + doe / 36524 - doe / 146096 == 36500 * c + 1460 * q + s - e);
    assert((s - e) >= 365 * y && (s - e) < 365 * (y + 1)) by {
        if e == 1 {
            assert(24 * c + q + s >= 1460);
            assert(s >= 1364);
        }
    }
    assert(yoe == 100 * c + 4 * q + y);
    assert(yoe / 4 == 25 * c + q);
    assert(yoe / 100 == c);
    assert(doy == d);
    if d == 365 {
        assert(y == 3);
        assert((yoe + 1) % 4 == 0);
        if q == 24 {
            assert(s == 1460);
            assert(r == 36524);
            assert(yoe == 399);
        } else {
            assert((yoe + 1) % 100 != 0) by {
                assert(yoe + 1 == 100 * c + 4 * (q + 1));
            }
        }
    }
}

/// The month, counted from March, and the day within it.
proof fn lemma_month_of_year(doy: int, mp: int, d: int)
    requires
        0 <= doy <= 365,
        mp == (5 * doy + 2) / 153,
        d == doy - (153 * mp + 2) / 5 + 1,
    ensures
        0 <= mp <= 11,
        mp == 0 ==> doy == d - 1 && 1 <= d <= 31,
        mp == 1 ==> doy == 31 + d - 1 && 1 <= d <= 30,
        mp == 2 ==> doy == 61 + d - 1 && 1 <= d <= 31,
        mp == 3 ==> doy == 92 + d - 1 && 1 <= d <= 30,
        mp == 4 ==> doy == 122 + d - 1 && 1 <= d <= 31,
        mp == 5 ==> doy == 153 + d - 1 && 1 <= d <= 31,
        mp == 6 ==> doy == 184 + d - 1 && 1 <= d <= 30,
        mp == 7 ==> doy == 214 + d - 1 && 1 <= d <= 31,
        mp == 8 ==> doy == 245 + d - 1 && 1 <= d <= 30,
        mp == 9 ==> doy == 275 + d - 1 && 1 <= d <= 31,
        mp == 10 ==> doy == 306 + d - 1 && 1 <= d <= 31,
        mp == 11 ==> doy == 337 + d - 1 && 1 <= d <= 29,
{
}

/// The day of a year that begins in March, within its era, as a date.
proof fn lemma_date_of_era_day(days: int, era: int, yoe: int, doy: int, mp: int, d: int)
    requires
        0 <= days,
        0 <= era,
        0 <= yoe < 400,
        0 <= doy <= 364 + clock::leap_day(yoe + 1),
        days + 719_468 == 146_097 * era + 365 * yoe + yoe / 4 - yoe / 100 + doy,
        mp == (5 * doy + 2) / 153,
        d == doy - (153 * mp + 2) / 5 + 1,
    ensures
        mp < 10 ==> clock::valid_date(400 * era + yoe, mp + 3, d) && clock::day_number(400 * era + yoe, mp + 3, d) == days,
        mp >= 10 ==> clock::valid_date(400 * era + yoe + 1, mp - 9, d) && clock::day_number(400 * era + yoe + 1, mp - 9, d) == days,
{
    let y = 400 * era + yoe;
    lemma_month_of_year(doy, mp, d);
    lemma_era(era, yoe);
    lemma_leaps_of_1969();
    assert(days + 719_468 == 365 * y + leaps(y) + doy);
    assert(y >= 1969) by {
        if y < 1969 {
            lemma_leaps_bound(y, 1969);
        }
    }
    lemma_leaps_step(y);
    if mp < 10 {
        assert(y != 1969);
        lemma_months(y);
        lemma_days_before_year(y);
        lemma_march_date(y, doy, mp, d);
    } else {
        lemma_months(y + 1);
        lemma_days_before_year(y + 1);
    }
}

/// The leap years repeat with the era.
proof fn lemma_era(era: int, yoe: int)
    requires
        0 <= era,
        0 <= yoe < 400,
    ensures
        leaps(400 * era + yoe) == 97 * era + yoe / 4 - yoe / 100,
        clock::leap_day(400 * era + yoe + 1) == clock::leap_day(yoe + 1),
{
    reveal(leaps);
    let y = 400 * era + yoe;
    assert(y / 4 == 100 * era + yoe / 4);
    assert(y / 100 == 4 * era + yoe / 100);
    assert(y / 400 == era);
    assert((y + 1) % 400 == (yoe + 1) % 400);
    assert((y + 1) % 100 == (yoe + 1) % 100);
    assert((y + 1) % 4 == (yoe + 1) % 4);
}

proof fn lemma_leaps_of_1969()
    ensures
        leaps(1969) == 477,
{
    reveal(leaps);
}

/// A date from March on, by the days since the first of March.
proof fn lemma_march_date(y: int, doy: int, mp: int, d: int)
    requires
        0 <= doy <= 365,
        mp == (5 * doy + 2) / 153,
        d == doy - (153 * mp + 2) / 5 + 1,
        mp < 10,
    ensures
        1 <= d <= clock::days_in_month(y, mp + 3),
        clock::days_before_month(y, mp + 3) + d - 1 == 59 + clock::leap_day(y) + doy,
{
    lemma_month_of_year(doy, mp, d);
    lemma_months(y);
}

proof fn lemma_leaps_bound(a: int, b: int)
    requires
        0 <= a <= b,
    ensures
        leaps(a) <= leaps(b),
    decreases b - a,
{
    if a < b {
        lemma_leaps_bound(a, b - 1);
        lemma_leaps_step(b);
    }
}

/// The date of a day: the year, the month and the day of the month.
pub fn days_to_ymd(days: u64) -> (r: (i64, u32, u32))
    requires
        days <= i64::MAX - 719_468,
    ensures
        clock::valid_date(r.0 as int, r.1 as int, r.2 as int),
        clock::day_number(r.0 as int, r.1 as int, r.2 as int) == days,
{
    let z: u64 = days + 719_468;
    let era: u64 = z / 146_097;
    let doe: u64 = z % 146_097;
    proof {
        assert(doe / 1460 <= doe);
        assert(doe / 146_096 <= 1);
        assert(doe >= 146_096 ==> doe / 36524 >= 1);
    }
    let yoe: u64 = (doe - doe / 1460 + doe / 36524 - doe / 146_096) / 365;
    let ghost day = doe - (365 * yoe + yoe / 4 - yoe / 100);
    proof {
        lemma_year_of_era(doe as int, yoe as int, day);
    }
    let y: u64 = yoe + era * 400;
    let doy: u64 = doe - (365 * yoe + yoe / 4 - yoe / 100);
    let mp: u64 = (5 * doy + 2) / 153;
    proof {
        lemma_month_of_year(doy as int, mp as int, doy - (153 * mp + 2) / 5 + 1);
    }
    let d: u64 = doy - (153 * mp + 2) / 5 + 1;
    proof {
        lemma_date_of_era_day(days as int, era as int, yoe as int, doy as int, mp as int, d as int);
    }
    if mp < 10 {
        (y as i64, (mp + 3) as u32, d as u32)
    } else {
        ((y + 1) as i64, (mp - 9) as u32, d as u32)
    }
}

proof fn lemma_months_ordered(y: int, m: int, n: int)
    requires
        1 <= m < n <= 13,
    ensures
        clock::days_before_month(y, m) + clock::days_in_month(y, m) <= clock::days_before_month(y, n),
    decreases n - m,
{
    if n > m + 1 {
        lemma_months_ordered(y, m, n - 1);
        assert(clock::days_in_month(y, n - 1) >= 0);
    }
}

proof fn lemma_years_ordered(a: int, b: int)
    requires
        1970 <= a < b,
    ensures
        clock::days_before_year(a) + 365 + clock::leap_day(a) <= clock::days_before_year(b),
    decreases b - a,
{
    if b > a + 1 {
        lemma_years_ordered(a, b - 1);
    }
}

/// Two dates with the same day number are the same date.
pub proof fn law_dates_are_unique(y: int, m: int, d: int, y2: int, m2: int, d2: int)
    requires
        clock::valid_date(y, m, d),
        clock::valid_date(y2, m2, d2),
        clock::day_number(y, m, d) == clock::day_number(y2, m2, d2),
    ensures
        y == y2 && m == m2 && d == d2,
{
    lemma_months(y);
    lemma_months(y2);
    lemma_months_ordered(y, m, 13);
    lemma_months_ordered(y2, m2, 13);
    lemma_nonnegative_months(y, m);
    lemma_nonnegative_months(y2, m2);
    if y < y2 {
        lemma_years_ordered(y, y2);
    } else if y2 < y {
        lemma_years_ordered(y2, y);
    } else if m < m2 {
        lemma_months_ordered(y, m, m2);
    } else if m2 < m {
        lemma_months_ordered(y, m2, m);
    }
}

proof fn lemma_nonnegative_months(y: int, m: int)
    requires
        1 <= m,
    ensures
        clock::days_before_month(y, m) >= 0,
    decreases m,
{
    if m > 1 {
        lemma_nonnegative_months(y, m - 1);
    }
}

/// A second count since the epoch as `YYYY-MM-DDTHH:MM:SSZ`.
pub open spec fn iso8601(secs: nat) -> Seq<char> {
    clock::date_time(secs) + "Z"@
}

/// A second count since the epoch as `YYYY-MM-DDTHH:MM:SSZ`.
pub fn format_exp_iso8601(unix_secs: u64) -> (r: String)
    ensures
        r@ == iso8601(unix_secs as nat),
{
    let days: u64 = unix_secs / 86_400;
    let time_of_day: u64 = unix_secs % 86_400;
    let (year, month, day) = days_to_ymd(days);
    proof {
        let t = clock::date_of_day(days as int);
        let w = (year as int, month as int, day as int);
        assert(clock::valid_date(w.0, w.1, w.2) && clock::day_number(w.0, w.1, w.2) == days);
        law_dates_are_unique(t.0, t.1, t.2, w.0, w.1, w.2);
    }
    let mut out: String = String::new();
    push_padded(&mut out, year as u64, 4);
    out.push_str("-");
    push_padded(&mut out, month as u64, 2);
    out.push_str("-");
    push_padded(&mut out, day as u64, 2);
    out.push_str("T");
    push_padded(&mut out, time_of_day / 3600, 2);
    out.push_str(":");
    push_padded(&mut out, (time_of_day % 3600) / 60, 2);
    out.push_str(":");
    push_padded(&mut out, time_of_day % 60, 2);
    out.push_str("Z");
    assert(out@ =~= iso8601(unix_secs as nat));
    out
}

// ---------------------------------------------------------------------------
// The answer
// ---------------------------------------------------------------------------

/// The body of `GET /v1/auth/me`.
#[derive(Clone, Debug)]
pub struct AuthMeResponse {
    pub sub: String,
    pub aud: Vec<String>,
    pub scopes: Vec<String>,
    pub noyau: Option<String>,
    pub expires_at: String,
    pub issuer: String,
    pub claude_credentials_present: Option<bool>,
    pub version: String,
    pub api_surface_version: usize,
}

/// What a verified token says, with the noyau its principal is bound to. The
/// scopes are the token's own.
pub fn get_auth_me(
    jwt: &ValidatedJwt,
    map: &HabilitationMap,
    claude_credentials_present: Option<bool>,
    version: &str,
    api_surface_version: usize,
) -> (r: AuthMeResponse)
    requires
        map.wf(),
    ensures
        r.sub@ == jwt.sub@,
        text::views(r.aud@) == seq![jwt.aud@],
        r.scopes@ == jwt.scopes@,
        r.noyau is Some <==> nucleon_map::principal_binding(map.bindings(), jwt.iss@, jwt.sub@) is Some,
        r.noyau is Some ==> (r.noyau->0)@ == (nucleon_map::principal_binding(
            map.bindings(),
            jwt.iss@,
            jwt.sub@,
        )->0).noyau,
        r.expires_at@ == iso8601(jwt.exp as nat),
        r.issuer@ == jwt.iss@,
        r.claude_credentials_present == claude_credentials_present,
        r.version@ == version@,
        r.api_surface_version == api_surface_version,
{
    let noyau = match map.resolve(jwt.iss.as_str(), jwt.sub.as_str()) {
        Some(resolved) => Some(resolved.noyau.as_str().to_owned()),
        None => None,
    };
    let mut aud: Vec<String> = Vec::new();
    aud.push(jwt.aud.clone());
    assert(text::views(aud@) =~= seq![jwt.aud@]);
    AuthMeResponse {
        sub: jwt.sub.clone(),
        aud,
        scopes: copy_list(&jwt.scopes),
        noyau,
        expires_at: format_exp_iso8601(jwt.exp),
        issuer: jwt.iss.clone(),
        claude_credentials_present,
        version: version.to_owned(),
        api_surface_version,
    }
}

// ---------------------------------------------------------------------------
// The plan
// ---------------------------------------------------------------------------

pub open spec fn auth_me_plan() -> Seq<Stage> {
    seq![
        Stage::Bearer { metered: false },
        Stage::Token { metered: true },
        Stage::Answer { status: 200 },
    ]
}

/// The plan of `GET /v1/auth/me`: a token that verifies is all it takes.
pub fn auth_me_stages() -> (r: Vec<Stage>)
    ensures
        r@ == auth_me_plan(),
{
    vec![
        Stage::Bearer { metered: false },
        Stage::Token { metered: true },
        Stage::Answer { status: 200 },
    ]
}

// ---------------------------------------------------------------------------
// Laws
// ---------------------------------------------------------------------------


/// When a token expires is told as a date and a time of day in UTC.
pub proof fn law_expiry_is_in_utc(secs: nat)
    ensures
        iso8601(secs) == clock::date_time(secs) + "Z"@,
{
}

} // verus!
