use vstd::prelude::*;

verus! {

/// Settings read once at startup.
#[derive(Debug)]
pub struct Config {
    /// Index of the colour theme.
    pub theme: usize,
    /// How long before an event its reminder fires.
    pub notification_period_minutes: i64,
    /// How often the calendar is fetched again.
    pub refresh_period_seconds: u32,
    /// How many days ahead the calendar is read.
    pub limit_days: u64,
    /// How long sign-in may take before the program gives up.
    pub auth_timeout_millis: u64,
    pub outlook: OutlookConfig,
}

/// Where and as whom the calendar is read.
#[derive(Debug)]
pub struct OutlookConfig {
    pub client_id: String,
    pub base_url: String,
}

/// The address of the calendar view between `start` and `end` below the
/// service's `base_url`.
pub open spec fn calendar_view_url_spec(base_url: Seq<char>, start: Seq<char>, end: Seq<char>) -> Seq<
    char,
> {
    base_url + "/me/calendarView?startDateTime="@ + start + "&endDateTime="@ + end
}

/// Builds the address of the calendar view between `start` and `end`.
pub fn calendar_view_url(base_url: &str, start: &str, end: &str) -> (r: String)
    ensures
        r@ == calendar_view_url_spec(base_url@, start@, end@),
{
    let mut url = String::from_str(base_url);
    url.append("/me/calendarView?startDateTime=");
    url.append(start);
    url.append("&endDateTime=");
    url.append(end);
    url
}

/// The value of the authorization header that carries `token`.
pub fn bearer_header(token: &str) -> (r: String)
    ensures
        r@ == "Bearer "@ + token@,
{
    let mut h = String::from_str("Bearer ");
    h.append(token);
    h
}

/// Milliseconds in one day.
pub const MILLIS_PER_DAY: i64 = 86400000;

/// The end of the window that the calendar is read over: `limit_days` days
/// after `now`, or the last instant where that lies beyond it.
pub open spec fn window_end_spec(now: int, limit_days: int) -> int {
    let e = now + limit_days * 86400000;
    if e > i64::MAX {
        i64::MAX as int
    } else {
        e
    }
}

/// The end of the window that the calendar is read over.
pub fn window_end(now: i64, limit_days: u64) -> (r: i64)
    ensures
        r as int == window_end_spec(now as int, limit_days as int),
{
    assert((limit_days as int) * 86400000 <= 0x1_0000_0000_0000_0000_0000_0000) by (nonlinear_arith)
        requires
            limit_days <= u64::MAX,
    ;
    let span: i128 = (limit_days as i128) * (MILLIS_PER_DAY as i128);
    let e: i128 = (now as i128) + span;
    if e > (i64::MAX as i128) {
        i64::MAX
    } else {
        e as i64
    }
}

/// A new fetch of the calendar is due: none was made yet, or the last one
/// was at least `period_seconds` ago.
pub open spec fn refresh_due_spec(last: Option<i64>, now: int, period_seconds: int) -> bool {
    match last {
        Some(t) => now - t >= period_seconds * 1000,
        None => true,
    }
}

/// Whether the calendar is to be fetched again at `now`.
pub fn refresh_due(last: Option<i64>, now: i64, period_seconds: u32) -> (r: bool)
    ensures
        r == refresh_due_spec(last, now as int, period_seconds as int),
{
    match last {
        Some(t) => (now as i128) - (t as i128) >= (period_seconds as i128) * 1000,
        None => true,
    }
}

} // verus!
