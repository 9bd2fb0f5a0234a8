use vstd::prelude::*;

verus! {

/// What `chrono::DateTime::parse_from_str` yields on `text` and `format`,
/// as milliseconds since the Unix epoch, or `None` where it refuses.
pub uninterp spec fn parsed_millis(text: Seq<char>, format: Seq<char>) -> Option<i64>;

/// Relies on chrono::DateTime::parse_from_str (the text must carry its UTC
/// offset) and DateTime::timestamp_millis: the result depends on the two
/// strings alone.
#[verifier::external_body]
pub(crate) fn parse_millis(text: &str, format: &str) -> (r: Option<i64>)
    ensures
        r == parsed_millis(text@, format@),
{
    match chrono::DateTime::parse_from_str(text, format) {
        Ok(dt) => Some(dt.timestamp_millis()),
        Err(_) => None,
    }
}

/// Milliseconds in one minute.
pub const MILLIS_PER_MINUTE: i64 = 60000;

/// How long a reminder sleeps: from `now` until `lead_minutes` before
/// `start`, and never less than zero.
pub open spec fn fire_delay_spec(start: int, lead_minutes: int, now: int) -> int {
    let d = start - lead_minutes * 60000 - now;
    if d < 0 {
        0
    } else if d > u64::MAX {
        u64::MAX as int
    } else {
        d
    }
}

/// The sleep, in milliseconds, of the reminder of an event that starts at
/// `start`, armed at `now` with a lead time of `lead_minutes`. A reminder
/// whose time has already passed fires at once.
pub fn fire_delay(start: i64, lead_minutes: i64, now: i64) -> (r: u64)
    ensures
        r as int == fire_delay_spec(start as int, lead_minutes as int, now as int),
        start < now + lead_minutes * 60000 ==> r == 0,
{
    assert(-0x1_0000_0000_0000_0000_0000 <= (lead_minutes as int) * 60000 <= 0x1_0000_0000_0000_0000_0000)
        by (nonlinear_arith)
        requires
            i64::MIN <= lead_minutes <= i64::MAX,
    ;
    let lead: i128 = (lead_minutes as i128) * (MILLIS_PER_MINUTE as i128);
    let d: i128 = (start as i128) - lead - (now as i128);
    if d < 0 {
        0
    } else if d > (u64::MAX as i128) {
        u64::MAX
    } else {
        d as u64
    }
}

/// Whole minutes from `start` to `end`, rounded toward zero.
pub open spec fn minutes_between_spec(start: int, end: int) -> int {
    let d = end - start;
    if d >= 0 {
        d / 60000
    } else {
        -((-d) / 60000)
    }
}

/// The length, in whole minutes, of an event from `start` to `end`.
pub fn minutes_between(start: i64, end: i64) -> (r: i64)
    ensures
        r as int == minutes_between_spec(start as int, end as int),
{
    let d: i128 = (end as i128) - (start as i128);
    let m: i128 = if d >= 0 {
        d / (MILLIS_PER_MINUTE as i128)
    } else {
        -((-d) / (MILLIS_PER_MINUTE as i128))
    };
    assert(i64::MIN <= m <= i64::MAX) by (nonlinear_arith)
        requires
            d >= 0 ==> m == d / 60000,
            d < 0 ==> m == -((-d) / 60000),
            -0x1_0000_0000_0000_0000 <= d <= 0x1_0000_0000_0000_0000,
    ;
    m as i64
}

} // verus!
