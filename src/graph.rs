use vstd::prelude::*;

use crate::event::{CalendarEvent, EventCommand, EventResponse, TeamsMeeting};
use crate::instant::{parse_millis, parsed_millis};

verus! {

/// One page of a calendar view, as the calendar service returns it.
#[derive(Debug)]
pub struct Root {
    pub odata_context: Option<String>,
    pub value: Vec<Value>,
    pub odata_next_link: Option<String>,
}

/// One event of a calendar view, as the calendar service returns it.
#[derive(Debug)]
pub struct Value {
    pub odata_etag: Option<String>,
    pub id: Option<String>,
    pub created_date_time: Option<String>,
    pub last_modified_date_time: Option<String>,
    pub change_key: Option<String>,
    pub categories: Vec<Option<String>>,
    pub transaction_id: Option<Option<String>>,
    pub original_start_time_zone: Option<String>,
    pub original_end_time_zone: Option<String>,
    pub i_cal_uid: Option<String>,
    pub reminder_minutes_before_start: i64,
    pub is_reminder_on: bool,
    pub has_attachments: bool,
    pub subject: Option<String>,
    pub body_preview: Option<String>,
    pub importance: Option<String>,
    pub sensitivity: Option<String>,
    pub is_all_day: bool,
    pub is_cancelled: bool,
    pub is_organizer: bool,
    pub response_requested: bool,
    pub series_master_id: Option<Option<String>>,
    pub show_as: Option<String>,
    pub type_field: Option<String>,
    pub web_link: Option<String>,
    pub online_meeting_url: Option<String>,
    pub is_online_meeting: bool,
    pub online_meeting_provider: Option<String>,
    pub allow_new_time_proposals: bool,
    pub occurrence_id: Option<String>,
    pub is_draft: bool,
    pub hide_attendees: bool,
    pub response_status: ResponseStatus,
    pub body: Option<Body>,
    pub start: Start,
    pub end: End,
    pub location: Option<Location>,
    pub locations: Vec<Location2>,
    pub recurrence: Option<Recurrence>,
    pub attendees: Vec<Attendee>,
    pub organizer: Organizer,
    pub online_meeting: Option<OnlineMeeting>,
    pub calendar_odata_association_link: Option<String>,
    pub calendar_odata_navigation_link: Option<String>,
}

#[derive(Debug)]
pub struct ResponseStatus {
    pub response: Option<String>,
    pub time: Option<String>,
}

#[derive(Debug)]
pub struct Body {
    pub content_type: Option<String>,
    pub content: Option<String>,
}

#[derive(Debug)]
pub struct Start {
    pub date_time: Option<String>,
    pub time_zone: Option<String>,
}

#[derive(Debug)]
pub struct End {
    pub date_time: Option<String>,
    pub time_zone: Option<String>,
}

#[derive(Debug)]
pub struct Location {
    pub display_name: Option<Option<String>>,
    pub location_type: Option<Option<String>>,
    pub unique_id: Option<Option<String>>,
    pub unique_id_type: Option<Option<String>>,
}

#[derive(Debug)]
pub struct Location2 {
    pub display_name: Option<String>,
    pub location_type: Option<String>,
    pub unique_id: Option<String>,
    pub unique_id_type: Option<String>,
    pub location_uri: Option<Option<String>>,
    pub address: Option<Address>,
    pub coordinates: Option<Coordinates>,
}

#[derive(Debug)]
pub struct Address {
    pub street: Option<String>,
    pub city: Option<String>,
    pub state: Option<String>,
    pub country_or_region: Option<String>,
    pub postal_code: Option<String>,
}

#[derive(Debug)]
pub struct Coordinates {}

#[derive(Debug)]
pub struct Recurrence {
    pub pattern: Pattern,
    pub range: Range,
}

#[derive(Debug)]
pub struct Pattern {
    pub type_field: Option<String>,
    pub interval: i64,
    pub month: i64,
    pub day_of_month: i64,
    pub days_of_week: Vec<Option<String>>,
    pub first_day_of_week: Option<String>,
    pub index: Option<String>,
}

#[derive(Debug)]
pub struct Range {
    pub type_field: Option<String>,
    pub start_date: Option<String>,
    pub end_date: Option<String>,
    pub recurrence_time_zone: Option<String>,
    pub number_of_occurrences: i64,
}

#[derive(Debug)]
pub struct Attendee {
    pub type_field: Option<String>,
    pub status: Status,
    pub email_address: EmailAddress,
}

#[derive(Debug)]
pub struct Status {
    pub response: Option<String>,
    pub time: Option<String>,
}

#[derive(Debug)]
pub struct EmailAddress {
    pub name: Option<String>,
    pub address: Option<String>,
}

#[derive(Debug)]
pub struct Organizer {
    pub email_address: EmailAddress2,
}

#[derive(Debug)]
pub struct EmailAddress2 {
    pub name: Option<String>,
    pub address: Option<String>,
}

#[derive(Debug)]
pub struct OnlineMeeting {
    pub join_url: Option<String>,
    pub quick_dial: Option<Option<String>>,
}

/// The format of the service's date-times, once a UTC offset is appended.
pub const DATE_TIME_FORMAT: &'static str = "%Y-%m-%dT%H:%M:%S%.f%z";

/// The service sends date-times in UTC without an offset: this one is
/// appended before they are read.
pub const UTC_OFFSET: &'static str = "+0000";

/// The instant that a date-time of the service stands for, if it reads.
pub open spec fn instant_of(date_time: Option<String>) -> Option<i64> {
    match date_time {
        Some(t) => parsed_millis(t@ + UTC_OFFSET@, DATE_TIME_FORMAT@),
        None => None,
    }
}

/// The text of an optional string, empty where it is absent.
pub open spec fn text_or_empty(t: Option<String>) -> Seq<char> {
    match t {
        Some(s) => s@,
        None => Seq::empty(),
    }
}

/// The name of the place of an event, empty where none is given.
pub open spec fn location_text(l: Option<Location>) -> Seq<char> {
    match l {
        Some(loc) => match loc.display_name {
            Some(name) => text_or_empty(name),
            None => Seq::empty(),
        },
        None => Seq::empty(),
    }
}

/// The content of the body of an event, empty where none is given.
pub open spec fn body_text(b: Option<Body>) -> Seq<char> {
    match b {
        Some(body) => text_or_empty(body.content),
        None => Seq::empty(),
    }
}

/// The response that the service's status text stands for.
pub open spec fn response_of(status: Option<String>) -> Option<EventResponse> {
    match status {
        Some(s) => if s@ == "accepted"@ {
            Some(EventResponse::Accepted)
        } else if s@ == "notResponded"@ {
            Some(EventResponse::NotResponded)
        } else {
            Some(EventResponse::Unknown)
        },
        None => None,
    }
}

/// An event of the service names what an event needs besides its times: an
/// identifier, a subject and an organizer's name.
pub open spec fn has_required_fields(v: Value) -> bool {
    &&& v.id is Some
    &&& v.subject is Some
    &&& v.organizer.email_address.name is Some
}

/// An event of the service can be taken in: it has the required fields and
/// a start and an end that read.
pub open spec fn convertible(v: Value) -> bool {
    &&& has_required_fields(v)
    &&& instant_of(v.start.date_time) is Some
    &&& instant_of(v.end.date_time) is Some
}

/// `e` is what the event `v` of the service stands for, given the instants
/// its start and end read as.
pub open spec fn converted_at(v: Value, start_time: i64, end_time: i64, e: CalendarEvent) -> bool {
    &&& v.id == Some(e.id)
    &&& v.subject == Some(e.subject)
    &&& v.organizer.email_address.name == Some(e.organizer)
    &&& e.start_time == start_time
    &&& e.end_time == end_time
    &&& e.is_cancelled == v.is_cancelled
    &&& e.location@ == location_text(v.location)
    &&& e.body@ == body_text(v.body)
    &&& e.response == response_of(v.response_status.response)
    &&& e.teams_meeting is Some == v.is_online_meeting
    &&& (e.teams_meeting matches Some(m) ==> m.url@ == text_or_empty(v.online_meeting_url))
}

/// `e` is what the event `v` of the service stands for.
pub open spec fn converted(v: Value, e: CalendarEvent) -> bool {
    &&& instant_of(v.start.date_time) == Some(e.start_time)
    &&& instant_of(v.end.date_time) == Some(e.end_time)
    &&& converted_at(v, e.start_time, e.end_time, e)
}

/// Reads a date-time of the service as an instant.
pub fn read_date_time(date_time: &Option<String>) -> (r: Option<i64>)
    ensures
        r == instant_of(*date_time),
{
    match date_time {
        Some(t) => {
            let mut text = String::from_str(t.as_str());
            text.append(UTC_OFFSET);
            parse_millis(text.as_str(), DATE_TIME_FORMAT)
        },
        None => None,
    }
}

fn copy_or_empty(t: &Option<String>) -> (r: String)
    ensures
        r@ == text_or_empty(*t),
{
    match t {
        Some(s) => s.clone(),
        None => String::new(),
    }
}

/// Reads the service's response status.
pub fn read_response(status: &Option<String>) -> (r: Option<EventResponse>)
    ensures
        r == response_of(*status),
{
    match status {
        Some(s) => {
            let accepted = String::from_str("accepted");
            let not_responded = String::from_str("notResponded");
            if *s == accepted {
                Some(EventResponse::Accepted)
            } else if *s == not_responded {
                Some(EventResponse::NotResponded)
            } else {
                Some(EventResponse::Unknown)
            }
        },
        None => None,
    }
}

/// The calendar event that an event of the service stands for, with the
/// start and end given, or `None` where a required field is missing.
pub fn event_with_times(v: &Value, start_time: i64, end_time: i64) -> (r: Option<CalendarEvent>)
    ensures
        r is Some == has_required_fields(*v),
        r matches Some(e) ==> converted_at(*v, start_time, end_time, e),
{
    let id = match &v.id {
        Some(s) => s.clone(),
        None => return None,
    };
    let subject = match &v.subject {
        Some(s) => s.clone(),
        None => return None,
    };
    let organizer = match &v.organizer.email_address.name {
        Some(s) => s.clone(),
        None => return None,
    };
    let location = match &v.location {
        Some(loc) => match &loc.display_name {
            Some(name) => copy_or_empty(name),
            None => String::new(),
        },
        None => String::new(),
    };
    let body = match &v.body {
        Some(b) => copy_or_empty(&b.content),
        None => String::new(),
    };
    let teams_meeting = if v.is_online_meeting {
        Some(TeamsMeeting { url: copy_or_empty(&v.online_meeting_url) })
    } else {
        None
    };
    let response = read_response(&v.response_status.response);
    Some(
        CalendarEvent {
            id,
            is_cancelled: v.is_cancelled,
            end_time,
            start_time,
            organizer,
            subject,
            location,
            body,
            teams_meeting,
            response,
        },
    )
}

/// The calendar event that an event of the service stands for, or `None`
/// where a required field is missing or a date-time does not read.
pub fn event_from_value(v: &Value) -> (r: Option<CalendarEvent>)
    ensures
        r is Some == convertible(*v),
        r matches Some(e) ==> converted(*v, e),
{
    let start_time = match read_date_time(&v.start.date_time) {
        Some(t) => t,
        None => return None,
    };
    let end_time = match read_date_time(&v.end.date_time) {
        Some(t) => t,
        None => return None,
    };
    event_with_times(v, start_time, end_time)
}

/// The service's events that can be taken in and start after `now`.
pub open spec fn upcoming(now: i64) -> spec_fn(Value) -> bool {
    |v: Value| convertible(v) && instant_of(v.start.date_time).unwrap() > now
}

/// The commands that one page of the calendar view yields: an upsert of each
/// event that can be taken in and starts after `now`, in the page's order.
pub fn commands_from_root(root: &Root, now: i64) -> (r: Vec<EventCommand>)
    ensures
        r@.len() == root.value@.filter(upcoming(now)).len(),
        forall|i: int|
            0 <= i < r@.len() ==> (#[trigger] r@[i] matches EventCommand::Upsert(e) && converted(
                root.value@.filter(upcoming(now))[i],
                e,
            )),
{
    let ghost vs = root.value@;
    let ghost p = upcoming(now);
    let mut out: Vec<EventCommand> = Vec::new();
    let n = root.value.len();
    let mut k: usize = 0;
    while k < n
        invariant
            k <= n,
            n == vs.len(),
            vs == root.value@,
            p == upcoming(now),
            out@.len() == vs.subrange(0, k as int).filter(p).len(),
            forall|i: int|
                0 <= i < out@.len() ==> (#[trigger] out@[i] matches EventCommand::Upsert(e)
                    && converted(vs.subrange(0, k as int).filter(p)[i], e)),
        decreases n - k,
    {
        let v = &root.value[k];
        let ghost before = vs.subrange(0, k as int);
        proof {
            assert(vs.subrange(0, k + 1) == before.push(*v));
            before.lemma_filter_push(*v, p);
        }
        match event_from_value(v) {
            Some(e) => {
                if e.start_time > now {
                    out.push(EventCommand::Upsert(e));
                }
            },
            None => {},
        }
        k = k + 1;
    }
    proof {
        assert(vs.subrange(0, n as int) == vs);
    }
    out
}

} // verus!
