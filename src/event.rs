use vstd::prelude::*;

verus! {

/// The join link of an event held as an online meeting.
#[derive(Debug, Clone)]
pub struct TeamsMeeting {
    pub url: String,
}

/// The user's answer to an invitation.
#[derive(Debug, Clone, Copy, PartialEq, Eq, Structural)]
pub enum EventResponse {
    Accepted,
    NotResponded,
    Unknown,
}

impl EventResponse {
    /// The text shown for a response.
    pub open spec fn label_spec(self) -> Seq<char> {
        match self {
            EventResponse::Accepted => "Accepted"@,
            EventResponse::NotResponded => "Not Responded"@,
            EventResponse::Unknown => "Unknown"@,
        }
    }

    pub fn label(&self) -> (r: &'static str)
        ensures
            r@ == self.label_spec(),
    {
        match self {
            EventResponse::Accepted => "Accepted",
            EventResponse::NotResponded => "Not Responded",
            EventResponse::Unknown => "Unknown",
        }
    }
}

/// One calendar entry. Instants are milliseconds since the Unix epoch (UTC).
#[derive(Debug, Clone)]
pub struct CalendarEvent {
    pub id: String,
    pub is_cancelled: bool,
    pub end_time: i64,
    pub start_time: i64,
    pub organizer: String,
    pub subject: String,
    pub location: String,
    pub body: String,
    pub teams_meeting: Option<TeamsMeeting>,
    pub response: Option<EventResponse>,
}

/// A change to the store, as sent by the calendar refresh.
#[derive(Debug)]
pub enum EventCommand {
    Upsert(CalendarEvent),
    Remove(CalendarEvent),
}

/// The text of an alert: the subject, then the organizer.
pub open spec fn alert_text_spec(e: CalendarEvent) -> Seq<char> {
    e.subject@ + "\n"@ + e.organizer@
}

/// The join link of an event, empty where it has none.
pub open spec fn meeting_url_spec(e: CalendarEvent) -> Seq<char> {
    match e.teams_meeting {
        Some(m) => m.url@,
        None => Seq::empty(),
    }
}

/// The label of a response, empty where there is none.
pub open spec fn response_label_spec(r: Option<EventResponse>) -> Seq<char> {
    match r {
        Some(x) => x.label_spec(),
        None => Seq::empty(),
    }
}

/// The text of the detail view: subject, place, organizer, join link,
/// response and body, one per line.
pub open spec fn detail_text_spec(e: CalendarEvent) -> Seq<char> {
    e.subject@ + "\n"@ + e.location@ + "\n"@ + e.organizer@ + "\n"@ + meeting_url_spec(e) + "\n"@
        + response_label_spec(e.response) + "\n"@ + e.body@
}

impl CalendarEvent {
    /// The text of an alert about this event.
    pub fn alert_text(&self) -> (r: String)
        ensures
            r@ == alert_text_spec(*self),
    {
        let mut t = self.subject.clone();
        t.append("\n");
        t.append(self.organizer.as_str());
        t
    }

    /// The text of the detail view of this event.
    pub fn detail_text(&self) -> (r: String)
        ensures
            r@ == detail_text_spec(*self),
    {
        let mut t = self.subject.clone();
        t.append("\n");
        t.append(self.location.as_str());
        t.append("\n");
        t.append(self.organizer.as_str());
        t.append("\n");
        match &self.teams_meeting {
            Some(m) => t.append(m.url.as_str()),
            None => {},
        }
        t.append("\n");
        match &self.response {
            Some(r) => t.append(r.label()),
            None => {},
        }
        t.append("\n");
        t.append(self.body.as_str());
        proof {
            assert(t@ =~= detail_text_spec(*self));
        }
        t
    }
}

} // verus!
