use vstd::prelude::*;

use crate::event::{CalendarEvent, EventCommand};
use crate::focus::{
    clamp_selection, clamped_index, focus_after, next_focus, next_index, previous_index,
    select_next, select_previous, selection_after, valid_selection, Focus, Key,
};
use crate::instant::{fire_delay, fire_delay_spec};
use crate::store::{
    ascending, is_new, lemma_filter_ascending, lemma_same_start_keeps_one, lemma_upserted_ascending,
    not_identified_by, removed, swept, unexpired, upserted, EventStore,
};

verus! {

/// The events after one command.
pub open spec fn applied(s: Seq<CalendarEvent>, c: EventCommand) -> Seq<CalendarEvent> {
    match c {
        EventCommand::Upsert(e) => upserted(s, e),
        EventCommand::Remove(e) => removed(s, e),
    }
}

/// The start times whose reminders one command arms: that of an upserted
/// event that was new, and no other.
pub open spec fn armed(s: Seq<CalendarEvent>, c: EventCommand) -> Seq<i64> {
    match c {
        EventCommand::Upsert(e) => if is_new(s, e) {
            seq![e.start_time]
        } else {
            Seq::empty()
        },
        EventCommand::Remove(_) => Seq::empty(),
    }
}

/// The events after the commands `cs`, in their order.
pub open spec fn applied_all(s: Seq<CalendarEvent>, cs: Seq<EventCommand>) -> Seq<CalendarEvent>
    decreases cs.len(),
{
    if cs.len() == 0 {
        s
    } else {
        applied(applied_all(s, cs.drop_last()), cs.last())
    }
}

/// The start times whose reminders the commands `cs` arm, in their order.
pub open spec fn armed_all(s: Seq<CalendarEvent>, cs: Seq<EventCommand>) -> Seq<i64>
    decreases cs.len(),
{
    if cs.len() == 0 {
        Seq::empty()
    } else {
        armed_all(s, cs.drop_last()) + armed(applied_all(s, cs.drop_last()), cs.last())
    }
}

/// Every command keeps the events in ascending order of start time.
pub proof fn lemma_applied_ascending(s: Seq<CalendarEvent>, c: EventCommand)
    requires
        ascending(s),
    ensures
        ascending(applied(s, c)),
{
    match c {
        EventCommand::Upsert(e) => lemma_upserted_ascending(s, e),
        EventCommand::Remove(e) => lemma_filter_ascending(s, not_identified_by(e.id@)),
    }
}

/// Whatever commands arrive, in whatever order, the events stay in ascending
/// order of start time, and so do they after a sweep.
pub proof fn lemma_applied_all_ascending(s: Seq<CalendarEvent>, cs: Seq<EventCommand>, now: i64)
    requires
        ascending(s),
    ensures
        ascending(applied_all(s, cs)),
        ascending(swept(applied_all(s, cs), now)),
    decreases cs.len(),
{
    if cs.len() > 0 {
        lemma_applied_all_ascending(s, cs.drop_last(), now);
        lemma_applied_ascending(applied_all(s, cs.drop_last()), cs.last());
    }
    lemma_filter_ascending(applied_all(s, cs), unexpired(now));
}

/// A new event arms exactly one reminder; upserting an event with the same
/// start time again, whatever its other fields, arms no second one.
pub proof fn lemma_update_arms_no_second_timer(
    s: Seq<CalendarEvent>,
    e1: CalendarEvent,
    e2: CalendarEvent,
)
    requires
        is_new(s, e1),
        e1.start_time == e2.start_time,
    ensures
        armed(s, EventCommand::Upsert(e1)) == seq![e1.start_time],
        armed(applied(s, EventCommand::Upsert(e1)), EventCommand::Upsert(e2)) == Seq::<i64>::empty(),
        armed_all(s, seq![EventCommand::Upsert(e1), EventCommand::Upsert(e2)]) == seq![
            e1.start_time,
        ],
{
    lemma_same_start_keeps_one(s, e1, e2);
    let c1 = EventCommand::Upsert(e1);
    let c2 = EventCommand::Upsert(e2);
    let cs = seq![c1, c2];
    assert(cs.drop_last() == seq![c1]);
    assert(seq![c1].drop_last() == Seq::<EventCommand>::empty());
    assert(seq![c1].last() == c1);
    assert(cs.last() == c2);
    assert(applied_all(s, Seq::<EventCommand>::empty()) == s);
    assert(armed_all(s, Seq::<EventCommand>::empty()) == Seq::<i64>::empty());
    assert(applied_all(s, seq![c1]) == applied(s, c1));
    assert(armed_all(s, seq![c1]) =~= seq![e1.start_time]);
    assert(armed_all(s, cs) =~= seq![e1.start_time]);
}

/// What one tick hands back to the loop that runs it.
#[derive(Debug)]
pub struct Tick {
    /// The sleep, in milliseconds, of each reminder to arm, one per new event.
    pub timer_delays: Vec<u64>,
    /// Whether an alert was raised, so that the terminal is to be surfaced.
    pub alert: bool,
}

/// The state of the calendar view: the events, the view shown and the cursor
/// into the ascending list of events.
pub struct App {
    events: EventStore,
    focus: Focus,
    selected: Option<usize>,
}

impl App {
    #[verifier::type_invariant]
    spec fn inv(&self) -> bool {
        valid_selection(self.selected, self.events@.len())
    }

    /// The events held, in ascending order of start time.
    pub closed spec fn events_view(&self) -> Seq<CalendarEvent> {
        self.events@
    }

    /// The view shown.
    pub closed spec fn focus_view(&self) -> Focus {
        self.focus
    }

    /// The cursor.
    pub closed spec fn selected_view(&self) -> Option<usize> {
        self.selected
    }

    /// No events, the list shown, no cursor.
    pub fn new() -> (r: Self)
        ensures
            r.events_view() == Seq::<CalendarEvent>::empty(),
            r.focus_view() == Focus::Table,
            r.selected_view() == None::<usize>,
    {
        App { events: EventStore::new(), focus: Focus::Table, selected: None }
    }

    /// The store of events.
    pub fn events(&self) -> (r: &EventStore)
        ensures
            r@ == self.events_view(),
            ascending(self.events_view()),
            valid_selection(self.selected_view(), self.events_view().len()),
    {
        proof {
            use_type_invariant(self);
        }
        let _ = self.events.events();
        &self.events
    }

    /// The view shown.
    pub fn focus(&self) -> (r: Focus)
        ensures
            r == self.focus_view(),
    {
        self.focus
    }

    /// The cursor.
    pub fn selected(&self) -> (r: Option<usize>)
        ensures
            r == self.selected_view(),
            valid_selection(r, self.events_view().len()),
    {
        proof {
            use_type_invariant(self);
        }
        self.selected
    }

    /// Takes the events out, leaving none and no cursor.
    fn take_events(&mut self) -> (r: EventStore)
        ensures
            r@ == old(self).events_view(),
            final(self).events_view() == Seq::<CalendarEvent>::empty(),
            final(self).selected_view() == None::<usize>,
            final(self).focus_view() == old(self).focus_view(),
    {
        self.selected = None;
        let mut store = EventStore::new();
        std::mem::swap(&mut store, &mut self.events);
        store
    }

    /// Puts the events back, with the cursor `sel` brought into them.
    fn restore_events(&mut self, store: EventStore, sel: Option<usize>)
        ensures
            final(self).events_view() == store@,
            final(self).selected_view() == clamped_index(sel, store@.len()),
            final(self).focus_view() == old(self).focus_view(),
    {
        let len = store.len();
        self.selected = None;
        self.events = store;
        self.selected = clamp_selection(sel, len);
    }

    /// The event under the cursor, if any.
    pub fn selected_event(&self) -> (r: Option<&CalendarEvent>)
        ensures
            r == (match self.selected_view() {
                Some(i) => Some(&self.events_view()[i as int]),
                None => None,
            }),
    {
        proof {
            use_type_invariant(self);
        }
        match self.selected {
            Some(i) => self.events.get(i),
            None => None,
        }
    }

    /// The earliest event, the one an alert is about, if any.
    pub fn first_event(&self) -> (r: Option<&CalendarEvent>)
        ensures
            r == (if self.events_view().len() > 0 {
                Some(&self.events_view()[0])
            } else {
                None
            }),
    {
        self.events.get(0)
    }

    /// Upserts `event` and brings the cursor back into the list. Returns the
    /// start time of the event where it is new, the instant its reminder is
    /// for, and `None` where it replaced an event.
    pub fn add_event(&mut self, event: CalendarEvent) -> (r: Option<i64>)
        ensures
            r == (if is_new(old(self).events_view(), event) {
                Some(event.start_time)
            } else {
                None
            }),
            final(self).events_view() == upserted(old(self).events_view(), event),
            final(self).focus_view() == old(self).focus_view(),
            final(self).selected_view() == clamped_index(
                old(self).selected_view(),
                final(self).events_view().len(),
            ),
    {
        let sel = self.selected;
        let mut store = self.take_events();
        let start = event.start_time;
        let fresh = store.upsert(event);
        self.restore_events(store, sel);
        if fresh {
            Some(start)
        } else {
            None
        }
    }

    /// Applies one command and brings the cursor back into the list. Returns
    /// the start time whose reminder is to be armed, if any.
    pub fn apply(&mut self, command: EventCommand) -> (r: Option<i64>)
        ensures
            (match r {
                Some(t) => seq![t],
                None => Seq::<i64>::empty(),
            }) == armed(old(self).events_view(), command),
            final(self).events_view() == applied(old(self).events_view(), command),
            final(self).focus_view() == old(self).focus_view(),
            final(self).selected_view() == clamped_index(
                old(self).selected_view(),
                final(self).events_view().len(),
            ),
    {
        match command {
            EventCommand::Upsert(e) => self.add_event(e),
            EventCommand::Remove(e) => {
                let sel = self.selected;
                let mut store = self.take_events();
                store.remove(&e);
                self.restore_events(store, sel);
                None
            },
        }
    }

    /// Removes the events that ended before `now` and brings the cursor back
    /// into the list.
    pub fn sweep(&mut self, now: i64)
        ensures
            final(self).events_view() == swept(old(self).events_view(), now),
            final(self).focus_view() == old(self).focus_view(),
            final(self).selected_view() == clamped_index(
                old(self).selected_view(),
                final(self).events_view().len(),
            ),
    {
        let sel = self.selected;
        let mut store = self.take_events();
        store.sweep(now);
        self.restore_events(store, sel);
    }

    /// Shows the view `focus`.
    pub fn set_focus(&mut self, focus: Focus)
        ensures
            final(self).focus_view() == focus,
            final(self).events_view() == old(self).events_view(),
            final(self).selected_view() == old(self).selected_view(),
    {
        proof {
            use_type_invariant(&*self);
        }
        self.focus = focus;
    }

    /// Shows the alert, whatever view was shown.
    pub fn popup(&mut self)
        ensures
            final(self).focus_view() == Focus::Popup,
            final(self).events_view() == old(self).events_view(),
            final(self).selected_view() == old(self).selected_view(),
    {
        proof {
            use_type_invariant(&*self);
        }
        self.focus = Focus::Popup;
    }

    /// Moves the cursor down one event, wrapping from the last to the first.
    pub fn next(&mut self)
        ensures
            final(self).selected_view() == next_index(
                old(self).selected_view(),
                old(self).events_view().len(),
            ),
            final(self).events_view() == old(self).events_view(),
            final(self).focus_view() == old(self).focus_view(),
    {
        self.selected = select_next(self.selected, self.events.len());
    }

    /// Moves the cursor up one event, wrapping from the first to the last.
    pub fn previous(&mut self)
        ensures
            final(self).selected_view() == previous_index(
                old(self).selected_view(),
                old(self).events_view().len(),
            ),
            final(self).events_view() == old(self).events_view(),
            final(self).focus_view() == old(self).focus_view(),
    {
        self.selected = select_previous(self.selected, self.events.len());
    }

    /// Handles one key. Returns whether the program is to quit.
    pub fn handle_key(&mut self, key: Key) -> (quit: bool)
        ensures
            quit == (key == Key::Quit),
            final(self).focus_view() == focus_after(old(self).focus_view(), key),
            final(self).selected_view() == selection_after(
                old(self).focus_view(),
                key,
                old(self).selected_view(),
                old(self).events_view().len(),
            ),
            final(self).events_view() == old(self).events_view(),
    {
        proof {
            use_type_invariant(&*self);
        }
        if self.focus == Focus::Table {
            if key == Key::Down {
                self.next();
            } else if key == Key::Up {
                self.previous();
            }
        }
        self.focus = next_focus(self.focus, key);
        key == Key::Quit
    }

    /// The alert gate: where `pending` reminders fired since the last check,
    /// however many, raises one alert and shows it. Returns whether it did.
    pub fn raise_alert(&mut self, pending: usize) -> (r: bool)
        ensures
            r == (pending > 0),
            final(self).focus_view() == (if pending > 0 {
                Focus::Popup
            } else {
                old(self).focus_view()
            }),
            final(self).events_view() == old(self).events_view(),
            final(self).selected_view() == old(self).selected_view(),
    {
        if pending > 0 {
            self.popup();
            true
        } else {
            false
        }
    }

    /// One pass of the foreground loop: applies `commands` in their order,
    /// then raises one alert where `fired` reminders are pending, then removes
    /// the events that ended before `now`, and brings the cursor back into
    /// the list. Returns the sleep of the reminder of each new event, with a
    /// lead time of `lead_minutes`, and whether an alert was raised.
    pub fn tick(
        &mut self,
        commands: Vec<EventCommand>,
        fired: usize,
        now: i64,
        lead_minutes: i64,
    ) -> (r: Tick)
        ensures
            final(self).events_view() == swept(
                applied_all(old(self).events_view(), commands@),
                now,
            ),
            final(self).focus_view() == (if fired > 0 {
                Focus::Popup
            } else {
                old(self).focus_view()
            }),
            final(self).selected_view() == clamped_index(
                old(self).selected_view(),
                final(self).events_view().len(),
            ),
            r.alert == (fired > 0),
            r.timer_delays@.len() == armed_all(old(self).events_view(), commands@).len(),
            forall|i: int|
                0 <= i < r.timer_delays@.len() ==> r.timer_delays@[i] as int == fire_delay_spec(
                    #[trigger] armed_all(old(self).events_view(), commands@)[i] as int,
                    lead_minutes as int,
                    now as int,
                ),
    {
        let sel = self.selected;
        let mut store = self.take_events();
        let ghost s0 = store@;
        let ghost cs = commands@;
        let mut delays: Vec<u64> = Vec::new();
        let n = commands.len();
        let mut pending = commands;
        let mut k: usize = 0;
        while k < n
            invariant
                k <= n,
                n == cs.len(),
                pending@ == cs.subrange(k as int, n as int),
                store@ == applied_all(s0, cs.subrange(0, k as int)),
                delays@.len() == armed_all(s0, cs.subrange(0, k as int)).len(),
                forall|i: int|
                    0 <= i < delays@.len() ==> delays@[i] as int == fire_delay_spec(
                        #[trigger] armed_all(s0, cs.subrange(0, k as int))[i] as int,
                        lead_minutes as int,
                        now as int,
                    ),
            decreases n - k,
        {
            let ghost before = store@;
            let ghost prev_armed = armed_all(s0, cs.subrange(0, k as int));
            let ghost prev_delays = delays@;
            assert(pending@.len() > 0);
            let command = pending.remove(0);
            assert(command == cs[k as int]);
            proof {
                let next = cs.subrange(0, k + 1);
                assert(next.drop_last() == cs.subrange(0, k as int));
                assert(next.last() == cs[k as int]);
                assert(pending@ =~= cs.subrange(k + 1, n as int));
            }
            match command {
                EventCommand::Upsert(e) => {
                    let start = e.start_time;
                    if store.upsert(e) {
                        delays.push(fire_delay(start, lead_minutes, now));
                    }
                },
                EventCommand::Remove(e) => {
                    store.remove(&e);
                },
            }
            k = k + 1;
            proof {
                let cur = armed_all(s0, cs.subrange(0, k as int));
                assert(cur == prev_armed + armed(before, cs[k - 1]));
                assert forall|i: int| 0 <= i < delays@.len() implies delays@[i] as int
                    == fire_delay_spec(#[trigger] cur[i] as int, lead_minutes as int, now as int) by {
                    if i < prev_delays.len() {
                        assert(cur[i] == prev_armed[i]);
                        assert(delays@[i] == prev_delays[i]);
                    }
                }
            }
        }
        proof {
            assert(cs.subrange(0, n as int) == cs);
        }
        let alert = self.raise_alert(fired);
        store.sweep(now);
        self.restore_events(store, sel);
        Tick { timer_delays: delays, alert }
    }
}

} // verus!
