use vstd::prelude::*;

use crate::event::CalendarEvent;

verus! {

/// Start times strictly increase along `s`: at most one event per start
/// time, in ascending order.
pub open spec fn ascending(s: Seq<CalendarEvent>) -> bool {
    forall|i: int, j: int| 0 <= i < j < s.len() ==> s[i].start_time < s[j].start_time
}

/// Events that start before `key`.
pub open spec fn starts_before(key: i64) -> spec_fn(CalendarEvent) -> bool {
    |x: CalendarEvent| x.start_time < key
}

/// Events that start after `key`.
pub open spec fn starts_after(key: i64) -> spec_fn(CalendarEvent) -> bool {
    |x: CalendarEvent| x.start_time > key
}

/// Events that start at `key`.
pub open spec fn starts_at(key: i64) -> spec_fn(CalendarEvent) -> bool {
    |x: CalendarEvent| x.start_time == key
}

/// Events that have not ended before `now`.
pub open spec fn unexpired(now: i64) -> spec_fn(CalendarEvent) -> bool {
    |x: CalendarEvent| x.end_time >= now
}

/// Events whose identifier differs from `id`.
pub open spec fn not_identified_by(id: Seq<char>) -> spec_fn(CalendarEvent) -> bool {
    |x: CalendarEvent| x.id@ != id
}

/// No event of `s` starts when `e` does: upserting `e` adds an entry
/// rather than replacing one.
pub open spec fn is_new(s: Seq<CalendarEvent>, e: CalendarEvent) -> bool {
    forall|i: int| 0 <= i < s.len() ==> s[i].start_time != e.start_time
}

/// `s` after upserting `e`: the events before it, `e`, and the events after
/// it. An event that started at the same instant is replaced.
#[verifier::opaque]
pub open spec fn upserted(s: Seq<CalendarEvent>, e: CalendarEvent) -> Seq<CalendarEvent> {
    s.filter(starts_before(e.start_time)) + seq![e] + s.filter(starts_after(e.start_time))
}

/// `s` without the events that share the identifier of `e`.
pub open spec fn removed(s: Seq<CalendarEvent>, e: CalendarEvent) -> Seq<CalendarEvent> {
    s.filter(not_identified_by(e.id@))
}

/// `s` without the events that ended before `now`.
pub open spec fn swept(s: Seq<CalendarEvent>, now: i64) -> Seq<CalendarEvent> {
    s.filter(unexpired(now))
}

/// Where `p` holds of the elements of `s` in `[a, b)` and of no other,
/// filtering by `p` keeps exactly that window.
pub proof fn lemma_filter_window(
    s: Seq<CalendarEvent>,
    p: spec_fn(CalendarEvent) -> bool,
    a: int,
    b: int,
)
    requires
        0 <= a <= b <= s.len(),
        forall|j: int| 0 <= j < s.len() ==> (#[trigger] p(s[j]) <==> a <= j < b),
    ensures
        s.filter(p) == s.subrange(a, b),
{
    let pre = s.subrange(0, a);
    let mid = s.subrange(a, b);
    let post = s.subrange(b, s.len() as int);
    assert(s == pre + mid + post);
    Seq::filter_distributes_over_add(pre + mid, post, p);
    Seq::filter_distributes_over_add(pre, mid, p);
    assert(pre.all(|x: CalendarEvent| !p(x))) by {
        assert forall|j: int| 0 <= j < pre.len() implies !p(#[trigger] pre[j]) by {
            assert(pre[j] == s[j]);
        }
    }
    assert(post.all(|x: CalendarEvent| !p(x))) by {
        assert forall|j: int| 0 <= j < post.len() implies !p(#[trigger] post[j]) by {
            assert(post[j] == s[b + j]);
        }
    }
    pre.lemma_all_neg_filter_empty(p);
    post.lemma_all_neg_filter_empty(p);
    lemma_filter_keeps_all(mid, p);
    assert(pre.filter(p) =~= Seq::<CalendarEvent>::empty());
    assert(post.filter(p) =~= Seq::<CalendarEvent>::empty());
    assert(s.filter(p) =~= mid);
}

/// Filtering by a predicate that every element meets keeps them all.
pub proof fn lemma_filter_keeps_all(s: Seq<CalendarEvent>, p: spec_fn(CalendarEvent) -> bool)
    requires
        forall|j: int| 0 <= j < s.len() ==> #[trigger] p(s[j]),
    ensures
        s.filter(p) == s,
    decreases s.len(),
{
    if s.len() > 0 {
        let rest = s.drop_last();
        assert forall|j: int| 0 <= j < rest.len() implies #[trigger] p(rest[j]) by {
            assert(rest[j] == s[j]);
        }
        lemma_filter_keeps_all(rest, p);
        rest.lemma_filter_push(s.last(), p);
        assert(rest.push(s.last()) == s);
    }
}

/// Filtering keeps an upper bound on the start times.
proof fn lemma_filter_starts_below(s: Seq<CalendarEvent>, p: spec_fn(CalendarEvent) -> bool, key: i64)
    requires
        forall|j: int| 0 <= j < s.len() ==> #[trigger] s[j].start_time < key,
    ensures
        forall|j: int|
            0 <= j < s.filter(p).len() ==> #[trigger] s.filter(p)[j].start_time < key,
    decreases s.len(),
{
    if s.len() > 0 {
        let rest = s.drop_last();
        assert forall|j: int| 0 <= j < rest.len() implies #[trigger] rest[j].start_time < key by {
            assert(rest[j] == s[j]);
        }
        lemma_filter_starts_below(rest, p, key);
        rest.lemma_filter_push(s.last(), p);
        assert(rest.push(s.last()) == s);
    }
}

/// A filtered ascending sequence is ascending.
pub proof fn lemma_filter_ascending(s: Seq<CalendarEvent>, p: spec_fn(CalendarEvent) -> bool)
    requires
        ascending(s),
    ensures
        ascending(s.filter(p)),
    decreases s.len(),
{
    if s.len() > 0 {
        let rest = s.drop_last();
        let last = s.last();
        lemma_filter_ascending(rest, p);
        rest.lemma_filter_push(last, p);
        assert(rest.push(last) == s);
        if p(last) {
            assert forall|j: int| 0 <= j < rest.len() implies #[trigger] rest[j].start_time
                < last.start_time by {
                assert(s[j] == rest[j]);
            }
            lemma_filter_starts_below(rest, p, last.start_time);
        }
    }
}

/// Filtering `s` from position `i` on, one element more than from `i + 1`.
proof fn lemma_filter_step(s: Seq<CalendarEvent>, p: spec_fn(CalendarEvent) -> bool, i: int)
    requires
        0 <= i < s.len(),
    ensures
        s.subrange(i, s.len() as int).filter(p) == (if p(s[i]) {
            seq![s[i]]
        } else {
            Seq::<CalendarEvent>::empty()
        }) + s.subrange(i + 1, s.len() as int).filter(p),
{
    let tail = s.subrange(i + 1, s.len() as int);
    let head = seq![s[i]];
    assert(s.subrange(i, s.len() as int) == head + tail);
    Seq::filter_distributes_over_add(head, tail, p);
    Seq::<CalendarEvent>::empty().lemma_filter_push(s[i], p);
    assert(Seq::<CalendarEvent>::empty().push(s[i]) == head);
    assert(Seq::<CalendarEvent>::empty().filter(p) =~= Seq::<CalendarEvent>::empty()) by {
        reveal(Seq::filter);
    }
}


/// Where an upserted event lands: after the events of `s` that start
/// before it, and before those that start after it.
pub proof fn lemma_upserted_layout(s: Seq<CalendarEvent>, e: CalendarEvent)
    ensures
        ({
            let a = s.filter(starts_before(e.start_time));
            let b = s.filter(starts_after(e.start_time));
            let t = upserted(s, e);
            &&& t.len() == a.len() + 1 + b.len()
            &&& forall|j: int| 0 <= j < a.len() ==> #[trigger] t[j] == a[j]
            &&& t[a.len() as int] == e
            &&& forall|j: int| a.len() < j < t.len() ==> #[trigger] t[j] == b[j - a.len() - 1]
            &&& forall|j: int| 0 <= j < a.len() ==> #[trigger] a[j].start_time < e.start_time
            &&& forall|j: int| 0 <= j < b.len() ==> #[trigger] b[j].start_time > e.start_time
        }),
{
    reveal(upserted);
    let k = e.start_time;
    let a = s.filter(starts_before(k));
    let b = s.filter(starts_after(k));
    assert forall|j: int| 0 <= j < a.len() implies #[trigger] a[j].start_time < k by {
        s.lemma_filter_pred(starts_before(k), j);
    }
    assert forall|j: int| 0 <= j < b.len() implies #[trigger] b[j].start_time > k by {
        s.lemma_filter_pred(starts_after(k), j);
    }
    let t = upserted(s, e);
    assert forall|j: int| a.len() < j < t.len() implies #[trigger] t[j] == b[j - a.len() - 1] by {}
}

/// Upserting two events that start at the same instant leaves one entry at
/// that instant, the second event; the second upsert finds the first and so
/// adds nothing.
pub proof fn lemma_same_start_keeps_one(s: Seq<CalendarEvent>, e1: CalendarEvent, e2: CalendarEvent)
    requires
        e1.start_time == e2.start_time,
    ensures
        !is_new(upserted(s, e1), e2),
        upserted(upserted(s, e1), e2).len() == upserted(s, e1).len(),
        upserted(upserted(s, e1), e2).filter(starts_at(e1.start_time)) == seq![e2],
{
    let k = e1.start_time;
    let a = s.filter(starts_before(k));
    let b = s.filter(starts_after(k));
    let t = upserted(s, e1);
    lemma_upserted_layout(s, e1);
    let n = t.len() as int;
    let i = a.len() as int;
    assert(t[i] == e1);
    assert forall|j: int| 0 <= j < n implies (#[trigger] starts_before(k)(t[j]) <==> 0 <= j < i) by {
        if j > i {
            assert(t[j] == b[j - i - 1]);
        }
    }
    lemma_filter_window(t, starts_before(k), 0, i);
    assert forall|j: int| 0 <= j < n implies (#[trigger] starts_after(k)(t[j]) <==> i + 1 <= j < n) by {
        if j > i {
            assert(t[j] == b[j - i - 1]);
        }
    }
    lemma_filter_window(t, starts_after(k), i + 1, n);
    let u = upserted(t, e2);
    lemma_upserted_layout(t, e2);
    assert(u.len() == n);
    assert(u[i] == e2);
    assert forall|j: int| 0 <= j < n implies (#[trigger] starts_at(k)(u[j]) <==> i <= j < i + 1) by {
        if j < i {
            assert(u[j] == t.subrange(0, i)[j]);
            assert(t[j] == a[j]);
        } else if j > i {
            assert(u[j] == t.subrange(i + 1, n)[j - i - 1]);
            assert(t[j] == b[j - i - 1]);
        }
    }
    lemma_filter_window(u, starts_at(k), i, i + 1);
    assert(u.subrange(i, i + 1) =~= seq![e2]);
}

/// Upserting into an ascending sequence keeps it ascending.
pub proof fn lemma_upserted_ascending(s: Seq<CalendarEvent>, e: CalendarEvent)
    requires
        ascending(s),
    ensures
        ascending(upserted(s, e)),
{
    let k = e.start_time;
    let a = s.filter(starts_before(k));
    let b = s.filter(starts_after(k));
    lemma_filter_ascending(s, starts_before(k));
    lemma_filter_ascending(s, starts_after(k));
    lemma_upserted_layout(s, e);
    let t = upserted(s, e);
    let m = a.len() as int;
    assert forall|i: int, j: int| 0 <= i < j < t.len() implies t[i].start_time
        < t[j].start_time by {
        if j < m {
            assert(t[i] == a[i] && t[j] == a[j]);
        } else if j == m {
            assert(t[i] == a[i]);
        } else if i < m {
            assert(t[i] == a[i] && t[j] == b[j - m - 1]);
        } else if i == m {
            assert(t[j] == b[j - m - 1]);
        } else {
            assert(t[i] == b[i - m - 1] && t[j] == b[j - m - 1]);
        }
    }
}

/// The events of the calendar, kept in ascending order of start time, with at
/// most one event per start time.
pub struct EventStore {
    events: Vec<CalendarEvent>,
}

impl View for EventStore {
    type V = Seq<CalendarEvent>;

    closed spec fn view(&self) -> Seq<CalendarEvent> {
        self.events@
    }
}

impl EventStore {
    #[verifier::type_invariant]
    spec fn inv(&self) -> bool {
        ascending(self.events@)
    }

    /// An empty store.
    pub fn new() -> (r: Self)
        ensures
            r@ == Seq::<CalendarEvent>::empty(),
    {
        EventStore { events: Vec::new() }
    }

    /// Number of events held.
    pub fn len(&self) -> (r: usize)
        ensures
            r == self@.len(),
    {
        self.events.len()
    }

    /// The events, in ascending order of start time.
    pub fn events(&self) -> (r: &Vec<CalendarEvent>)
        ensures
            r@ == self@,
            ascending(self@),
    {
        proof {
            use_type_invariant(self);
        }
        &self.events
    }

    /// The event at position `i` of the ascending order, if there is one.
    pub fn get(&self, i: usize) -> (r: Option<&CalendarEvent>)
        ensures
            r == (if i < self@.len() {
                Some(&self@[i as int])
            } else {
                None
            }),
    {
        if i < self.events.len() {
            Some(&self.events[i])
        } else {
            None
        }
    }

    /// Inserts `e` at its start time, replacing an event that starts at the same
    /// instant. Returns whether no such event was there.
    pub fn upsert(&mut self, e: CalendarEvent) -> (r: bool)
        ensures
            r == is_new(old(self)@, e),
            final(self)@ == upserted(old(self)@, e),
            ascending(final(self)@),
    {
        proof {
            use_type_invariant(&*self);
        }
        let mut v: Vec<CalendarEvent> = Vec::new();
        std::mem::swap(&mut v, &mut self.events);
        let ghost s = v@;
        let key = e.start_time;
        let n = v.len();
        let mut i: usize = 0;
        while i < n && v[i].start_time < key
            invariant
                i <= n,
                n == v.len(),
                v@ == s,
                ascending(s),
                forall|j: int| 0 <= j < i ==> s[j].start_time < key,
            decreases n - i,
        {
            i = i + 1;
        }
        proof {
            assert forall|j: int| i <= j < n implies s[j].start_time >= key by {
                if j > i {
                    assert(s[i as int].start_time < s[j].start_time);
                }
            }
            lemma_filter_window(s, starts_before(key), 0, i as int);
        }
        if i < n && v[i].start_time == key {
            proof {
                assert forall|j: int| 0 <= j < n implies (#[trigger] starts_after(key)(s[j])
                    <==> i + 1 <= j < n) by {
                    if j > i {
                        assert(s[i as int].start_time < s[j].start_time);
                    }
                }
                lemma_filter_window(s, starts_after(key), i + 1, n as int);
                assert(!is_new(s, e));
            }
            v.set(i, e);
            proof {
                reveal(upserted);
                assert(v@ =~= upserted(s, e));
            }
            self.events = v;
            false
        } else {
            proof {
                assert forall|j: int| 0 <= j < n implies (#[trigger] starts_after(key)(s[j])
                    <==> i <= j < n) by {
                    if j > i {
                        assert(s[i as int].start_time < s[j].start_time);
                    }
                }
                lemma_filter_window(s, starts_after(key), i as int, n as int);
            }
            v.insert(i, e);
            proof {
                reveal(upserted);
                assert(v@ =~= upserted(s, e));
                assert(ascending(v@));
            }
            self.events = v;
            true
        }
    }

    /// Removes every event that shares the identifier of `e`; nothing
    /// happens where there is none.
    pub fn remove(&mut self, e: &CalendarEvent)
        ensures
            final(self)@ == removed(old(self)@, *e),
            ascending(final(self)@),
    {
        proof {
            use_type_invariant(&*self);
        }
        let mut v: Vec<CalendarEvent> = Vec::new();
        std::mem::swap(&mut v, &mut self.events);
        let ghost s = v@;
        let ghost p = not_identified_by(e.id@);
        let n = v.len();
        let mut i: usize = n;
        while i > 0
            invariant
                i <= n,
                n == s.len(),
                v@ == s.subrange(0, i as int) + s.subrange(i as int, n as int).filter(p),
                p == not_identified_by(e.id@),
            decreases i,
        {
            i = i - 1;
            proof {
                lemma_filter_step(s, p, i as int);
            }
            let ghost tail = s.subrange(i + 1, n as int).filter(p);
            assert(v@ == s.subrange(0, i + 1) + tail);
            assert(v@[i as int] == s[i as int]);
            assert(p(s[i as int]) == (s[i as int].id@ != e.id@));
            if v[i].id == e.id {
                v.remove(i);
                assert(v@ =~= s.subrange(0, i as int) + tail);
            } else {
                assert(v@ =~= s.subrange(0, i as int) + (seq![s[i as int]] + tail));
            }
            assert(v@ =~= s.subrange(0, i as int) + s.subrange(i as int, n as int).filter(p));
        }
        proof {
            lemma_filter_ascending(s, p);
            assert(s.subrange(0, n as int) == s);
            assert(v@ =~= s.filter(p));
        }
        self.events = v;
    }

    /// Removes every event that ended before `now`.
    pub fn sweep(&mut self, now: i64)
        ensures
            final(self)@ == swept(old(self)@, now),
            ascending(final(self)@),
    {
        proof {
            use_type_invariant(&*self);
        }
        let mut v: Vec<CalendarEvent> = Vec::new();
        std::mem::swap(&mut v, &mut self.events);
        let ghost s = v@;
        let ghost p = unexpired(now);
        let n = v.len();
        let mut i: usize = n;
        while i > 0
            invariant
                i <= n,
                n == s.len(),
                v@ == s.subrange(0, i as int) + s.subrange(i as int, n as int).filter(p),
                p == unexpired(now),
            decreases i,
        {
            i = i - 1;
            proof {
                lemma_filter_step(s, p, i as int);
            }
            let ghost tail = s.subrange(i + 1, n as int).filter(p);
            assert(v@ == s.subrange(0, i + 1) + tail);
            assert(v@[i as int] == s[i as int]);
            assert(p(s[i as int]) == (s[i as int].end_time >= now));
            if v[i].end_time < now {
                v.remove(i);
                assert(v@ =~= s.subrange(0, i as int) + tail);
            } else {
                assert(v@ =~= s.subrange(0, i as int) + (seq![s[i as int]] + tail));
            }
            assert(v@ =~= s.subrange(0, i as int) + s.subrange(i as int, n as int).filter(p));
        }
        proof {
            lemma_filter_ascending(s, p);
            assert(s.subrange(0, n as int) == s);
            assert(v@ =~= s.filter(p));
        }
        self.events = v;
    }
}

} // verus!
