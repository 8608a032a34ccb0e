//! In-memory log of trigger events, kept in arrival order.
use vstd::prelude::*;
use crate::text::str_equal;

verus! {

/// A trigger event as sessions report it.
#[derive(Debug, Clone)]
pub struct TriggerEvent {
    pub timestamp_ms: i64,
    pub session_id: String,
    pub policy_name: Option<String>,
    pub keyword: String,
    /// Detection score, as the bit pattern of a binary64 value.
    pub confidence_bits: u64,
}

/// A single trigger event persisted for later inspection.
#[derive(Debug, Clone)]
pub struct EventLogEntry {
    /// Milliseconds since the Unix epoch.
    pub timestamp_ms: i64,
    pub session_id: String,
    pub policy_name: String,
    pub keyword: String,
    /// Detection score, as the bit pattern of a binary64 value.
    pub confidence_bits: u64,
}

/// Event log backend.
///
/// Events are stored in memory in the order they were appended.
#[derive(Debug, Clone)]
pub struct EventLog {
    events: Vec<EventLogEntry>,
}

/// Milliseconds since the Unix epoch of `DateTime::<Utc>::MIN_UTC`
/// (January 1 of year -262143, 00:00:00.000).
pub const CHRONO_MIN_MILLIS: i64 = -8_334_601_228_800_000i64;

/// Milliseconds since the Unix epoch of the last millisecond of
/// `DateTime::<Utc>::MAX_UTC`'s day (December 31 of year 262142, 23:59:59.999).
pub const CHRONO_MAX_MILLIS: i64 = 8_210_266_876_799_999i64;

/// Whether chrono can represent `ms` milliseconds since the Unix epoch as a
/// `DateTime<Utc>`: its day must lie between chrono's first and last date.
pub open spec fn chrono_millis_representable(ms: i64) -> bool {
    CHRONO_MIN_MILLIS <= ms <= CHRONO_MAX_MILLIS
}

/// Calls `chrono::DateTime::<Utc>::from_timestamp_millis` and reports whether it
/// produced a date. chrono splits `ms` into whole days (rounding down) and the
/// time of day, and accepts exactly the days from `NaiveDate::MIN` to
/// `NaiveDate::MAX`; that is the interval above. chrono documents that a
/// produced date round-trips to the same milliseconds through
/// `timestamp_millis`, so the library keeps `ms` itself.
#[verifier::external_body]
fn millis_representable(ms: i64) -> (r: bool)
    ensures
        r == chrono_millis_representable(ms),
{
    chrono::DateTime::<chrono::Utc>::from_timestamp_millis(ms).is_some()
}

/// Whether `e` is the entry stored for `event` when the clock reads `now_ms`:
/// same session, keyword and score, an absent policy name stored as empty
/// text, and the event's timestamp when chrono can represent it, the clock
/// reading otherwise.
pub open spec fn stored_as(e: EventLogEntry, event: TriggerEvent, now_ms: i64) -> bool {
    &&& e.session_id == event.session_id
    &&& e.keyword == event.keyword
    &&& e.confidence_bits == event.confidence_bits
    &&& match event.policy_name {
        Some(n) => e.policy_name == n,
        None => e.policy_name@ == Seq::<char>::empty(),
    }
    &&& e.timestamp_ms == if chrono_millis_representable(event.timestamp_ms) {
        event.timestamp_ms
    } else {
        now_ms
    }
}

/// The event that a stored entry reads back as.
pub open spec fn event_of(e: EventLogEntry) -> TriggerEvent {
    TriggerEvent {
        timestamp_ms: e.timestamp_ms,
        session_id: e.session_id,
        policy_name: Some(e.policy_name),
        keyword: e.keyword,
        confidence_bits: e.confidence_bits,
    }
}

/// The last `limit` items of `s` (all of them when there are fewer), in order.
pub open spec fn last_n<T>(s: Seq<T>, limit: int) -> Seq<T> {
    if limit >= s.len() {
        s
    } else {
        s.subrange(s.len() - limit, s.len() as int)
    }
}

/// Whether entry `e` passes a query's filters: the session id, when given,
/// equals `e`'s, and the start time, when given, is at or before `e`'s time.
pub open spec fn passes(e: EventLogEntry, session_id: Option<Seq<char>>, since_ms: Option<i64>) -> bool {
    &&& match session_id {
        Some(s) => e.session_id@ == s,
        None => true,
    }
    &&& match since_ms {
        Some(t) => e.timestamp_ms >= t,
        None => true,
    }
}

/// The entries of `es` that pass the filters, in order.
pub open spec fn selected(es: Seq<EventLogEntry>, session_id: Option<Seq<char>>, since_ms: Option<i64>) -> Seq<
    EventLogEntry,
>
    decreases es.len(),
{
    if es.len() == 0 {
        Seq::empty()
    } else {
        let rest = selected(es.drop_last(), session_id, since_ms);
        if passes(es.last(), session_id, since_ms) {
            rest.push(es.last())
        } else {
            rest
        }
    }
}

/// The view of an optional string argument.
pub open spec fn opt_view(s: Option<&str>) -> Option<Seq<char>> {
    match s {
        Some(t) => Some(t@),
        None => None,
    }
}

/// A field-for-field copy of an entry.
fn copy_entry(e: &EventLogEntry) -> (r: EventLogEntry)
    ensures
        r == *e,
{
    EventLogEntry {
        timestamp_ms: e.timestamp_ms,
        session_id: e.session_id.clone(),
        policy_name: e.policy_name.clone(),
        keyword: e.keyword.clone(),
        confidence_bits: e.confidence_bits,
    }
}

/// The event an entry reads back as.
fn to_event(e: &EventLogEntry) -> (r: TriggerEvent)
    ensures
        r == event_of(*e),
{
    TriggerEvent {
        timestamp_ms: e.timestamp_ms,
        session_id: e.session_id.clone(),
        policy_name: Some(e.policy_name.clone()),
        keyword: e.keyword.clone(),
        confidence_bits: e.confidence_bits,
    }
}

/// A field-for-field copy of an event.
fn copy_event(e: &TriggerEvent) -> (r: TriggerEvent)
    ensures
        r == *e,
{
    TriggerEvent {
        timestamp_ms: e.timestamp_ms,
        session_id: e.session_id.clone(),
        policy_name: match &e.policy_name {
            Some(n) => Some(n.clone()),
            None => None,
        },
        keyword: e.keyword.clone(),
        confidence_bits: e.confidence_bits,
    }
}

/// Whether an entry passes a query's filters.
fn entry_passes(e: &EventLogEntry, session_id: Option<&str>, since_ms: Option<i64>) -> (r: bool)
    ensures
        r == passes(*e, opt_view(session_id), since_ms),
{
    let session_ok = match session_id {
        Some(s) => str_equal(e.session_id.as_str(), s),
        None => true,
    };
    let time_ok = match since_ms {
        Some(t) => e.timestamp_ms >= t,
        None => true,
    };
    session_ok && time_ok
}

/// Start index of the last `limit` items of a sequence of length `len`.
fn tail_start(len: usize, limit: usize) -> (r: usize)
    ensures
        r == if limit >= len { 0 } else { len - limit },
{
    if limit >= len { 0 } else { len - limit }
}

/// Without filters a query selects every entry.
pub proof fn lemma_selected_all(es: Seq<EventLogEntry>)
    ensures
        selected(es, None, None) == es,
    decreases es.len(),
{
    if es.len() > 0 {
        lemma_selected_all(es.drop_last());
        assert(es.drop_last().push(es.last()) =~= es);
    }
}

impl EventLog {
    /// The stored entries, oldest first.
    pub closed spec fn entries_view(&self) -> Seq<EventLogEntry> {
        self.events@
    }

    /// Creates an empty log.
    pub fn new() -> (r: Self)
        ensures
            r.entries_view() == Seq::<EventLogEntry>::empty(),
    {
        EventLog { events: Vec::new() }
    }

    /// The most recent `limit` entries, oldest first.
    pub fn entries(&self, limit: usize) -> (r: Vec<EventLogEntry>)
        ensures
            r@ == last_n(self.entries_view(), limit as int),
    {
        let n = self.events.len();
        let start = tail_start(n, limit);
        let mut out: Vec<EventLogEntry> = Vec::new();
        let mut i = start;
        while i < n
            invariant
                n == self.events@.len(),
                start <= i <= n,
                out@ == self.events@.subrange(start as int, i as int),
            decreases n - i,
        {
            out.push(copy_entry(&self.events[i]));
            proof {
                assert(out@ =~= self.events@.subrange(start as int, i + 1));
            }
            i = i + 1;
        }
        proof {
            if limit >= n {
                assert(self.events@.subrange(0, n as int) =~= self.events@);
            }
        }
        out
    }

    /// Appends an event, given the clock reading `now_ms` (milliseconds since
    /// the Unix epoch). Its timestamp is kept when chrono can represent it and
    /// replaced by `now_ms` otherwise; an absent policy name is stored as
    /// empty.
    pub fn append_at(&mut self, event: TriggerEvent, now_ms: i64)
        ensures
            final(self).entries_view().len() == old(self).entries_view().len() + 1,
            final(self).entries_view().drop_last() == old(self).entries_view(),
            stored_as(final(self).entries_view().last(), event, now_ms),
    {
        let stamp = if millis_representable(event.timestamp_ms) {
            event.timestamp_ms
        } else {
            now_ms
        };
        let policy_name = match event.policy_name {
            Some(n) => n,
            None => String::new(),
        };
        self.events.push(
            EventLogEntry {
                timestamp_ms: stamp,
                session_id: event.session_id,
                policy_name,
                keyword: event.keyword,
                confidence_bits: event.confidence_bits,
            },
        );
        proof {
            assert(self.events@.drop_last() =~= old(self).events@);
        }
    }

    /// The most recent `limit` events in chronological order.
    pub fn recent(&self, limit: usize) -> (r: Vec<TriggerEvent>)
        ensures
            r@ == last_n(self.entries_view(), limit as int).map_values(|e: EventLogEntry| event_of(e)),
    {
        let n = self.events.len();
        let start = tail_start(n, limit);
        let mut out: Vec<TriggerEvent> = Vec::new();
        let mut i = start;
        while i < n
            invariant
                n == self.events@.len(),
                start <= i <= n,
                out@ == self.events@.subrange(start as int, i as int).map_values(
                    |e: EventLogEntry| event_of(e),
                ),
            decreases n - i,
        {
            out.push(to_event(&self.events[i]));
            proof {
                assert(out@ =~= self.events@.subrange(start as int, i + 1).map_values(
                    |e: EventLogEntry| event_of(e),
                ));
            }
            i = i + 1;
        }
        proof {
            if limit >= n {
                assert(self.events@.subrange(0, n as int) =~= self.events@);
            }
        }
        out
    }

    /// Events filtered by session id and/or start time (at or after
    /// `since_ms`), in chronological order; the most recent `limit` of them.
    pub fn query(&self, session_id: Option<&str>, since_ms: Option<i64>, limit: usize) -> (r: Vec<
        TriggerEvent,
    >)
        ensures
            r@ == last_n(selected(self.entries_view(), opt_view(session_id), since_ms), limit as int).map_values(
                |e: EventLogEntry| event_of(e),
            ),
    {
        let ghost sid = opt_view(session_id);
        let n = self.events.len();
        let mut picked: Vec<TriggerEvent> = Vec::new();
        let mut i: usize = 0;
        while i < n
            invariant
                n == self.events@.len(),
                i <= n,
                sid == opt_view(session_id),
                picked@ == selected(self.events@.take(i as int), sid, since_ms).map_values(
                    |e: EventLogEntry| event_of(e),
                ),
            decreases n - i,
        {
            proof {
                assert(self.events@.take(i + 1).drop_last() =~= self.events@.take(i as int));
            }
            if entry_passes(&self.events[i], session_id, since_ms) {
                picked.push(to_event(&self.events[i]));
                proof {
                    assert(picked@ =~= selected(self.events@.take(i + 1), sid, since_ms).map_values(
                        |e: EventLogEntry| event_of(e),
                    ));
                }
            }
            i = i + 1;
        }
        proof {
            assert(self.events@.take(n as int) =~= self.events@);
        }
        let m = picked.len();
        let start = tail_start(m, limit);
        let mut out: Vec<TriggerEvent> = Vec::new();
        let mut j = start;
        while j < m
            invariant
                m == picked@.len(),
                start <= j <= m,
                out@ == picked@.subrange(start as int, j as int),
            decreases m - j,
        {
            out.push(copy_event(&picked[j]));
            proof {
                assert(out@ =~= picked@.subrange(start as int, j + 1));
            }
            j = j + 1;
        }
        proof {
            let sel = selected(self.events@, sid, since_ms);
            let f = |e: EventLogEntry| event_of(e);
            assert(picked@.len() == sel.len());
            if limit >= m {
                assert(picked@.subrange(0, m as int) =~= picked@);
            } else {
                assert(out@ =~= sel.subrange(sel.len() - limit, sel.len() as int).map_values(f));
            }
        }
        out
    }

    /// Clear all stored events.
    pub fn clear(&mut self)
        ensures
            final(self).entries_view() == Seq::<EventLogEntry>::empty(),
    {
        self.events.clear();
    }

    /// Return the total number of stored events.
    pub fn count(&self) -> (r: usize)
        ensures
            r == self.entries_view().len(),
    {
        self.events.len()
    }
}

} // verus!

verus! {

/// What a read gives back of a write: after appending `event` to a log
/// holding `before`, the most recent entry reads back as that event, with the
/// same session, keyword and score, the same timestamp whenever chrono can
/// represent it, and its policy name (empty text when there was none).
pub proof fn law_recent_reads_back_append(
    before: Seq<EventLogEntry>,
    after: Seq<EventLogEntry>,
    event: TriggerEvent,
    now_ms: i64,
)
    requires
        after.len() == before.len() + 1,
        after.drop_last() == before,
        stored_as(after.last(), event, now_ms),
    ensures
        ({
            let read = last_n(after, 1).map_values(|e: EventLogEntry| event_of(e));
            &&& read.len() == 1
            &&& read[0].session_id == event.session_id
            &&& read[0].keyword == event.keyword
            &&& read[0].confidence_bits == event.confidence_bits
            &&& read[0].timestamp_ms == if chrono_millis_representable(event.timestamp_ms) {
                event.timestamp_ms
            } else {
                now_ms
            }
            &&& read[0].policy_name matches Some(n) && n@ == match event.policy_name {
                Some(m) => m@,
                None => Seq::<char>::empty(),
            }
        }),
{
    let read = last_n(after, 1).map_values(|e: EventLogEntry| event_of(e));
    assert(last_n(after, 1) =~= seq![after.last()]);
    assert(read[0] == event_of(after.last()));
}

/// Whether `es` is what a log holds after `events` were appended to an empty
/// log, in order, the clock reading `nows[i]` at the `i`-th append.
pub open spec fn holds_appends(es: Seq<EventLogEntry>, events: Seq<TriggerEvent>, nows: Seq<i64>) -> bool {
    &&& es.len() == events.len()
    &&& nows.len() == events.len()
    &&& forall|i: int| 0 <= i < es.len() ==> stored_as(#[trigger] es[i], events[i], nows[i])
}

/// One more append, as `append_at` states it, extends what the log holds by
/// that event; an empty log holds no appends.
pub proof fn lemma_append_step(
    before: Seq<EventLogEntry>,
    after: Seq<EventLogEntry>,
    events: Seq<TriggerEvent>,
    nows: Seq<i64>,
    event: TriggerEvent,
    now_ms: i64,
)
    requires
        holds_appends(before, events, nows),
        after.len() == before.len() + 1,
        after.drop_last() == before,
        stored_as(after.last(), event, now_ms),
    ensures
        holds_appends(after, events.push(event), nows.push(now_ms)),
        holds_appends(Seq::empty(), Seq::empty(), Seq::empty()),
{
    assert forall|i: int| 0 <= i < after.len() implies stored_as(
        #[trigger] after[i],
        events.push(event)[i],
        nows.push(now_ms)[i],
    ) by {
        if i < before.len() {
            assert(after[i] == before[i]);
        }
    }
}

/// What reads give back of many writes: after `events` were appended in order
/// to an empty log, `recent(limit)` gives the last `min(limit, n)` of them,
/// oldest first, each with its session, keyword and score, its timestamp
/// whenever chrono can represent it (else the clock reading at its append),
/// and its policy name (empty text when there was none).
pub proof fn law_recent_after_appends(
    es: Seq<EventLogEntry>,
    events: Seq<TriggerEvent>,
    nows: Seq<i64>,
    limit: usize,
)
    requires
        holds_appends(es, events, nows),
    ensures
        ({
            let read = last_n(es, limit as int).map_values(|e: EventLogEntry| event_of(e));
            let n = events.len() as int;
            let m = if (limit as int) < n {
                limit as int
            } else {
                n
            };
            &&& read.len() == m
            &&& forall|j: int|
                0 <= j < m ==> {
                    let e = events[n - m + j];
                    &&& (#[trigger] read[j]).session_id == e.session_id
                    &&& read[j].keyword == e.keyword
                    &&& read[j].confidence_bits == e.confidence_bits
                    &&& read[j].timestamp_ms == if chrono_millis_representable(e.timestamp_ms) {
                        e.timestamp_ms
                    } else {
                        nows[n - m + j]
                    }
                    &&& read[j].policy_name matches Some(p) && p@ == match e.policy_name {
                        Some(q) => q@,
                        None => Seq::<char>::empty(),
                    }
                }
        }),
{
    let tail = last_n(es, limit as int);
    let read = tail.map_values(|e: EventLogEntry| event_of(e));
    let n = events.len() as int;
    let m = if (limit as int) < n {
        limit as int
    } else {
        n
    };
    assert(tail.len() == m);
    assert forall|j: int| 0 <= j < m implies tail[j] == es[n - m + j] by {}
    assert forall|j: int| 0 <= j < m implies (#[trigger] read[j]) == event_of(es[n - m + j]) by {}
    assert forall|j: int| 0 <= j < m implies stored_as(#[trigger] es[n - m + j], events[n - m + j], nows[n - m + j]) by {}
}

/// A query returns only events of the session asked for (when one is) at or
/// after the start time asked for (when one is), and only stored ones; and
/// every stored event that meets both conditions is among those it selects
/// before keeping the most recent `limit`.
pub proof fn law_query_filters_by_session_and_time(
    es: Seq<EventLogEntry>,
    session_id: Option<Seq<char>>,
    since_ms: Option<i64>,
)
    ensures
        forall|k: int|
            0 <= k < selected(es, session_id, since_ms).len() ==> {
                let e = #[trigger] selected(es, session_id, since_ms)[k];
                &&& (session_id matches Some(s) ==> e.session_id@ == s)
                &&& (since_ms matches Some(t) ==> e.timestamp_ms >= t)
                &&& es.contains(e)
            },
        forall|i: int|
            0 <= i < es.len() && (session_id matches Some(s) ==> (#[trigger] es[i]).session_id@ == s)
                && (since_ms matches Some(t) ==> es[i].timestamp_ms >= t) ==> selected(
                es,
                session_id,
                since_ms,
            ).contains(es[i]),
{
    lemma_selected_members(es, session_id, since_ms);
}

/// A query without filters returns what `recent` returns.
pub proof fn law_unfiltered_query_is_recent(es: Seq<EventLogEntry>, limit: int)
    ensures
        last_n(selected(es, None, None), limit) == last_n(es, limit),
{
    lemma_selected_all(es);
}

/// Every event a query returns passes its filters, and the query returns the
/// most recent `limit` passing events, oldest first.
pub proof fn law_query_results_pass_filters(
    es: Seq<EventLogEntry>,
    session_id: Option<Seq<char>>,
    since_ms: Option<i64>,
    limit: int,
)
    requires
        limit >= 0,
    ensures
        forall|k: int|
            0 <= k < last_n(selected(es, session_id, since_ms), limit).len() ==> passes(
                #[trigger] last_n(selected(es, session_id, since_ms), limit)[k],
                session_id,
                since_ms,
            ),
        last_n(selected(es, session_id, since_ms), limit).len() <= limit,
{
    lemma_selected_pass(es, session_id, since_ms);
}

/// The entries selected for a query are stored ones that meet its conditions,
/// and every stored entry that meets them is selected.
proof fn lemma_selected_members(es: Seq<EventLogEntry>, session_id: Option<Seq<char>>, since_ms: Option<i64>)
    ensures
        forall|k: int|
            0 <= k < selected(es, session_id, since_ms).len() ==> {
                let e = #[trigger] selected(es, session_id, since_ms)[k];
                &&& (session_id matches Some(s) ==> e.session_id@ == s)
                &&& (since_ms matches Some(t) ==> e.timestamp_ms >= t)
                &&& es.contains(e)
            },
        forall|i: int|
            0 <= i < es.len() && (session_id matches Some(s) ==> (#[trigger] es[i]).session_id@ == s)
                && (since_ms matches Some(t) ==> es[i].timestamp_ms >= t) ==> selected(
                es,
                session_id,
                since_ms,
            ).contains(es[i]),
    decreases es.len(),
{
    if es.len() > 0 {
        let init = es.drop_last();
        lemma_selected_members(init, session_id, since_ms);
        let rest = selected(init, session_id, since_ms);
        let sel = selected(es, session_id, since_ms);
        assert forall|k: int| 0 <= k < sel.len() implies es.contains(#[trigger] sel[k]) by {
            if k < rest.len() {
                assert(sel[k] == rest[k]);
                let w = choose|w: int| 0 <= w < init.len() && init[w] == rest[k];
                assert(es[w] == init[w]);
            } else {
                assert(sel[k] == es[es.len() - 1]);
            }
        }
        assert forall|i: int|
            0 <= i < es.len() && (session_id matches Some(s) ==> (#[trigger] es[i]).session_id@ == s)
                && (since_ms matches Some(t) ==> es[i].timestamp_ms >= t) implies sel.contains(es[i]) by {
            if i < init.len() {
                assert(es[i] == init[i]);
                let w = choose|w: int| 0 <= w < rest.len() && rest[w] == init[i];
                assert(sel[w] == rest[w]);
            } else {
                assert(passes(es.last(), session_id, since_ms));
                assert(sel[sel.len() - 1] == es[i]);
            }
        }
    }
}

proof fn lemma_selected_pass(es: Seq<EventLogEntry>, session_id: Option<Seq<char>>, since_ms: Option<i64>)
    ensures
        forall|k: int|
            0 <= k < selected(es, session_id, since_ms).len() ==> passes(
                #[trigger] selected(es, session_id, since_ms)[k],
                session_id,
                since_ms,
            ),
        selected(es, session_id, since_ms).len() <= es.len(),
    decreases es.len(),
{
    if es.len() > 0 {
        lemma_selected_pass(es.drop_last(), session_id, since_ms);
    }
}

} // verus!
