//! The event log: a ring of structured events, written out as JSON lines.
//!
//! The ring holds the most recent events only, so the daemon never grows; every event has
//! a number of its own, by which the log knows what was already written to disk.

use std::collections::VecDeque;
use vstd::prelude::*;
use crate::text::{chars_of, dec, ends_with, head, push_dec, string_of};

verus! {

/// How many events the ring holds.
pub const EVENT_CAPACITY: usize = 256;

#[derive(Debug, Clone, Copy, PartialEq, Eq, Structural)]
pub enum EvLevel {
    Info,
    Event,
    Success,
    Warn,
    Error,
    Timer,
    Report,
}

impl EvLevel {
    pub open spec fn name(self) -> Seq<char> {
        match self {
            EvLevel::Info => "info"@,
            EvLevel::Event => "event"@,
            EvLevel::Success => "success"@,
            EvLevel::Warn => "warn"@,
            EvLevel::Error => "error"@,
            EvLevel::Timer => "timer"@,
            EvLevel::Report => "report"@,
        }
    }

    pub fn as_str(&self) -> (r: &'static str)
        ensures
            r@ == self.name(),
    {
        match self {
            EvLevel::Info => "info",
            EvLevel::Event => "event",
            EvLevel::Success => "success",
            EvLevel::Warn => "warn",
            EvLevel::Error => "error",
            EvLevel::Timer => "timer",
            EvLevel::Report => "report",
        }
    }
}

/// What was done.
#[derive(Debug, Clone, Copy, PartialEq, Eq, Structural)]
pub enum EvAction {
    Open,
    Close,
    Freeze,
    Unfreeze,
    Delay,
    Exempt,
    Discard,
    Policy,
    System,
}

impl EvAction {
    pub open spec fn name(self) -> Seq<char> {
        match self {
            EvAction::Open => "open"@,
            EvAction::Close => "close"@,
            EvAction::Freeze => "freeze"@,
            EvAction::Unfreeze => "unfreeze"@,
            EvAction::Delay => "delay"@,
            EvAction::Exempt => "exempt"@,
            EvAction::Discard => "discard"@,
            EvAction::Policy => "policy"@,
            EvAction::System => "system"@,
        }
    }

    pub fn as_str(&self) -> (r: &'static str)
        ensures
            r@ == self.name(),
    {
        match self {
            EvAction::Open => "open",
            EvAction::Close => "close",
            EvAction::Freeze => "freeze",
            EvAction::Unfreeze => "unfreeze",
            EvAction::Delay => "delay",
            EvAction::Exempt => "exempt",
            EvAction::Discard => "discard",
            EvAction::Policy => "policy",
            EvAction::System => "system",
        }
    }
}

/// Whom an event is about.
#[derive(Debug, Clone, Copy, PartialEq, Eq, Structural)]
pub enum EvSubject {
    App,
    System,
}

impl EvSubject {
    pub open spec fn name(self) -> Seq<char> {
        match self {
            EvSubject::App => "app"@,
            EvSubject::System => "system"@,
        }
    }

    pub fn as_str(&self) -> (r: &'static str)
        ensures
            r@ == self.name(),
    {
        match self {
            EvSubject::App => "app",
            EvSubject::System => "system",
        }
    }
}

/// One event.
#[derive(Debug)]
pub struct Event {
    /// Its number, given by the buffer.
    pub seq: u64,
    /// Seconds since the epoch.
    pub ts: u64,
    pub level: EvLevel,
    pub action: EvAction,
    pub subject: EvSubject,
    /// The package, where the event is about an app.
    pub pkg: Option<String>,
    pub reason: Option<String>,
    pub msg: Option<String>,
}

/// What an event denotes.
pub struct EventView {
    pub seq: u64,
    pub ts: u64,
    pub level: EvLevel,
    pub action: EvAction,
    pub subject: EvSubject,
    pub pkg: Option<Seq<char>>,
    pub reason: Option<Seq<char>>,
    pub msg: Option<Seq<char>>,
}

/// The characters of a string that may be missing.
pub open spec fn opt_view(s: Option<String>) -> Option<Seq<char>> {
    match s {
        Some(t) => Some(t@),
        None => None,
    }
}

/// The characters of a string slice that may be missing.
pub open spec fn opt_str(s: Option<&str>) -> Option<Seq<char>> {
    match s {
        Some(t) => Some(t@),
        None => None,
    }
}

impl View for Event {
    type V = EventView;

    open spec fn view(&self) -> EventView {
        EventView {
            seq: self.seq,
            ts: self.ts,
            level: self.level,
            action: self.action,
            subject: self.subject,
            pkg: opt_view(self.pkg),
            reason: opt_view(self.reason),
            msg: opt_view(self.msg),
        }
    }
}

/// How a character stands inside a JSON string.
pub open spec fn escaped_char(c: char) -> Seq<char> {
    if c == '"' {
        seq!['\\', '"']
    } else if c == '\\' {
        seq!['\\', '\\']
    } else if c == '\n' {
        seq!['\\', 'n']
    } else if c == '\t' {
        seq!['\\', 't']
    } else {
        seq![c]
    }
}

/// How a text stands inside a JSON string.
pub open spec fn escaped(s: Seq<char>) -> Seq<char>
    decreases s.len(),
{
    if s.len() == 0 {
        s
    } else {
        escaped(s.drop_last()) + escaped_char(s.last())
    }
}

/// A text that can stand between the quotes of a string: a quote and a backslash only
/// behind a backslash, and no line break or tab.
pub open spec fn string_body(s: Seq<char>) -> bool
    decreases s.len(),
{
    if s.len() == 0 {
        true
    } else if s[0] == '\\' {
        s.len() >= 2 && string_body(s.skip(2))
    } else {
        s[0] != '"' && s[0] != '\n' && s[0] != '\t' && string_body(s.skip(1))
    }
}

proof fn lemma_escaped_front(s: Seq<char>)
    requires
        s.len() > 0,
    ensures
        escaped(s) == escaped_char(s[0]) + escaped(s.skip(1)),
    decreases s.len(),
{
    if s.len() == 1 {
        assert(s.drop_last() =~= Seq::empty());
        assert(s.skip(1) =~= Seq::empty());
        assert(escaped(s) =~= escaped_char(s[0]) + escaped(s.skip(1)));
    } else {
        lemma_escaped_front(s.drop_last());
        assert(s.drop_last().skip(1) =~= s.skip(1).drop_last());
        assert(escaped(s) =~= escaped_char(s[0]) + escaped(s.skip(1)));
    }
}

/// An escaped text never ends the string that it stands in.
pub proof fn law_escaped_is_string_body(s: Seq<char>)
    ensures
        string_body(escaped(s)),
    decreases s.len(),
{
    if s.len() > 0 {
        lemma_escaped_front(s);
        law_escaped_is_string_body(s.skip(1));
        let e = escaped(s);
        let t = escaped(s.skip(1));
        if escaped_char(s[0]).len() == 2 {
            assert(e.skip(2) =~= t);
        } else {
            assert(e.skip(1) =~= t);
        }
    }
}

/// Escaping loses nothing: resolving the escapes gives the text back.
pub proof fn law_escaped_resolves(s: Seq<char>, lineno: int)
    ensures
        crate::toml::unescaped(escaped(s), lineno) == Ok::<Seq<char>, crate::toml::Fault>(s),
    decreases s.len(),
{
    if s.len() > 0 {
        lemma_escaped_front(s);
        law_escaped_resolves(s.skip(1), lineno);
        let e = escaped(s);
        let t = escaped(s.skip(1));
        if escaped_char(s[0]).len() == 2 {
            assert(e.skip(2) =~= t);
        } else {
            assert(e.skip(1) =~= t);
        }
        assert(seq![s[0]] + s.skip(1) =~= s);
    }
}

/// A text in the form in which it stands inside a JSON string.
pub fn json_escape(s: &str) -> (r: String)
    ensures
        r@ == escaped(s@),
{
    let mut out: String = String::new();
    push_escaped(&mut out, s);
    assert(out@ =~= escaped(s@));
    out
}

/// Appends a text in the form in which it stands inside a JSON string.
pub fn push_escaped(out: &mut String, s: &str)
    ensures
        final(out)@ == old(out)@ + escaped(s@),
{
    let v: Vec<char> = crate::text::chars_of(s);
    let ghost before = out@;
    let mut i: usize = 0;
    while i < v.len()
        invariant
            i <= v.len(),
            v@ == s@,
            out@ == before + escaped(s@.take(i as int)),
        decreases v.len() - i,
    {
        let c: char = v[i];
        if c == '"' {
            out.push('\\');
            out.push('"');
        } else if c == '\\' {
            out.push('\\');
            out.push('\\');
        } else if c == '\n' {
            out.push('\\');
            out.push('n');
        } else if c == '\t' {
            out.push('\\');
            out.push('t');
        } else {
            out.push(c);
        }
        assert(s@.take(i + 1).drop_last() =~= s@.take(i as int));
        assert(out@ =~= before + escaped(s@.take(i + 1)));
        i = i + 1;
    }
    assert(s@.take(s@.len() as int) =~= s@);
}

/// An optional field of an event, with the comma before it.
pub open spec fn field_json(name: Seq<char>, v: Option<Seq<char>>) -> Seq<char> {
    match v {
        Some(s) => ",\""@ + name + "\":\""@ + escaped(s) + "\""@,
        None => Seq::empty(),
    }
}

fn push_field(out: &mut String, name: &str, v: &Option<String>)
    ensures
        final(out)@ == old(out)@ + field_json(name@, opt_view(*v)),
{
    let ghost before = out@;
    if let Some(s) = v {
        out.append(",\"");
        out.append(name);
        out.append("\":\"");
        push_escaped(out, s.as_str());
        out.append("\"");
    }
    assert(out@ =~= before + field_json(name@, opt_view(*v)));
}

/// An event as a JSON object; fields that are missing are left out.
pub open spec fn event_json(e: EventView) -> Seq<char> {
    "{\"seq\":"@ + dec(e.seq as nat) + ",\"ts\":"@ + dec(e.ts as nat) + ",\"level\":\""@
        + e.level.name() + "\",\"action\":\""@ + e.action.name() + "\",\"subject\":\""@
        + e.subject.name() + "\""@ + field_json("pkg"@, e.pkg) + field_json("reason"@, e.reason)
        + field_json("msg"@, e.msg) + "}"@
}

fn owned(s: Option<&str>) -> (r: Option<String>)
    ensures
        opt_view(r) == opt_str(s),
{
    match s {
        Some(t) => Some(String::from_str(t)),
        None => None,
    }
}

impl Event {
    pub fn new(
        ts: u64,
        level: EvLevel,
        action: EvAction,
        subject: EvSubject,
        pkg: Option<String>,
        reason: Option<String>,
        msg: Option<String>,
    ) -> (r: Self)
        ensures
            r@ == (EventView {
                seq: 0,
                ts,
                level,
                action,
                subject,
                pkg: opt_view(pkg),
                reason: opt_view(reason),
                msg: opt_view(msg),
            }),
    {
        Event { seq: 0, ts, level, action, subject, pkg, reason, msg }
    }

    pub fn to_json(&self) -> (r: String)
        ensures
            r@ == event_json(self@),
    {
        let mut s: String = String::from_str("{\"seq\":");
        push_dec(&mut s, self.seq);
        s.append(",\"ts\":");
        push_dec(&mut s, self.ts);
        s.append(",\"level\":\"");
        s.append(self.level.as_str());
        s.append("\",\"action\":\"");
        s.append(self.action.as_str());
        s.append("\",\"subject\":\"");
        s.append(self.subject.as_str());
        s.append("\"");
        push_field(&mut s, "pkg", &self.pkg);
        push_field(&mut s, "reason", &self.reason);
        push_field(&mut s, "msg", &self.msg);
        s.append("}");
        s
    }
}

/// What the buffer holds.
pub struct LogView {
    /// The events in the ring, the oldest first.
    pub events: Seq<EventView>,
    /// How many events there have been.
    pub total: u64,
    /// The number of the last event that was written to disk.
    pub flushed: u64,
    /// The time that new events are stamped with, in seconds since the epoch.
    pub clock: u64,
}

/// The ring of events.
#[derive(Debug)]
pub struct EventBuffer {
    buf: VecDeque<Event>,
    /// How many events there have been; it goes on when old ones are dropped.
    pub total: u64,
    flushed_seq: u64,
    /// The time that new events are stamped with, in seconds since the epoch.
    pub clock: u64,
}

pub closed spec fn event_views(s: Seq<Event>) -> Seq<EventView> {
    Seq::new(s.len(), |i: int| s[i]@)
}

impl View for EventBuffer {
    type V = LogView;

    closed spec fn view(&self) -> LogView {
        LogView {
            events: event_views(self.buf@),
            total: self.total,
            flushed: self.flushed_seq,
            clock: self.clock,
        }
    }
}

pub open spec fn empty_log() -> LogView {
    LogView { events: Seq::empty(), total: 0, flushed: 0, clock: 0 }
}

/// The log after one more event, which gets the next number. A full ring drops its oldest.
pub open spec fn log_push(l: LogView, e: EventView) -> LogView {
    let kept = if l.events.len() >= EVENT_CAPACITY {
        l.events.skip(1)
    } else {
        l.events
    };
    let total = l.total.wrapping_add(1);
    LogView { events: kept.push(EventView { seq: total, ..e }), total, ..l }
}

/// The log after an event about an app.
pub open spec fn log_app(
    l: LogView,
    level: EvLevel,
    action: EvAction,
    pkg: Seq<char>,
    reason: Option<Seq<char>>,
    msg: Option<Seq<char>>,
) -> LogView {
    log_push(
        l,
        EventView {
            seq: 0,
            ts: l.clock,
            level,
            action,
            subject: EvSubject::App,
            pkg: Some(pkg),
            reason,
            msg,
        },
    )
}

/// The log after an event about the system.
pub open spec fn log_system(
    l: LogView,
    level: EvLevel,
    action: EvAction,
    reason: Option<Seq<char>>,
    msg: Option<Seq<char>>,
) -> LogView {
    log_push(
        l,
        EventView {
            seq: 0,
            ts: l.clock,
            level,
            action,
            subject: EvSubject::System,
            pkg: None,
            reason,
            msg,
        },
    )
}

/// The events that are not on disk.
pub open spec fn pending(events: Seq<EventView>, flushed: u64) -> Seq<EventView>
    decreases events.len(),
{
    if events.len() == 0 {
        events
    } else if events.last().seq > flushed {
        pending(events.drop_last(), flushed).push(events.last())
    } else {
        pending(events.drop_last(), flushed)
    }
}

/// One event per line.
pub open spec fn json_lines(events: Seq<EventView>) -> Seq<char>
    decreases events.len(),
{
    if events.len() == 0 {
        Seq::empty()
    } else {
        json_lines(events.drop_last()) + event_json(events.last()) + "\n"@
    }
}

/// The log after the pending events were written to disk.
pub open spec fn log_flushed(l: LogView) -> LogView {
    let p = pending(l.events, l.flushed);
    if p.len() > 0 {
        LogView { flushed: p.last().seq, ..l }
    } else {
        l
    }
}

/// The last `limit` events; all of them for 0.
pub open spec fn last_events(events: Seq<EventView>, limit: int) -> Seq<EventView> {
    if limit == 0 || limit >= events.len() {
        events
    } else {
        events.skip(events.len() - limit)
    }
}

/// The events as the elements of a JSON array.
pub open spec fn json_items(events: Seq<EventView>) -> Seq<char>
    decreases events.len(),
{
    if events.len() == 0 {
        Seq::empty()
    } else if events.len() == 1 {
        event_json(events[0])
    } else {
        json_items(events.drop_last()) + ","@ + event_json(events.last())
    }
}

pub open spec fn json_array(events: Seq<EventView>) -> Seq<char> {
    "["@ + json_items(events) + "]"@
}

/// The ring is within its capacity, and its events bear the latest numbers in order.
pub open spec fn well_numbered(l: LogView) -> bool {
    &&& l.events.len() <= EVENT_CAPACITY
    &&& l.events.len() <= l.total
    &&& l.flushed <= l.total
    &&& forall|i: int|
        0 <= i < l.events.len() ==> (#[trigger] l.events[i]).seq == l.total - l.events.len() + 1 + i
}

/// A new event keeps the ring within its capacity and the numbers without gaps.
pub proof fn law_push_well_numbered(l: LogView, e: EventView)
    requires
        well_numbered(l),
        l.total < u64::MAX,
    ensures
        well_numbered(log_push(l, e)),
        log_push(l, e).total == l.total + 1,
        log_push(l, e).events.last().seq == l.total + 1,
{
}

/// Once the pending events are written, none is pending, and the numbers stay in order.
pub proof fn law_flush_leaves_nothing(l: LogView)
    requires
        well_numbered(l),
    ensures
        well_numbered(log_flushed(l)),
        pending(log_flushed(l).events, log_flushed(l).flushed).len() == 0,
        log_flushed(log_flushed(l)) == log_flushed(l),
{
    let p = pending(l.events, l.flushed);
    if p.len() > 0 {
        lemma_pending_last(l.events, l.flushed);
        let last = l.events.len() - 1;
        assert(l.events[last].seq == l.total);
        assert(l.events.last().seq > l.flushed) by {
            lemma_pending_of_old(l.events, l.flushed);
        }
        assert(p.last() == l.events.last());
        lemma_pending_of_old(l.events, l.total);
    }
}

/// Events that are all numbered up to `flushed` are not pending.
proof fn lemma_pending_of_old(events: Seq<EventView>, flushed: u64)
    ensures
        (forall|i: int| 0 <= i < events.len() ==> (#[trigger] events[i]).seq <= flushed) ==> pending(
            events,
            flushed,
        ).len() == 0,
    decreases events.len(),
{
    if events.len() > 0 {
        lemma_pending_of_old(events.drop_last(), flushed);
    }
}

proof fn lemma_pending_last(events: Seq<EventView>, flushed: u64)
    ensures
        events.len() > 0 && events.last().seq > flushed ==> pending(events, flushed).len() > 0
            && pending(events, flushed).last() == events.last(),
        pending(events, flushed).len() <= events.len(),
        pending(events, flushed).len() > 0 ==> exists|i: int|
            0 <= i < events.len() && events[i] == pending(events, flushed).last()
                && events[i].seq > flushed,
    decreases events.len(),
{
    if events.len() > 0 {
        lemma_pending_last(events.drop_last(), flushed);
        let p = pending(events.drop_last(), flushed);
        if events.last().seq > flushed {
            assert(events[events.len() - 1] == pending(events, flushed).last());
        } else if p.len() > 0 {
            let i = choose|i: int|
                0 <= i < events.drop_last().len() && events.drop_last()[i] == p.last()
                    && events.drop_last()[i].seq > flushed;
            assert(events[i] == p.last());
        }
    }
}

impl Default for EventBuffer {
    fn default() -> (r: Self)
        ensures
            r@ == empty_log(),
    {
        let r = EventBuffer { buf: VecDeque::new(), total: 0, flushed_seq: 0, clock: 0 };
        assert(r@.events =~= Seq::empty());
        r
    }
}

impl EventBuffer {
    /// Sets the time that new events are stamped with.
    pub fn set_clock(&mut self, epoch: u64)
        ensures
            final(self)@ == (LogView { clock: epoch, ..old(self)@ }),
    {
        self.clock = epoch;
    }

    /// Adds an event under the next number.
    pub fn push(&mut self, e: Event)
        ensures
            final(self)@ == log_push(old(self)@, e@),
    {
        let ghost before = self@;
        let mut e: Event = e;
        let ghost ev = e@;
        self.total = self.total.wrapping_add(1);
        e.seq = self.total;
        if self.buf.len() >= EVENT_CAPACITY {
            let _ = self.buf.pop_front();
            assert(event_views(self.buf@) =~= before.events.skip(1));
        }
        let ghost mid = event_views(self.buf@);
        self.buf.push_back(e);
        assert(event_views(self.buf@) =~= mid.push(e@));
        assert(self@.events =~= log_push(before, ev).events);
    }

    /// Adds an event about an app.
    pub fn push_app(
        &mut self,
        level: EvLevel,
        action: EvAction,
        pkg: &str,
        reason: Option<&str>,
        msg: Option<&str>,
    )
        ensures
            final(self)@ == log_app(
                old(self)@,
                level,
                action,
                pkg@,
                opt_str(reason),
                opt_str(msg),
            ),
    {
        let ts: u64 = self.clock;
        let e: Event = Event::new(
            ts,
            level,
            action,
            EvSubject::App,
            Some(String::from_str(pkg)),
            owned(reason),
            owned(msg),
        );
        self.push(e);
    }

    /// Adds an event about the system.
    pub fn push_system(
        &mut self,
        level: EvLevel,
        action: EvAction,
        reason: Option<&str>,
        msg: Option<&str>,
    )
        ensures
            final(self)@ == log_system(old(self)@, level, action, opt_str(reason), opt_str(msg)),
    {
        let ts: u64 = self.clock;
        let e: Event = Event::new(
            ts,
            level,
            action,
            EvSubject::System,
            None,
            owned(reason),
            owned(msg),
        );
        self.push(e);
    }

    pub fn len(&self) -> (r: usize)
        ensures
            r == self@.events.len(),
    {
        self.buf.len()
    }

    pub fn is_empty(&self) -> (r: bool)
        ensures
            r == (self@.events.len() == 0),
    {
        self.buf.len() == 0
    }

    /// How many events there have been.
    pub(crate) fn count(&self) -> (r: u64)
        ensures
            r == self@.total,
    {
        self.total
    }

    /// The last `limit` events, the oldest first; all of them for 0.
    pub fn recent(&self, limit: usize) -> (r: Vec<&Event>)
        ensures
            r@.len() == last_events(self@.events, limit as int).len(),
            forall|i: int|
                0 <= i < r@.len() ==> (#[trigger] r@[i])@ == last_events(
                    self@.events,
                    limit as int,
                )[i],
    {
        let n: usize = self.buf.len();
        let start: usize = if limit == 0 || limit >= n {
            0
        } else {
            n - limit
        };
        let mut out: Vec<&Event> = Vec::new();
        let mut i: usize = start;
        while i < n
            invariant
                start <= i <= n,
                n == self.buf@.len(),
                out@.len() == i - start,
                forall|j: int| 0 <= j < out@.len() ==> (#[trigger] out@[j])@ == self@.events[start + j],
            decreases n - i,
        {
            out.push(&self.buf[i]);
            i = i + 1;
        }
        out
    }

    /// The last `limit` events as a JSON array; all of them for 0.
    pub fn to_json(&self, limit: usize) -> (r: String)
        ensures
            r@ == json_array(last_events(self@.events, limit as int)),
    {
        let events: Vec<&Event> = self.recent(limit);
        let ghost all = last_events(self@.events, limit as int);
        let mut s: String = String::from_str("[");
        let mut i: usize = 0;
        assert(s@ =~= "["@ + json_items(all.take(0)));
        while i < events.len()
            invariant
                i <= events.len(),
                events@.len() == all.len(),
                forall|j: int| 0 <= j < events@.len() ==> (#[trigger] events@[j])@ == all[j],
                s@ == "["@ + json_items(all.take(i as int)),
            decreases events.len() - i,
        {
            if i > 0 {
                s.append(",");
            }
            let t: String = events[i].to_json();
            s.append(t.as_str());
            assert(all.take(i + 1).drop_last() =~= all.take(i as int));
            assert(s@ =~= "["@ + json_items(all.take(i + 1)));
            i = i + 1;
        }
        assert(all.take(all.len() as int) =~= all);
        s.append("]");
        s
    }

    /// The events that are not on disk, as JSON lines, and their number.
    pub fn pending_text(&self) -> (r: (String, usize))
        ensures
            r.0@ == json_lines(pending(self@.events, self@.flushed)),
            r.1 == pending(self@.events, self@.flushed).len(),
    {
        let ghost all = self@.events;
        let mut text: String = String::new();
        let mut n: usize = 0;
        let mut i: usize = 0;
        assert(json_lines(pending(all.take(0), self.flushed_seq)) =~= Seq::empty());
        while i < self.buf.len()
            invariant
                i <= self.buf.len(),
                n <= i,
                all == event_views(self.buf@),
                text@ == json_lines(pending(all.take(i as int), self.flushed_seq)),
                n == pending(all.take(i as int), self.flushed_seq).len(),
            decreases self.buf.len() - i,
        {
            assert(all.take(i + 1).drop_last() =~= all.take(i as int));
            if self.buf[i].seq > self.flushed_seq {
                let t: String = self.buf[i].to_json();
                text.append(t.as_str());
                text.append("\n");
                n = n + 1;
                proof {
                    let p = pending(all.take(i + 1), self.flushed_seq);
                    assert(p.drop_last() =~= pending(all.take(i as int), self.flushed_seq));
                }
            }
            i = i + 1;
        }
        assert(all.take(all.len() as int) =~= all);
        (text, n)
    }

    /// How many events are not on disk.
    pub fn pending_persist(&self) -> (r: usize)
        ensures
            r == pending(self@.events, self@.flushed).len(),
    {
        let (_, n) = self.pending_text();
        n
    }

    /// Takes note of whether `pending_text` could be appended to the file; gives how many
    /// events are now on disk that were not. Where the write failed they stay pending.
    pub fn persist_new(&mut self, written: bool) -> (r: usize)
        ensures
            written ==> final(self)@ == log_flushed(old(self)@) && r == pending(
                old(self)@.events,
                old(self)@.flushed,
            ).len(),
            !written ==> final(self)@ == old(self)@ && r == 0,
    {
        if !written {
            return 0;
        }
        let n: usize = self.pending_persist();
        let ghost all = self@.events;
        let ghost flushed = self.flushed_seq;
        let mut i: usize = self.buf.len();
        assert(all.take(i as int) =~= all);
        while i > 0
            invariant
                i <= self.buf.len(),
                all == event_views(self.buf@),
                written,
                flushed == self.flushed_seq,
                self@ == old(self)@,
                all == self@.events,
                pending(all, flushed) == pending(all.take(i as int), flushed),
                n == pending(all, flushed).len(),
            decreases i,
        {
            assert(all.take(i as int).drop_last() =~= all.take(i - 1));
            if self.buf[i - 1].seq > self.flushed_seq {
                let seq: u64 = self.buf[i - 1].seq;
                self.flushed_seq = seq;
                return n;
            }
            i = i - 1;
        }
        n
    }
}

/// How many old files are kept beside the current one.
pub const MAX_EVENT_LOGS: u64 = 3;

/// The size from which on the current file is rotated.
pub const EVENT_LOG_ROTATE_BYTES: u64 = 2097152;

/// Whether a file of this size is rotated before more is appended.
pub fn must_rotate(len: u64) -> (r: bool)
    ensures
        r == (len >= EVENT_LOG_ROTATE_BYTES),
{
    len >= EVENT_LOG_ROTATE_BYTES
}

/// The name of the `n`th old file: the number stands before the ending of event files, or at
/// the end where the name has another.
pub open spec fn old_log_name(path: Seq<char>, n: nat) -> Seq<char> {
    if ".jsonl"@.is_suffix_of(path) {
        path.take(path.len() - ".jsonl"@.len()) + "."@ + dec(n) + ".jsonl"@
    } else {
        path + "."@ + dec(n)
    }
}

fn old_log(path: &str, n: u64) -> (r: String)
    ensures
        r@ == old_log_name(path@, n as nat),
{
    proof {
        reveal_strlit(".jsonl");
    }
    let v: Vec<char> = chars_of(path);
    if ends_with(v.as_slice(), ".jsonl") {
        let mut s: String = string_of(head(v.as_slice(), v.len() - 6));
        s.append(".");
        push_dec(&mut s, n);
        s.append(".jsonl");
        s
    } else {
        let mut s: String = String::from_str(path);
        s.append(".");
        push_dec(&mut s, n);
        s
    }
}

/// The renames, in order, that make room for a new file: every old file moves up by one,
/// the last is overwritten, and the current file becomes the first.
pub fn rotate_plan(path: &str) -> (r: Vec<(String, String)>)
    ensures
        r@.len() == MAX_EVENT_LOGS,
        forall|i: int|
            0 <= i < MAX_EVENT_LOGS - 1 ==> {
                &&& (#[trigger] r@[i]).0@ == old_log_name(path@, (MAX_EVENT_LOGS - 1 - i) as nat)
                &&& r@[i].1@ == old_log_name(path@, (MAX_EVENT_LOGS - i) as nat)
            },
        r@[MAX_EVENT_LOGS - 1].0@ == path@,
        r@[MAX_EVENT_LOGS - 1].1@ == old_log_name(path@, 1),
{
    let mut out: Vec<(String, String)> = Vec::new();
    let mut i: u64 = MAX_EVENT_LOGS - 1;
    while i > 0
        invariant
            i <= MAX_EVENT_LOGS - 1,
            out@.len() == MAX_EVENT_LOGS - 1 - i,
            forall|j: int|
                0 <= j < out@.len() ==> {
                    &&& (#[trigger] out@[j]).0@ == old_log_name(
                        path@,
                        (MAX_EVENT_LOGS - 1 - j) as nat,
                    )
                    &&& out@[j].1@ == old_log_name(path@, (MAX_EVENT_LOGS - j) as nat)
                },
        decreases i,
    {
        out.push((old_log(path, i), old_log(path, i + 1)));
        i = i - 1;
    }
    out.push((String::from_str(path), old_log(path, 1)));
    out
}

} // verus!
