//! What the event log keeps, and what is written of it.

use vstd::prelude::*;
use crate::engine_ops::{plain, EnvView, OpView, ReplyView, StepView, TaskKind, TaskView};
use crate::engine_state::EngineView;
use crate::engine_tick::{events_begin, step};
use crate::events::{
    event_json, json_lines, last_events, law_flush_leaves_nothing, log_app, log_flushed, log_push,
    log_system, pending, well_numbered, EvAction, EvLevel, EvSubject, EventView, LogView,
};

verus! {

/// An event that is logged is the last one of the log, with the next number; the ones before it
/// stay as they are, but for the oldest where there are 256 already.
pub proof fn law_last_event_is_the_new_one(l: LogView, e: EventView, i: int)
    ensures
        ({
            let u = log_push(l, e);
            let x = u.events.last();
            &&& u.total == l.total.wrapping_add(1)
            &&& x.seq == u.total
            &&& x.ts == e.ts && x.level == e.level && x.action == e.action && x.subject == e.subject
                && x.pkg == e.pkg && x.reason == e.reason && x.msg == e.msg
            &&& l.events.len() < 256 ==> u.events.len() == l.events.len() + 1
            &&& l.events.len() < 256 && 0 <= i < l.events.len() ==> u.events[i] == l.events[i]
            &&& l.events.len() >= 256 ==> u.events.len() == l.events.len()
            &&& l.events.len() >= 256 && 1 <= i < l.events.len() ==> u.events[i - 1] == l.events[i]
            &&& u.flushed == l.flushed && u.clock == l.clock
        }),
{
}

/// What is logged of an app says which one and carries the time of the clock, and what is logged
/// of the system names no app.
pub proof fn law_what_is_logged(
    l: LogView,
    level: EvLevel,
    action: EvAction,
    pkg: Seq<char>,
    reason: Option<Seq<char>>,
    msg: Option<Seq<char>>,
)
    ensures
        ({
            let x = log_app(l, level, action, pkg, reason, msg).events.last();
            &&& x.level == level && x.action == action && x.subject == EvSubject::App
            &&& x.pkg == Some(pkg) && x.reason == reason && x.msg == msg
            &&& x.ts == l.clock
        }),
        ({
            let x = log_system(l, level, action, reason, msg).events.last();
            &&& x.level == level && x.action == action && x.subject == EvSubject::System
            &&& x.pkg is None && x.reason == reason && x.msg == msg
            &&& x.ts == l.clock
        }),
{
}

/// An event is still to be written exactly where its number is higher than that of the last one
/// that was.
pub proof fn law_what_is_pending(events: Seq<EventView>, flushed: u64, e: EventView)
    ensures
        pending(events, flushed).contains(e) <==> events.contains(e) && e.seq > flushed,
    decreases events.len(),
{
    if events.len() > 0 {
        let d = events.drop_last();
        law_what_is_pending(d, flushed, e);
        let w = pending(events, flushed);
        let k = pending(d, flushed);
        assert(events[events.len() - 1] == events.last());
        if d.contains(e) {
            let i = choose|i: int| 0 <= i < d.len() && d[i] == e;
            assert(events[i] == e);
        }
        if events.contains(e) && events.last() != e {
            let i = choose|i: int| 0 <= i < events.len() && events[i] == e;
            assert(d[i] == e);
        }
        if k.contains(e) {
            let i = choose|i: int| 0 <= i < k.len() && k[i] == e;
            assert(w[i] == e);
        }
        if events.last().seq > flushed {
            assert(w[w.len() - 1] == events.last());
        }
        if w.contains(e) && !k.contains(e) {
            let i = choose|i: int| 0 <= i < w.len() && w[i] == e;
            if i < k.len() {
                assert(k[i] == e);
            }
        }
    }
}

/// Events that are written together are written as if one after the other, each on a line of its
/// own.
pub proof fn law_lines_follow_each_other(a: Seq<EventView>, b: Seq<EventView>, e: EventView)
    ensures
        json_lines(a + b) == json_lines(a) + json_lines(b),
        json_lines(seq![e]) == event_json(e) + seq!['\n'],
    decreases b.len(),
{
    reveal_strlit("\n");
    assert(seq![e].drop_last() =~= Seq::<EventView>::empty());
    assert(json_lines(Seq::<EventView>::empty()) =~= Seq::<char>::empty());
    assert(json_lines(seq![e]) =~= event_json(e) + seq!['\n']);
    if b.len() == 0 {
        assert(a + b =~= a);
        assert(json_lines(a + b) =~= json_lines(a) + json_lines(b));
    } else {
        law_lines_follow_each_other(a, b.drop_last(), e);
        assert((a + b).drop_last() =~= a + b.drop_last());
        assert(json_lines(a + b) =~= json_lines(a) + json_lines(b));
    }
}

/// The last `n` events are just these, in order; 0 stands for all.
pub proof fn law_last_events(events: Seq<EventView>, n: int, i: int)
    requires
        n >= 0,
    ensures
        n == 0 || n >= events.len() ==> last_events(events, n) == events,
        0 < n < events.len() ==> last_events(events, n).len() == n,
        0 < n < events.len() && 0 <= i < n ==> last_events(events, n)[i] == events[events.len() - n
            + i],
{
}

/// A tick writes exactly where an event is still to be written; where that worked nothing is
/// left to be written, and where it did not everything still is.
pub proof fn law_events_are_written(s: EngineView, e: EnvView, t: TaskView, r: ReplyView, x: EventView)
    requires
        t.kind == TaskKind::EventsSaved,
        well_numbered(s.log),
    ensures
        s.log.events.contains(x) && x.seq > s.log.flushed ==> (events_begin(
            s,
        ).1 matches StepView::Ask(OpView::SaveEvents(text), k) && text == json_lines(
            pending(s.log.events, s.log.flushed),
        ) && k == plain(TaskKind::EventsSaved)),
        s.log.flushed == s.log.total ==> events_begin(s).1 == StepView::Done,
        r == ReplyView::Flag(true) ==> ({
            let u = step(s, e, t, r).0;
            u.log.events == s.log.events && (u.log.events.contains(x) ==> x.seq <= u.log.flushed)
        }),
        r != ReplyView::Flag(true) ==> step(s, e, t, r).0.log.flushed == s.log.flushed,
        step(s, e, t, r).1 == StepView::Done,
{
    law_what_is_pending(s.log.events, s.log.flushed, x);
    let p = pending(s.log.events, s.log.flushed);
    if p.len() > 0 && s.log.flushed == s.log.total {
        law_what_is_pending(s.log.events, s.log.flushed, p[0]);
        assert(p.contains(p[0]));
        let i = choose|i: int| 0 <= i < s.log.events.len() && s.log.events[i] == p[0];
        assert(s.log.events[i].seq <= s.log.total);
    }
    if r == ReplyView::Flag(true) {
        let l = crate::engine::stamped(s, e).log;
        assert(well_numbered(l));
        law_flush_leaves_nothing(l);
        let u = log_flushed(l);
        law_what_is_pending(u.events, u.flushed, x);
    }
}

} // verus!
