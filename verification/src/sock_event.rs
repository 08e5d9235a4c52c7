//! Events that the probe reports.

use vstd::prelude::*;
use crate::engine::{
    exempt_reported, focus_begin, force_stopped, process_started, stamped, wakeup_begin,
};
use crate::engine_ops::{Env, EnvView, Step};
use crate::engine_state::{noted, noted_msg, EngineView, ExemptFlags};
use crate::events::{EvAction, EvLevel};
use crate::lists::slice_texts;
use crate::pids::pid_removed;
use crate::protocol::{ok, ok_text, Answered, Handled, HandledView};
use crate::state::{field_in, find_field, DaemonState, DaemonView};
use crate::text::{chars_of, head, parse_u32, same, split_words, string_of, unsigned_of, words};

verus! {

broadcast use crate::lists::group_texts;

/// The text after `key` in the event; a question mark where there is none.
pub open spec fn field_or_unknown(ws: Seq<Seq<char>>, key: Seq<char>) -> Seq<char> {
    match field_in(ws, key) {
        Some(v) => v,
        None => "?"@,
    }
}

/// The number after `key` in the event.
pub open spec fn number_field(ws: Seq<Seq<char>>, key: Seq<char>) -> Option<u32> {
    match field_in(ws, key) {
        Some(v) => match unsigned_of(v, u32::MAX as int) {
            Some(n) => Some(n as u32),
            None => None,
        },
        None => None,
    }
}

/// Whether the event says 1 for `key`.
pub open spec fn flag_field(ws: Seq<Seq<char>>, key: Seq<char>) -> bool {
    field_in(ws, key) == Some("1"@)
}

pub open spec fn missing_field(text: Seq<char>) -> HandledView {
    HandledView::Reply("{\"ok\":0,\"error\":\"event "@ + text + "\"}"@)
}

/// An app came to the foreground.
pub open spec fn focus_event(d: DaemonView, e: EnvView, ws: Seq<Seq<char>>) -> Answered {
    match field_in(ws, "pkg="@) {
        Some(pkg) => {
            let s = noted(stamped(d.engine, e), EvLevel::Event, EvAction::Open, pkg, "focus"@);
            let (s2, step) = focus_begin(s, e, pkg);
            (
                DaemonView {
                    last_focus_pkg: Some(pkg),
                    focus_changes: d.focus_changes.wrapping_add(1),
                    engine: s2,
                    ..d
                },
                HandledView::Engine(step, ok_text()),
            )
        },
        None => (d, missing_field("focus requires pkg="@)),
    }
}

/// An app was woken. Of many wakeups only the first of each 32 is logged.
pub open spec fn wakeup_event(d: DaemonView, e: EnvView, ws: Seq<Seq<char>>) -> Answered {
    let n = d.wakeup_events.wrapping_add(1);
    let source = field_or_unknown(ws, "reason="@);
    let action = field_or_unknown(ws, "action="@);
    match field_in(ws, "pkg="@) {
        Some(pkg) => {
            let s = if n % 32 == 1 {
                noted_msg(
                    stamped(d.engine, e),
                    EvLevel::Event,
                    EvAction::Open,
                    pkg,
                    "wakeup"@,
                    source,
                )
            } else {
                d.engine
            };
            let (s2, step) = wakeup_begin(s, e, pkg, source, action);
            (
                DaemonView { wakeup_events: n, engine: s2, ..d },
                HandledView::Engine(step, ok_text()),
            )
        },
        None => (DaemonView { wakeup_events: n, ..d }, HandledView::Reply(ok_text())),
    }
}

pub open spec fn exempt_event(d: DaemonView, e: EnvView, ws: Seq<Seq<char>>) -> Answered {
    match field_in(ws, "pkg="@) {
        Some(pkg) => (
            DaemonView {
                engine: exempt_reported(
                    d.engine,
                    e.epoch,
                    pkg,
                    ExemptFlags {
                        fg_service: flag_field(ws, "fg="@),
                        media: flag_field(ws, "media="@),
                        location: flag_field(ws, "loc="@),
                    },
                ),
                ..d
            },
            HandledView::Reply(ok_text()),
        ),
        None => (d, missing_field("exempt requires pkg="@)),
    }
}

/// A process started. Where its uid is not reported, the one that was found for it counts.
pub open spec fn proc_add_event(d: DaemonView, found: Option<u32>, ws: Seq<Seq<char>>) -> Answered {
    match (number_field(ws, "pid="@), field_in(ws, "pkg="@)) {
        (Some(pid), Some(pkg)) => {
            let uid = match number_field(ws, "uid="@) {
                Some(u) => Some(u),
                None => found,
            };
            (
                DaemonView { engine: process_started(d.engine, pid, pkg, uid), ..d },
                HandledView::Reply(ok_text()),
            )
        },
        _ => (d, missing_field("proc-add requires pid= and pkg="@)),
    }
}

pub open spec fn proc_remove_event(d: DaemonView, ws: Seq<Seq<char>>) -> Answered {
    match number_field(ws, "pid="@) {
        Some(pid) => (
            DaemonView {
                engine: EngineView { pkg_pids: pid_removed(d.engine.pkg_pids, pid), ..d.engine },
                ..d
            },
            HandledView::Reply(ok_text()),
        ),
        None => (d, missing_field("proc-remove requires pid="@)),
    }
}

pub open spec fn force_stop_event(d: DaemonView, e: EnvView, ws: Seq<Seq<char>>) -> Answered {
    match field_in(ws, "pkg="@) {
        Some(pkg) => {
            let (s, step) = force_stopped(d.engine, e, pkg);
            (DaemonView { engine: s, ..d }, HandledView::Engine(step, ok_text()))
        },
        None => (d, missing_field("force-stop requires pkg="@)),
    }
}

/// The kind of an event and its fields.
pub open spec fn event_parts(arg: Seq<char>) -> (Seq<char>, Seq<Seq<char>>) {
    let ws = words(arg);
    if ws.len() == 0 {
        (Seq::empty(), ws)
    } else {
        (ws[0], ws.skip(1))
    }
}

/// What becomes of an event. One of an unknown kind is passed over.
pub open spec fn event_handled(
    d: DaemonView,
    e: EnvView,
    found: Option<u32>,
    arg: Seq<char>,
) -> Answered {
    let (kind, ws) = event_parts(arg);
    if kind == "focus"@ {
        focus_event(d, e, ws)
    } else if kind == "wakeup"@ {
        wakeup_event(d, e, ws)
    } else if kind == "exempt"@ {
        exempt_event(d, e, ws)
    } else if kind == "proc-add"@ {
        proc_add_event(d, found, ws)
    } else if kind == "proc-remove"@ {
        proc_remove_event(d, ws)
    } else if kind == "force-stop"@ {
        force_stop_event(d, e, ws)
    } else {
        (d, HandledView::Reply("{\"ok\":1,\"ignored\":1,\"kind\":\""@ + kind + "\"}"@))
    }
}

/// An event of a kind that is not known is acknowledged and changes nothing, so that a newer
/// probe can talk to an older daemon.
pub proof fn law_unknown_events_pass(d: DaemonView, e: EnvView, found: Option<u32>, arg: Seq<char>)
    requires
        ({
            let kind = event_parts(arg).0;
            kind != "focus"@ && kind != "wakeup"@ && kind != "exempt"@ && kind != "proc-add"@
                && kind != "proc-remove"@ && kind != "force-stop"@
        }),
    ensures
        event_handled(d, e, found, arg).0 == d,
        event_handled(d, e, found, arg).1 == HandledView::Reply(
            "{\"ok\":1,\"ignored\":1,\"kind\":\""@ + event_parts(arg).0 + "\"}"@,
        ),
{
}

/// The process whose uid has to be found out for an event.
pub open spec fn event_pid_of(arg: Seq<char>) -> Option<u32> {
    let (kind, ws) = event_parts(arg);
    if kind == "proc-add"@ && field_in(ws, "pkg="@) is Some && number_field(ws, "uid="@) is None {
        number_field(ws, "pid="@)
    } else {
        None
    }
}

fn event_words<'a>(arg: &'a [char]) -> (r: (&'a [char], Vec<&'a [char]>))
    ensures
        (r.0@, slice_texts(r.1@)) == event_parts(arg@),
{
    let mut ws: Vec<&'a [char]> = split_words(arg);
    let ghost all = slice_texts(ws@);
    if ws.len() == 0 {
        let none: &[char] = head(arg, 0);
        assert(none@ =~= Seq::<char>::empty());
        (none, ws)
    } else {
        let kind: &'a [char] = ws.remove(0);
        assert(kind@ == all[0]);
        assert(slice_texts(ws@) =~= all.skip(1));
        (kind, ws)
    }
}

fn get_number(ws: &Vec<&[char]>, key: &str) -> (r: Option<u32>)
    ensures
        r == number_field(slice_texts(ws@), key@),
{
    match find_field(ws, key) {
        Some(v) => parse_u32(v),
        None => None,
    }
}

fn get_flag(ws: &Vec<&[char]>, key: &str) -> (r: bool)
    ensures
        r == flag_field(slice_texts(ws@), key@),
{
    match find_field(ws, key) {
        Some(v) => same(v, "1"),
        None => false,
    }
}

fn get_or_unknown(ws: &Vec<&[char]>, key: &str) -> (r: String)
    ensures
        r@ == field_or_unknown(slice_texts(ws@), key@),
{
    match find_field(ws, key) {
        Some(v) => string_of(v),
        None => String::from_str("?"),
    }
}

fn missing(text: &str) -> (r: Handled)
    ensures
        r@ == missing_field(text@),
{
    let mut s: String = String::from_str("{\"ok\":0,\"error\":\"event ");
    s.append(text);
    s.append("\"}");
    Handled::Reply(s)
}

/// The process whose uid has to be found out for an event.
pub fn event_pid(arg: &str) -> (r: Option<u32>)
    ensures
        r == event_pid_of(arg@),
{
    let v: Vec<char> = chars_of(arg);
    let (kind, ws) = event_words(v.as_slice());
    if same(kind, "proc-add") && find_field(&ws, "pkg=").is_some() && get_number(
        &ws,
        "uid=",
    ).is_none() {
        get_number(&ws, "pid=")
    } else {
        None
    }
}

impl DaemonState {
    fn on_focus_event(&mut self, ws: &Vec<&[char]>, env: &Env) -> (r: Handled)
        ensures
            (final(self)@, r@) == focus_event(old(self)@, env@, slice_texts(ws@)),
    {
        match find_field(ws, "pkg=") {
            Some(v) => {
                let pkg: String = string_of(v);
                self.record_focus(pkg.as_str());
                self.engine.set_clock(env.epoch);
                self.engine.note(EvLevel::Event, EvAction::Open, pkg.as_str(), "focus");
                let fg: bool = get_flag(ws, "fg=");
                let media: bool = get_flag(ws, "media=");
                let step: Step = self.engine.on_focus(pkg.as_str(), fg, media, env);
                Handled::Engine(step, ok())
            },
            None => missing("focus requires pkg="),
        }
    }

    fn on_wakeup_event(&mut self, ws: &Vec<&[char]>, env: &Env) -> (r: Handled)
        ensures
            (final(self)@, r@) == wakeup_event(old(self)@, env@, slice_texts(ws@)),
    {
        self.bump_wakeup();
        match find_field(ws, "pkg=") {
            Some(v) => {
                let pkg: String = string_of(v);
                let source: String = get_or_unknown(ws, "reason=");
                let action: String = get_or_unknown(ws, "action=");
                if self.wakeup_events % 32 == 1 {
                    self.engine.set_clock(env.epoch);
                    self.engine.note_msg(
                        EvLevel::Event,
                        EvAction::Open,
                        pkg.as_str(),
                        "wakeup",
                        source.as_str(),
                    );
                }
                let step: Step = self.engine.on_wakeup(
                    pkg.as_str(),
                    source.as_str(),
                    action.as_str(),
                    env,
                );
                Handled::Engine(step, ok())
            },
            None => Handled::Reply(ok()),
        }
    }

    fn on_exempt_event(&mut self, ws: &Vec<&[char]>, env: &Env) -> (r: Handled)
        ensures
            (final(self)@, r@) == exempt_event(old(self)@, env@, slice_texts(ws@)),
    {
        match find_field(ws, "pkg=") {
            Some(v) => {
                let pkg: String = string_of(v);
                let fg: bool = get_flag(ws, "fg=");
                let media: bool = get_flag(ws, "media=");
                let loc: bool = get_flag(ws, "loc=");
                self.engine.on_exempt(pkg.as_str(), fg, media, loc, env.epoch);
                Handled::Reply(ok())
            },
            None => missing("exempt requires pkg="),
        }
    }

    fn on_proc_add_event(&mut self, ws: &Vec<&[char]>, found: Option<u32>) -> (r: Handled)
        ensures
            (final(self)@, r@) == proc_add_event(old(self)@, found, slice_texts(ws@)),
    {
        match (get_number(ws, "pid="), find_field(ws, "pkg=")) {
            (Some(pid), Some(v)) => {
                let pkg: String = string_of(v);
                let uid: Option<u32> = match get_number(ws, "uid=") {
                    Some(u) => Some(u),
                    None => found,
                };
                self.engine.on_proc_add(pid, pkg.as_str(), uid);
                Handled::Reply(ok())
            },
            _ => missing("proc-add requires pid= and pkg="),
        }
    }

    /// Takes up an event. Where the event is about a process whose uid it does not give,
    /// `found` is the uid that was found out for it.
    pub fn handle_event(&mut self, arg: &str, found: Option<u32>, env: &Env) -> (r: Handled)
        ensures
            (final(self)@, r@) == event_handled(old(self)@, env@, found, arg@),
    {
        let v: Vec<char> = chars_of(arg);
        let (kind, ws) = event_words(v.as_slice());
        if same(kind, "focus") {
            self.on_focus_event(&ws, env)
        } else if same(kind, "wakeup") {
            self.on_wakeup_event(&ws, env)
        } else if same(kind, "exempt") {
            self.on_exempt_event(&ws, env)
        } else if same(kind, "proc-add") {
            self.on_proc_add_event(&ws, found)
        } else if same(kind, "proc-remove") {
            match get_number(&ws, "pid=") {
                Some(pid) => {
                    self.engine.on_proc_remove(pid);
                    Handled::Reply(ok())
                },
                None => missing("proc-remove requires pid="),
            }
        } else if same(kind, "force-stop") {
            match find_field(&ws, "pkg=") {
                Some(p) => {
                    let pkg: String = string_of(p);
                    let step: Step = self.engine.on_force_stop(pkg.as_str(), env);
                    Handled::Engine(step, ok())
                },
                None => missing("force-stop requires pkg="),
            }
        } else {
            let mut s: String = String::from_str("{\"ok\":1,\"ignored\":1,\"kind\":\"");
            let k: String = string_of(kind);
            s.append(k.as_str());
            s.append("\"}");
            Handled::Reply(s)
        }
    }
}

} // verus!
