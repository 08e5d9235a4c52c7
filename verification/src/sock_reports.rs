//! Commands that report: how the apps are used, what could be done about it, and what the
//! device can do. They change nothing but what is on record of the device.

use vstd::prelude::*;
use crate::analyze::{Suggestion, SuggestionView};
use crate::capability::{Capability, CapabilityView};
use crate::engine_state::{noted_system, EngineView};
use crate::events::{escaped, opt_view, push_escaped, EvAction, EvLevel, LogView};
use crate::lists::texts;
use crate::names::{value_of, NameMap};
use crate::profile::{
    by_wakeups, first_of, freezes_of, waker_views, wakeups_of, AppProfile, ProfileTable,
    ProfileView,
};
use crate::protocol::{command_of, split_command, Handled, HandledView};
use crate::state::{DaemonState, DaemonView};
use crate::text::{
    bool_text, chars_of, dec, join, joined, parse_unsigned, push_bool, push_dec, same, string_of,
    trim, trimmed, unsigned_of,
};

verus! {

broadcast use crate::lists::group_texts;

/// A text as a JSON string.
pub open spec fn string_text(s: Seq<char>) -> Seq<char> {
    "\""@ + escaped(s) + "\""@
}

pub open spec fn opt_string_text(s: Option<Seq<char>>) -> Seq<char> {
    match s {
        Some(t) => string_text(t),
        None => "null"@,
    }
}

fn push_string(out: &mut String, s: &str)
    ensures
        final(out)@ == old(out)@ + string_text(s@),
{
    let ghost before = out@;
    out.append("\"");
    push_escaped(out, s);
    out.append("\"");
    assert(out@ =~= before + string_text(s@));
}

fn push_opt_string(out: &mut String, s: &Option<String>)
    ensures
        final(out)@ == old(out)@ + opt_string_text(opt_view(*s)),
{
    match s {
        Some(t) => push_string(out, t.as_str()),
        None => out.append("null"),
    }
}

fn push_field(out: &mut String, head: &str, n: u64)
    ensures
        final(out)@ == old(out)@ + head@ + dec(n as nat),
{
    out.append(head);
    push_dec(out, n);
}

// ---- Usage ----

pub open spec fn source_text(x: (Seq<char>, u64)) -> Seq<char> {
    string_text(x.0) + ":"@ + dec(x.1 as nat)
}

/// Wakeups by source.
pub open spec fn sources_text(m: Seq<(Seq<char>, u64)>) -> Seq<char> {
    "{"@ + joined(m.map_values(|x: (Seq<char>, u64)| source_text(x)), ","@) + "}"@
}

fn push_sources(out: &mut String, m: &NameMap<u64>)
    ensures
        final(out)@ == old(out)@ + sources_text(m@),
{
    let ghost before = out@;
    let ghost all = m@.map_values(|x: (Seq<char>, u64)| source_text(x));
    let mut parts: Vec<String> = Vec::new();
    let mut i: usize = 0;
    assert(texts(parts@) =~= all.take(0));
    while i < m.len()
        invariant
            i <= m@.len(),
            all == m@.map_values(|x: (Seq<char>, u64)| source_text(x)),
            texts(parts@) == all.take(i as int),
        decreases m@.len() - i,
    {
        let mut s: String = String::new();
        push_string(&mut s, m.key_at(i));
        push_field(&mut s, ":", *m.value_at(i));
        assert(s@ =~= source_text(m@[i as int]));
        let ghost done = texts(parts@);
        parts.push(s);
        assert(texts(parts@) =~= done.push(all[i as int]));
        assert(texts(parts@) =~= all.take(i + 1));
        i = i + 1;
    }
    assert(all.take(all.len() as int) =~= all);
    let inner: String = join(&parts, ",");
    out.append("{");
    out.append(inner.as_str());
    out.append("}");
    assert(out@ =~= before + sources_text(m@));
}

/// How an app is used.
pub open spec fn usage_text(x: (Seq<char>, ProfileView)) -> Seq<char> {
    let p = x.1;
    "{\"pkg\":"@ + string_text(x.0) + ",\"focus_count\":"@ + dec(p.focus_count as nat)
        + ",\"focus_ms\":"@ + dec(p.focus_ms as nat) + ",\"freeze_count\":"@ + dec(
        p.freeze_count as nat,
    ) + ",\"unfreeze_count\":"@ + dec(p.unfreeze_count as nat) + ",\"discard_count\":"@ + dec(
        p.discard_count as nat,
    ) + ",\"wakeup_count\":"@ + dec(p.wakeup_count as nat) + ",\"wakeup_sources\":"@
        + sources_text(p.wakeup_sources) + ",\"first_seen_at\":"@ + dec(p.first_seen_at as nat)
        + ",\"last_seen_at\":"@ + dec(p.last_seen_at as nat) + ",\"last_focus_at\":"@ + dec(
        p.last_focus_at as nat,
    ) + ",\"last_freeze_at\":"@ + dec(p.last_freeze_at as nat) + "}"@
}

fn usage(pkg: &str, p: &AppProfile) -> (r: String)
    ensures
        r@ == usage_text((pkg@, p@)),
{
    let mut s: String = String::from_str("{\"pkg\":");
    push_string(&mut s, pkg);
    push_field(&mut s, ",\"focus_count\":", p.focus_count);
    push_field(&mut s, ",\"focus_ms\":", p.focus_ms);
    push_field(&mut s, ",\"freeze_count\":", p.freeze_count);
    push_field(&mut s, ",\"unfreeze_count\":", p.unfreeze_count);
    push_field(&mut s, ",\"discard_count\":", p.discard_count);
    push_field(&mut s, ",\"wakeup_count\":", p.wakeup_count);
    s.append(",\"wakeup_sources\":");
    push_sources(&mut s, &p.wakeup_sources);
    push_field(&mut s, ",\"first_seen_at\":", p.first_seen_at);
    push_field(&mut s, ",\"last_seen_at\":", p.last_seen_at);
    push_field(&mut s, ",\"last_focus_at\":", p.last_focus_at);
    push_field(&mut s, ",\"last_freeze_at\":", p.last_freeze_at);
    s.append("}");
    assert(s@ =~= usage_text((pkg@, p@)));
    s
}

/// How many apps are listed where no number is given.
pub const DEFAULT_TOP: usize = 10;

/// The number of apps that is asked for.
pub open spec fn top_limit(arg: Seq<char>) -> int {
    match unsigned_of(arg, usize::MAX as int) {
        Some(n) => n,
        None => DEFAULT_TOP as int,
    }
}

pub open spec fn top_text(v: Seq<(Seq<char>, ProfileView)>) -> Seq<char> {
    "{\"ok\":1,\"count\":"@ + dec(v.len()) + ",\"apps\":["@ + joined(
        v.map_values(|x: (Seq<char>, ProfileView)| usage_text(x)),
        ","@,
    ) + "]}"@
}

/// What is said in answer to a command about usage: the apps that are woken most, all of them
/// together, or one of them.
pub open spec fn profile_answer(t: Seq<(Seq<char>, ProfileView)>, arg: Seq<char>) -> Seq<char> {
    let (sub, rest) = command_of(trimmed(arg));
    if sub == "top"@ {
        top_text(first_of(by_wakeups(t), top_limit(rest)))
    } else if sub == "summary"@ {
        "{\"ok\":1,\"apps\":"@ + dec(t.len()) + ",\"wakeups\":"@ + dec(wakeups_of(t) as nat)
            + ",\"freezes\":"@ + dec(freezes_of(t) as nat) + "}"@
    } else if sub == "get"@ {
        match value_of(t, rest) {
            Some(p) => "{\"ok\":1,\"profile\":"@ + usage_text((rest, p)) + "}"@,
            None => "{\"ok\":0,\"error\":\"profile: unknown package: "@ + escaped(rest) + "\"}"@,
        }
    } else {
        "{\"ok\":0,\"error\":\"profile: unknown subcommand: "@ + escaped(sub) + "\"}"@
    }
}

fn top(profile: &ProfileTable, n: usize) -> (r: String)
    ensures
        r@ == top_text(first_of(by_wakeups(profile@), n as int)),
{
    let list: Vec<(String, &AppProfile)> = profile.top_wakeups(n);
    let ghost v = waker_views(list@);
    let ghost all = v.map_values(|x: (Seq<char>, ProfileView)| usage_text(x));
    let mut parts: Vec<String> = Vec::new();
    let mut i: usize = 0;
    assert(texts(parts@) =~= all.take(0));
    while i < list.len()
        invariant
            i <= list.len(),
            v == waker_views(list@),
            all == v.map_values(|x: (Seq<char>, ProfileView)| usage_text(x)),
            texts(parts@) == all.take(i as int),
        decreases list.len() - i,
    {
        let s: String = usage(list[i].0.as_str(), list[i].1);
        assert(s@ == all[i as int]);
        let ghost done = texts(parts@);
        parts.push(s);
        assert(texts(parts@) =~= done.push(all[i as int]));
        assert(texts(parts@) =~= all.take(i + 1));
        i = i + 1;
    }
    assert(all.take(all.len() as int) =~= all);
    let inner: String = join(&parts, ",");
    let mut s: String = String::from_str("{\"ok\":1,\"count\":");
    push_dec(&mut s, list.len() as u64);
    s.append(",\"apps\":[");
    s.append(inner.as_str());
    s.append("]}");
    assert(s@ =~= top_text(v));
    s
}

/// Answers a command about usage.
pub fn handle_profile(profile: &ProfileTable, arg: &str) -> (r: String)
    ensures
        r@ == profile_answer(profile@, arg@),
{
    let v: Vec<char> = chars_of(arg);
    let (sub, rest) = split_command(trim(v.as_slice()));
    if same(sub, "top") {
        let n: usize = match parse_unsigned(rest, usize::MAX as u64) {
            Some(n) => n as usize,
            None => DEFAULT_TOP,
        };
        top(profile, n)
    } else if same(sub, "summary") {
        let mut s: String = String::from_str("{\"ok\":1");
        push_field(&mut s, ",\"apps\":", profile.app_count() as u64);
        push_field(&mut s, ",\"wakeups\":", profile.total_wakeups());
        push_field(&mut s, ",\"freezes\":", profile.total_freezes());
        s.append("}");
        proof {
            reveal_strlit("{\"ok\":1");
            reveal_strlit(",\"apps\":");
            reveal_strlit("{\"ok\":1,\"apps\":");
        }
        assert("{\"ok\":1"@ + ",\"apps\":"@ =~= "{\"ok\":1,\"apps\":"@);
        assert(s@ =~= profile_answer(profile@, arg@));
        s
    } else if same(sub, "get") {
        let pkg: String = string_of(rest);
        match profile.get(pkg.as_str()) {
            Some(p) => {
                let u: String = usage(pkg.as_str(), p);
                let mut s: String = String::from_str("{\"ok\":1,\"profile\":");
                s.append(u.as_str());
                s.append("}");
                s
            },
            None => {
                let mut s: String = String::from_str(
                    "{\"ok\":0,\"error\":\"profile: unknown package: ",
                );
                push_escaped(&mut s, pkg.as_str());
                s.append("\"}");
                s
            },
        }
    } else {
        let mut s: String = String::from_str("{\"ok\":0,\"error\":\"profile: unknown subcommand: ");
        let k: String = string_of(sub);
        push_escaped(&mut s, k.as_str());
        s.append("\"}");
        s
    }
}

// ---- Advice ----

/// A piece of advice with its facts written out.
pub open spec fn advice_text(x: (SuggestionView, Seq<char>)) -> Seq<char> {
    "{\"level\":"@ + string_text(x.0.level) + ",\"kind\":"@ + string_text(x.0.kind) + ",\"pkg\":"@
        + opt_string_text(x.0.pkg) + ",\"title\":"@ + string_text(x.0.title) + ",\"detail\":"@
        + string_text(x.1) + ",\"action_hint\":"@ + string_text(x.0.action_hint) + "}"@
}

pub open spec fn advice_views(v: Seq<(Suggestion, String)>) -> Seq<(SuggestionView, Seq<char>)> {
    Seq::new(v.len(), |i: int| (v[i].0@, v[i].1@))
}

/// What is said in answer to the question for advice.
pub open spec fn advice_answer(v: Seq<(SuggestionView, Seq<char>)>) -> Seq<char> {
    "{\"ok\":1,\"count\":"@ + dec(v.len()) + ",\"suggestions\":["@ + joined(
        v.map_values(|x: (SuggestionView, Seq<char>)| advice_text(x)),
        ","@,
    ) + "]}"@
}

/// Writes out advice. Each piece comes with its facts as text.
pub fn advice_json(v: &Vec<(Suggestion, String)>) -> (r: String)
    ensures
        r@ == advice_answer(advice_views(v@)),
{
    let ghost views = advice_views(v@);
    let ghost all = views.map_values(|x: (SuggestionView, Seq<char>)| advice_text(x));
    let mut parts: Vec<String> = Vec::new();
    let mut i: usize = 0;
    assert(texts(parts@) =~= all.take(0));
    while i < v.len()
        invariant
            i <= v.len(),
            views == advice_views(v@),
            all == views.map_values(|x: (SuggestionView, Seq<char>)| advice_text(x)),
            texts(parts@) == all.take(i as int),
        decreases v.len() - i,
    {
        let a: &Suggestion = &v[i].0;
        let mut s: String = String::from_str("{\"level\":");
        push_string(&mut s, a.level);
        s.append(",\"kind\":");
        push_string(&mut s, a.kind);
        s.append(",\"pkg\":");
        push_opt_string(&mut s, &a.pkg);
        s.append(",\"title\":");
        push_string(&mut s, a.title.as_str());
        s.append(",\"detail\":");
        push_string(&mut s, v[i].1.as_str());
        s.append(",\"action_hint\":");
        push_string(&mut s, a.action_hint.as_str());
        s.append("}");
        assert(s@ =~= advice_text(views[i as int]));
        let ghost done = texts(parts@);
        parts.push(s);
        assert(texts(parts@) =~= done.push(all[i as int]));
        assert(texts(parts@) =~= all.take(i + 1));
        i = i + 1;
    }
    assert(all.take(all.len() as int) =~= all);
    let inner: String = join(&parts, ",");
    let mut s: String = String::from_str("{\"ok\":1,\"count\":");
    push_dec(&mut s, v.len() as u64);
    s.append(",\"suggestions\":[");
    s.append(inner.as_str());
    s.append("]}");
    assert(s@ =~= advice_answer(views));
    s
}

// ---- The device ----

/// What was said, as it was said.
pub open spec fn raw_text(s: Option<Seq<char>>) -> Seq<char> {
    match s {
        Some(t) => t,
        None => "null"@,
    }
}

/// What the device can do, where the wakeups came from, and what the probe found out, which is
/// passed on as the probe said it.
pub open spec fn capability_text(
    c: CapabilityView,
    sources: Seq<(Seq<char>, u64)>,
    findings: Option<Seq<char>>,
) -> Seq<char> {
    "{\"ok\":1,\"freezer\":"@ + string_text(c.freezer.name()) + ",\"cgroup_v2\":"@ + bool_text(
        c.cgroup_v2,
    ) + ",\"freezer_uid_path\":"@ + opt_string_text(c.freezer_uid_path)
        + ",\"freezer_pid_path\":"@ + opt_string_text(c.freezer_pid_path)
        + ",\"freezer_v1_path\":"@ + opt_string_text(c.freezer_v1_path)
        + ",\"madvise_willneed\":"@ + bool_text(c.madvise_willneed) + ",\"net_source\":"@
        + string_text(c.net_source) + ",\"probed_at\":"@ + dec(c.probed_at as nat)
        + ",\"wakeup_sources\":"@ + sources_text(sources) + ",\"dex_probe\":"@ + raw_text(findings) + "}"@
}

fn capability_json(c: &Capability, sources: &NameMap<u64>, findings: &Option<String>) -> (r: String)
    ensures
        r@ == capability_text(c@, sources@, opt_view(*findings)),
{
    let mut s: String = String::from_str("{\"ok\":1,\"freezer\":");
    push_string(&mut s, c.freezer.as_str());
    s.append(",\"cgroup_v2\":");
    push_bool(&mut s, c.cgroup_v2);
    s.append(",\"freezer_uid_path\":");
    push_opt_string(&mut s, &c.freezer_uid_path);
    s.append(",\"freezer_pid_path\":");
    push_opt_string(&mut s, &c.freezer_pid_path);
    s.append(",\"freezer_v1_path\":");
    push_opt_string(&mut s, &c.freezer_v1_path);
    s.append(",\"madvise_willneed\":");
    push_bool(&mut s, c.madvise_willneed);
    s.append(",\"net_source\":");
    push_string(&mut s, c.net_source.as_str());
    push_field(&mut s, ",\"probed_at\":", c.probed_at);
    s.append(",\"wakeup_sources\":");
    push_sources(&mut s, sources);
    s.append(",\"dex_probe\":");
    match findings {
        Some(t) => s.append(t.as_str()),
        None => s.append("null"),
    }
    s.append("}");
    assert(s@ =~= capability_text(c@, sources@, opt_view(*findings)));
    s
}

/// What is known of the device; an error where it was not looked at yet.
pub open spec fn capability_answer(d: DaemonView) -> Seq<char> {
    match d.capability {
        Some(c) => capability_text(c, d.engine.wakeup_sources, d.dex_capability),
        None => "{\"ok\":0,\"error\":\"capability: not probed\"}"@,
    }
}

/// What becomes of a command about the device.
pub open spec fn capability_handled(d: DaemonView, arg: Seq<char>) -> HandledView {
    let sub = trimmed(arg);
    if sub == "status"@ {
        HandledView::Reply(capability_answer(d))
    } else if sub == "reprobe"@ {
        HandledView::Probe
    } else {
        HandledView::Reply(
            "{\"ok\":0,\"error\":\"capability: unknown subcommand: "@ + escaped(sub) + "\"}"@,
        )
    }
}

/// The daemon once the device was looked at.
pub open spec fn capability_taken(d: DaemonView, c: CapabilityView, epoch: u64) -> DaemonView {
    let s = EngineView { log: LogView { clock: epoch, ..d.engine.log }, ..d.engine };
    DaemonView {
        capability: Some(c),
        engine: noted_system(
            s,
            EvLevel::Report,
            EvAction::System,
            "capability_probed"@,
            Some("freezer="@ + c.freezer.name() + " net="@ + c.net_source),
        ),
        ..d
    }
}

impl DaemonState {
    /// Says what is known of the device.
    pub fn capability_status(&self) -> (r: String)
        ensures
            r@ == capability_answer(self@),
    {
        match &self.capability {
            Some(c) => capability_json(c, self.engine.sources_ref(), &self.dex_capability),
            None => String::from_str("{\"ok\":0,\"error\":\"capability: not probed\"}"),
        }
    }

    /// Takes up a command about the device.
    pub(crate) fn handle_capability(&self, arg: &str) -> (r: Handled)
        ensures
            r@ == capability_handled(self@, arg@),
    {
        let v: Vec<char> = chars_of(arg);
        let sub: &[char] = trim(v.as_slice());
        if same(sub, "status") {
            Handled::Reply(self.capability_status())
        } else if same(sub, "reprobe") {
            Handled::Probe
        } else {
            let mut s: String = String::from_str(
                "{\"ok\":0,\"error\":\"capability: unknown subcommand: ",
            );
            let k: String = string_of(sub);
            push_escaped(&mut s, k.as_str());
            s.append("\"}");
            Handled::Reply(s)
        }
    }

    /// Takes note of what the device can do, and says it.
    pub fn take_capability(&mut self, c: Capability, epoch: u64) -> (r: String)
        ensures
            final(self)@ == capability_taken(old(self)@, c@, epoch),
            r@ == capability_text(
                c@,
                old(self)@.engine.wakeup_sources,
                old(self)@.dex_capability,
            ),
    {
        let mut msg: String = String::from_str("freezer=");
        msg.append(c.freezer.as_str());
        msg.append(" net=");
        msg.append(c.net_source.as_str());
        let r: String = capability_json(&c, self.engine.sources_ref(), &self.dex_capability);
        self.engine.set_clock(epoch);
        self.engine.note_system(
            EvLevel::Report,
            EvAction::System,
            "capability_probed",
            Some(msg.as_str()),
        );
        self.capability = Some(c);
        r
    }
}

/// No report changes what the engine decides by: its tables, its policy and its rules.
pub proof fn law_reports_decide_nothing(d: DaemonView, c: CapabilityView, epoch: u64)
    ensures
        ({
            let s = d.engine;
            let u = capability_taken(d, c, epoch).engine;
            EngineView { log: s.log, ..u } == s
        }),
{
}

} // verus!
