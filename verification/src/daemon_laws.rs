//! What the daemon does with the events that it is told, and what it tells its listeners.

use vstd::prelude::*;
use crate::engine_laws::group_tables;
use crate::engine_ops::{about, EnvView, OpView, StepView, TaskKind};
use crate::engine_rules::{known_uid, known_uids, managed_names};
use crate::engine_settings::{law_thaws_by_wakeup_are_due, may_be_woken, wakeup_suppressed};
use crate::engine_state::EngineView;
use crate::json::match_text;
use crate::names::{has_key, key_index, keys_of, lemma_key_index, lemma_with_key, value_of};
use crate::pids::{pid_added, pid_removed, pkg_index, pkg_removed, without_first};
use crate::policy::AppMode;
use crate::profile::{count_in, profile_of, woken};
use crate::protocol::HandledView;
use crate::sock::{bridge_reported, dex_reported, findings_reported, probe_reported, CommandEnvView};
use crate::sock_event::{event_handled, event_parts, event_pid_of, number_field};
use crate::state::{
    build_of, field_in, package_in, pattern_matches, reached, started_daemon, successes, uptime,
    wanted, with_expected, write_failed, ClientView, DaemonView, SubscriptionView,
};
use crate::text::{trimmed, words};

verus! {

// ---- Events ----

proof fn lemma_kinds_differ()
    ensures
        "focus"@ != "wakeup"@,
        "focus"@ != "exempt"@,
        "wakeup"@ != "exempt"@,
        "focus"@ != "proc-add"@,
        "wakeup"@ != "proc-add"@,
        "exempt"@ != "proc-add"@,
        "focus"@ != "proc-remove"@,
        "wakeup"@ != "proc-remove"@,
        "exempt"@ != "proc-remove"@,
        "proc-add"@ != "proc-remove"@,
        "focus"@ != "force-stop"@,
        "wakeup"@ != "force-stop"@,
        "exempt"@ != "force-stop"@,
        "proc-add"@ != "force-stop"@,
        "proc-remove"@ != "force-stop"@,
{
    reveal_strlit("focus");
    reveal_strlit("wakeup");
    reveal_strlit("exempt");
    reveal_strlit("proc-add");
    reveal_strlit("proc-remove");
    reveal_strlit("force-stop");
    assert("focus"@.len() == 5);
    assert("wakeup"@.len() == 6);
    assert("exempt"@.len() == 6);
    assert("proc-add"@.len() == 8);
    assert("proc-remove"@.len() == 11);
    assert("force-stop"@.len() == 10);
    assert("focus"@ != "wakeup"@);
    assert("focus"@ != "exempt"@);
    assert("wakeup"@[0] != "exempt"@[0]);
    assert("wakeup"@ != "exempt"@);
    assert("focus"@ != "proc-add"@);
    assert("wakeup"@ != "proc-add"@);
    assert("exempt"@ != "proc-add"@);
    assert("focus"@ != "proc-remove"@);
    assert("wakeup"@ != "proc-remove"@);
    assert("exempt"@ != "proc-remove"@);
    assert("proc-add"@ != "proc-remove"@);
    assert("focus"@ != "force-stop"@);
    assert("wakeup"@ != "force-stop"@);
    assert("exempt"@ != "force-stop"@);
    assert("proc-add"@ != "force-stop"@);
    assert("proc-remove"@ != "force-stop"@);
}

/// A field of an event is what follows its name in the first word that begins with it; there is
/// none where no word does.
pub proof fn law_fields_of_an_event(ws: Seq<Seq<char>>, key: Seq<char>, i: int)
    requires
        0 <= i <= ws.len(),
        i < ws.len() ==> key.is_prefix_of(ws[i]),
        forall|j: int| 0 <= j < i ==> !key.is_prefix_of(#[trigger] ws[j]),
    ensures
        i < ws.len() ==> field_in(ws, key) == Some(ws[i].skip(key.len() as int)),
        i == ws.len() ==> field_in(ws, key) is None,
    decreases ws.len(),
{
    if ws.len() > 0 && i > 0 {
        let r = ws.skip(1);
        assert(!key.is_prefix_of(ws[0]));
        assert forall|j: int| 0 <= j < i - 1 implies !key.is_prefix_of(#[trigger] r[j]) by {
            assert(r[j] == ws[j + 1]);
        }
        law_fields_of_an_event(r, key, i - 1);
    }
}

/// An app that is told to be in the foreground is remembered as such, and one more change is
/// counted; where it is frozen it is thawed. Without its name nothing happens.
pub proof fn law_focus_events(
    d: DaemonView,
    e: EnvView,
    found: Option<u32>,
    arg: Seq<char>,
    ws: Seq<Seq<char>>,
)
    requires
        event_parts(arg) == ("focus"@, ws),
    ensures
        ({
            let (u, h) = event_handled(d, e, found, arg);
            match field_in(ws, "pkg="@) {
                Some(pkg) => {
                    &&& u.last_focus_pkg == Some(pkg)
                    &&& u.focus_changes == d.focus_changes.wrapping_add(1)
                    &&& u.wakeup_events == d.wakeup_events
                    &&& h is Engine
                    &&& has_key(d.engine.frozen, pkg) ==> !has_key(u.engine.frozen, pkg)
                    &&& has_key(d.engine.frozen, pkg) ==> (h matches HandledView::Engine(st, _) && st
                        == StepView::Ask(
                        OpView::ThawKeepOom(pkg),
                        about(TaskKind::FocusThaw, pkg),
                    ))
                },
                None => u == d && h is Reply,
            }
        }),
{
    broadcast use group_tables;

    lemma_kinds_differ();
}

/// A wakeup is counted, with or without the name of an app. Where it has one, it is recorded of
/// that app with its reason, and thaws it where that is due by the reason and the action; a
/// reason or action that is not told is unknown.
pub proof fn law_wakeup_events(
    d: DaemonView,
    e: EnvView,
    found: Option<u32>,
    arg: Seq<char>,
    ws: Seq<Seq<char>>,
)
    requires
        event_parts(arg) == ("wakeup"@, ws),
    ensures
        ({
            let (u, h) = event_handled(d, e, found, arg);
            let source = match field_in(ws, "reason="@) {
                Some(t) => t,
                None => "?"@,
            };
            let action = match field_in(ws, "action="@) {
                Some(t) => t,
                None => "?"@,
            };
            let s = d.engine;
            &&& u.wakeup_events == d.wakeup_events.wrapping_add(1)
            &&& u.focus_changes == d.focus_changes && u.last_focus_pkg == d.last_focus_pkg
            &&& match field_in(ws, "pkg="@) {
                Some(pkg) => {
                    &&& profile_of(u.engine.profile, pkg).wakeup_count == profile_of(
                        s.profile,
                        pkg,
                    ).wakeup_count.wrapping_add(1)
                    &&& count_in(u.engine.wakeup_sources, source) == count_in(
                        s.wakeup_sources,
                        source,
                    ).wrapping_add(1)
                    &&& h matches HandledView::Engine(st, _) && (st != StepView::Done <==> {
                        &&& has_key(s.frozen, pkg)
                        &&& may_be_woken(s, pkg)
                        &&& !wakeup_suppressed(s, e, pkg, source)
                        &&& source == "broadcast"@ ==> s.policy.receiver_gate.len() == 0
                            || s.policy.receiver_gate.contains(action) || (value_of(
                            s.policy.apps,
                            pkg,
                        ) matches Some(a) && a.mode == AppMode::Important)
                        &&& s.policy.wake_throttle_seconds > 0 ==> (value_of(
                            s.wake_throttle,
                            pkg,
                        ) matches Some(until) ==> e.now >= until)
                    })
                },
                None => u.engine == s && h is Reply,
            }
        }),
{
    lemma_kinds_differ();
    if let Some(pkg) = field_in(ws, "pkg="@) {
        let source = match field_in(ws, "reason="@) {
            Some(t) => t,
            None => "?"@,
        };
        let action = match field_in(ws, "action="@) {
            Some(t) => t,
            None => "?"@,
        };
        law_thaws_by_wakeup_are_due(d.engine, e, pkg, source, action);
        let s = d.engine;
        lemma_with_key(s.profile, pkg, woken(profile_of(s.profile, pkg), source, e.epoch), pkg);
        lemma_with_key(
            s.wakeup_sources,
            source,
            count_in(s.wakeup_sources, source).wrapping_add(1),
            source,
        );
    }
}

/// What an app is told to be doing is what the engine knows of it: each kind exactly where its
/// field is 1.
pub proof fn law_exempt_events(
    d: DaemonView,
    e: EnvView,
    found: Option<u32>,
    arg: Seq<char>,
    ws: Seq<Seq<char>>,
)
    requires
        event_parts(arg) == ("exempt"@, ws),
    ensures
        ({
            let (u, h) = event_handled(d, e, found, arg);
            &&& h is Reply
            &&& match field_in(ws, "pkg="@) {
                Some(pkg) => value_of(u.engine.exempt, pkg) matches Some(f) && (f.fg_service
                    <==> field_in(ws, "fg="@) == Some("1"@)) && (f.media <==> field_in(ws, "media="@)
                    == Some("1"@)) && (f.location <==> field_in(ws, "loc="@) == Some("1"@)),
                None => u == d,
            }
        }),
{
    lemma_kinds_differ();
    if let Some(pkg) = field_in(ws, "pkg="@) {
        let f = crate::engine_state::ExemptFlags {
            fg_service: crate::sock_event::flag_field(ws, "fg="@),
            media: crate::sock_event::flag_field(ws, "media="@),
            location: crate::sock_event::flag_field(ws, "loc="@),
        };
        lemma_with_key(d.engine.exempt, pkg, f, pkg);
    }
}

/// A package that is told to be stopped is in no table of the engine any longer, and is thawed.
pub proof fn law_stop_events(
    d: DaemonView,
    e: EnvView,
    found: Option<u32>,
    arg: Seq<char>,
    ws: Seq<Seq<char>>,
)
    requires
        event_parts(arg) == ("force-stop"@, ws),
    ensures
        ({
            let (u, h) = event_handled(d, e, found, arg);
            match field_in(ws, "pkg="@) {
                Some(pkg) => {
                    &&& !has_key(u.engine.frozen, pkg) && !has_key(u.engine.grace, pkg) && !has_key(
                        u.engine.cooldown,
                        pkg,
                    )
                    &&& h matches HandledView::Engine(st, _) && (st matches StepView::Ask(op, _)
                        && op == OpView::Thaw(pkg))
                },
                None => u == d && h is Reply,
            }
        }),
{
    broadcast use group_tables;

    lemma_kinds_differ();
}

/// A process that is told to have started has the uid that is told with it, or else the one that
/// was found; it is listed with its package.
pub proof fn law_process_events(
    d: DaemonView,
    e: EnvView,
    found: Option<u32>,
    arg: Seq<char>,
    ws: Seq<Seq<char>>,
    pkg: Seq<char>,
    pid: u32,
    uid: u32,
)
    requires
        event_parts(arg) == ("proc-add"@, ws),
        field_in(ws, "pkg="@) == Some(pkg),
        crate::sock_event::number_field(ws, "pid="@) == Some(pid),
    ensures
        ({
            let u = event_handled(d, e, found, arg).0.engine;
            &&& crate::sock_event::number_field(ws, "uid="@) == Some(uid) ==> value_of(
                u.pkg_uids,
                pkg,
            ) == Some(uid)
            &&& crate::sock_event::number_field(ws, "uid="@) is None && found == Some(uid)
                ==> value_of(u.pkg_uids, pkg) == Some(uid)
            &&& crate::sock_event::number_field(ws, "uid="@) is None && found is None
                ==> u.pkg_uids == d.engine.pkg_uids
            &&& listed_with(u.pkg_pids, pkg, pid)
        }),
{
    lemma_kinds_differ();
    lemma_with_key(d.engine.pkg_uids, pkg, uid, pkg);
    law_started_process_is_listed(d.engine.pkg_pids, pkg, pid, pkg, pid);
}

/// A process that is told to have ended leaves the first list that has it.
pub proof fn law_end_events(
    d: DaemonView,
    e: EnvView,
    found: Option<u32>,
    arg: Seq<char>,
    ws: Seq<Seq<char>>,
    pid: u32,
    i: int,
)
    requires
        event_parts(arg) == ("proc-remove"@, ws),
        crate::sock_event::number_field(ws, "pid="@) == Some(pid),
        0 <= i < d.engine.pkg_pids.len(),
        d.engine.pkg_pids[i].1.contains(pid) && d.engine.pkg_pids[i].1.no_duplicates(),
        forall|j: int| 0 <= j < i ==> !(#[trigger] d.engine.pkg_pids[j]).1.contains(pid),
    ensures
        ({
            let u = event_handled(d, e, found, arg).0.engine;
            &&& u.pkg_pids.len() == d.engine.pkg_pids.len()
            &&& u.pkg_pids[i].0 == d.engine.pkg_pids[i].0
            &&& !u.pkg_pids[i].1.contains(pid)
            &&& u.frozen == d.engine.frozen && u.pkg_uids == d.engine.pkg_uids
        }),
{
    lemma_kinds_differ();
    law_ended_process_is_not_listed(d.engine.pkg_pids, pid, i, pid, i);
}

// ---- Processes ----

/// Whether a process is listed with a package.
pub open spec fn listed_with(m: Seq<(Seq<char>, Seq<u32>)>, pkg: Seq<char>, pid: u32) -> bool {
    exists|i: int| 0 <= i < m.len() && (#[trigger] m[i]).0 == pkg && m[i].1.contains(pid)
}

proof fn lemma_pkg_index(m: Seq<(Seq<char>, Seq<u32>)>, k: Seq<char>)
    ensures
        0 <= pkg_index(m, k) <= m.len(),
        pkg_index(m, k) < m.len() ==> m[pkg_index(m, k)].0 == k,
    decreases m.len(),
{
    if m.len() > 0 && m[0].0 != k {
        lemma_pkg_index(m.skip(1), k);
    }
}

/// A process that started is listed with its package, and those that were listed before still
/// are.
pub proof fn law_started_process_is_listed(
    m: Seq<(Seq<char>, Seq<u32>)>,
    pkg: Seq<char>,
    pid: u32,
    other: Seq<char>,
    q: u32,
)
    ensures
        listed_with(pid_added(m, pkg, pid), pkg, pid),
        listed_with(pid_added(m, pkg, pid), other, q) <==> listed_with(m, other, q) || (other == pkg
            && q == pid),
{
    lemma_pkg_index(m, pkg);
    let p = pkg_index(m, pkg);
    let w = pid_added(m, pkg, pid);
    if p >= m.len() {
        assert(w[m.len() as int].0 == pkg);
        assert(w[m.len() as int].1[0] == pid);
        assert(w[m.len() as int].1.contains(pid));
    } else if !m[p].1.contains(pid) {
        assert(w[p].0 == pkg);
        assert(w[p].1[m[p].1.len() as int] == pid);
        assert(w[p].1.contains(pid));
    } else {
        assert(w[p].0 == pkg && w[p].1.contains(pid));
    }
    if listed_with(m, other, q) {
        let i = choose|i: int| 0 <= i < m.len() && (#[trigger] m[i]).0 == other && m[i].1.contains(q);
        let k = choose|k: int| 0 <= k < m[i].1.len() && m[i].1[k] == q;
        assert(w[i].0 == other);
        assert(w[i].1[k] == q);
        assert(w[i].1.contains(q));
    }
    if listed_with(w, other, q) && !(other == pkg && q == pid) {
        let i = choose|i: int| 0 <= i < w.len() && (#[trigger] w[i]).0 == other && w[i].1.contains(q);
        let k = choose|k: int| 0 <= k < w[i].1.len() && w[i].1[k] == q;
        if i < m.len() && k < m[i].1.len() {
            assert(m[i].0 == other && m[i].1[k] == q);
            assert(m[i].1.contains(q));
        }
    }
}

proof fn lemma_without_first(s: Seq<u32>, x: u32, y: u32)
    ensures
        y != x ==> (without_first(s, x).contains(y) <==> s.contains(y)),
        s.no_duplicates() ==> !without_first(s, x).contains(x),
        without_first(s, x).contains(y) ==> s.contains(y),
    decreases s.len(),
{
    let w = without_first(s, x);
    if s.len() > 0 {
        let r = s.skip(1);
        lemma_without_first(r, x, y);
        if s.no_duplicates() {
            assert(r.no_duplicates());
        }
        assert(s.contains(y) <==> s[0] == y || r.contains(y)) by {
            if r.contains(y) {
                let i = choose|i: int| 0 <= i < r.len() && r[i] == y;
                assert(s[i + 1] == y);
            }
            if s.contains(y) && s[0] != y {
                let i = choose|i: int| 0 <= i < s.len() && s[i] == y;
                assert(r[i - 1] == y);
            }
        }
        if s[0] == x {
            if s.no_duplicates() && r.contains(x) {
                let i = choose|i: int| 0 <= i < r.len() && r[i] == x;
                assert(s[i + 1] == s[0]);
            }
        } else {
            let v = without_first(r, x);
            assert(w =~= seq![s[0]] + v);
            assert(forall|z: u32| #[trigger] w.contains(z) <==> s[0] == z || v.contains(z)) by {
                assert forall|z: u32| #[trigger] w.contains(z) <==> s[0] == z || v.contains(z) by {
                    assert(w[0] == s[0]);
                    if v.contains(z) {
                        let i = choose|i: int| 0 <= i < v.len() && v[i] == z;
                        assert(w[i + 1] == z);
                    }
                    if w.contains(z) && s[0] != z {
                        let i = choose|i: int| 0 <= i < w.len() && w[i] == z;
                        assert(v[i - 1] == z);
                    }
                }
            }
        }
    }
}

/// A process that ended leaves the first list that has it, where that names it once; all other
/// processes stay listed.
pub proof fn law_ended_process_is_not_listed(
    m: Seq<(Seq<char>, Seq<u32>)>,
    pid: u32,
    i: int,
    q: u32,
    k: int,
)
    requires
        0 <= i < m.len(),
        0 <= k < m.len(),
        m[i].1.contains(pid) && m[i].1.no_duplicates(),
        forall|j: int| 0 <= j < i ==> !(#[trigger] m[j]).1.contains(pid),
    ensures
        pid_removed(m, pid).len() == m.len(),
        pid_removed(m, pid)[k].0 == m[k].0,
        !pid_removed(m, pid)[i].1.contains(pid),
        q != pid ==> (pid_removed(m, pid)[k].1.contains(q) <==> m[k].1.contains(q)),
        k != i ==> pid_removed(m, pid)[k] == m[k],
    decreases m.len(),
{
    let w = pid_removed(m, pid);
    if i == 0 {
        lemma_without_first(m[0].1, pid, q);
        lemma_without_first(m[0].1, pid, pid);
        assert(w =~= seq![(m[0].0, without_first(m[0].1, pid))] + m.skip(1));
        if k > 0 {
            assert(w[k] == m[k]);
        }
    } else {
        let r = m.skip(1);
        assert(!m[0].1.contains(pid));
        assert forall|j: int| 0 <= j < i - 1 implies !(#[trigger] r[j]).1.contains(pid) by {
            assert(r[j] == m[j + 1]);
        }
        let k2 = if k > 0 {
            k - 1
        } else {
            0
        };
        law_ended_process_is_not_listed(r, pid, i - 1, q, k2);
        assert(w =~= seq![m[0]] + pid_removed(r, pid));
    }
}

/// A package that is stopped has no processes listed, and the others keep theirs.
pub proof fn law_stopped_package_has_no_processes(
    m: Seq<(Seq<char>, Seq<u32>)>,
    pkg: Seq<char>,
    other: Seq<char>,
    q: u32,
)
    ensures
        listed_with(pkg_removed(m, pkg), other, q) <==> other != pkg && listed_with(m, other, q),
    decreases m.len(),
{
    if m.len() > 0 {
        let r = m.skip(1);
        law_stopped_package_has_no_processes(r, pkg, other, q);
        let w = pkg_removed(m, pkg);
        let v = pkg_removed(r, pkg);
        assert(listed_with(m, other, q) <==> (m[0].0 == other && m[0].1.contains(q)) || listed_with(
            r,
            other,
            q,
        )) by {
            if listed_with(r, other, q) {
                let i = choose|i: int|
                    0 <= i < r.len() && (#[trigger] r[i]).0 == other && r[i].1.contains(q);
                assert(m[i + 1] == r[i]);
            }
            if listed_with(m, other, q) && !(m[0].0 == other && m[0].1.contains(q)) {
                let i = choose|i: int|
                    0 <= i < m.len() && (#[trigger] m[i]).0 == other && m[i].1.contains(q);
                assert(r[i - 1] == m[i]);
            }
        }
        if m[0].0 != pkg {
            assert(w =~= seq![m[0]] + v);
            assert(listed_with(w, other, q) <==> (m[0].0 == other && m[0].1.contains(q))
                || listed_with(v, other, q)) by {
                if listed_with(v, other, q) {
                    let i = choose|i: int|
                        0 <= i < v.len() && (#[trigger] v[i]).0 == other && v[i].1.contains(q);
                    assert(w[i + 1] == v[i]);
                }
                assert(w[0] == m[0]);
                if listed_with(w, other, q) && !(m[0].0 == other && m[0].1.contains(q)) {
                    let i = choose|i: int|
                        0 <= i < w.len() && (#[trigger] w[i]).0 == other && w[i].1.contains(q);
                    assert(v[i - 1] == w[i]);
                }
            }
        }
    }
}

// ---- Uids ----

/// The uids that are told of packages are those that are known of them, as reported with a
/// process or else by the package table, and no others.
pub proof fn law_uids_that_are_told(s: EngineView, e: EnvView, names: Seq<Seq<char>>, u: u32)
    ensures
        known_uids(s, e, names).contains(u) <==> exists|i: int|
            0 <= i < names.len() && match value_of(s.pkg_uids, #[trigger] names[i]) {
                Some(v) => v == u,
                None => value_of(e.table, names[i]) == Some(u),
            },
    decreases names.len(),
{
    if names.len() > 0 {
        let d = names.drop_last();
        law_uids_that_are_told(s, e, d, u);
        let w = known_uids(s, e, names);
        let k = known_uids(s, e, d);
        assert(names[names.len() - 1] == names.last());
        if k.contains(u) {
            let j = choose|j: int| 0 <= j < k.len() && k[j] == u;
            assert(w[j] == u);
            let i = choose|i: int|
                0 <= i < d.len() && match value_of(s.pkg_uids, #[trigger] d[i]) {
                    Some(v) => v == u,
                    None => value_of(e.table, d[i]) == Some(u),
                };
            assert(names[i] == d[i]);
        }
        if known_uid(s, e, names.last()) == Some(u) {
            assert(w[w.len() - 1] == u);
        }
        if w.contains(u) && !k.contains(u) {
            let j = choose|j: int| 0 <= j < w.len() && w[j] == u;
            if j < k.len() {
                assert(k[j] == u);
            }
        }
        if exists|i: int|
            0 <= i < names.len() && match value_of(s.pkg_uids, #[trigger] names[i]) {
                Some(v) => v == u,
                None => value_of(e.table, names[i]) == Some(u),
            } {
            let i = choose|i: int|
                0 <= i < names.len() && match value_of(s.pkg_uids, #[trigger] names[i]) {
                    Some(v) => v == u,
                    None => value_of(e.table, names[i]) == Some(u),
                };
            if i < d.len() {
                assert(d[i] == names[i]);
            }
        }
    }
}

/// The packages that are managed are those that are frozen, wait to be, or are kept from the
/// memory killer.
pub proof fn law_who_is_managed(s: EngineView, p: Seq<char>)
    ensures
        managed_names(s).contains(p) <==> has_key(s.frozen, p) || has_key(s.grace, p)
            || s.adj_keep.contains(p),
{
    let a = keys_of(s.frozen);
    let b = keys_of(s.grace);
    let w = managed_names(s);
    lemma_key_index(s.frozen, p);
    lemma_key_index(s.grace, p);
    if has_key(s.frozen, p) {
        assert(w[key_index(s.frozen, p)] == p);
    }
    if has_key(s.grace, p) {
        assert(w[a.len() + key_index(s.grace, p)] == p);
    }
    if s.adj_keep.contains(p) {
        let i = choose|i: int| 0 <= i < s.adj_keep.len() && s.adj_keep[i] == p;
        assert(w[a.len() + b.len() + i] == p);
    }
    if w.contains(p) {
        let i = choose|i: int| 0 <= i < w.len() && w[i] == p;
        if i < a.len() {
            assert(s.frozen[i].0 == p);
        } else if i < a.len() + b.len() {
            assert(s.grace[i - a.len()].0 == p);
        } else {
            assert(s.adj_keep[i - a.len() - b.len()] == p);
        }
    }
}

// ---- Builds ----

/// A build that is reported is the one that is known from then on, and it is compared with the
/// one that is expected of its own kind.
pub proof fn law_reported_builds_are_known(d: DaemonView, c: CommandEnvView, build: Seq<char>, reason: Seq<char>)
    ensures
        ({
            let u = dex_reported(d, c, build, reason);
            build_of(u.dex) == Some(build) && u.probe == d.probe && u.hook_bridge == d.hook_bridge
                && u.expected_dex_hash == d.expected_dex_hash
        }),
        ({
            let u = probe_reported(d, c, build);
            build_of(u.probe) == Some(build) && u.dex == d.dex && u.hook_bridge == d.hook_bridge
        }),
        ({
            let u = bridge_reported(d, c, build);
            build_of(u.hook_bridge) == Some(build) && u.dex == d.dex && u.probe == d.probe
        }),
        findings_reported(d, c, build).dex_capability == Some(build),
{
}

/// A build matches exactly where one is expected and the same one was reported; where either is
/// missing nothing can be said.
pub proof fn law_builds_are_compared(expected: Option<Seq<char>>, reported: Option<Seq<char>>)
    ensures
        expected is Some && reported is Some && expected == reported ==> match_text(
            expected,
            reported,
        ) == "1"@,
        expected is Some && reported is Some && expected != reported ==> match_text(
            expected,
            reported,
        ) == "0"@,
        expected is None || reported is None ==> match_text(expected, reported) == "-1"@,
{
}

/// The builds that are expected are those of their own files, without white space; an empty file
/// expects none. The daemon has been up for the whole seconds since its start.
pub proof fn law_what_a_daemon_starts_with(
    d: DaemonView,
    probe: Seq<char>,
    dex: Seq<char>,
    hook: Seq<char>,
    now: u64,
    engine: EngineView,
    later: u64,
)
    requires
        now <= later,
    ensures
        ({
            let u = with_expected(d, Some(probe), Some(dex), Some(hook));
            &&& trimmed(probe).len() > 0 ==> u.expected_probe_hash == Some(trimmed(probe))
            &&& trimmed(dex).len() > 0 ==> u.expected_dex_hash == Some(trimmed(dex))
            &&& trimmed(hook).len() > 0 ==> u.expected_hook_hash == Some(trimmed(hook))
            &&& trimmed(dex).len() == 0 ==> u.expected_dex_hash is None
            &&& u.engine == d.engine
        }),
        ({
            let s = uptime(started_daemon(now, engine), later) as int;
            s * 1_000_000_000 <= later - now < (s + 1) * 1_000_000_000
        }),
        started_daemon(now, engine).engine == engine,
{
}

// ---- Listeners ----

/// A pattern that ends in a dot and a star stands for every longer name with the same
/// beginning up to the dot, and for no other; any other pattern stands for itself alone.
pub proof fn law_patterns(prefix: Seq<char>, rest: Seq<char>, pkg: Seq<char>, plain: Seq<char>)
    requires
        !".*"@.is_suffix_of(plain),
    ensures
        pattern_matches(prefix + ".*"@, prefix + "."@ + rest) <==> rest.len() > 0,
        pattern_matches(prefix + ".*"@, pkg) ==> (prefix + "."@).is_prefix_of(pkg),
        pattern_matches(plain, pkg) <==> plain == pkg,
{
    reveal_strlit(".*");
    reveal_strlit(".");
    let pattern = prefix + ".*"@;
    assert(pattern.skip(pattern.len() - ".*"@.len()) =~= ".*"@);
    assert(".*"@.is_suffix_of(pattern));
    assert(pattern.take(pattern.len() - 1) =~= prefix + "."@);
    let name = prefix + "."@ + rest;
    assert(name.take((prefix + "."@).len() as int) =~= prefix + "."@);
    assert((prefix + "."@).is_prefix_of(name));
}

/// A listener hears of an event exactly where it wants the kind, or every kind, and the package,
/// or every package, or the event has none.
pub proof fn law_who_hears(s: SubscriptionView, kind: Seq<char>, pkg: Seq<char>, i: int)
    ensures
        s.kinds.len() > 0 && !s.kinds.contains(kind) ==> !wanted(s, kind, Some(pkg)) && !wanted(
            s,
            kind,
            None,
        ),
        s.kinds.len() == 0 || s.kinds.contains(kind) ==> wanted(s, kind, None),
        (s.kinds.len() == 0 || s.kinds.contains(kind)) && s.packages.len() == 0 ==> wanted(
            s,
            kind,
            Some(pkg),
        ),
        (s.kinds.len() == 0 || s.kinds.contains(kind)) && 0 <= i < s.packages.len()
            && pattern_matches(s.packages[i], pkg) ==> wanted(s, kind, Some(pkg)),
        s.packages.len() > 0 && (forall|j: int|
            0 <= j < s.packages.len() ==> !pattern_matches(#[trigger] s.packages[j], pkg))
            ==> !wanted(s, kind, Some(pkg)),
{
}

/// A listener that could not be written to leaves, and only such a one: the others stay as they
/// are.
pub proof fn law_who_stays_after_a_broadcast(
    cs: Seq<ClientView>,
    targets: Seq<u64>,
    wrote: Seq<bool>,
    c: ClientView,
)
    requires
        targets.len() == wrote.len(),
    ensures
        reached(cs, targets, wrote).contains(c) <==> cs.contains(c) && forall|k: int|
            0 <= k < targets.len() && #[trigger] targets[k] == c.id ==> wrote[k],
    decreases cs.len(),
{
    if cs.len() > 0 {
        let d = cs.drop_last();
        law_who_stays_after_a_broadcast(d, targets, wrote, c);
        let w = reached(cs, targets, wrote);
        let k = reached(d, targets, wrote);
        assert(cs[cs.len() - 1] == cs.last());
        if d.contains(c) {
            let i = choose|i: int| 0 <= i < d.len() && d[i] == c;
            assert(cs[i] == c);
        }
        if cs.contains(c) && cs.last() != c {
            let i = choose|i: int| 0 <= i < cs.len() && cs[i] == c;
            assert(d[i] == c);
        }
        if k.contains(c) {
            let i = choose|i: int| 0 <= i < k.len() && k[i] == c;
            assert(w[i] == c);
        }
        if w.len() > k.len() {
            assert(w[w.len() - 1] == cs.last());
        }
        if w.contains(c) && !k.contains(c) {
            let i = choose|i: int| 0 <= i < w.len() && w[i] == c;
            if i < k.len() {
                assert(k[i] == c);
            }
        }
        if write_failed(targets, wrote, cs.last().id) {
            let i = choose|i: int|
                0 <= i < targets.len() && i < wrote.len() && #[trigger] targets[i] == cs.last().id
                    && !wrote[i];
            assert(targets[i] == cs.last().id && !wrote[i]);
        }
    }
}

/// The package that an event is about is the one that its line names, where that is not empty.
pub proof fn law_package_of_a_line(line: Seq<char>)
    ensures
        package_in(line) matches Some(p) ==> p.len() > 0 && field_in(words(line), "pkg="@) == Some(p),
        package_in(line) is None ==> (field_in(words(line), "pkg="@) matches Some(p) ==> p.len()
            == 0),
{
}

/// The uid of a process is looked for exactly where it is told to have started, with its package
/// and without a uid.
pub proof fn law_whose_uid_is_looked_for(arg: Seq<char>, ws: Seq<Seq<char>>, kind: Seq<char>)
    requires
        event_parts(arg) == (kind, ws),
    ensures
        kind != "proc-add"@ || field_in(ws, "pkg="@) is None || number_field(ws, "uid="@) is Some
            ==> event_pid_of(arg) is None,
        kind == "proc-add"@ && field_in(ws, "pkg="@) is Some && number_field(ws, "uid="@) is None
            ==> event_pid_of(arg) == number_field(ws, "pid="@),
{
}

/// As many writes worked as say so.
pub proof fn law_successes_are_counted(wrote: Seq<bool>, ok: bool)
    ensures
        successes(wrote.push(ok)) == successes(wrote) + (if ok {
            1nat
        } else {
            0
        }),
        successes(Seq::empty()) == 0,
{
    assert(wrote.push(ok).drop_last() =~= wrote);
}

/// Every change of the foreground is logged; of the wakeups that are not held back, the first of
/// every 32 is, with its reason.
pub proof fn law_which_events_are_logged(
    d: DaemonView,
    e: EnvView,
    found: Option<u32>,
    arg: Seq<char>,
    ws: Seq<Seq<char>>,
    pkg: Seq<char>,
)
    requires
        field_in(ws, "pkg="@) == Some(pkg),
        has_key(d.engine.frozen, pkg),
    ensures
        ({
            let u = event_handled(d, e, found, arg).0;
            let x = u.engine.log.events.last();
            let n = d.wakeup_events.wrapping_add(1);
            &&& event_parts(arg) == ("focus"@, ws) ==> x.pkg == Some(pkg) && x.reason == Some(
                "focus"@,
            ) && x.ts == e.epoch && u.engine.log.total == d.engine.log.total.wrapping_add(1)
            &&& event_parts(arg) == ("wakeup"@, ws) && event_handled(d, e, found, arg).1
                != HandledView::Engine(StepView::Done, crate::protocol::ok_text()) ==> {
                &&& n % 32 == 1 ==> u.engine.log.total == d.engine.log.total.wrapping_add(1)
                    && x.pkg == Some(pkg) && x.reason == Some("wakeup"@) && x.ts == e.epoch
                &&& n % 32 == 1 ==> x.msg == (match field_in(ws, "reason="@) {
                    Some(t) => Some(t),
                    None => Some("?"@),
                })
                &&& n % 32 != 1 ==> u.engine.log.total == d.engine.log.total
            }
        }),
{
    lemma_kinds_differ();
}

} // verus!
