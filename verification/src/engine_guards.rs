//! What the policy keeps from being frozen, and what may be discarded at all.

use vstd::prelude::*;
use crate::engine::{
    cooling, focus_begin, focus_noted, focus_rest, force_stopped, freeze_done, freeze_refused,
    leave_recorded, leave_rest, residual_noted, stamped, traffic_check, ungraced, wakeup_begin,
};
use crate::engine_admin::{
    preset_applied, preset_cleared, protected_names, reload_begin, reload_settled, without_keys,
    ReloadView,
};
use crate::engine_effects::lemma_ruled;
use crate::engine_laws::{group_tables, in_arrival, in_closing, in_discarding, in_freezing, sound};
use crate::engine_ops::{
    over, within_queue, EnvView, OpView, ReplyView, StepView, SurveyView, TaskKind, TaskView,
};
use crate::engine_rules::{
    discard_order, due_names, expired_names, goes_first, has_passed, law_discard_order, listed,
    never_frozen, ranking, rss_at, ruled_names, stale_names, uid_of, with_ranked, Ranked,
};
use crate::engine_state::EngineView;
use crate::engine_tick::{
    grace_next, grace_surveyed, reclaim_names, step, tick_begin, tick_body,
};
use crate::names::{
    has_key, key_index, keys_of, lemma_key_index, lemma_with_key, lemma_with_name, lemma_without_key,
    unique_keys, value_of, without_key,
};
use crate::order::{law_sorted_texts, sorted_texts};
use crate::policy_file::loaded_policy;
use crate::preset::Preset;

verus! {

// ---- Listed packages ----

/// A task that is about to freeze no listed package.
pub open spec fn free_task(s: EngineView, t: TaskView) -> bool {
    match t.kind {
        TaskKind::GraceFreeze => !listed(s, t.pkg),
        TaskKind::LeaveFreeze => !listed(s, t.pkg),
        TaskKind::RuleFreeze => !listed(s, t.pkg),
        _ => true,
    }
}

/// A continuation that freezes no listed package.
pub open spec fn spares_listed(s: EngineView, st: StepView) -> bool {
    match st {
        StepView::Done => true,
        StepView::Next(t) => free_task(s, t),
        StepView::Ask(op, t) => free_task(s, t) && (op matches OpView::Freeze(p, _) ==> !listed(
            s,
            p,
        )),
    }
}

/// No listed package got into the table of frozen apps.
pub open spec fn none_joined(s: EngineView, u: EngineView) -> bool {
    forall|p: Seq<char>| #[trigger] has_key(u.frozen, p) && listed(u, p) ==> has_key(s.frozen, p)
}

#[verifier::rlimit(20)]
#[verifier::spinoff_prover]
proof fn lemma_leave_spares(s: EngineView, e: EnvView, pkg: Seq<char>, alive: Option<bool>)
    ensures
        spares_listed(leave_rest(s, e, pkg, alive).0, leave_rest(s, e, pkg, alive).1),
        leave_rest(s, e, pkg, alive).0.frozen == s.frozen,
        leave_rest(s, e, pkg, alive).0.policy == s.policy,
{
    match freeze_refused(s, e, pkg, alive) {
        Some(_) => {},
        None => {
            assert(!listed(s, pkg));
        },
    }
}

#[verifier::rlimit(20)]
#[verifier::spinoff_prover]
proof fn lemma_focus_spares(s: EngineView, e: EnvView, pkg: Seq<char>)
    ensures
        spares_listed(focus_rest(s, e, pkg).0, focus_rest(s, e, pkg).1),
        focus_rest(s, e, pkg).0.frozen == s.frozen,
        focus_rest(s, e, pkg).0.policy == s.policy,
{
    if let Some(prev) = s.last_focus {
        let t = EngineView { last_focus: Some(pkg), ..ungraced(s, pkg) };
        lemma_leave_spares(leave_recorded(t, e, prev), e, prev, None);
    }
}

#[verifier::rlimit(20)]
#[verifier::spinoff_prover]
proof fn lemma_arrival_spares(s: EngineView, e: EnvView, t: TaskView, r: ReplyView)
    requires
        in_arrival(t.kind),
    ensures
        spares_listed(step(s, e, t, r).0, step(s, e, t, r).1),
        free_task(s, t) ==> none_joined(s, step(s, e, t, r).0),
{
    broadcast use group_tables;

    let v = stamped(s, e);
    let (u, st) = step(s, e, t, r);
    match t.kind {
        TaskKind::FocusThaw => {
            lemma_focus_spares(cooling(focus_noted(v, e, t.pkg, r.flag()), e, t.pkg), e, t.pkg);
            assert(spares_listed(u, st));
        },
        TaskKind::FocusProbe => {
            lemma_focus_spares(v, e, t.pkg);
            assert(spares_listed(u, st));
        },
        TaskKind::FocusResidual => {
            lemma_focus_spares(residual_noted(v, e, t.pkg, r.flag()), e, t.pkg);
            assert(spares_listed(u, st));
        },
        TaskKind::LeaveSurvey => {
            lemma_leave_spares(v, e, t.pkg, None);
            if let Some(uid) = uid_of(e, t.pkg) {
                let found = r.survey();
                let w = traffic_check(v, e, t.pkg, uid, found).0;
                lemma_leave_spares(w, e, t.pkg, Some(found.has_procs));
            }
            assert(spares_listed(u, st));
        },
        TaskKind::LeaveFreeze => {
            assert(spares_listed(u, st));
            assert(free_task(s, t) ==> none_joined(s, u));
        },
        TaskKind::RuleFreeze => {
            assert(spares_listed(u, st));
            assert(free_task(s, t) ==> none_joined(s, u));
        },
        TaskKind::WakeThaw => {
            assert(spares_listed(u, st));
        },
        TaskKind::ReloadNext => {
            assert(spares_listed(u, st));
        },
        TaskKind::ReloadThaw => {
            assert(spares_listed(u, st));
        },
        _ => {},
    }
}

#[verifier::rlimit(20)]
#[verifier::spinoff_prover]
proof fn lemma_freezing_spares(s: EngineView, e: EnvView, t: TaskView, r: ReplyView)
    requires
        in_freezing(t.kind),
    ensures
        spares_listed(step(s, e, t, r).0, step(s, e, t, r).1),
        free_task(s, t) ==> none_joined(s, step(s, e, t, r).0),
{
    broadcast use group_tables;

    let (u, st) = step(s, e, t, r);
    match t.kind {
        TaskKind::GraceNext => {
            assert(spares_listed(u, st));
        },
        TaskKind::GraceSurvey => {
            assert(spares_listed(u, st));
        },
        TaskKind::GraceFreeze => {
            assert(spares_listed(u, st));
            assert(free_task(s, t) ==> none_joined(s, u));
        },
        _ => {},
    }
}

#[verifier::rlimit(20)]
#[verifier::spinoff_prover]
proof fn lemma_rest_spares(s: EngineView, e: EnvView, t: TaskView, r: ReplyView)
    requires
        in_discarding(t.kind) || in_closing(t.kind),
    ensures
        spares_listed(step(s, e, t, r).0, step(s, e, t, r).1),
        free_task(s, t) ==> none_joined(s, step(s, e, t, r).0),
{
    broadcast use group_tables;

    let (u, st) = step(s, e, t, r);
    assert(u.policy == s.policy);
    assert(spares_listed(u, st));
}

/// No step asks for the freeze of a package that is on the white list or exempt, in whatever
/// state and however it got there.
pub proof fn law_listed_apps_are_not_frozen(s: EngineView, e: EnvView, t: TaskView, r: ReplyView)
    ensures
        spares_listed(step(s, e, t, r).0, step(s, e, t, r).1),
{
    law_listed_apps_stay_out(s, e, t, r);
}

/// No step that follows such a step puts a listed package into the table of frozen apps.
pub proof fn law_listed_apps_stay_out(s: EngineView, e: EnvView, t: TaskView, r: ReplyView)
    ensures
        spares_listed(step(s, e, t, r).0, step(s, e, t, r).1),
        free_task(s, t) ==> none_joined(s, step(s, e, t, r).0),
{
    if in_arrival(t.kind) {
        lemma_arrival_spares(s, e, t, r);
    } else if in_freezing(t.kind) {
        lemma_freezing_spares(s, e, t, r);
    } else {
        lemma_rest_spares(s, e, t, r);
    }
}

/// What the engine is told freezes no listed package either: an app that comes to the
/// foreground, a wakeup, a tick, a package that is stopped, a preset that is applied or given
/// up.
#[verifier::rlimit(20)]
#[verifier::spinoff_prover]
pub proof fn law_events_spare_listed_apps(
    s: EngineView,
    e: EnvView,
    pkg: Seq<char>,
    source: Seq<char>,
    action: Seq<char>,
    preset: Preset,
    policy: Option<Seq<char>>,
    revision: u64,
)
    ensures
        spares_listed(focus_begin(s, e, pkg).0, focus_begin(s, e, pkg).1),
        none_joined(s, focus_begin(s, e, pkg).0),
        spares_listed(
            wakeup_begin(s, e, pkg, source, action).0,
            wakeup_begin(s, e, pkg, source, action).1,
        ),
        none_joined(s, wakeup_begin(s, e, pkg, source, action).0),
        spares_listed(tick_begin(s, e).0, tick_begin(s, e).1),
        none_joined(s, tick_begin(s, e).0),
        spares_listed(force_stopped(s, e, pkg).0, force_stopped(s, e, pkg).1),
        none_joined(s, force_stopped(s, e, pkg).0),
        preset_applied(s, e.epoch, pkg, preset).frozen == s.frozen,
        preset_cleared(s, e.epoch, policy, revision).frozen == s.frozen,
{
    broadcast use group_tables;

}

/// A reload freezes no listed package, also where the new policy lists one that already waits.
/// A policy that can be loaded releases every package that it protects: none of them waits to
/// be frozen any longer, and those that are frozen are thawed next.
pub proof fn law_reload_spares_listed_apps(s: EngineView, e: EnvView, i: ReloadView)
    ensures
        spares_listed(reload_begin(s, e, i).0, reload_begin(s, e, i).1),
        reload_begin(s, e, i).0.frozen == s.frozen,
        loaded_policy(i.policy, i.policy_revision) is Some ==> ({
            let (u, st) = reload_begin(s, e, i);
            &&& st matches StepView::Next(t) && t.kind == TaskKind::ReloadNext && forall|p: Seq<
                char,
            >| #[trigger]
                has_key(u.frozen, p) && never_frozen(u, e, p) ==> t.queue.contains(p)
            &&& forall|p: Seq<char>| #[trigger] has_key(u.grace, p) ==> !never_frozen(u, e, p)
        }),
{
    if loaded_policy(i.policy, i.policy_revision) is Some {
        let u = reload_begin(s, e, i).0;
        let v = reload_settled(s, e, i);
        let names = protected_names(v, e, keys_of(v.grace));
        let q = protected_names(u, e, keys_of(u.frozen));
        assert forall|p: Seq<char>| #[trigger] has_key(u.grace, p) implies !never_frozen(
            u,
            e,
            p,
        ) by {
            assert(never_frozen(u, e, p) == never_frozen(v, e, p));
            lemma_without_keys(v.grace, names, p);
            if never_frozen(v, e, p) {
                lemma_key_among(v.grace, p);
                lemma_protected(v, e, keys_of(v.grace), p);
            }
        }
        assert forall|p: Seq<char>| #[trigger]
            has_key(u.frozen, p) && never_frozen(u, e, p) implies q.contains(p) by {
            lemma_key_among(u.frozen, p);
            lemma_protected(u, e, keys_of(u.frozen), p);
        }
        assert(protected_names(v, e, keys_of(v.frozen)) =~= q) by {
            lemma_protected_same(u, v, e, keys_of(u.frozen));
        }
    }
}

proof fn lemma_key_at<V>(m: Seq<(Seq<char>, V)>, i: int)
    requires
        0 <= i < m.len(),
    ensures
        has_key(m, m[i].0),
{
    lemma_key_index(m, m[i].0);
}

proof fn lemma_key_among<V>(m: Seq<(Seq<char>, V)>, p: Seq<char>)
    requires
        has_key(m, p),
    ensures
        keys_of(m).contains(p),
{
    lemma_key_index(m, p);
    let i = key_index(m, p);
    assert(keys_of(m)[i] == p);
}

proof fn lemma_protected(s: EngineView, e: EnvView, names: Seq<Seq<char>>, p: Seq<char>)
    requires
        names.contains(p),
        never_frozen(s, e, p),
    ensures
        protected_names(s, e, names).contains(p),
    decreases names.len(),
{
    let w = protected_names(s, e, names);
    let d = names.drop_last();
    if names.last() == p {
        assert(w.last() == p);
    } else {
        let i = choose|i: int| 0 <= i < names.len() && names[i] == p;
        assert(d[i] == p);
        lemma_protected(s, e, d, p);
        let k = protected_names(s, e, d);
        let j = choose|j: int| 0 <= j < k.len() && k[j] == p;
        assert(w[j] == p);
    }
}

proof fn lemma_protected_same(s: EngineView, u: EngineView, e: EnvView, names: Seq<Seq<char>>)
    requires
        s.policy == u.policy,
        s.system_apps == u.system_apps,
        s.rules == u.rules,
    ensures
        protected_names(s, e, names) == protected_names(u, e, names),
    decreases names.len(),
{
    if names.len() > 0 {
        lemma_protected_same(s, u, e, names.drop_last());
    }
}

proof fn lemma_without_keys<V>(m: Seq<(Seq<char>, V)>, names: Seq<Seq<char>>, p: Seq<char>)
    ensures
        has_key(without_keys(m, names), p) == (has_key(m, p) && !names.contains(p)),
    decreases names.len(),
{
    if names.len() > 0 {
        let d = names.drop_last();
        lemma_without_keys(m, d, p);
        lemma_without_key(without_keys(m, d), names.last(), p);
        if names.contains(p) && names.last() != p {
            let i = choose|i: int| 0 <= i < names.len() && names[i] == p;
            assert(d[i] == p);
        }
        if d.contains(p) {
            let i = choose|i: int| 0 <= i < d.len() && d[i] == p;
            assert(names[i] == p);
        }
    }
}

/// A package that must not be frozen and whose delay is over is not frozen, and it leaves the
/// table of those that wait when its turn comes: at once, or where its traffic is looked at
/// first, after that.
pub proof fn law_protected_apps_leave_grace(
    s: EngineView,
    e: EnvView,
    p: Seq<char>,
    rest: Seq<Seq<char>>,
    found: SurveyView,
)
    requires
        never_frozen(s, e, p),
    ensures
        ({
            let (u, st) = grace_next(s, e, seq![p] + rest);
            &&& u.frozen == s.frozen
            &&& match st {
                StepView::Next(t) => t == over(TaskKind::GraceNext, rest) && !has_key(u.grace, p),
                StepView::Ask(op, t) => op is Survey && u == s && t == within_queue(
                    TaskKind::GraceSurvey,
                    p,
                    rest,
                ),
                StepView::Done => false,
            }
        }),
        ({
            let (u, st) = grace_surveyed(s, e, p, rest, found);
            &&& u.frozen == s.frozen
            &&& st == StepView::Next(over(TaskKind::GraceNext, rest))
            &&& !has_key(u.grace, p)
        }),
{
    broadcast use group_tables;

    assert((seq![p] + rest).skip(1) =~= rest);
    assert((seq![p] + rest)[0] == p);
}

/// The tasks in which apps whose delay is over take their turns.
pub open spec fn takes_turns(k: TaskKind) -> bool {
    k == TaskKind::GraceNext || k == TaskKind::GraceSurvey || k == TaskKind::GraceFreeze
}

/// Whether the turn of a package is still to come, or has come.
pub open spec fn in_turn(t: TaskView, p: Seq<char>) -> bool {
    t.queue.contains(p) || (t.kind != TaskKind::GraceNext && t.pkg == p)
}

proof fn lemma_due_found(m: Seq<(Seq<char>, (u64, u64))>, now: u64, i: int)
    requires
        0 <= i < m.len(),
        has_passed(now, m[i].1.0, m[i].1.1),
    ensures
        due_names(m, now).contains(m[i].0),
    decreases m.len(),
{
    let w = due_names(m, now);
    let k = due_names(m.drop_last(), now);
    if i < m.len() - 1 {
        lemma_due_found(m.drop_last(), now, i);
        let j = choose|j: int| 0 <= j < k.len() && k[j] == m[i].0;
        assert(w[j] == m[i].0);
    } else {
        assert(w[w.len() - 1] == m[i].0);
    }
}

/// Every app whose delay is over gets its turn in a tick, where the policy is on.
pub proof fn law_due_apps_get_their_turn(s: EngineView, e: EnvView, p: Seq<char>)
    requires
        s.policy.enabled,
        value_of(s.grace, p) matches Some(w) && has_passed(e.now, w.0, w.1),
    ensures
        tick_body(s, e).0 == s,
        tick_body(s, e).1 matches StepView::Next(t) && t.kind == TaskKind::GraceNext && in_turn(t, p),
{
    lemma_key_index(s.grace, p);
    lemma_due_found(s.grace, e.now, key_index(s.grace, p));
}

proof fn lemma_turn_passes(q: Seq<Seq<char>>, p: Seq<char>)
    requires
        q.len() > 0,
    ensures
        q.contains(p) ==> q[0] == p || q.skip(1).contains(p),
{
    if q.contains(p) && q[0] != p {
        let i = choose|i: int| 0 <= i < q.len() && q[i] == p;
        assert(q.skip(1)[i - 1] == p);
    }
}

/// While the turns are taken a package that must not be frozen is not frozen, and when they are
/// over it does not wait any longer. So a tick leaves no protected app whose delay is over
/// among those that wait or those that are frozen, whenever it came to be protected.
#[verifier::rlimit(30)]
#[verifier::spinoff_prover]
pub proof fn law_protected_apps_do_not_outlast_the_turns(
    s: EngineView,
    e: EnvView,
    t: TaskView,
    r: ReplyView,
    p: Seq<char>,
)
    requires
        takes_turns(t.kind),
        never_frozen(s, e, p),
        !has_key(s.frozen, p),
        has_key(s.grace, p) ==> in_turn(t, p),
        t.kind == TaskKind::GraceFreeze ==> t.pkg != p,
    ensures
        ({
            let (u, st) = step(s, e, t, r);
            &&& never_frozen(u, e, p)
            &&& !has_key(u.frozen, p)
            &&& match st {
                StepView::Next(n) => if takes_turns(n.kind) {
                    n.kind == TaskKind::GraceNext && (has_key(u.grace, p) ==> in_turn(n, p))
                } else {
                    !has_key(u.grace, p)
                },
                StepView::Ask(_, n) => {
                    &&& takes_turns(n.kind)
                    &&& has_key(u.grace, p) ==> in_turn(n, p)
                    &&& n.kind == TaskKind::GraceFreeze ==> n.pkg != p
                },
                StepView::Done => false,
            }
        }),
{
    broadcast use group_tables;

    let v = stamped(s, e);
    match t.kind {
        TaskKind::GraceNext => {
            if t.queue.len() > 0 {
                lemma_turn_passes(t.queue, p);
                lemma_refused(v, e, t.queue[0], None);
            }
        },
        TaskKind::GraceSurvey => {
            lemma_refused(v, e, t.pkg, None);
            if let Some(uid) = uid_of(e, t.pkg) {
                let found = r.survey();
                let w = traffic_check(v, e, t.pkg, uid, found).0;
                lemma_refused(w, e, t.pkg, Some(found.has_procs));
            }
        },
        _ => {},
    }
}

proof fn lemma_refused(s: EngineView, e: EnvView, pkg: Seq<char>, alive: Option<bool>)
    ensures
        never_frozen(s, e, pkg) ==> freeze_refused(s, e, pkg, alive) is Some,
        freeze_refused(s, e, pkg, alive) matches Some(t) ==> t.frozen == s.frozen && t.policy
            == s.policy && t.rules == s.rules && t.system_apps == s.system_apps && (t.grace
            == s.grace || t.grace == without_key(s.grace, pkg)),
{
}

// ---- What may be discarded ----

/// A package that the engine may discard: it holds it frozen, or did so in the last session.
pub open spec fn ours(s: EngineView, p: Seq<char>) -> bool {
    has_key(s.frozen, p) || has_key(s.boot_reclaim_candidates, p)
}

/// Packages that the engine may discard, each once.
pub open spec fn own_names(s: EngineView, q: Seq<Seq<char>>) -> bool {
    q.no_duplicates() && forall|i: int| 0 <= i < q.len() ==> ours(s, #[trigger] q[i])
}

/// A task that leads to the discarding of the engine's own packages only.
pub open spec fn own_task(s: EngineView, t: TaskView) -> bool {
    match t.kind {
        TaskKind::DiscardNext => own_names(s, t.queue),
        TaskKind::MemAgain => own_names(s, t.queue),
        TaskKind::DiscardSurvey => own_names(s, seq![t.pkg] + t.queue),
        TaskKind::DiscardKill => own_names(s, seq![t.pkg] + t.queue),
        TaskKind::ReclaimNext => own_names(s, t.found + t.queue),
        TaskKind::ReclaimLevels => own_names(s, t.found + (seq![t.pkg] + t.queue)),
        _ => true,
    }
}

/// A continuation that discards the engine's own packages only.
pub open spec fn discards_own(s: EngineView, st: StepView) -> bool {
    match st {
        StepView::Done => true,
        StepView::Next(t) => own_task(s, t),
        StepView::Ask(op, t) => own_task(s, t) && (op is Discard ==> ours(s, t.pkg)),
    }
}

proof fn lemma_stale(m: Seq<(Seq<char>, u64)>, now: u64, secs: u64)
    requires
        unique_keys(m),
    ensures
        stale_names(m, now, secs).no_duplicates(),
        forall|i: int|
            0 <= i < stale_names(m, now, secs).len() ==> exists|j: int|
                0 <= j < m.len() && m[j].0 == #[trigger] stale_names(m, now, secs)[i],
    decreases m.len(),
{
    if m.len() > 0 {
        let d = m.drop_last();
        assert forall|i: int, j: int| 0 <= i < j < d.len() implies d[i].0 != d[j].0 by {
            assert(m[i].0 != m[j].0);
        }
        lemma_stale(d, now, secs);
        let w = stale_names(m, now, secs);
        let k = stale_names(d, now, secs);
        assert forall|i: int| 0 <= i < w.len() implies exists|j: int|
            0 <= j < m.len() && m[j].0 == #[trigger] w[i] by {
            if i < k.len() {
                assert(k[i] == w[i]);
                let j = choose|j: int| 0 <= j < d.len() && d[j].0 == k[i];
                assert(m[j].0 == w[i]);
            } else {
                assert(m[m.len() - 1].0 == w[i]);
            }
        }
        assert forall|a: int, b: int| 0 <= a < w.len() && 0 <= b < w.len() && a != b implies w[a]
            != w[b] by {
            if a == k.len() {
                let j = choose|j: int| 0 <= j < d.len() && d[j].0 == k[b];
                assert(m[j].0 != m[m.len() - 1].0);
            } else if b == k.len() {
                let j = choose|j: int| 0 <= j < d.len() && d[j].0 == k[a];
                assert(m[j].0 != m[m.len() - 1].0);
            }
        }
    }
}

proof fn lemma_stale_found(m: Seq<(Seq<char>, u64)>, now: u64, secs: u64, i: int)
    requires
        0 <= i < m.len(),
        has_passed(now, m[i].1, secs),
    ensures
        stale_names(m, now, secs).contains(m[i].0),
    decreases m.len(),
{
    let w = stale_names(m, now, secs);
    let k = stale_names(m.drop_last(), now, secs);
    if i < m.len() - 1 {
        lemma_stale_found(m.drop_last(), now, secs, i);
        let j = choose|j: int| 0 <= j < k.len() && k[j] == m[i].0;
        assert(w[j] == m[i].0);
    } else {
        assert(w[w.len() - 1] == m[i].0);
    }
}

proof fn lemma_stale_passed(m: Seq<(Seq<char>, u64)>, now: u64, secs: u64, p: Seq<char>) -> (i: int)
    requires
        stale_names(m, now, secs).contains(p),
    ensures
        0 <= i < m.len(),
        m[i].0 == p,
        has_passed(now, m[i].1, secs),
    decreases m.len(),
{
    let w = stale_names(m, now, secs);
    let k = stale_names(m.drop_last(), now, secs);
    let j = choose|j: int| 0 <= j < w.len() && w[j] == p;
    if has_passed(now, m.last().1, secs) && j == w.len() - 1 {
        m.len() - 1
    } else {
        assert(k[j] == p);
        lemma_stale_passed(m.drop_last(), now, secs, p)
    }
}

/// A frozen package is discarded for its time exactly where a limit is set and it has been
/// frozen that long without a thaw.
pub proof fn law_timeout_is_exact(s: EngineView, now: u64, p: Seq<char>)
    requires
        unique_keys(s.frozen),
    ensures
        expired_names(s, now).contains(p) <==> s.policy.discard_frozen_timeout_seconds > 0 && (
        match value_of(s.frozen, p) {
            Some(since) => has_passed(now, since, s.policy.discard_frozen_timeout_seconds),
            None => false,
        }),
{
    let secs = s.policy.discard_frozen_timeout_seconds;
    lemma_key_index(s.frozen, p);
    let i = key_index(s.frozen, p);
    if expired_names(s, now).contains(p) {
        let j = lemma_stale_passed(s.frozen, now, secs, p);
        if i < j {
            assert(s.frozen[i].0 != s.frozen[j].0);
        } else if j < i {
            assert(s.frozen[j].0 != p);
        }
    }
    if secs > 0 && has_key(s.frozen, p) && has_passed(now, s.frozen[i].1, secs) {
        lemma_stale_found(s.frozen, now, secs, i);
    }
}

/// A freeze starts the time anew, however long the package was frozen before.
pub proof fn law_freeze_restarts_timeout(
    s: EngineView,
    e: EnvView,
    p: Seq<char>,
    reason: Seq<char>,
)
    ensures
        value_of(freeze_done(s, e, p, reason, true).frozen, p) == Some(e.now),
{
    lemma_with_key(s.frozen, p, e.now, p);
}

proof fn lemma_expired_own(s: EngineView, now: u64)
    requires
        unique_keys(s.frozen),
    ensures
        own_names(s, expired_names(s, now)),
{
    let secs = s.policy.discard_frozen_timeout_seconds;
    lemma_stale(s.frozen, now, secs);
    let w = expired_names(s, now);
    assert forall|i: int| 0 <= i < w.len() implies ours(s, #[trigger] w[i]) by {
        let j = choose|j: int| 0 <= j < s.frozen.len() && s.frozen[j].0 == w[i];
        lemma_key_at(s.frozen, j);
    }
}

proof fn lemma_ruled_own(s: EngineView, e: EnvView)
    requires
        unique_keys(s.frozen),
    ensures
        own_names(s, ruled_names(s, e, s.frozen)),
{
    lemma_ruled(s, e, s.frozen);
    let w = ruled_names(s, e, s.frozen);
    assert forall|i: int| 0 <= i < w.len() implies ours(s, #[trigger] w[i]) by {
        let j = choose|j: int| 0 <= j < s.frozen.len() && s.frozen[j].0 == w[i];
        lemma_key_at(s.frozen, j);
    }
}

proof fn lemma_ranking(m: Seq<(Seq<char>, u64)>, rss: Seq<u64>, n: int)
    requires
        unique_keys(m),
        0 <= n <= m.len(),
    ensures
        ranking(m, rss, n).len() == n,
        forall|i: int|
            0 <= i < n ==> exists|j: int|
                0 <= j < n && m[j].0 == (#[trigger] ranking(m, rss, n)[i]).pkg,
        forall|a: int, b: int|
            0 <= a < b < n ==> ranking(m, rss, n)[a].pkg != ranking(m, rss, n)[b].pkg,
    decreases n,
{
    law_discard_order(m, rss, n);
    if n > 0 {
        lemma_ranking(m, rss, n - 1);
        let x = Ranked { pkg: m[n - 1].0, since: m[n - 1].1, rss: rss_at(rss, n - 1) };
        lemma_placed(ranking(m, rss, n - 1), x, m, n);
    }
}

proof fn lemma_placed(s: Seq<Ranked>, x: Ranked, m: Seq<(Seq<char>, u64)>, n: int)
    requires
        unique_keys(m),
        1 <= n <= m.len(),
        x.pkg == m[n - 1].0,
        forall|i: int|
            0 <= i < s.len() ==> exists|j: int| 0 <= j < n - 1 && m[j].0 == (#[trigger] s[i]).pkg,
        forall|a: int, b: int| 0 <= a < b < s.len() ==> s[a].pkg != s[b].pkg,
    ensures
        with_ranked(s, x).len() == s.len() + 1,
        forall|i: int|
            0 <= i < with_ranked(s, x).len() ==> exists|j: int|
                0 <= j < n && m[j].0 == (#[trigger] with_ranked(s, x)[i]).pkg,
        forall|a: int, b: int|
            0 <= a < b < with_ranked(s, x).len() ==> with_ranked(s, x)[a].pkg != with_ranked(
                s,
                x,
            )[b].pkg,
        forall|i: int|
            0 <= i < with_ranked(s, x).len() ==> with_ranked(s, x)[i] == x || s.contains(
                #[trigger] with_ranked(s, x)[i],
            ),
    decreases s.len(),
{
    let w = with_ranked(s, x);
    if s.len() > 0 && goes_first(x, s.last()) {
        let d = s.drop_last();
        assert forall|i: int| 0 <= i < d.len() implies exists|j: int|
            0 <= j < n - 1 && m[j].0 == (#[trigger] d[i]).pkg by {
            assert(s[i] == d[i]);
        }
        lemma_placed(d, x, m, n);
        let k = with_ranked(d, x);
        assert forall|i: int| 0 <= i < w.len() implies exists|j: int|
            0 <= j < n && m[j].0 == (#[trigger] w[i]).pkg by {
            if i < k.len() {
                assert(k[i] == w[i]);
            } else {
                assert(s[s.len() - 1] == w[i]);
            }
        }
        assert forall|i: int| 0 <= i < w.len() implies w[i] == x || s.contains(#[trigger] w[i]) by {
            if i < k.len() {
                assert(k[i] == w[i]);
                if k[i] != x {
                    let j = choose|j: int| 0 <= j < d.len() && d[j] == k[i];
                    assert(s[j] == w[i]);
                }
            } else {
                assert(s[s.len() - 1] == w[i]);
            }
        }
        assert forall|a: int, b: int| 0 <= a < b < w.len() implies w[a].pkg != w[b].pkg by {
            if b == k.len() {
                let l = s[s.len() - 1];
                assert(k[a] == w[a]);
                if k[a] == x {
                    let j = choose|j: int| 0 <= j < n - 1 && m[j].0 == l.pkg;
                    assert(m[j].0 != m[n - 1].0);
                } else {
                    let j = choose|j: int| 0 <= j < d.len() && d[j] == k[a];
                    assert(s[j].pkg != l.pkg);
                }
            } else {
                assert(k[a].pkg != k[b].pkg);
            }
        }
    } else {
        assert forall|i: int| 0 <= i < w.len() implies exists|j: int|
            0 <= j < n && m[j].0 == (#[trigger] w[i]).pkg by {
            if i < s.len() {
                assert(s[i] == w[i]);
                let j = choose|j: int| 0 <= j < n - 1 && m[j].0 == s[i].pkg;
                assert(0 <= j < n && m[j].0 == w[i].pkg);
            } else {
                assert(m[n - 1].0 == w[i].pkg);
            }
        }
        assert forall|i: int| 0 <= i < w.len() implies w[i] == x || s.contains(#[trigger] w[i]) by {
            if i < s.len() {
                assert(s[i] == w[i]);
            }
        }
        assert forall|a: int, b: int| 0 <= a < b < w.len() implies w[a].pkg != w[b].pkg by {
            if b == s.len() {
                let j = choose|j: int| 0 <= j < n - 1 && m[j].0 == s[a].pkg;
                assert(m[j].0 != m[n - 1].0);
            } else {
                assert(s[a].pkg != s[b].pkg);
            }
        }
    }
}

proof fn lemma_ranked_own(s: EngineView, rss: Seq<u64>)
    requires
        unique_keys(s.frozen),
    ensures
        own_names(s, discard_order(s.frozen, rss)),
{
    let n = s.frozen.len() as int;
    lemma_ranking(s.frozen, rss, n);
    let k = ranking(s.frozen, rss, n);
    let w = discard_order(s.frozen, rss);
    assert forall|i: int| 0 <= i < w.len() implies ours(s, #[trigger] w[i]) by {
        let j = choose|j: int| 0 <= j < n && s.frozen[j].0 == k[i].pkg;
        lemma_key_at(s.frozen, j);
    }
    assert forall|a: int, b: int| 0 <= a < w.len() && 0 <= b < w.len() && a != b implies w[a]
        != w[b] by {
        if a < b {
            assert(k[a].pkg != k[b].pkg);
        } else {
            assert(k[b].pkg != k[a].pkg);
        }
    }
}

proof fn lemma_reclaim_names(c: Seq<(Seq<char>, u32)>, frozen: Seq<Seq<char>>)
    ensures
        reclaim_names(c, frozen).no_duplicates(),
        forall|p: Seq<char>| #[trigger]
            reclaim_names(c, frozen).contains(p) ==> has_key(c, p) || frozen.contains(p),
    decreases c.len() + frozen.len(),
{
    let w = reclaim_names(c, frozen);
    if frozen.len() > 0 {
        let d = frozen.drop_last();
        lemma_reclaim_names(c, d);
        lemma_with_name(reclaim_names(c, d), frozen.last(), frozen.last());
        assert forall|p: Seq<char>| #[trigger] w.contains(p) implies has_key(c, p)
            || frozen.contains(p) by {
            lemma_with_name(reclaim_names(c, d), frozen.last(), p);
            assert(frozen[frozen.len() - 1] == frozen.last());
            if d.contains(p) {
                let i = choose|i: int| 0 <= i < d.len() && d[i] == p;
                assert(frozen[i] == p);
            }
        }
    } else if c.len() > 0 {
        let d = c.drop_last();
        lemma_reclaim_names(d, frozen);
        lemma_with_name(reclaim_names(d, frozen), c.last().0, c.last().0);
        assert forall|p: Seq<char>| #[trigger] w.contains(p) implies has_key(c, p)
            || frozen.contains(p) by {
            lemma_with_name(reclaim_names(d, frozen), c.last().0, p);
            if p == c.last().0 {
                lemma_key_at(c, c.len() - 1);
            } else {
                lemma_key_index(d, p);
                lemma_key_at(c, key_index(d, p));
            }
        }
    }
}

proof fn lemma_reclaim_own(s: EngineView)
    ensures
        own_names(s, reclaim_names(s.boot_reclaim_candidates, keys_of(s.frozen))),
{
    let f = keys_of(s.frozen);
    lemma_reclaim_names(s.boot_reclaim_candidates, f);
    let w = reclaim_names(s.boot_reclaim_candidates, f);
    assert forall|i: int| 0 <= i < w.len() implies ours(s, #[trigger] w[i]) by {
        assert(w.contains(w[i]));
        if f.contains(w[i]) {
            let j = choose|j: int| 0 <= j < f.len() && f[j] == w[i];
            lemma_key_at(s.frozen, j);
        }
    }
}

proof fn lemma_sorted_own(s: EngineView, q: Seq<Seq<char>>)
    requires
        own_names(s, q),
    ensures
        own_names(s, sorted_texts(q)),
{
    broadcast use vstd::seq_lib::group_to_multiset_ensures;

    law_sorted_texts(q);
    let w = sorted_texts(q);
    q.lemma_multiset_has_no_duplicates();
    w.lemma_multiset_has_no_duplicates_conv();
    assert forall|i: int| 0 <= i < w.len() implies ours(s, #[trigger] w[i]) by {
        assert(w.to_multiset().count(w[i]) > 0);
        assert(q.contains(w[i]));
    }
}

/// The first name, and the rest.
proof fn lemma_first(q: Seq<Seq<char>>)
    requires
        q.len() > 0,
    ensures
        q == seq![q[0]] + q.skip(1),
{
    assert(q =~= seq![q[0]] + q.skip(1));
}

/// Without a package the others are still the engine's own.
proof fn lemma_others_stay(s: EngineView, u: EngineView, p: Seq<char>, q: Seq<Seq<char>>)
    requires
        own_names(s, seq![p] + q),
        u.boot_reclaim_candidates == s.boot_reclaim_candidates,
        u.frozen == s.frozen || u.frozen == without_key(s.frozen, p),
    ensures
        own_names(u, q),
        ours(s, p),
{
    let w = seq![p] + q;
    assert(w[0] == p);
    assert forall|a: int, b: int| 0 <= a < q.len() && 0 <= b < q.len() && a != b implies q[a]
        != q[b] by {
        assert(w[a + 1] != w[b + 1]);
    }
    assert forall|i: int| 0 <= i < q.len() implies ours(u, #[trigger] q[i]) by {
        assert(w[i + 1] == q[i]);
        assert(w[0] != w[i + 1]);
        lemma_without_key(s.frozen, p, q[i]);
    }
}

/// A package that is passed over, or chosen.
proof fn lemma_passed_over(s: EngineView, a: Seq<Seq<char>>, p: Seq<char>, b: Seq<Seq<char>>)
    requires
        own_names(s, a + (seq![p] + b)),
    ensures
        own_names(s, a + b),
        own_names(s, a.push(p) + b),
        ours(s, p),
{
    let w = a + (seq![p] + b);
    let x = a + b;
    let n = a.len() as int;
    assert(a.push(p) + b =~= w);
    assert(w[n] == p);
    assert forall|i: int| 0 <= i < x.len() implies ours(s, #[trigger] x[i]) by {
        assert(x[i] == if i < n {
            w[i]
        } else {
            w[i + 1]
        });
    }
    assert forall|i: int, j: int| 0 <= i < x.len() && 0 <= j < x.len() && i != j implies x[i]
        != x[j] by {
        let k = if i < n {
            i
        } else {
            i + 1
        };
        let l = if j < n {
            j
        } else {
            j + 1
        };
        assert(x[i] == w[k] && x[j] == w[l]);
    }
}

#[verifier::rlimit(20)]
#[verifier::spinoff_prover]
proof fn lemma_discarding_own(s: EngineView, e: EnvView, t: TaskView, r: ReplyView)
    requires
        unique_keys(s.frozen),
        own_task(s, t),
        in_discarding(t.kind),
    ensures
        discards_own(step(s, e, t, r).0, step(s, e, t, r).1),
{
    let (u, st) = step(s, e, t, r);
    let q = t.queue;
    match t.kind {
        TaskKind::TimeoutBegin => {
            lemma_expired_own(stamped(s, e), e.now);
            assert(discards_own(u, st));
        },
        TaskKind::RuleBegin => {
            lemma_ruled_own(stamped(s, e), e);
            assert(discards_own(u, st));
        },
        TaskKind::DiscardNext => {
            if q.len() > 0 {
                lemma_first(q);
                lemma_others_stay(s, u, q[0], q.skip(1));
                assert(own_names(u, q.skip(1)));
            }
            assert(discards_own(u, st));
        },
        TaskKind::DiscardSurvey => {
            lemma_others_stay(s, u, t.pkg, q);
            assert(discards_own(u, st));
        },
        TaskKind::DiscardKill => {
            lemma_others_stay(s, u, t.pkg, q);
            assert(discards_own(u, st));
        },
        TaskKind::MemResident => {
            lemma_ranked_own(stamped(s, e), r.numbers());
            assert(discards_own(u, st));
        },
        TaskKind::MemAgain => {
            if q.len() > 0 {
                lemma_first(q);
                lemma_others_stay(s, u, q[0], q.skip(1));
            }
            assert(discards_own(u, st));
        },
        TaskKind::ReclaimBegin => {
            lemma_reclaim_own(s);
            let w = reclaim_names(s.boot_reclaim_candidates, keys_of(s.frozen));
            assert(Seq::<Seq<char>>::empty() + w =~= w);
            assert(discards_own(u, st));
        },
        TaskKind::ReclaimNext => {
            if q.len() == 0 {
                assert(t.found + q =~= t.found);
                lemma_sorted_own(s, t.found);
            } else {
                lemma_first(q);
                lemma_passed_over(s, t.found, q[0], q.skip(1));
            }
            assert(discards_own(u, st));
        },
        TaskKind::ReclaimLevels => {
            lemma_passed_over(s, t.found, t.pkg, q);
            assert(discards_own(u, st));
        },
        _ => {},
    }
}

#[verifier::rlimit(20)]
#[verifier::spinoff_prover]
proof fn lemma_arrival_own(s: EngineView, e: EnvView, t: TaskView, r: ReplyView)
    requires
        in_arrival(t.kind),
    ensures
        discards_own(step(s, e, t, r).0, step(s, e, t, r).1),
{
    let (u, st) = step(s, e, t, r);
    match t.kind {
        TaskKind::FocusThaw => {
            assert(discards_own(u, st));
        },
        TaskKind::FocusProbe => {
            assert(discards_own(u, st));
        },
        TaskKind::FocusResidual => {
            assert(discards_own(u, st));
        },
        TaskKind::LeaveSurvey => {
            assert(discards_own(u, st));
        },
        TaskKind::LeaveFreeze => {
            assert(discards_own(u, st));
        },
        TaskKind::WakeThaw => {
            assert(discards_own(u, st));
        },
        TaskKind::ReloadNext => {
            assert(discards_own(u, st));
        },
        TaskKind::ReloadThaw => {
            assert(discards_own(u, st));
        },
        _ => {},
    }
}

#[verifier::rlimit(20)]
#[verifier::spinoff_prover]
proof fn lemma_freezing_own(s: EngineView, e: EnvView, t: TaskView, r: ReplyView)
    requires
        in_freezing(t.kind),
    ensures
        discards_own(step(s, e, t, r).0, step(s, e, t, r).1),
{
    let (u, st) = step(s, e, t, r);
    match t.kind {
        TaskKind::TickBody => {
            assert(discards_own(u, st));
        },
        TaskKind::DisabledNext => {
            assert(discards_own(u, st));
        },
        TaskKind::DisabledThaw => {
            assert(discards_own(u, st));
        },
        TaskKind::DisabledClear => {
            assert(discards_own(u, st));
        },
        TaskKind::GraceNext => {
            assert(discards_own(u, st));
        },
        TaskKind::GraceSurvey => {
            assert(discards_own(u, st));
        },
        TaskKind::GraceFreeze => {
            assert(discards_own(u, st));
        },
        TaskKind::DeadNext => {
            assert(discards_own(u, st));
        },
        TaskKind::DeadSurvey => {
            assert(discards_own(u, st));
        },
        TaskKind::DeadDrop => {
            assert(discards_own(u, st));
        },
        _ => {},
    }
}

#[verifier::rlimit(20)]
#[verifier::spinoff_prover]
proof fn lemma_closing_own(s: EngineView, e: EnvView, t: TaskView, r: ReplyView)
    requires
        in_closing(t.kind),
    ensures
        discards_own(step(s, e, t, r).0, step(s, e, t, r).1),
{
    let (u, st) = step(s, e, t, r);
    match t.kind {
        TaskKind::RelockBegin => {
            assert(discards_own(u, st));
        },
        TaskKind::RestoreBegin => {
            assert(discards_own(u, st));
        },
        TaskKind::Restored => {
            assert(discards_own(u, st));
        },
        TaskKind::CountTick => {
            assert(discards_own(u, st));
        },
        TaskKind::NetNext => {
            assert(discards_own(u, st));
        },
        TaskKind::NetSurvey => {
            assert(discards_own(u, st));
        },
        TaskKind::NetThawNext => {
            assert(discards_own(u, st));
        },
        TaskKind::NetThaw => {
            assert(discards_own(u, st));
        },
        TaskKind::PersistBegin => {
            assert(discards_own(u, st));
        },
        TaskKind::EventsBegin => {
            assert(discards_own(u, st));
        },
        TaskKind::EventsSaved => {
            assert(discards_own(u, st));
        },
        _ => {},
    }
}

/// Only packages that the engine holds frozen, or held frozen in the last session, are ever
/// discarded, and each at most once in a run.
pub proof fn law_discards_are_our_own(s: EngineView, e: EnvView, t: TaskView, r: ReplyView)
    requires
        sound(s),
        own_task(s, t),
    ensures
        discards_own(step(s, e, t, r).0, step(s, e, t, r).1),
{
    if in_discarding(t.kind) {
        lemma_discarding_own(s, e, t, r);
    } else if in_arrival(t.kind) {
        lemma_arrival_own(s, e, t, r);
    } else if in_freezing(t.kind) {
        lemma_freezing_own(s, e, t, r);
    } else {
        lemma_closing_own(s, e, t, r);
    }
}

/// What the engine is told leads to the discarding of its own packages only.
#[verifier::spinoff_prover]
pub proof fn law_events_discard_our_own(
    s: EngineView,
    e: EnvView,
    pkg: Seq<char>,
    source: Seq<char>,
    action: Seq<char>,
    i: ReloadView,
)
    ensures
        discards_own(focus_begin(s, e, pkg).0, focus_begin(s, e, pkg).1),
        discards_own(
            wakeup_begin(s, e, pkg, source, action).0,
            wakeup_begin(s, e, pkg, source, action).1,
        ),
        discards_own(tick_begin(s, e).0, tick_begin(s, e).1),
        discards_own(force_stopped(s, e, pkg).0, force_stopped(s, e, pkg).1),
        discards_own(reload_begin(s, e, i).0, reload_begin(s, e, i).1),
{
}

} // verus!
