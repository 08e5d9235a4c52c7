//! What holds of the engine whatever happens.

use vstd::prelude::*;
use crate::engine::{
    cooling, exempt_reported, focus_begin, focus_noted, focus_rest, freeze_refused, is_gated,
    is_throttled, leave_begin, leave_recorded, leave_rest, leave_spared, leave_surveyed,
    process_started, residual_noted, stamped, traffic_check, ungraced, wakeup_begin,
};
use crate::engine_admin::{preset_applied, preset_cleared, reconciled};
use crate::engine_ops::{
    DiscardReason, EnvView, OpView, ReplyView, StepView, SurveyView, TaskKind, TaskView,
};
use crate::engine_rules::{
    is_busy, keeps_wakeup, mode, never_discarded, never_frozen, pm_system, system_names, uid_of,
};
use crate::engine_state::{initial_engine, Counters, EngineView, ExemptFlags};
use crate::engine_tick::{
    discard_counted, grace_freeze, grace_spared, remembered, step, tick_begin, MAX_DISCARDED,
};
use crate::freezer::Reconcile;
use crate::names::{
    has_key, later_entries, lemma_later_unique, lemma_with_key, lemma_with_name, lemma_without_key,
    lemma_without_key_unique, lemma_without_name, unique_keys, with_key, with_name, without_key,
    without_name,
};
use crate::policy::AppMode;
use crate::policy_file::loaded_policy;
use crate::policy_laws::law_absent_app_settings;
use crate::preset::{law_presets_of_a_file, loaded_presets, Preset};

verus! {

// ---- What every step keeps ----

/// The app in the foreground is not in the table of frozen apps.
pub open spec fn foreground_free(s: EngineView) -> bool {
    match s.last_focus {
        Some(f) => !has_key(s.frozen, f),
        None => true,
    }
}

/// No table of the engine names a package, a source or a preset twice.
pub open spec fn tables_ok(s: EngineView) -> bool {
    &&& unique_keys(s.frozen)
    &&& unique_keys(s.grace)
    &&& unique_keys(s.cooldown)
    &&& unique_keys(s.wake_throttle)
    &&& unique_keys(s.exempt)
    &&& unique_keys(s.pkg_uids)
    &&& unique_keys(s.profile)
    &&& unique_keys(s.wakeup_sources)
    &&& unique_keys(s.policy.apps)
    &&& unique_keys(s.presets.presets)
    &&& s.adj_keep.no_duplicates()
    &&& s.system_apps.no_duplicates()
}

/// The discards by reason add up to all discards.
pub open spec fn discards_add_up(c: Counters) -> bool {
    c.discard_ops as int == (c.discard_frozen_timeout + c.discard_rule + c.discard_mem_watermark
        + c.discard_boot_reclaim) % 0x1_0000_0000_0000_0000
}

/// The list of discarded packages names each once and stays within its limit.
pub open spec fn discarded_ok(v: Seq<Seq<char>>) -> bool {
    v.no_duplicates() && v.len() <= MAX_DISCARDED
}

/// A sound state.
pub open spec fn sound(s: EngineView) -> bool {
    &&& foreground_free(s)
    &&& tables_ok(s)
    &&& discards_add_up(s.counters)
    &&& discarded_ok(s.discarded)
}

/// The tasks on the way to a freeze or a discard.
pub open spec fn acts(k: TaskKind) -> bool {
    match k {
        TaskKind::LeaveSurvey => true,
        TaskKind::GraceNext => true,
        TaskKind::GraceSurvey => true,
        TaskKind::GraceFreeze => true,
        TaskKind::DeadBegin => true,
        TaskKind::DeadNext => true,
        TaskKind::DeadSurvey => true,
        TaskKind::DeadDrop => true,
        _ => in_discarding(k),
    }
}

/// A package that may be frozen as things are: it is not in the foreground, does not cool
/// down, and does nothing that exempts it.
pub open spec fn idle(s: EngineView, p: Seq<char>) -> bool {
    s.last_focus != Some(p) && !has_key(s.cooldown, p) && !is_busy(s, p)
}

/// A task that fits the state: one that leads to a freeze or a discard needs a policy that is
/// on; one that leads to a freeze is about a package that may be frozen; and an app that is
/// coming to the foreground is not frozen.
pub open spec fn fits(s: EngineView, t: TaskView) -> bool {
    &&& acts(t.kind) ==> s.policy.enabled
    &&& match t.kind {
        TaskKind::GraceSurvey => idle(s, t.pkg),
        TaskKind::GraceFreeze => idle(s, t.pkg),
        TaskKind::LeaveSurvey => s.last_focus != Some(t.pkg) && !is_busy(s, t.pkg),
        TaskKind::LeaveFreeze => idle(s, t.pkg),
        TaskKind::RuleFreeze => idle(s, t.pkg),
        TaskKind::FocusThaw => !has_key(s.frozen, t.pkg),
        TaskKind::FocusProbe => !has_key(s.frozen, t.pkg),
        TaskKind::FocusResidual => !has_key(s.frozen, t.pkg),
        _ => true,
    }
}

/// An operation that may be performed: a freeze only of an idle package that the
/// policy does not protect; a kill only of the package at hand, and only where it is not protected from
/// being discarded; and neither with a policy that is off.
pub open spec fn allowed(s: EngineView, e: EnvView, op: OpView, t: TaskView) -> bool {
    match op {
        OpView::Freeze(p, _) => s.policy.enabled && !never_frozen(s, e, p) && idle(s, p),
        OpView::Discard(u) => s.policy.enabled && uid_of(e, t.pkg) == Some(u)
            && !never_discarded(s, e, t.pkg),
        _ => true,
    }
}

/// A continuation that fits the state and asks for nothing that may not be done.
pub open spec fn safe(s: EngineView, e: EnvView, st: StepView) -> bool {
    match st {
        StepView::Done => true,
        StepView::Next(t) => fits(s, t),
        StepView::Ask(op, t) => fits(s, t) && allowed(s, e, op, t),
    }
}

pub broadcast proof fn unique_with<V>(m: Seq<(Seq<char>, V)>, k: Seq<char>, v: V)
    ensures
        unique_keys(m) ==> #[trigger] unique_keys(with_key(m, k, v)),
{
    lemma_with_key(m, k, v, k);
}

pub broadcast proof fn unique_without<V>(m: Seq<(Seq<char>, V)>, k: Seq<char>)
    ensures
        unique_keys(m) ==> #[trigger] unique_keys(without_key(m, k)),
{
    if unique_keys(m) {
        lemma_without_key_unique(m, k);
    }
}

pub broadcast proof fn has_with<V>(m: Seq<(Seq<char>, V)>, k: Seq<char>, v: V, k2: Seq<char>)
    ensures
        #[trigger] has_key(with_key(m, k, v), k2) == (k2 == k || has_key(m, k2)),
{
    lemma_with_key(m, k, v, k2);
}

pub broadcast proof fn has_without<V>(m: Seq<(Seq<char>, V)>, k: Seq<char>, k2: Seq<char>)
    ensures
        #[trigger] has_key(without_key(m, k), k2) == (k2 != k && has_key(m, k2)),
{
    lemma_without_key(m, k, k2);
}

pub broadcast proof fn distinct_with(s: Seq<Seq<char>>, k: Seq<char>)
    ensures
        s.no_duplicates() ==> (#[trigger] with_name(s, k)).no_duplicates(),
{
    lemma_with_name(s, k, k);
}

pub broadcast proof fn distinct_without(s: Seq<Seq<char>>, k: Seq<char>)
    ensures
        s.no_duplicates() ==> (#[trigger] without_name(s, k)).no_duplicates(),
{
    lemma_without_name(s, k, k);
}

pub broadcast proof fn unique_later(m: Seq<(Seq<char>, u128)>, now: u64)
    ensures
        unique_keys(m) ==> #[trigger] unique_keys(later_entries(m, now)),
{
    if unique_keys(m) {
        lemma_later_unique(m, now);
    }
}

pub broadcast group group_tables {
    unique_with,
    unique_without,
    has_with,
    has_without,
    distinct_with,
    distinct_without,
    unique_later,
}

proof fn lemma_remembered(v: Seq<Seq<char>>, pkg: Seq<char>)
    requires
        discarded_ok(v),
    ensures
        discarded_ok(remembered(v, pkg)),
        remembered(v, pkg).len() > 0,
        remembered(v, pkg).last() == pkg,
{
    lemma_without_name(v, pkg, pkg);
    let w = without_name(v, pkg);
    let p = w.push(pkg);
    assert(p.no_duplicates()) by {
        assert forall|i: int, j: int| 0 <= i < p.len() && 0 <= j < p.len() && i != j implies p[i]
            != p[j] by {
            if i == w.len() {
                assert(w.contains(w[j]));
            }
            if j == w.len() {
                assert(w.contains(w[i]));
            }
        }
    }
}

proof fn lemma_discards_add_up(c: Counters, why: DiscardReason)
    requires
        discards_add_up(c),
    ensures
        discards_add_up(discard_counted(c, why)),
{
}

proof fn lemma_empty_tables()
    ensures
        unique_keys(Seq::<(Seq<char>, u64)>::empty()),
        unique_keys(Seq::<(Seq<char>, (u64, u64))>::empty()),
        unique_keys(Seq::<(Seq<char>, u128)>::empty()),
        Seq::<Seq<char>>::empty().no_duplicates(),
        forall|k: Seq<char>| !has_key(Seq::<(Seq<char>, u64)>::empty(), k),
{
}

/// The tasks of apps that come and go, of wakeups, and of a reload.
pub open spec fn in_arrival(k: TaskKind) -> bool {
    match k {
        TaskKind::Finish => true,
        TaskKind::FocusThaw => true,
        TaskKind::FocusProbe => true,
        TaskKind::FocusResidual => true,
        TaskKind::LeaveSurvey => true,
        TaskKind::LeaveFreeze => true,
        TaskKind::RuleFreeze => true,
        TaskKind::WakeThaw => true,
        TaskKind::ReloadNext => true,
        TaskKind::ReloadThaw => true,
        _ => false,
    }
}

#[verifier::rlimit(30)]
#[verifier::spinoff_prover]
proof fn lemma_leave_rest(s: EngineView, e: EnvView, pkg: Seq<char>, alive: Option<bool>)
    requires
        sound(s),
        s.policy.enabled,
        s.last_focus != Some(pkg),
        !is_busy(s, pkg),
    ensures
        sound(leave_rest(s, e, pkg, alive).0),
        safe(leave_rest(s, e, pkg, alive).0, e, leave_rest(s, e, pkg, alive).1),
        leave_rest(s, e, pkg, alive).0.boot_reclaim_done == s.boot_reclaim_done,
{
    broadcast use group_tables;

    let (u, st) = leave_rest(s, e, pkg, alive);
    match freeze_refused(s, e, pkg, alive) {
        Some(t) => {
            assert(sound(t));
        },
        None => {
            assert(!never_frozen(s, e, pkg));
        },
    }
    assert(sound(u));
    assert(safe(u, e, st));
}

#[verifier::rlimit(30)]
#[verifier::spinoff_prover]
proof fn lemma_leave_begin(s: EngineView, e: EnvView, pkg: Seq<char>)
    requires
        sound(s),
        s.last_focus != Some(pkg),
    ensures
        sound(leave_begin(s, e, pkg).0),
        safe(leave_begin(s, e, pkg).0, e, leave_begin(s, e, pkg).1),
        leave_begin(s, e, pkg).0.boot_reclaim_done == s.boot_reclaim_done,
{
    match leave_spared(s, e, pkg) {
        Some(_) => {},
        None => {
            lemma_leave_rest(s, e, pkg, None);
        },
    }
}

#[verifier::rlimit(30)]
#[verifier::spinoff_prover]
proof fn lemma_focus_rest(s: EngineView, e: EnvView, pkg: Seq<char>)
    requires
        tables_ok(s),
        discards_add_up(s.counters),
        discarded_ok(s.discarded),
        !has_key(s.frozen, pkg),
    ensures
        sound(focus_rest(s, e, pkg).0),
        safe(focus_rest(s, e, pkg).0, e, focus_rest(s, e, pkg).1),
        focus_rest(s, e, pkg).0.boot_reclaim_done == s.boot_reclaim_done,
{
    broadcast use group_tables;

    let t = EngineView { last_focus: Some(pkg), ..ungraced(s, pkg) };
    assert(sound(t));
    if let Some(prev) = s.last_focus {
        if prev != pkg {
            let v = leave_recorded(t, e, prev);
            assert(sound(v));
            lemma_leave_begin(v, e, prev);
        }
    }
}

#[verifier::rlimit(30)]
#[verifier::spinoff_prover]
proof fn lemma_focus(s: EngineView, e: EnvView, t: TaskView, r: ReplyView)
    requires
        sound(s),
        fits(s, t),
        t.kind == TaskKind::FocusThaw || t.kind == TaskKind::FocusProbe || t.kind
            == TaskKind::FocusResidual,
    ensures
        sound(step(s, e, t, r).0),
        safe(step(s, e, t, r).0, e, step(s, e, t, r).1),
        s.boot_reclaim_done ==> step(s, e, t, r).0.boot_reclaim_done,
{
    broadcast use group_tables;

    let s = stamped(s, e);
    let pkg = t.pkg;
    match t.kind {
        TaskKind::FocusThaw => {
            let v = cooling(focus_noted(s, e, pkg, r.flag()), e, pkg);
            lemma_focus_rest(v, e, pkg);
        },
        TaskKind::FocusProbe => {
            lemma_focus_rest(s, e, pkg);
        },
        _ => {
            lemma_focus_rest(residual_noted(s, e, pkg, r.flag()), e, pkg);
        },
    }
}

#[verifier::rlimit(30)]
#[verifier::spinoff_prover]
proof fn lemma_leave_surveyed(s: EngineView, e: EnvView, pkg: Seq<char>, found: SurveyView)
    requires
        sound(s),
        s.policy.enabled,
        s.last_focus != Some(pkg),
        !is_busy(s, pkg),
    ensures
        sound(leave_surveyed(s, e, pkg, found).0),
        safe(leave_surveyed(s, e, pkg, found).0, e, leave_surveyed(s, e, pkg, found).1),
        leave_surveyed(s, e, pkg, found).0.boot_reclaim_done == s.boot_reclaim_done,
{
    match uid_of(e, pkg) {
        Some(u) => {
            let t = traffic_check(s, e, pkg, u, found).0;
            assert(sound(t));
            assert(is_busy(t, pkg) == is_busy(s, pkg));
            lemma_leave_rest(t, e, pkg, Some(found.has_procs));
        },
        None => {
            lemma_leave_rest(s, e, pkg, None);
        },
    }
}

#[verifier::rlimit(20)]
#[verifier::spinoff_prover]
proof fn lemma_arrival(s: EngineView, e: EnvView, t: TaskView, r: ReplyView)
    requires
        sound(s),
        fits(s, t),
        in_arrival(t.kind),
    ensures
        sound(step(s, e, t, r).0),
        safe(step(s, e, t, r).0, e, step(s, e, t, r).1),
        s.boot_reclaim_done ==> step(s, e, t, r).0.boot_reclaim_done,
{
    broadcast use group_tables;

    match t.kind {
        TaskKind::Finish => {
            assert(sound(step(s, e, t, r).0));
            assert(safe(step(s, e, t, r).0, e, step(s, e, t, r).1));
        },
        TaskKind::FocusThaw => {
            lemma_focus(s, e, t, r);
        },
        TaskKind::FocusProbe => {
            lemma_focus(s, e, t, r);
        },
        TaskKind::FocusResidual => {
            lemma_focus(s, e, t, r);
        },
        TaskKind::LeaveSurvey => {
            lemma_leave_surveyed(stamped(s, e), e, t.pkg, r.survey());
            assert(sound(step(s, e, t, r).0));
            assert(safe(step(s, e, t, r).0, e, step(s, e, t, r).1));
        },
        TaskKind::LeaveFreeze => {
            assert(sound(step(s, e, t, r).0));
            assert(safe(step(s, e, t, r).0, e, step(s, e, t, r).1));
        },
        TaskKind::RuleFreeze => {
            assert(sound(step(s, e, t, r).0));
            assert(safe(step(s, e, t, r).0, e, step(s, e, t, r).1));
        },
        TaskKind::WakeThaw => {
            assert(sound(step(s, e, t, r).0));
            assert(safe(step(s, e, t, r).0, e, step(s, e, t, r).1));
        },
        TaskKind::ReloadNext => {
            assert(sound(step(s, e, t, r).0));
            assert(safe(step(s, e, t, r).0, e, step(s, e, t, r).1));
        },
        TaskKind::ReloadThaw => {
            assert(sound(step(s, e, t, r).0));
            assert(safe(step(s, e, t, r).0, e, step(s, e, t, r).1));
        },
        _ => {},
    }
}

/// The tasks of a tick up to the discarding.
pub open spec fn in_freezing(k: TaskKind) -> bool {
    match k {
        TaskKind::TickBody => true,
        TaskKind::DisabledNext => true,
        TaskKind::DisabledThaw => true,
        TaskKind::DisabledClear => true,
        TaskKind::GraceNext => true,
        TaskKind::GraceSurvey => true,
        TaskKind::GraceFreeze => true,
        TaskKind::DeadBegin => true,
        TaskKind::DeadNext => true,
        TaskKind::DeadSurvey => true,
        TaskKind::DeadDrop => true,
        _ => false,
    }
}

#[verifier::rlimit(20)]
#[verifier::spinoff_prover]
proof fn lemma_grace_freeze(
    s: EngineView,
    e: EnvView,
    pkg: Seq<char>,
    queue: Seq<Seq<char>>,
    alive: Option<bool>,
)
    requires
        sound(s),
        s.policy.enabled,
        idle(s, pkg),
    ensures
        sound(grace_freeze(s, e, pkg, queue, alive).0),
        safe(
            grace_freeze(s, e, pkg, queue, alive).0,
            e,
            grace_freeze(s, e, pkg, queue, alive).1,
        ),
        grace_freeze(s, e, pkg, queue, alive).0.boot_reclaim_done == s.boot_reclaim_done,
{
    broadcast use group_tables;

    match freeze_refused(s, e, pkg, alive) {
        Some(t) => {
            assert(sound(t));
        },
        None => {
            assert(!never_frozen(s, e, pkg));
        },
    }
}

#[verifier::rlimit(20)]
#[verifier::spinoff_prover]
proof fn lemma_grace(s: EngineView, e: EnvView, t: TaskView, r: ReplyView)
    requires
        sound(s),
        fits(s, t),
        t.kind == TaskKind::GraceNext || t.kind == TaskKind::GraceSurvey,
    ensures
        sound(step(s, e, t, r).0),
        safe(step(s, e, t, r).0, e, step(s, e, t, r).1),
        s.boot_reclaim_done ==> step(s, e, t, r).0.boot_reclaim_done,
{
    broadcast use group_tables;

    let v = stamped(s, e);
    if t.kind == TaskKind::GraceNext {
        if t.queue.len() > 0 {
            let pkg = t.queue[0];
            match grace_spared(v, e, pkg) {
                Some(_) => {},
                None => {
                    assert(idle(v, pkg));
                    lemma_grace_freeze(v, e, pkg, t.queue.skip(1), None);
                },
            }
        }
    } else {
        match uid_of(e, t.pkg) {
            Some(u) => {
                let found = r.survey();
                let w = traffic_check(v, e, t.pkg, u, found).0;
                assert(sound(w) && idle(w, t.pkg));
                lemma_grace_freeze(w, e, t.pkg, t.queue, Some(found.has_procs));
            },
            None => {
                lemma_grace_freeze(v, e, t.pkg, t.queue, None);
            },
        }
    }
}

#[verifier::rlimit(20)]
#[verifier::spinoff_prover]
proof fn lemma_freezing(s: EngineView, e: EnvView, t: TaskView, r: ReplyView)
    requires
        sound(s),
        fits(s, t),
        in_freezing(t.kind),
    ensures
        sound(step(s, e, t, r).0),
        safe(step(s, e, t, r).0, e, step(s, e, t, r).1),
        s.boot_reclaim_done ==> step(s, e, t, r).0.boot_reclaim_done,
{
    broadcast use group_tables;

    match t.kind {
        TaskKind::TickBody => {
            assert(sound(step(s, e, t, r).0));
            assert(safe(step(s, e, t, r).0, e, step(s, e, t, r).1));
        },
        TaskKind::DisabledNext => {
            assert(sound(step(s, e, t, r).0));
            assert(safe(step(s, e, t, r).0, e, step(s, e, t, r).1));
        },
        TaskKind::DisabledThaw => {
            assert(sound(step(s, e, t, r).0));
            assert(safe(step(s, e, t, r).0, e, step(s, e, t, r).1));
        },
        TaskKind::DisabledClear => {
            lemma_empty_tables();
            assert(sound(step(s, e, t, r).0));
            assert(safe(step(s, e, t, r).0, e, step(s, e, t, r).1));
        },
        TaskKind::GraceNext => {
            lemma_grace(s, e, t, r);
        },
        TaskKind::GraceSurvey => {
            lemma_grace(s, e, t, r);
        },
        TaskKind::GraceFreeze => {
            assert(sound(step(s, e, t, r).0));
            assert(safe(step(s, e, t, r).0, e, step(s, e, t, r).1));
        },
        TaskKind::DeadBegin => {
            assert(sound(step(s, e, t, r).0));
            assert(safe(step(s, e, t, r).0, e, step(s, e, t, r).1));
        },
        TaskKind::DeadNext => {
            assert(sound(step(s, e, t, r).0));
            assert(safe(step(s, e, t, r).0, e, step(s, e, t, r).1));
        },
        TaskKind::DeadSurvey => {
            assert(sound(step(s, e, t, r).0));
            assert(safe(step(s, e, t, r).0, e, step(s, e, t, r).1));
        },
        TaskKind::DeadDrop => {
            assert(sound(step(s, e, t, r).0));
            assert(safe(step(s, e, t, r).0, e, step(s, e, t, r).1));
        },
        _ => {},
    }
}

/// The tasks of a tick that discard apps.
pub open spec fn in_discarding(k: TaskKind) -> bool {
    match k {
        TaskKind::TimeoutBegin => true,
        TaskKind::RuleBegin => true,
        TaskKind::DiscardNext => true,
        TaskKind::DiscardSurvey => true,
        TaskKind::DiscardKill => true,
        TaskKind::MemBegin => true,
        TaskKind::MemFirst => true,
        TaskKind::MemResident => true,
        TaskKind::MemAgain => true,
        TaskKind::BootBegin => true,
        TaskKind::BootFlag => true,
        TaskKind::ReclaimBegin => true,
        TaskKind::ReclaimNext => true,
        TaskKind::ReclaimLevels => true,
        _ => false,
    }
}

#[verifier::rlimit(20)]
#[verifier::spinoff_prover]
proof fn lemma_discarding(s: EngineView, e: EnvView, t: TaskView, r: ReplyView)
    requires
        sound(s),
        fits(s, t),
        in_discarding(t.kind),
    ensures
        sound(step(s, e, t, r).0),
        safe(step(s, e, t, r).0, e, step(s, e, t, r).1),
        s.boot_reclaim_done ==> step(s, e, t, r).0.boot_reclaim_done,
{
    broadcast use group_tables;

    match t.kind {
        TaskKind::TimeoutBegin => {
            assert(sound(step(s, e, t, r).0));
            assert(safe(step(s, e, t, r).0, e, step(s, e, t, r).1));
        },
        TaskKind::RuleBegin => {
            assert(sound(step(s, e, t, r).0));
            assert(safe(step(s, e, t, r).0, e, step(s, e, t, r).1));
        },
        TaskKind::DiscardNext => {
            assert(sound(step(s, e, t, r).0));
            assert(safe(step(s, e, t, r).0, e, step(s, e, t, r).1));
        },
        TaskKind::DiscardSurvey => {
            assert(sound(step(s, e, t, r).0));
            assert(safe(step(s, e, t, r).0, e, step(s, e, t, r).1));
        },
        TaskKind::DiscardKill => {
            lemma_remembered(s.discarded, t.pkg);
            lemma_discards_add_up(s.counters, t.why);
            assert(sound(step(s, e, t, r).0));
            assert(safe(step(s, e, t, r).0, e, step(s, e, t, r).1));
        },
        TaskKind::MemBegin => {
            assert(sound(step(s, e, t, r).0));
            assert(safe(step(s, e, t, r).0, e, step(s, e, t, r).1));
        },
        TaskKind::MemFirst => {
            assert(sound(step(s, e, t, r).0));
            assert(safe(step(s, e, t, r).0, e, step(s, e, t, r).1));
        },
        TaskKind::MemResident => {
            assert(sound(step(s, e, t, r).0));
            assert(safe(step(s, e, t, r).0, e, step(s, e, t, r).1));
        },
        TaskKind::MemAgain => {
            assert(sound(step(s, e, t, r).0));
            assert(safe(step(s, e, t, r).0, e, step(s, e, t, r).1));
        },
        TaskKind::BootBegin => {
            assert(sound(step(s, e, t, r).0));
            assert(safe(step(s, e, t, r).0, e, step(s, e, t, r).1));
        },
        TaskKind::BootFlag => {
            assert(sound(step(s, e, t, r).0));
            assert(safe(step(s, e, t, r).0, e, step(s, e, t, r).1));
        },
        TaskKind::ReclaimBegin => {
            assert(sound(step(s, e, t, r).0));
            assert(safe(step(s, e, t, r).0, e, step(s, e, t, r).1));
        },
        TaskKind::ReclaimNext => {
            assert(sound(step(s, e, t, r).0));
            assert(safe(step(s, e, t, r).0, e, step(s, e, t, r).1));
        },
        TaskKind::ReclaimLevels => {
            assert(sound(step(s, e, t, r).0));
            assert(safe(step(s, e, t, r).0, e, step(s, e, t, r).1));
        },
        _ => {},
    }
}

/// The tasks with which a tick ends.
pub open spec fn in_closing(k: TaskKind) -> bool {
    match k {
        TaskKind::RelockBegin => true,
        TaskKind::RestoreBegin => true,
        TaskKind::Restored => true,
        TaskKind::CountTick => true,
        TaskKind::NetNext => true,
        TaskKind::NetSurvey => true,
        TaskKind::NetThawNext => true,
        TaskKind::NetThaw => true,
        TaskKind::PersistBegin => true,
        TaskKind::EventsBegin => true,
        TaskKind::EventsSaved => true,
        _ => false,
    }
}

#[verifier::rlimit(20)]
#[verifier::spinoff_prover]
proof fn lemma_closing(s: EngineView, e: EnvView, t: TaskView, r: ReplyView)
    requires
        sound(s),
        fits(s, t),
        in_closing(t.kind),
    ensures
        sound(step(s, e, t, r).0),
        safe(step(s, e, t, r).0, e, step(s, e, t, r).1),
        s.boot_reclaim_done ==> step(s, e, t, r).0.boot_reclaim_done,
{
    broadcast use group_tables;

    match t.kind {
        TaskKind::RelockBegin => {
            assert(sound(step(s, e, t, r).0));
            assert(safe(step(s, e, t, r).0, e, step(s, e, t, r).1));
        },
        TaskKind::RestoreBegin => {
            assert(sound(step(s, e, t, r).0));
            assert(safe(step(s, e, t, r).0, e, step(s, e, t, r).1));
        },
        TaskKind::Restored => {
            assert(sound(step(s, e, t, r).0));
            assert(safe(step(s, e, t, r).0, e, step(s, e, t, r).1));
        },
        TaskKind::CountTick => {
            assert(sound(step(s, e, t, r).0));
            assert(safe(step(s, e, t, r).0, e, step(s, e, t, r).1));
        },
        TaskKind::NetNext => {
            assert(sound(step(s, e, t, r).0));
            assert(safe(step(s, e, t, r).0, e, step(s, e, t, r).1));
        },
        TaskKind::NetSurvey => {
            assert(sound(step(s, e, t, r).0));
            assert(safe(step(s, e, t, r).0, e, step(s, e, t, r).1));
        },
        TaskKind::NetThawNext => {
            assert(sound(step(s, e, t, r).0));
            assert(safe(step(s, e, t, r).0, e, step(s, e, t, r).1));
        },
        TaskKind::NetThaw => {
            assert(sound(step(s, e, t, r).0));
            assert(safe(step(s, e, t, r).0, e, step(s, e, t, r).1));
        },
        TaskKind::PersistBegin => {
            assert(sound(step(s, e, t, r).0));
            assert(safe(step(s, e, t, r).0, e, step(s, e, t, r).1));
        },
        TaskKind::EventsBegin => {
            assert(sound(step(s, e, t, r).0));
            assert(safe(step(s, e, t, r).0, e, step(s, e, t, r).1));
        },
        TaskKind::EventsSaved => {
            assert(sound(step(s, e, t, r).0));
            assert(safe(step(s, e, t, r).0, e, step(s, e, t, r).1));
        },
        _ => {},
    }
}

/// Every step leads from a sound state to a sound state and asks for nothing that may not be
/// done. So with the policy off nothing is frozen or discarded; the app in the foreground is
/// never frozen, nor one that was thawed a moment ago or is in use; no critical package, none
/// of the system, none of the VPN, none on the white list and none that is exempt, by its
/// settings or by a rule, is ever frozen; and no protected package is ever
/// discarded. A step that reclaims after boot is never undone.
pub proof fn law_steps_are_safe(s: EngineView, e: EnvView, t: TaskView, r: ReplyView)
    requires
        sound(s),
        fits(s, t),
    ensures
        sound(step(s, e, t, r).0),
        safe(step(s, e, t, r).0, e, step(s, e, t, r).1),
        s.boot_reclaim_done ==> step(s, e, t, r).0.boot_reclaim_done,
{
    if in_arrival(t.kind) {
        lemma_arrival(s, e, t, r);
    } else if in_freezing(t.kind) {
        lemma_freezing(s, e, t, r);
    } else if in_discarding(t.kind) {
        lemma_discarding(s, e, t, r);
    } else {
        lemma_closing(s, e, t, r);
    }
}

/// The state at start is sound.
pub proof fn law_start_is_sound()
    ensures
        sound(initial_engine()),
{
    lemma_empty_tables();
}

/// An app that comes to the foreground is out of the frozen ones at once, and what follows is
/// safe. Once the event is dealt with, it is the app in the foreground.
pub proof fn law_focus_is_safe(s: EngineView, e: EnvView, pkg: Seq<char>)
    requires
        sound(s),
    ensures
        !has_key(focus_begin(s, e, pkg).0.frozen, pkg),
        sound(focus_begin(s, e, pkg).0),
        safe(focus_begin(s, e, pkg).0, e, focus_begin(s, e, pkg).1),
        focus_begin(s, e, pkg).1 is Done ==> focus_begin(s, e, pkg).0.last_focus == Some(pkg),
{
    broadcast use group_tables;

}

/// A wakeup leads to a sound state, and what follows is safe.
pub proof fn law_wakeup_is_safe(
    s: EngineView,
    e: EnvView,
    pkg: Seq<char>,
    source: Seq<char>,
    action: Seq<char>,
)
    requires
        sound(s),
    ensures
        sound(wakeup_begin(s, e, pkg, source, action).0),
        safe(
            wakeup_begin(s, e, pkg, source, action).0,
            e,
            wakeup_begin(s, e, pkg, source, action).1,
        ),
{
    broadcast use group_tables;

}

/// A tick and the stop of a package begin safely.
pub proof fn law_tick_and_stop_are_safe(s: EngineView, e: EnvView, pkg: Seq<char>)
    requires
        sound(s),
    ensures
        sound(tick_begin(s, e).0),
        safe(tick_begin(s, e).0, e, tick_begin(s, e).1),
        sound(crate::engine::force_stopped(s, e, pkg).0),
        safe(
            crate::engine::force_stopped(s, e, pkg).0,
            e,
            crate::engine::force_stopped(s, e, pkg).1,
        ),
{
    broadcast use group_tables;

}

/// A reload leads to a sound state, and what follows is safe.
pub proof fn law_reload_is_safe(s: EngineView, e: EnvView, i: crate::engine_admin::ReloadView)
    requires
        sound(s),
    ensures
        sound(crate::engine_admin::reload_begin(s, e, i).0),
        safe(
            crate::engine_admin::reload_begin(s, e, i).0,
            e,
            crate::engine_admin::reload_begin(s, e, i).1,
        ),
{
    lemma_loaded_policy(i.policy, i.policy_revision);
    lemma_loaded_presets(i.presets, i.presets_revision);
    if let Some(t) = i.pm {
        lemma_system_names(crate::text::line_texts(t));
    }
    let u = crate::engine_admin::reload_settled(s, e, i);
    lemma_unique_without_keys(
        u.grace,
        crate::engine_admin::protected_names(u, e, crate::names::keys_of(u.grace)),
    );
}

proof fn lemma_unique_without_keys<V>(m: Seq<(Seq<char>, V)>, names: Seq<Seq<char>>)
    requires
        unique_keys(m),
    ensures
        unique_keys(crate::engine_admin::without_keys(m, names)),
    decreases names.len(),
{
    if names.len() > 0 {
        lemma_unique_without_keys(m, names.drop_last());
        lemma_without_key_unique(
            crate::engine_admin::without_keys(m, names.drop_last()),
            names.last(),
        );
    }
}

/// Reports about apps and processes, presets, and what is taken over from the last session
/// keep the state sound. What is taken over may not be in the foreground.
pub proof fn law_reports_keep_the_state_sound(
    s: EngineView,
    e: EnvView,
    pkg: Seq<char>,
    pid: u32,
    uid: Option<u32>,
    flags: ExemptFlags,
    preset: Preset,
    policy: Option<Seq<char>>,
    revision: u64,
)
    requires
        sound(s),
    ensures
        sound(exempt_reported(s, e.epoch, pkg, flags)),
        sound(process_started(s, pid, pkg, uid)),
        sound(preset_applied(s, e.epoch, pkg, preset)),
        sound(preset_cleared(s, e.epoch, policy, revision)),
        forall|what: Reconcile, u: u32, thawed: bool|
            s.last_focus != Some(pkg) ==> sound(#[trigger] reconciled(s, e, pkg, u, what, thawed)),
{
    broadcast use group_tables;

    lemma_loaded_policy(policy, revision);
}

pub proof fn lemma_loaded_policy(text: Option<Seq<char>>, revision: u64)
    ensures
        loaded_policy(text, revision) matches Some(p) ==> unique_keys(p.apps),
{
    if let Some(s) = text {
        if let Ok(es) = crate::toml::parsed(s) {
            law_absent_app_settings(es, revision);
        }
    }
}

pub proof fn lemma_loaded_presets(text: Option<Seq<char>>, revision: u64)
    ensures
        unique_keys(loaded_presets(text, revision).presets),
{
    if let Some(s) = text {
        if let Ok(es) = crate::toml::parsed(s) {
            law_presets_of_a_file(es);
        }
    }
}

pub proof fn lemma_system_names(rows: Seq<Seq<char>>)
    ensures
        system_names(rows).no_duplicates(),
    decreases rows.len(),
{
    if rows.len() > 0 {
        lemma_system_names(rows.drop_last());
        if let Some(p) = pm_system(rows.last()) {
            lemma_with_name(system_names(rows.drop_last()), p, p);
        }
    }
}

/// Reclaiming after boot begins only where it was not done before, and marks itself as done.
pub proof fn law_reclaim_once(s: EngineView, e: EnvView)
    ensures
        crate::engine_tick::reclaim_begin(s, e).1 matches StepView::Next(k) && k.kind
            == TaskKind::ReclaimNext ==> !s.boot_reclaim_done && crate::engine_tick::reclaim_begin(
            s,
            e,
        ).0.boot_reclaim_done,
        s.boot_reclaim_done ==> crate::engine_tick::reclaim_begin(s, e) == (
            s,
            crate::engine_tick::next(TaskKind::RelockBegin),
        ),
{
}

/// A wakeup that is ignored, gated or throttled changes nothing but the log and its counter:
/// the app stays frozen, and its delay goes on.
pub proof fn law_suppressed_wakeup_changes_nothing(
    s: EngineView,
    e: EnvView,
    pkg: Seq<char>,
    source: Seq<char>,
    action: Seq<char>,
)
    requires
        !keeps_wakeup(s, pkg) || is_gated(s, pkg, source, action) || is_throttled(s, e, pkg),
    ensures
        ({
            let (t, st) = wakeup_begin(s, e, pkg, source, action);
            &&& st == StepView::Done
            &&& t.frozen == s.frozen
            &&& t.grace == s.grace
            &&& t.cooldown == s.cooldown
            &&& t.adj_keep == s.adj_keep
            &&& t.wake_throttle == s.wake_throttle
        }),
{
}

/// A broadcast that is gated counts as such, also where it would be throttled.
pub proof fn law_gate_before_throttle(
    s: EngineView,
    e: EnvView,
    pkg: Seq<char>,
    source: Seq<char>,
    action: Seq<char>,
)
    requires
        keeps_wakeup(s, pkg),
        is_gated(s, pkg, source, action),
    ensures
        wakeup_begin(s, e, pkg, source, action).0.counters == s.counters,
{
}

/// No setting and no gate keeps an important app from being woken.
pub proof fn law_important_apps_are_woken(
    s: EngineView,
    pkg: Seq<char>,
    source: Seq<char>,
    action: Seq<char>,
)
    requires
        mode(s, pkg) == AppMode::Important,
    ensures
        keeps_wakeup(s, pkg),
        !is_gated(s, pkg, source, action),
{
}

/// A wakeup that thawed an app throttles the next one: frozen again within the window, the
/// app is not thawed.
pub proof fn law_thaw_starts_throttle(s: EngineView, e: EnvView, later: EnvView, pkg: Seq<char>, since: u64)
    requires
        s.policy.wake_throttle_seconds > 0,
        later.now < e.now + s.policy.wake_throttle_seconds * crate::engine_rules::NANOS,
    ensures
        ({
            let t = crate::engine::wakeup_thawed(s, e, pkg, true).0;
            is_throttled(
                EngineView { frozen: with_key(t.frozen, pkg, since), ..t },
                later,
                pkg,
            )
        }),
{
    lemma_with_key(
        s.wake_throttle,
        pkg,
        crate::engine_rules::time_after(e.now, s.policy.wake_throttle_seconds),
        pkg,
    );
    lemma_with_key(s.frozen, pkg, since, pkg);
}

/// The tasks that a tick goes through while the policy is off.
pub open spec fn is_disabled_task(k: TaskKind) -> bool {
    k == TaskKind::TickBody || k == TaskKind::DisabledNext || k == TaskKind::DisabledThaw || k
        == TaskKind::DisabledClear
}

/// With the policy off a tick only thaws, each app once, and ends with nothing frozen, delayed,
/// cooling down or protected.
pub proof fn law_policy_off_only_thaws(s: EngineView, e: EnvView, t: TaskView, r: ReplyView)
    requires
        !s.policy.enabled,
        is_disabled_task(t.kind),
    ensures
        ({
            let (u, st) = step(s, e, t, r);
            &&& !u.policy.enabled
            &&& match st {
                StepView::Done => false,
                StepView::Next(k) => is_disabled_task(k.kind) || (k.kind == TaskKind::PersistBegin
                    && u.frozen.len() == 0 && u.grace.len() == 0 && u.cooldown.len() == 0
                    && u.adj_keep.len() == 0),
                StepView::Ask(op, k) => op is Thaw && is_disabled_task(k.kind) && k.queue.len()
                    < t.queue.len(),
            }
        }),
{
}

} // verus!
