//! How apps come to the foreground and go, are frozen and thawed, and what a tick, a report
//! and a reload do to the tables of the engine.

use vstd::prelude::*;
use crate::engine::{
    exempt_reported, focus_begin, focus_rest, force_stopped, freeze_done, leave_surveyed,
    process_started, wakeup_begin,
};
use crate::engine_admin::{preset_applied, protected_names, reconciled, reload_begin, ReloadView};
use crate::engine_laws::group_tables;
use crate::engine_ops::{
    about, over, plain, within_queue, EnvView, OpView, ReplyView, StepView, SurveyView, TaskKind,
    TaskView,
};
use crate::engine_rules::{frozen_snapshot, known_pairs, time_after};
use crate::engine_settings::{active, leaves_unruled, off_limits, scheduled};
use crate::engine_state::{EngineView, ExemptFlags};
use crate::engine_tick::{
    boot_begin, boot_flag, chain_uids, count_tick, critical_uids, dead_drop, dead_next,
    dead_surveyed, disabled_next, discard_next, discard_surveyed, grace_next, grace_surveyed,
    listed_uids, mem_again, mem_begin, mem_first, mem_ranked, net_next, net_surveyed, net_thaw_next,
    persist_begin, reclaim_begin, reclaim_levels, reclaim_next, relock_begin, restore_begin,
    rule_begin, step, tick_begin, tick_body, timeout_begin,
};
use crate::events::{EvAction, EvLevel, LogView};
use crate::freezer::{state_text, Reconcile};
use crate::names::{
    has_key, key_index, keys_of, later_entries, lemma_key_index, lemma_key_index_at, lemma_with_key,
    lemma_with_name, lemma_without_key, lemma_without_name, unique_keys, value_of,
};
use crate::order::{law_sorted_texts, sorted_texts};
use crate::policy::CRITICAL_PACKAGES;
use crate::policy_file::loaded_policy;
use crate::preset::Preset;

verus! {

// ---- Freezing ----

/// An app that could be frozen is frozen from now on, and one more freeze is counted; where it
/// could not, neither. Nothing else of the state but the records of the app changes.
pub proof fn law_freeze_is_recorded(
    s: EngineView,
    e: EnvView,
    pkg: Seq<char>,
    reason: Seq<char>,
    p: Seq<char>,
)
    ensures
        ({
            let u = freeze_done(s, e, pkg, reason, true);
            let said = u.log.events.last();
            &&& value_of(u.frozen, pkg) == Some(e.now)
            &&& p != pkg ==> value_of(u.frozen, p) == value_of(s.frozen, p)
            &&& u.counters.freeze_ops == s.counters.freeze_ops.wrapping_add(1)
            &&& u.counters.unfreeze_ops == s.counters.unfreeze_ops
            &&& u.counters.wakeup_thaws == s.counters.wakeup_thaws
            &&& u.counters.wake_throttled == s.counters.wake_throttled
            &&& u.counters.discard_ops == s.counters.discard_ops
            &&& u.grace == s.grace && u.cooldown == s.cooldown && u.adj_keep == s.adj_keep
            &&& said.pkg == Some(pkg) && said.reason == Some(reason) && said.action
                == EvAction::Freeze && said.level == EvLevel::Success
        }),
        ({
            let u = freeze_done(s, e, pkg, reason, false);
            let said = u.log.events.last();
            &&& u.frozen == s.frozen && u.counters == s.counters && u.grace == s.grace
            &&& said.pkg == Some(pkg) && said.reason == Some("freeze_failed"@) && said.action
                == EvAction::Freeze && said.level == EvLevel::Error
        }),
{
    lemma_with_key(s.frozen, pkg, e.now, pkg);
    lemma_with_key(s.frozen, pkg, e.now, p);
}

/// An app whose delay is over waits no longer, whether it could be frozen or not, and the next
/// one has its turn; the others wait on.
pub proof fn law_turn_ends_the_delay(s: EngineView, e: EnvView, t: TaskView, r: ReplyView, p: Seq<char>)
    requires
        t.kind == TaskKind::GraceFreeze,
    ensures
        ({
            let (u, st) = step(s, e, t, r);
            &&& st == StepView::Next(over(TaskKind::GraceNext, t.queue))
            &&& !has_key(u.grace, t.pkg)
            &&& p != t.pkg ==> value_of(u.grace, p) == value_of(s.grace, p)
            &&& r == ReplyView::Flag(true) ==> value_of(u.frozen, t.pkg) == Some(e.now)
                && u.counters.freeze_ops == s.counters.freeze_ops.wrapping_add(1)
            &&& r != ReplyView::Flag(true) ==> u.frozen == s.frozen && u.counters == s.counters
        }),
{
    lemma_with_key(s.frozen, t.pkg, e.now, t.pkg);
    lemma_without_key(s.grace, t.pkg, t.pkg);
    lemma_without_key(s.grace, t.pkg, p);
}

// ---- Coming to the foreground ----

/// The first thing that is done for an app that comes to the foreground: one that is frozen
/// leaves the table of frozen apps and is thawed; another one is looked at where its uid is
/// known, and thawed where something of it is found frozen after all.
pub proof fn law_arriving_apps_are_thawed(s: EngineView, e: EnvView, pkg: Seq<char>, r: ReplyView)
    ensures
        ({
            let (u, st) = focus_begin(s, e, pkg);
            &&& has_key(s.frozen, pkg) ==> !has_key(u.frozen, pkg) && st == StepView::Ask(
                OpView::ThawKeepOom(pkg),
                about(TaskKind::FocusThaw, pkg),
            )
            &&& !has_key(s.frozen, pkg) && value_of(e.table, pkg) is Some ==> u.frozen == s.frozen
                && st == StepView::Ask(
                OpView::Survey(value_of(e.table, pkg)->0),
                about(TaskKind::FocusProbe, pkg),
            )
        }),
        ({
            let (v, then) = step(s, e, about(TaskKind::FocusProbe, pkg), r);
            &&& (r matches ReplyView::Survey(found) && found.has_frozen) ==> then == StepView::Ask(
                OpView::ThawKeepOom(pkg),
                about(TaskKind::FocusResidual, pkg),
            ) && v.frozen == s.frozen
            &&& !(r matches ReplyView::Survey(found) && found.has_frozen) ==> v.last_focus == Some(
                pkg,
            ) && !has_key(v.grace, pkg)
        }),
{
    broadcast use group_tables;

    law_foreground_is_taken(crate::engine::stamped(s, e), e, pkg);
}

/// Whatever becomes of the app that was there before, an app that comes to the foreground is
/// there from now on and does not wait to be frozen; it is not counted, thawed or frozen by
/// this alone.
#[verifier::rlimit(30)]
#[verifier::spinoff_prover]
pub proof fn law_foreground_is_taken(s: EngineView, e: EnvView, pkg: Seq<char>)
    ensures
        ({
            let (u, st) = focus_rest(s, e, pkg);
            &&& u.last_focus == Some(pkg)
            &&& !has_key(u.grace, pkg)
            &&& u.frozen == s.frozen && u.cooldown == s.cooldown && u.counters == s.counters
            &&& s.last_focus is None || s.last_focus == Some(pkg) ==> st == StepView::Done
                && u.adj_keep == s.adj_keep
            &&& s.adj_keep.contains(pkg) ==> u.adj_keep.contains(pkg)
        }),
{
    broadcast use group_tables;

    if let Some(prev) = s.last_focus {
        lemma_with_name(s.adj_keep, prev, pkg);
    }
}

/// The app that was in the foreground before leaves it: where nothing spares it, it is looked
/// at where its uid is known, and waits to be frozen where that is not.
#[verifier::rlimit(30)]
#[verifier::spinoff_prover]
pub proof fn law_previous_app_leaves(s: EngineView, e: EnvView, pkg: Seq<char>, prev: Seq<char>)
    requires
        s.last_focus == Some(prev),
        prev != pkg,
        s.policy.enabled,
        !active(s, prev) && !scheduled(s, e, prev) && !off_limits(s, e, prev),
    ensures
        ({
            let (u, st) = focus_rest(s, e, pkg);
            &&& value_of(e.table, prev) matches Some(uid) ==> st == StepView::Ask(
                OpView::Survey(uid),
                about(TaskKind::LeaveSurvey, prev),
            )
            &&& value_of(e.table, prev) is None && !has_key(s.cooldown, prev) && leaves_unruled(
                s,
                e,
                prev,
            ) && !s.policy.force.contains(prev) ==> (value_of(u.grace, prev) matches Some(w) && w.0
                == e.now)
        }),
{
    let g = crate::names::without_key(s.grace, pkg);
    lemma_with_key(g, prev, (e.now, crate::engine_rules::grace_seconds(s, prev)), prev);
}

/// A thaw for the foreground is recorded: where it worked one more is counted, not as one by a
/// wakeup, and the app is kept from the memory killer; and a frozen app cools down from now on
/// for as many seconds as the policy says, whether it worked or not.
#[verifier::rlimit(60)]
#[verifier::spinoff_prover]
pub proof fn law_foreground_thaw_is_recorded(s: EngineView, e: EnvView, t: TaskView, r: ReplyView)
    requires
        t.kind == TaskKind::FocusThaw || t.kind == TaskKind::FocusResidual,
    ensures
        ({
            let u = step(s, e, t, r).0;
            let worked = r == ReplyView::Flag(true);
            &&& worked ==> u.counters.unfreeze_ops == s.counters.unfreeze_ops.wrapping_add(1)
                && u.adj_keep.contains(t.pkg)
            &&& !worked ==> u.counters == s.counters
            &&& u.counters.wakeup_thaws == s.counters.wakeup_thaws
            &&& u.counters.freeze_ops == s.counters.freeze_ops
            &&& worked || t.kind == TaskKind::FocusThaw ==> (value_of(
                u.cooldown,
                t.pkg,
            ) matches Some(until) && until == e.now + s.policy.cooldown_seconds * 1_000_000_000)
            &&& !worked && t.kind == TaskKind::FocusResidual ==> u.cooldown == s.cooldown
            &&& u.last_focus == Some(t.pkg)
            &&& !has_key(u.grace, t.pkg)
            &&& u.frozen == s.frozen
        }),
{
    lemma_with_key(s.cooldown, t.pkg, time_after(e.now, s.policy.cooldown_seconds), t.pkg);
    lemma_with_name(s.adj_keep, t.pkg, t.pkg);
    assert(e.now + s.policy.cooldown_seconds * 1_000_000_000 <= u128::MAX) by (nonlinear_arith)
        requires
            e.now <= u64::MAX,
            s.policy.cooldown_seconds <= u64::MAX,
    ;
    let v = crate::engine::stamped(s, e);
    if t.kind == TaskKind::FocusThaw {
        law_foreground_is_taken(
            crate::engine::cooling(
                crate::engine::focus_noted(v, e, t.pkg, r.flag()),
                e,
                t.pkg,
            ),
            e,
            t.pkg,
        );
    } else {
        law_foreground_is_taken(
            crate::engine::residual_noted(v, e, t.pkg, r.flag()),
            e,
            t.pkg,
        );
    }
}

// ---- Ticks ----

/// A tick ends the cooling down of exactly those apps whose time is over.
pub proof fn law_cooling_ends_in_time(s: EngineView, e: EnvView, p: Seq<char>)
    requires
        unique_keys(s.cooldown),
    ensures
        ({
            let (u, st) = grace_next(s, e, Seq::empty());
            &&& st == StepView::Next(plain(TaskKind::DeadBegin))
            &&& value_of(u.cooldown, p) == (match value_of(s.cooldown, p) {
                Some(until) => if e.now < until {
                    Some(until)
                } else {
                    None
                },
                None => None,
            })
            &&& u.frozen == s.frozen && u.grace == s.grace
        }),
{
    lemma_later_value(s.cooldown, e.now, p);
}

proof fn lemma_later_value(m: Seq<(Seq<char>, u128)>, now: u64, p: Seq<char>)
    requires
        unique_keys(m),
    ensures
        value_of(later_entries(m, now), p) == (match value_of(m, p) {
            Some(until) => if now < until {
                Some(until)
            } else {
                None
            },
            None => None,
        }),
    decreases m.len(),
{
    let w = later_entries(m, now);
    if m.len() > 0 {
        let d = m.drop_last();
        assert forall|i: int, j: int| 0 <= i < j < d.len() implies d[i].0 != d[j].0 by {
            assert(m[i].0 != m[j].0);
        }
        lemma_later_value(d, now, p);
        let k = later_entries(d, now);
        lemma_key_index(d, p);
        lemma_key_index(k, p);
        lemma_key_index(m, p);
        lemma_key_index(w, p);
        let i = key_index(d, p);
        if i < d.len() {
            assert(m[i].0 != m[m.len() - 1].0);
            lemma_key_index_at(m, p, i);
            let j = key_index(k, p);
            if m.last().1 > now {
                if j < k.len() {
                    assert forall|x: int| 0 <= x < j implies w[x].0 != p by {
                        assert(k[x].0 != p);
                    }
                    assert(w[j] == k[j]);
                    lemma_key_index_at(w, p, j);
                } else {
                    assert forall|x: int| 0 <= x < w.len() implies w[x].0 != p by {
                        if x < k.len() {
                            assert(k[x].0 != p);
                        }
                    }
                    lemma_key_index_at(w, p, w.len() as int);
                }
            }
        } else {
            assert(key_index(k, p) == k.len()) by {
                assert(value_of(k, p) is None);
            }
            if m.last().0 == p {
                assert forall|x: int| 0 <= x < d.len() implies m[x].0 != p by {
                    assert(d[x].0 != p);
                }
                lemma_key_index_at(m, p, m.len() - 1);
                if m.last().1 > now {
                    assert forall|x: int| 0 <= x < k.len() implies w[x].0 != p by {
                        assert(k[x].0 != p);
                    }
                    lemma_key_index_at(w, p, k.len() as int);
                }
            } else {
                assert forall|x: int| 0 <= x < m.len() implies m[x].0 != p by {
                    if x < d.len() {
                        assert(d[x].0 != p);
                    }
                }
                lemma_key_index_at(m, p, m.len() as int);
                if m.last().1 > now {
                    assert forall|x: int| 0 <= x < w.len() implies w[x].0 != p by {
                        if x < k.len() {
                            assert(k[x].0 != p);
                        }
                    }
                    lemma_key_index_at(w, p, w.len() as int);
                }
            }
        }
    }
}

proof fn lemma_critical_uid(e: EnvView, n: int, i: int)
    requires
        0 <= i < n <= CRITICAL_PACKAGES@.len(),
        value_of(e.table, CRITICAL_PACKAGES@[i]@) is Some,
    ensures
        critical_uids(e, n).contains(value_of(e.table, CRITICAL_PACKAGES@[i]@)->0),
    decreases n,
{
    let w = critical_uids(e, n);
    let u = value_of(e.table, CRITICAL_PACKAGES@[i]@)->0;
    if i < n - 1 {
        lemma_critical_uid(e, n - 1, i);
        let k = critical_uids(e, n - 1);
        let j = choose|j: int| 0 <= j < k.len() && k[j] == u;
        assert(w[j] == u);
    } else {
        assert(w[w.len() - 1] == u);
    }
}

/// Every fifth tick protects the built-in critical packages and the media process, as far as
/// their uids are known, and protects again whatever is frozen.
pub proof fn law_system_is_protected(s: EngineView, e: EnvView, i: int)
    requires
        0 <= i < CRITICAL_PACKAGES@.len(),
    ensures
        s.tick_count % 5 == 0 ==> (tick_begin(s, e).1 matches StepView::Ask(OpView::LockChain(us), t)
            && t == plain(TaskKind::TickBody) && (value_of(
            e.table,
            CRITICAL_PACKAGES@[i]@,
        ) matches Some(u) ==> us.contains(u)) && (s.media_uid matches Some(m) ==> us.contains(m))),
        s.tick_count % 5 != 0 ==> tick_begin(s, e).1 == StepView::Next(plain(TaskKind::TickBody)),
        tick_begin(s, e).0.frozen == s.frozen,
        s.tick_count % 5 == 0 ==> tick_begin(s, e).0.system_chain_locked,
        s.tick_count % 5 == 0 ==> relock_begin(s, e) == (
            s,
            StepView::Ask(
                OpView::Protect(listed_uids(e, keys_of(s.frozen))),
                plain(TaskKind::RestoreBegin),
            ),
        ),
        s.tick_count % 5 != 0 ==> relock_begin(s, e) == (
            s,
            StepView::Next(plain(TaskKind::RestoreBegin)),
        ),
{
    let n = CRITICAL_PACKAGES@.len() as int;
    let c = critical_uids(e, n);
    let us = chain_uids(s, e);
    if s.tick_count % 5 == 0 {
        if value_of(e.table, CRITICAL_PACKAGES@[i]@) is Some {
            lemma_critical_uid(e, n, i);
            let u = value_of(e.table, CRITICAL_PACKAGES@[i]@)->0;
            let j = choose|j: int| 0 <= j < c.len() && c[j] == u;
            assert(us[j] == u);
        }
        if s.media_uid is Some {
            assert(us[us.len() - 1] == s.media_uid->0);
        }
    }
}

/// The uids that are protected are those that the table has for the packages, and no others.
pub proof fn law_uids_of_packages(e: EnvView, names: Seq<Seq<char>>, u: u32)
    ensures
        listed_uids(e, names).contains(u) <==> exists|i: int|
            0 <= i < names.len() && value_of(e.table, #[trigger] names[i]) == Some(u),
    decreases names.len(),
{
    if names.len() > 0 {
        let d = names.drop_last();
        law_uids_of_packages(e, d, u);
        let w = listed_uids(e, names);
        let k = listed_uids(e, d);
        if k.contains(u) {
            let j = choose|j: int| 0 <= j < k.len() && k[j] == u;
            assert(w[j] == u);
            let i = choose|i: int| 0 <= i < d.len() && value_of(e.table, #[trigger] d[i]) == Some(u);
            assert(names[i] == d[i]);
        }
        if value_of(e.table, names.last()) == Some(u) {
            assert(w[w.len() - 1] == u);
            assert(names[names.len() - 1] == names.last());
        }
        if w.contains(u) && !k.contains(u) {
            let j = choose|j: int| 0 <= j < w.len() && w[j] == u;
            if j < k.len() {
                assert(k[j] == u);
            }
            assert(value_of(e.table, names[names.len() - 1]) == Some(u));
        }
        if exists|i: int| 0 <= i < names.len() && value_of(e.table, #[trigger] names[i]) == Some(u) {
            let i = choose|i: int| 0 <= i < names.len() && value_of(e.table, #[trigger] names[i]) == Some(u);
            if i < d.len() {
                assert(d[i] == names[i]);
            }
        }
    }
}

/// An app in the foreground that is still kept from the memory killer is released from that,
/// and it alone.
pub proof fn law_foreground_is_released(s: EngineView, e: EnvView, t: TaskView, r: ReplyView, p: Seq<char>)
    requires
        t.kind == TaskKind::Restored,
    ensures
        s.last_focus matches Some(f) && s.adj_keep.contains(f) ==> restore_begin(s) == (
            s,
            StepView::Ask(OpView::RestoreOom(s.last_focus->0), about(TaskKind::Restored, s.last_focus->0)),
        ),
        (s.last_focus matches Some(f) ==> !s.adj_keep.contains(f)) ==> restore_begin(s) == (
            s,
            StepView::Next(plain(TaskKind::CountTick)),
        ),
        step(s, e, t, r).1 == StepView::Next(plain(TaskKind::CountTick)),
        step(s, e, t, r).0.adj_keep.contains(p) <==> p != t.pkg && s.adj_keep.contains(p),
{
    lemma_without_name(s.adj_keep, t.pkg, p);
}

/// A tick is counted once, and every tenth looks at the traffic of everything that is frozen.
pub proof fn law_ticks_are_counted(s: EngineView)
    ensures
        ({
            let (u, st) = count_tick(s);
            &&& u.tick_count == s.tick_count.wrapping_add(1)
            &&& u.frozen == s.frozen
            &&& u.tick_count % 10 == 0 && s.frozen.len() > 0 ==> st == StepView::Next(
                over(TaskKind::NetNext, keys_of(s.frozen)),
            )
            &&& u.tick_count % 10 != 0 || s.frozen.len() == 0 ==> st == StepView::Next(
                plain(TaskKind::PersistBegin),
            )
        }),
{
}

/// An app that is woken by its traffic is not frozen any longer and does not wait; it cools down
/// from now on, and where the thaw worked it is counted as one by a wakeup.
pub proof fn law_traffic_thaw_is_recorded(
    s: EngineView,
    e: EnvView,
    t: TaskView,
    r: ReplyView,
    rest: Seq<Seq<char>>,
    pkg: Seq<char>,
)
    requires
        t.kind == TaskKind::NetThaw,
    ensures
        net_thaw_next(s, seq![pkg] + rest) == (
            s,
            StepView::Ask(OpView::ThawKeepOom(pkg), within_queue(TaskKind::NetThaw, pkg, rest)),
        ),
        ({
            let (u, st) = step(s, e, t, r);
            let worked = r == ReplyView::Flag(true);
            &&& st == StepView::Next(over(TaskKind::NetThawNext, t.queue))
            &&& !has_key(u.frozen, t.pkg)
            &&& !has_key(u.grace, t.pkg)
            &&& value_of(u.cooldown, t.pkg) matches Some(until) && until == e.now
                + s.policy.cooldown_seconds * 1_000_000_000
            &&& worked ==> u.counters.unfreeze_ops == s.counters.unfreeze_ops.wrapping_add(1)
                && u.counters.wakeup_thaws == s.counters.wakeup_thaws.wrapping_add(1)
                && u.adj_keep.contains(t.pkg)
            &&& !worked ==> u.counters == s.counters
            &&& u.counters.freeze_ops == s.counters.freeze_ops && u.counters.discard_ops
                == s.counters.discard_ops
        }),
{
    broadcast use group_tables;

    assert((seq![pkg] + rest).skip(1) =~= rest);
    assert((seq![pkg] + rest)[0] == pkg);
    lemma_with_key(s.cooldown, t.pkg, time_after(e.now, s.policy.cooldown_seconds), t.pkg);
    lemma_with_name(s.adj_keep, t.pkg, t.pkg);
    assert(e.now + s.policy.cooldown_seconds * 1_000_000_000 <= u128::MAX) by (nonlinear_arith)
        requires
            e.now <= u64::MAX,
            s.policy.cooldown_seconds <= u64::MAX,
    ;
}

/// With the policy off, everything that is frozen is thawed, one after the other, and each thaw
/// that worked is counted.
pub proof fn law_policy_off_thaws_all(
    s: EngineView,
    e: EnvView,
    t: TaskView,
    r: ReplyView,
    pkg: Seq<char>,
    rest: Seq<Seq<char>>,
    total: u64,
)
    requires
        !s.policy.enabled,
        t.kind == TaskKind::DisabledThaw,
    ensures
        s.frozen.len() > 0 ==> (tick_body(s, e).1 matches StepView::Next(k) && k.kind
            == TaskKind::DisabledNext && k.queue == keys_of(s.frozen)),
        s.frozen.len() == 0 ==> tick_body(s, e).1 == StepView::Next(plain(TaskKind::DisabledClear)),
        disabled_next(s, seq![pkg] + rest, total).1 matches StepView::Ask(op, k) && op
            == OpView::Thaw(pkg) && k.kind == TaskKind::DisabledThaw && k.queue == rest,
        ({
            let (u, st) = step(s, e, t, r);
            &&& st matches StepView::Next(k) && k.kind == TaskKind::DisabledNext && k.queue
                == t.queue
            &&& r == ReplyView::Flag(true) ==> u.counters.unfreeze_ops
                == s.counters.unfreeze_ops.wrapping_add(1)
            &&& r != ReplyView::Flag(true) ==> u.counters == s.counters
            &&& u.counters.wakeup_thaws == s.counters.wakeup_thaws
        }),
{
    assert((seq![pkg] + rest).skip(1) =~= rest);
    assert((seq![pkg] + rest)[0] == pkg);
}

// ---- Reports ----

/// What an app is reported to be doing replaces what was reported of it before, and is of no
/// matter to other apps.
pub proof fn law_last_report_counts(s: EngineView, epoch: u64, pkg: Seq<char>, f: ExemptFlags, p: Seq<char>)
    ensures
        ({
            let u = exempt_reported(s, epoch, pkg, f);
            &&& value_of(u.exempt, pkg) == Some(f)
            &&& p != pkg ==> value_of(u.exempt, p) == value_of(s.exempt, p)
            &&& u.frozen == s.frozen && u.grace == s.grace && u.policy == s.policy
        }),
{
    lemma_with_key(s.exempt, pkg, f, pkg);
    lemma_with_key(s.exempt, pkg, f, p);
}

/// The uid that is reported with a process is known from then on; where none is reported, what
/// is known stays.
pub proof fn law_reported_uid_is_known(s: EngineView, pid: u32, pkg: Seq<char>, uid: Option<u32>, p: Seq<char>)
    ensures
        ({
            let u = process_started(s, pid, pkg, uid);
            &&& uid is Some ==> value_of(u.pkg_uids, pkg) == uid
            &&& uid is None || p != pkg ==> value_of(u.pkg_uids, p) == value_of(s.pkg_uids, p)
            &&& u.frozen == s.frozen && u.grace == s.grace
        }),
{
    if let Some(u) = uid {
        lemma_with_key(s.pkg_uids, pkg, u, pkg);
        lemma_with_key(s.pkg_uids, pkg, u, p);
    }
}

/// A package that is stopped is in no table any longer, and is thawed; the others stay.
pub proof fn law_stopped_package_is_forgotten(s: EngineView, e: EnvView, pkg: Seq<char>, p: Seq<char>)
    ensures
        ({
            let (u, st) = force_stopped(s, e, pkg);
            &&& st == StepView::Ask(OpView::Thaw(pkg), plain(TaskKind::Finish))
            &&& !has_key(u.frozen, pkg) && !has_key(u.grace, pkg) && !has_key(u.cooldown, pkg)
            &&& !u.adj_keep.contains(pkg) && !has_key(u.pkg_uids, pkg)
            &&& u.counters == s.counters
            &&& p != pkg ==> {
                &&& value_of(u.frozen, p) == value_of(s.frozen, p)
                &&& value_of(u.grace, p) == value_of(s.grace, p)
                &&& value_of(u.cooldown, p) == value_of(s.cooldown, p)
                &&& u.adj_keep.contains(p) == s.adj_keep.contains(p)
                &&& value_of(u.pkg_uids, p) == value_of(s.pkg_uids, p)
            }
        }),
{
    broadcast use group_tables;

    lemma_without_key(s.frozen, pkg, p);
    lemma_without_key(s.grace, pkg, p);
    lemma_without_key(s.cooldown, pkg, p);
    lemma_without_key(s.pkg_uids, pkg, p);
    lemma_without_name(s.adj_keep, pkg, p);
    lemma_without_name(s.adj_keep, pkg, pkg);
}

/// An app that was frozen when the engine ended and still is, and has processes, is frozen again
/// from now on; the others are not.
pub proof fn law_last_session_is_taken_over(
    s: EngineView,
    e: EnvView,
    pkg: Seq<char>,
    uid: u32,
    thawed: bool,
)
    ensures
        value_of(reconciled(s, e, pkg, uid, Reconcile::Restore, thawed).frozen, pkg) == Some(e.now),
        reconciled(s, e, pkg, uid, Reconcile::Ignore, thawed).frozen == s.frozen,
        reconciled(s, e, pkg, uid, Reconcile::Thaw, thawed).frozen == s.frozen,
        reconciled(s, e, pkg, uid, Reconcile::Ignore, thawed).log.events == s.log.events,
        thawed ==> reconciled(s, e, pkg, uid, Reconcile::Thaw, thawed).log.events.last().reason
            == Some("startup_zombie"@),
{
    lemma_with_key(s.frozen, pkg, e.now, pkg);
}

// ---- Reloads ----

proof fn lemma_protected_off_limits(s: EngineView, e: EnvView, names: Seq<Seq<char>>, p: Seq<char>)
    ensures
        protected_names(s, e, names).contains(p) <==> names.contains(p) && off_limits(s, e, p),
    decreases names.len(),
{
    if names.len() > 0 {
        let d = names.drop_last();
        lemma_protected_off_limits(s, e, d, p);
        let w = protected_names(s, e, names);
        let k = protected_names(s, e, d);
        assert(names.contains(p) <==> d.contains(p) || names.last() == p) by {
            if d.contains(p) {
                let i = choose|i: int| 0 <= i < d.len() && d[i] == p;
                assert(names[i] == p);
            }
            assert(names[names.len() - 1] == names.last());
            if names.contains(p) && names.last() != p {
                let i = choose|i: int| 0 <= i < names.len() && names[i] == p;
                assert(d[i] == p);
            }
        }
        if k.contains(p) {
            let i = choose|i: int| 0 <= i < k.len() && k[i] == p;
            assert(w[i] == p);
        }
        if off_limits(s, e, names.last()) {
            assert(w[w.len() - 1] == names.last());
        }
        if w.contains(p) && !k.contains(p) {
            let i = choose|i: int| 0 <= i < w.len() && w[i] == p;
            if i < k.len() {
                assert(k[i] == p);
            }
        }
    }
}

/// A policy that can be loaded takes effect at once: exactly those frozen packages are thawed
/// that it puts off limits.
pub proof fn law_reload_thaws_what_is_off_limits(s: EngineView, e: EnvView, i: ReloadView, p: Seq<char>)
    requires
        loaded_policy(i.policy, i.policy_revision) is Some,
    ensures
        ({
            let (u, st) = reload_begin(s, e, i);
            &&& u.frozen == s.frozen && u.counters == s.counters
            &&& st matches StepView::Next(t) && t.kind == TaskKind::ReloadNext && (t.queue.contains(
                p,
            ) <==> has_key(s.frozen, p) && off_limits(u, e, p))
        }),
{
    let (u, st) = reload_begin(s, e, i);
    let t = crate::engine_admin::reload_settled(s, e, i);
    let k = keys_of(t.frozen);
    lemma_protected_off_limits(t, e, k, p);
    lemma_key_index(s.frozen, p);
    if has_key(s.frozen, p) {
        assert(k[key_index(s.frozen, p)] == p);
    }
    if k.contains(p) {
        let j = choose|j: int| 0 <= j < k.len() && k[j] == p;
        assert(s.frozen[j].0 == p);
    }
    assert(off_limits(u, e, p) == off_limits(t, e, p));
}

/// A package that a new policy puts off limits is not frozen any longer and does not wait, and a
/// thaw that worked is counted, not as one by a wakeup.
pub proof fn law_reload_thaw_is_recorded(s: EngineView, e: EnvView, t: TaskView, r: ReplyView)
    requires
        t.kind == TaskKind::ReloadThaw,
    ensures
        ({
            let (u, st) = step(s, e, t, r);
            &&& st == StepView::Next(over(TaskKind::ReloadNext, t.queue))
            &&& !has_key(u.frozen, t.pkg) && !has_key(u.grace, t.pkg)
            &&& r == ReplyView::Flag(true) ==> u.counters.unfreeze_ops
                == s.counters.unfreeze_ops.wrapping_add(1)
            &&& r != ReplyView::Flag(true) ==> u.counters == s.counters
            &&& u.counters.wakeup_thaws == s.counters.wakeup_thaws
            &&& u.cooldown == s.cooldown
        }),
{
    broadcast use group_tables;

}

/// A preset takes over the switch of the policy, the delay, the time of cooling down, and what is
/// said of foreground services and media.
pub proof fn law_preset_takes_over(s: EngineView, epoch: u64, name: Seq<char>, p: Preset)
    ensures
        ({
            let u = preset_applied(s, epoch, name, p);
            &&& u.policy.enabled == p.enabled
            &&& u.policy.grace_seconds == p.grace_seconds
            &&& u.policy.cooldown_seconds == p.cooldown_seconds
            &&& u.policy.keep_fg_service == p.keep_fg_service
            &&& u.policy.keep_media == p.keep_media
            &&& u.active_preset == Some(name)
            &&& u.frozen == s.frozen && u.grace == s.grace
        }),
{
}

/// The preset in force is applied again on top of a policy that was loaded; where there is no
/// such preset any longer, none is in force.
pub proof fn law_reload_keeps_the_preset(s: EngineView, e: EnvView, i: ReloadView, name: Seq<char>)
    requires
        loaded_policy(i.policy, i.policy_revision) is Some,
    ensures
        ({
            let file = loaded_policy(i.policy, i.policy_revision)->0;
            let u = reload_begin(s, e, i).0;
            &&& s.active_preset is None ==> u.policy == file && u.active_preset is None
            &&& s.active_preset == Some(name) ==> match value_of(u.presets.presets, name) {
                Some(p) => u.active_preset == Some(name) && u.policy.grace_seconds
                    == p.grace_seconds && u.policy.enabled == p.enabled
                    && u.policy.cooldown_seconds == p.cooldown_seconds
                    && u.policy.keep_fg_service == p.keep_fg_service && u.policy.keep_media
                    == p.keep_media && u.policy.apps == file.apps && u.policy.whitelist
                    == file.whitelist && u.policy.force == file.force,
                None => u.active_preset is None && u.policy == file,
            }
        }),
{
}

// ---- What is written to disk ----

proof fn lemma_known_pairs(s: EngineView, e: EnvView, names: Seq<Seq<char>>, p: Seq<char>, uid: u32)
    ensures
        known_pairs(s, e, names).contains((p, uid)) <==> names.contains(p) && (match value_of(
            s.pkg_uids,
            p,
        ) {
            Some(u) => u == uid,
            None => value_of(e.table, p) == Some(uid),
        }),
    decreases names.len(),
{
    if names.len() > 0 {
        let d = names.drop_last();
        lemma_known_pairs(s, e, d, p, uid);
        let w = known_pairs(s, e, names);
        let k = known_pairs(s, e, d);
        assert(names.contains(p) <==> d.contains(p) || names.last() == p) by {
            if d.contains(p) {
                let i = choose|i: int| 0 <= i < d.len() && d[i] == p;
                assert(names[i] == p);
            }
            assert(names[names.len() - 1] == names.last());
            if names.contains(p) && names.last() != p {
                let i = choose|i: int| 0 <= i < names.len() && names[i] == p;
                assert(d[i] == p);
            }
        }
        if k.contains((p, uid)) {
            let i = choose|i: int| 0 <= i < k.len() && k[i] == (p, uid);
            assert(w[i] == (p, uid));
        }
        if w.len() > k.len() {
            assert(w[w.len() - 1].0 == names.last());
        }
        if w.contains((p, uid)) && !k.contains((p, uid)) {
            let i = choose|i: int| 0 <= i < w.len() && w[i] == (p, uid);
            if i < k.len() {
                assert(k[i] == (p, uid));
            }
        }
    }
}

/// What is written of the frozen apps names exactly those that are frozen and whose uid is
/// known: as reported with a process, or else by the package table. It is written where it
/// differs from what was written last, and only then.
pub proof fn law_frozen_apps_are_written(s: EngineView, e: EnvView, p: Seq<char>, uid: u32)
    ensures
        ({
            let snap = frozen_snapshot(s, e);
            let (u, st) = persist_begin(s, e);
            &&& snap.contains((p, uid)) <==> has_key(s.frozen, p) && (match value_of(s.pkg_uids, p) {
                Some(known) => known == uid,
                None => value_of(e.table, p) == Some(uid),
            })
            &&& u.last_persist == Some(snap)
            &&& s.last_persist == Some(snap) ==> u == s && st == StepView::Next(
                plain(TaskKind::EventsBegin),
            )
            &&& s.last_persist != Some(snap) ==> st == StepView::Ask(
                OpView::SaveState(state_text(snap)),
                plain(TaskKind::EventsBegin),
            )
        }),
{
    let k = keys_of(s.frozen);
    law_sorted_texts(k);
    lemma_known_pairs(s, e, sorted_texts(k), p, uid);
    assert(sorted_texts(k).contains(p) <==> k.contains(p)) by {
        broadcast use vstd::seq_lib::group_to_multiset_ensures;

        assert(sorted_texts(k).to_multiset().contains(p) == k.to_multiset().contains(p));
    }
    lemma_key_index(s.frozen, p);
    if has_key(s.frozen, p) {
        assert(k[key_index(s.frozen, p)] == p);
    }
    if k.contains(p) {
        let j = choose|j: int| 0 <= j < k.len() && k[j] == p;
        assert(s.frozen[j].0 == p);
    }
}

// ---- What is said ----

/// Whether the last event is about an app, with an action, a level and a reason.
pub open spec fn says(
    s: EngineView,
    pkg: Seq<char>,
    action: EvAction,
    level: EvLevel,
    reason: Seq<char>,
) -> bool {
    let x = s.log.events.last();
    x.pkg == Some(pkg) && x.action == action && x.level == level && x.reason == Some(reason)
}

/// What is said of thaws: for the foreground, of what was found frozen, by traffic, and by a new
/// policy; and of frozen apps that turn out to have no process.
pub proof fn law_what_is_said_of_thaws(
    s: EngineView,
    e: EnvView,
    pkg: Seq<char>,
    rest: Seq<Seq<char>>,
    ok: bool,
)
    ensures
        says(
            crate::engine::focus_noted(s, e, pkg, true),
            pkg,
            EvAction::Unfreeze,
            EvLevel::Event,
            "foreground"@,
        ),
        says(
            crate::engine::focus_noted(s, e, pkg, false),
            pkg,
            EvAction::Unfreeze,
            EvLevel::Warn,
            "foreground_failed"@,
        ),
        says(
            crate::engine::residual_noted(s, e, pkg, true),
            pkg,
            EvAction::Unfreeze,
            EvLevel::Warn,
            "residual_thaw"@,
        ),
        crate::engine::residual_noted(s, e, pkg, false) == s,
        says(
            crate::engine_tick::net_thawed(s, e, pkg, rest, ok).0,
            pkg,
            EvAction::Unfreeze,
            EvLevel::Info,
            "network_wakeup"@,
        ),
        says(
            crate::engine_tick::reload_thawed(s, pkg, rest, ok).0,
            pkg,
            EvAction::Unfreeze,
            EvLevel::Info,
            "policy_reload"@,
        ),
        says(
            crate::engine_tick::dead_drop(s, seq![pkg] + rest).0,
            pkg,
            EvAction::Unfreeze,
            EvLevel::Warn,
            "no_procs"@,
        ),
        says(force_stopped(s, e, pkg).0, pkg, EvAction::Close, EvLevel::Event, "force_stop"@),
{
    assert((seq![pkg] + rest)[0] == pkg);
}

/// What is said of a freeze that succeeded depends on how it came about: after the delay, at
/// once, or by a rule; and of an app that is spared in its turn, whether it is critical or
/// active.
pub proof fn law_what_is_said_of_freezes(s: EngineView, e: EnvView, t: TaskView, rest: Seq<Seq<char>>)
    ensures
        ({
            let u = step(s, e, t, ReplyView::Flag(true)).0;
            &&& t.kind == TaskKind::GraceFreeze ==> says(
                u,
                t.pkg,
                EvAction::Freeze,
                EvLevel::Success,
                "grace_expired"@,
            )
            &&& t.kind == TaskKind::LeaveFreeze ==> says(
                u,
                t.pkg,
                EvAction::Freeze,
                EvLevel::Success,
                "force"@,
            )
            &&& t.kind == TaskKind::RuleFreeze ==> says(
                u,
                t.pkg,
                EvAction::Freeze,
                EvLevel::Success,
                "rule_freeze"@,
            )
        }),
        ({
            let u = grace_next(s, e, seq![t.pkg] + rest).0;
            let idle = !has_key(s.frozen, t.pkg) && s.last_focus != Some(t.pkg);
            &&& idle && crate::policy::critical(t.pkg) ==> says(
                u,
                t.pkg,
                EvAction::Exempt,
                EvLevel::Info,
                "tick_critical"@,
            )
            &&& idle && !has_key(s.cooldown, t.pkg) && active(s, t.pkg) && !off_limits(s, e, t.pkg)
                ==> says(
                u,
                t.pkg,
                EvAction::Exempt,
                EvLevel::Info,
                "tick_exempt"@,
            )
        }),
{
    assert((seq![t.pkg] + rest)[0] == t.pkg);
}

/// A freeze at once, or by a rule, is recorded only where it worked, and ends the matter either
/// way.
pub proof fn law_immediate_freezes_are_recorded(s: EngineView, e: EnvView, t: TaskView, r: ReplyView)
    requires
        t.kind == TaskKind::LeaveFreeze || t.kind == TaskKind::RuleFreeze,
    ensures
        ({
            let (u, st) = step(s, e, t, r);
            &&& st == StepView::Done
            &&& r == ReplyView::Flag(true) ==> value_of(u.frozen, t.pkg) == Some(e.now)
                && u.counters.freeze_ops == s.counters.freeze_ops.wrapping_add(1)
            &&& r != ReplyView::Flag(true) ==> u.frozen == s.frozen && u.counters == s.counters
            &&& u.grace == s.grace && u.cooldown == s.cooldown
        }),
{
    lemma_with_key(s.frozen, t.pkg, e.now, t.pkg);
}

/// What is said of a report is the first kind of activity in it, or none.
pub proof fn law_what_is_said_of_a_report(s: EngineView, epoch: u64, pkg: Seq<char>, f: ExemptFlags)
    ensures
        ({
            let x = exempt_reported(s, epoch, pkg, f).log.events.last();
            &&& x.pkg == Some(pkg) && x.ts == epoch && x.action == EvAction::Exempt
            &&& f.fg_service ==> x.reason == Some("fg_service"@)
            &&& !f.fg_service && f.media ==> x.reason == Some("media"@)
            &&& !f.fg_service && !f.media && f.location ==> x.reason == Some("location"@)
            &&& !f.fg_service && !f.media && !f.location ==> x.reason == Some("none"@)
        }),
{
}

/// A reload finds the packages of the system anew, none where the package manager failed, and
/// takes over the presets of the file; what is frozen stays so, and what is on record of the
/// apps.
pub proof fn law_reload_looks_again(s: EngineView, e: EnvView, i: ReloadView, p: Seq<char>)
    ensures
        ({
            let u = reload_begin(s, e, i).0;
            &&& i.pm is None ==> u.system_apps.len() == 0
            &&& i.pm matches Some(t) ==> (u.system_apps.contains(p) <==> exists|k: int|
                0 <= k < crate::text::line_texts(t).len() && crate::engine_rules::pm_system(
                    #[trigger] crate::text::line_texts(t)[k],
                ) == Some(p))
            &&& u.media_uid == crate::engine_rules::media_uid_of(i.procs)
            &&& u.presets == crate::preset::loaded_presets(i.presets, i.presets_revision)
            &&& u.frozen == s.frozen && u.profile == s.profile && u.counters == s.counters
            &&& u.last_focus == s.last_focus && u.cooldown == s.cooldown
        }),
{
    if let Some(t) = i.pm {
        crate::device_laws::law_who_belongs_to_the_system(crate::text::line_texts(t), p);
    }
}

/// Where the policy is off, how many packages were thawed is said once all are.
pub proof fn law_end_of_thawing_is_said(s: EngineView, n: u64)
    ensures
        ({
            let (u, st) = disabled_next(s, Seq::empty(), n);
            let x = u.log.events.last();
            &&& st == StepView::Next(plain(TaskKind::DisabledClear))
            &&& x.reason == Some("policy_disabled"@) && x.pkg is None
            &&& x.msg == Some("unfroze "@ + crate::text::dec(n as nat) + " pkgs"@)
            &&& u.frozen == s.frozen
        }),
{
}

/// The packages that a new policy puts off limits are thawed in order, and then the reload is
/// done.
pub proof fn law_reload_thaws_in_order(s: EngineView, pkg: Seq<char>, rest: Seq<Seq<char>>)
    ensures
        crate::engine_tick::reload_next(s, seq![pkg] + rest) == (
            s,
            StepView::Ask(OpView::Thaw(pkg), within_queue(TaskKind::ReloadThaw, pkg, rest)),
        ),
        crate::engine_tick::reload_next(s, Seq::empty()) == (s, StepView::Done),
{
    assert((seq![pkg] + rest).skip(1) =~= rest);
    assert((seq![pkg] + rest)[0] == pkg);
}

// ---- The course of a tick ----

/// Whatever the engine is told, and whatever it takes up, the events that it logs from then on
/// carry the time of the device.
#[verifier::rlimit(60)]
#[verifier::spinoff_prover]
pub proof fn law_events_carry_the_time(
    s: EngineView,
    e: EnvView,
    pkg: Seq<char>,
    source: Seq<char>,
    action: Seq<char>,
)
    ensures
        wakeup_begin(s, e, pkg, source, action).0.log.clock == e.epoch,
        tick_begin(s, e).0.log.clock == e.epoch,
        force_stopped(s, e, pkg).0.log.clock == e.epoch,
        force_stopped(s, e, pkg).0.log.events.last().ts == e.epoch,
        has_key(s.frozen, pkg) ==> focus_begin(s, e, pkg).0.log.clock == e.epoch,
        exempt_reported(s, e.epoch, pkg, ExemptFlags { fg_service: true, media: true, location: true }).log.events.last().ts
            == e.epoch,
{
}

/// A thaw, a freeze and a discard are logged with the time at which they are taken up.
pub proof fn law_operations_carry_the_time(s: EngineView, e: EnvView, t: TaskView, ok: bool, n: u64)
    ensures
        ({
            let u = step(s, e, t, ReplyView::Flag(ok)).0;
            t.kind == TaskKind::WakeThaw || t.kind == TaskKind::GraceFreeze || t.kind
                == TaskKind::LeaveFreeze || t.kind == TaskKind::RuleFreeze || t.kind
                == TaskKind::ReloadThaw || t.kind == TaskKind::NetThaw
                ==> u.log.events.last().ts == e.epoch && u.log.events.last().pkg == Some(t.pkg)
        }),
        ({
            let u = step(s, e, t, ReplyView::Number(Some(n))).0;
            t.kind == TaskKind::DiscardKill && n > 0 ==> u.log.events.last().ts == e.epoch
        }),
{
}

/// Every reply is taken up for what it was asked: the available memory, the memory and the kill
/// priorities of apps, whether the device has booted, and what was found out of an app.
pub proof fn law_replies_are_taken_up(
    s: EngineView,
    e: EnvView,
    t: TaskView,
    n: Option<u64>,
    ns: Seq<u64>,
    ls: Seq<Option<i32>>,
    ok: bool,
    found: SurveyView,
)
    ensures
        ({
            let u = EngineView { log: LogView { clock: e.epoch, ..s.log }, ..s };
            &&& t.kind == TaskKind::MemFirst ==> step(s, e, t, ReplyView::Number(n)) == mem_first(u, e, n)
            &&& t.kind == TaskKind::MemAgain ==> step(s, e, t, ReplyView::Number(n)) == mem_again(
                u,
                e,
                t.queue,
                n,
            )
            &&& t.kind == TaskKind::MemResident ==> step(s, e, t, ReplyView::Numbers(ns))
                == mem_ranked(u, ns)
            &&& t.kind == TaskKind::ReclaimLevels ==> step(s, e, t, ReplyView::Levels(ls))
                == reclaim_levels(u, t.pkg, t.queue, t.found, ls)
            &&& t.kind == TaskKind::BootFlag ==> step(s, e, t, ReplyView::Flag(ok)) == boot_flag(
                u,
                e,
                ok,
            )
            &&& t.kind == TaskKind::LeaveSurvey ==> step(s, e, t, ReplyView::Survey(found))
                == leave_surveyed(u, e, t.pkg, found)
            &&& t.kind == TaskKind::GraceSurvey ==> step(s, e, t, ReplyView::Survey(found))
                == grace_surveyed(u, e, t.pkg, t.queue, found)
            &&& t.kind == TaskKind::DeadSurvey ==> step(s, e, t, ReplyView::Survey(found))
                == dead_surveyed(u, t.pkg, t.queue, t.found, found)
            &&& t.kind == TaskKind::DiscardSurvey ==> step(s, e, t, ReplyView::Survey(found))
                == discard_surveyed(u, e, t.pkg, t.queue, t.why, found)
            &&& t.kind == TaskKind::NetSurvey ==> step(s, e, t, ReplyView::Survey(found))
                == net_surveyed(u, e, t.pkg, t.queue, t.found, found)
        }),
{
}

/// What a tick looks at, one after the other: the apps whose delay is over, those that are frozen
/// and without processes, those to be discarded, the memory, the boot, what is to be protected,
/// the traffic, and what is to be written.
pub proof fn law_course_of_a_tick(s: EngineView, e: EnvView, t: TaskView, r: ReplyView)
    ensures
        ({
            let u = EngineView { log: LogView { clock: e.epoch, ..s.log }, ..s };
            let o = step(s, e, t, r);
            &&& t.kind == TaskKind::TickBody ==> o == tick_body(u, e)
            &&& t.kind == TaskKind::GraceNext ==> o == grace_next(u, e, t.queue)
            &&& t.kind == TaskKind::DeadBegin ==> o == (
                u,
                StepView::Next(over(TaskKind::DeadNext, keys_of(s.frozen))),
            )
            &&& t.kind == TaskKind::DeadNext ==> o == dead_next(u, e, t.queue, t.found)
            &&& t.kind == TaskKind::DeadDrop ==> o == dead_drop(u, t.queue)
            &&& t.kind == TaskKind::DeadDrop && t.queue.len() == 0 ==> o.1 == StepView::Next(
                plain(TaskKind::TimeoutBegin),
            )
            &&& t.kind == TaskKind::TimeoutBegin ==> o == timeout_begin(u, e)
            &&& t.kind == TaskKind::RuleBegin ==> o == rule_begin(u, e)
            &&& t.kind == TaskKind::DiscardNext ==> o == discard_next(u, e, t.queue, t.why)
            &&& t.kind == TaskKind::MemBegin ==> o == mem_begin(u)
            &&& t.kind == TaskKind::BootBegin ==> o == boot_begin(u)
            &&& t.kind == TaskKind::ReclaimBegin ==> o == reclaim_begin(u, e)
            &&& t.kind == TaskKind::ReclaimNext ==> o == reclaim_next(u, e, t.queue, t.found)
            &&& t.kind == TaskKind::RelockBegin ==> o == relock_begin(u, e)
            &&& t.kind == TaskKind::RestoreBegin ==> o == restore_begin(u)
            &&& t.kind == TaskKind::CountTick ==> o == count_tick(u)
            &&& t.kind == TaskKind::NetNext ==> o == net_next(u, e, t.queue, t.found)
            &&& t.kind == TaskKind::NetNext && t.queue.len() == 0 ==> o.1 == StepView::Next(
                over(TaskKind::NetThawNext, t.found),
            )
            &&& t.kind == TaskKind::NetThawNext ==> o == net_thaw_next(u, t.queue)
            &&& t.kind == TaskKind::NetThawNext && t.queue.len() == 0 ==> o.1 == StepView::Next(
                plain(TaskKind::PersistBegin),
            )
            &&& t.kind == TaskKind::PersistBegin ==> o == persist_begin(u, e)
            &&& t.kind == TaskKind::EventsBegin ==> o == crate::engine_tick::events_begin(u)
            &&& t.kind == TaskKind::DisabledNext ==> o == disabled_next(u, t.queue, t.total)
            &&& t.kind == TaskKind::ReloadNext ==> o == crate::engine_tick::reload_next(u, t.queue)
            &&& t.kind == TaskKind::Finish ==> o == (u, StepView::Done)
        }),
{
}

/// With the policy off, a tick ends with nothing frozen, waiting, cooling down or protected, and
/// with everything else as it was.
pub proof fn law_policy_off_forgets(s: EngineView, e: EnvView, t: TaskView, r: ReplyView)
    requires
        t.kind == TaskKind::DisabledClear,
    ensures
        ({
            let (u, st) = step(s, e, t, r);
            &&& st == StepView::Next(plain(TaskKind::PersistBegin))
            &&& u.frozen.len() == 0 && u.grace.len() == 0 && u.cooldown.len() == 0 && u.adj_keep.len()
                == 0
            &&& u.policy == s.policy && u.counters == s.counters && u.profile == s.profile
                && u.last_focus == s.last_focus && u.exempt == s.exempt
        }),
{
}

} // verus!
