//! The periodic tick of the engine, and the dispatch of its steps.
//!
//! A tick goes through fixed stages: the system components are protected; with the policy
//! off everything is thawed; apps whose delay is over are frozen; cool-downs end; frozen apps
//! without processes are forgotten; frozen apps are discarded that stayed frozen for too
//! long, by a rule, for want of memory, or after boot; the protection from the memory killer is renewed
//! and, for the foreground app, undone; frozen apps with traffic are thawed; and what changed
//! is written to disk.

use vstd::prelude::*;
use crate::engine::{
    cooling, ask_survey, focus_probed, focus_residual, focus_thawed, freeze_done, freeze_refused,
    leave_surveyed, protected, rule_frozen, stamped, thaw_counted, traffic_check, unfrozen, ungraced,
    wakeup_counted, wakeup_thawed, Outcome,
};
use crate::engine_ops::{
    about, over, plain, pop_first, within_queue, DiscardReason, Env, EnvView, Op, OpView, Reply,
    ReplyView, Step, StepView, Survey, SurveyView, Task, TaskKind, TaskView,
};
use crate::engine_rules::{
    all_cached, discard_order, due_names, expired_names, frozen_snapshot, has_passed, is_busy,
    is_cache_level, keeps_network, listed, never_discarded, passed, push_of, rule_exempts,
    ruled_names, uid_of, vpn_protected,
};
use crate::engine_state::{
    noted, noted_msg, noted_system, Counters, EngineState, EngineView,
};
use crate::events::{json_lines, pending, EvAction, EvLevel};
use crate::freezer::{frozen_state_text, pair_views, pkg_uid, state_text};
use crate::lists::texts;
use crate::names::{
    has_key, keys_of, later_entries, remove_name, with_key, with_name, without_key, without_name,
    NameMap,
};
use crate::network::sample;
use crate::order::{sort_texts, sorted_texts};
use crate::profile::{discarded_once, profile_of};
use crate::rules::{after_hit, RuleCondition, RulesView};
use crate::policy::{critical, saturating_product, CRITICAL_PACKAGES};
use crate::text::{dec, push_dec, str_eq};

verus! {

broadcast use {crate::lists::texts_len, crate::lists::texts_at};

pub open spec fn next(k: TaskKind) -> StepView {
    StepView::Next(plain(k))
}

// ---- Protecting the system, and the policy that is off ----

/// The uids that the table knows of the built-in critical packages from the first `n`.
pub open spec fn critical_uids(e: EnvView, n: int) -> Seq<u32>
    decreases n,
{
    if n <= 0 {
        Seq::empty()
    } else {
        let before = critical_uids(e, n - 1);
        match uid_of(e, CRITICAL_PACKAGES@[n - 1]@) {
            Some(u) => before.push(u),
            None => before,
        }
    }
}

/// The uids of the system components that must stay responsive.
pub open spec fn chain_uids(s: EngineView, e: EnvView) -> Seq<u32> {
    let c = critical_uids(e, CRITICAL_PACKAGES@.len() as int);
    match s.media_uid {
        Some(u) => c.push(u),
        None => c,
    }
}

/// A tick begins: every fifth time the system components are protected, whether the policy
/// is on or off.
pub open spec fn tick_begin(s: EngineView, e: EnvView) -> Outcome {
    let s = stamped(s, e);
    if s.tick_count % 5 == 0 {
        (
            EngineView { system_chain_locked: true, ..s },
            StepView::Ask(OpView::LockChain(chain_uids(s, e)), plain(TaskKind::TickBody)),
        )
    } else {
        (s, next(TaskKind::TickBody))
    }
}

pub open spec fn tick_body(s: EngineView, e: EnvView) -> Outcome {
    if s.policy.enabled {
        (s, StepView::Next(over(TaskKind::GraceNext, due_names(s.grace, e.now))))
    } else if s.frozen.len() > 0 {
        (
            s,
            StepView::Next(
                TaskView {
                    total: s.frozen.len() as u64,
                    ..over(TaskKind::DisabledNext, keys_of(s.frozen))
                },
            ),
        )
    } else {
        (s, next(TaskKind::DisabledClear))
    }
}

pub open spec fn unfroze_text(n: u64) -> Seq<char> {
    "unfroze "@ + dec(n as nat) + " pkgs"@
}

pub open spec fn disabled_next(s: EngineView, queue: Seq<Seq<char>>, total: u64) -> Outcome {
    if queue.len() == 0 {
        (
            noted_system(
                s,
                EvLevel::Info,
                EvAction::Unfreeze,
                "policy_disabled"@,
                Some(unfroze_text(total)),
            ),
            next(TaskKind::DisabledClear),
        )
    } else {
        (
            s,
            StepView::Ask(
                OpView::Thaw(queue[0]),
                TaskView { total, ..over(TaskKind::DisabledThaw, queue.skip(1)) },
            ),
        )
    }
}

pub open spec fn disabled_thawed(
    s: EngineView,
    queue: Seq<Seq<char>>,
    total: u64,
    ok: bool,
) -> Outcome {
    (
        if ok {
            thaw_counted(s)
        } else {
            s
        },
        StepView::Next(TaskView { total, ..over(TaskKind::DisabledNext, queue) }),
    )
}

/// The state of an engine that only observes.
pub open spec fn cleared(s: EngineView) -> EngineView {
    EngineView {
        frozen: Seq::empty(),
        grace: Seq::empty(),
        cooldown: Seq::empty(),
        adj_keep: Seq::empty(),
        ..s
    }
}

// ---- Apps whose delay is over ----

/// Why an app whose delay is over is not frozen, and whether that is noted.
pub open spec fn grace_spared(s: EngineView, e: EnvView, pkg: Seq<char>) -> Option<
    Option<Seq<char>>,
> {
    if has_key(s.frozen, pkg) || s.last_focus == Some(pkg) {
        Some(None)
    } else if critical(pkg) {
        Some(Some("tick_critical"@))
    } else if vpn_protected(s, e, pkg) || listed(s, pkg) || rule_exempts(s, e, pkg) || has_key(
        s.cooldown,
        pkg,
    ) {
        Some(None)
    } else if is_busy(s, pkg) {
        Some(Some("tick_exempt"@))
    } else {
        None
    }
}

pub open spec fn grace_next(s: EngineView, e: EnvView, queue: Seq<Seq<char>>) -> Outcome {
    if queue.len() == 0 {
        (
            EngineView { cooldown: later_entries(s.cooldown, e.now), ..s },
            next(TaskKind::DeadBegin),
        )
    } else {
        let pkg = queue[0];
        let rest = queue.skip(1);
        match grace_spared(s, e, pkg) {
            Some(Some(why)) => (
                ungraced(noted(s, EvLevel::Info, EvAction::Exempt, pkg, why), pkg),
                StepView::Next(over(TaskKind::GraceNext, rest)),
            ),
            Some(None) => (ungraced(s, pkg), StepView::Next(over(TaskKind::GraceNext, rest))),
            None => match uid_of(e, pkg) {
                Some(u) => (s, ask_survey(u, within_queue(TaskKind::GraceSurvey, pkg, rest))),
                None => grace_freeze(s, e, pkg, rest, None),
            },
        }
    }
}

pub open spec fn grace_surveyed(
    s: EngineView,
    e: EnvView,
    pkg: Seq<char>,
    queue: Seq<Seq<char>>,
    found: SurveyView,
) -> Outcome {
    match uid_of(e, pkg) {
        Some(u) => {
            let (t, active) = traffic_check(s, e, pkg, u, found);
            match active {
                Some(true) => (
                    ungraced(
                        noted(t, EvLevel::Info, EvAction::Exempt, pkg, "tick_high_network"@),
                        pkg,
                    ),
                    StepView::Next(over(TaskKind::GraceNext, queue)),
                ),
                Some(false) => (
                    ungraced(
                        noted(t, EvLevel::Info, EvAction::Exempt, pkg, "tick_network_exempt"@),
                        pkg,
                    ),
                    StepView::Next(over(TaskKind::GraceNext, queue)),
                ),
                None => grace_freeze(t, e, pkg, queue, Some(found.has_procs)),
            }
        },
        None => grace_freeze(s, e, pkg, queue, None),
    }
}

pub open spec fn grace_freeze(
    s: EngineView,
    e: EnvView,
    pkg: Seq<char>,
    queue: Seq<Seq<char>>,
    alive: Option<bool>,
) -> Outcome {
    match freeze_refused(s, e, pkg, alive) {
        Some(t) => (ungraced(t, pkg), StepView::Next(over(TaskKind::GraceNext, queue))),
        None => (
            s,
            StepView::Ask(
                OpView::Freeze(pkg, push_of(s, pkg)),
                within_queue(TaskKind::GraceFreeze, pkg, queue),
            ),
        ),
    }
}

pub open spec fn grace_frozen(
    s: EngineView,
    e: EnvView,
    pkg: Seq<char>,
    queue: Seq<Seq<char>>,
    ok: bool,
) -> Outcome {
    (
        ungraced(freeze_done(s, e, pkg, "grace_expired"@, ok), pkg),
        StepView::Next(over(TaskKind::GraceNext, queue)),
    )
}

// ---- Frozen apps without processes ----

pub open spec fn with_found(t: TaskView, found: Seq<Seq<char>>) -> TaskView {
    TaskView { found, ..t }
}

/// A frozen app that the table does not know, or that has no process, is dead.
pub open spec fn dead_next(
    s: EngineView,
    e: EnvView,
    queue: Seq<Seq<char>>,
    dead: Seq<Seq<char>>,
) -> Outcome {
    if queue.len() == 0 {
        (s, StepView::Next(over(TaskKind::DeadDrop, dead)))
    } else {
        let pkg = queue[0];
        let rest = queue.skip(1);
        match uid_of(e, pkg) {
            Some(u) => (
                s,
                ask_survey(u, with_found(within_queue(TaskKind::DeadSurvey, pkg, rest), dead)),
            ),
            None => (s, StepView::Next(with_found(over(TaskKind::DeadNext, rest), dead.push(pkg)))),
        }
    }
}

pub open spec fn dead_surveyed(
    s: EngineView,
    pkg: Seq<char>,
    queue: Seq<Seq<char>>,
    dead: Seq<Seq<char>>,
    found: SurveyView,
) -> Outcome {
    (
        s,
        StepView::Next(
            with_found(
                over(TaskKind::DeadNext, queue),
                if found.has_procs {
                    dead
                } else {
                    dead.push(pkg)
                },
            ),
        ),
    )
}

pub open spec fn dead_drop(s: EngineView, queue: Seq<Seq<char>>) -> Outcome {
    if queue.len() == 0 {
        (s, next(TaskKind::TimeoutBegin))
    } else {
        (
            noted(
                unfrozen(s, queue[0]),
                EvLevel::Warn,
                EvAction::Unfreeze,
                queue[0],
                "no_procs"@,
            ),
            StepView::Next(over(TaskKind::DeadDrop, queue.skip(1))),
        )
    }
}

// ---- Discarding ----

pub open spec fn discard_queue(queue: Seq<Seq<char>>, why: DiscardReason) -> StepView {
    StepView::Next(TaskView { why, ..over(TaskKind::DiscardNext, queue) })
}

/// Every tenth tick the apps that have been frozen for too long are discarded.
pub open spec fn timeout_begin(s: EngineView, e: EnvView) -> Outcome {
    if s.tick_count % 10 == 0 && s.policy.discard_frozen_timeout_seconds > 0 {
        (s, discard_queue(expired_names(s, e.now), DiscardReason::FrozenTimeout))
    } else {
        (s, next(TaskKind::RuleBegin))
    }
}

/// Every tenth tick the apps are discarded that a rule wants discarded.
pub open spec fn rule_begin(s: EngineView, e: EnvView) -> Outcome {
    if s.tick_count % 10 == 0 {
        (s, discard_queue(ruled_names(s, e, s.frozen), DiscardReason::Rule))
    } else {
        (s, next(TaskKind::MemBegin))
    }
}

/// Where the tick goes on once the apps are discarded.
pub open spec fn after_discards(why: DiscardReason) -> TaskKind {
    match why {
        DiscardReason::FrozenTimeout => TaskKind::RuleBegin,
        DiscardReason::Rule => TaskKind::MemBegin,
        DiscardReason::MemWatermark => TaskKind::BootBegin,
        DiscardReason::BootReclaim => TaskKind::RelockBegin,
    }
}

/// The next app to discard. For want of memory, the memory is looked at before each one.
pub open spec fn discard_next(
    s: EngineView,
    e: EnvView,
    queue: Seq<Seq<char>>,
    why: DiscardReason,
) -> Outcome {
    if queue.len() == 0 {
        (s, next(after_discards(why)))
    } else if why == DiscardReason::MemWatermark {
        (s, StepView::Ask(OpView::Memory, over(TaskKind::MemAgain, queue)))
    } else {
        discard_one(s, e, queue[0], queue.skip(1), why)
    }
}

/// An app is discarded unless it is protected. One that the table does not know is only
/// forgotten.
pub open spec fn discard_one(
    s: EngineView,
    e: EnvView,
    pkg: Seq<char>,
    queue: Seq<Seq<char>>,
    why: DiscardReason,
) -> Outcome {
    if never_discarded(s, e, pkg) {
        (s, discard_queue(queue, why))
    } else {
        match uid_of(e, pkg) {
            Some(u) => (
                s,
                ask_survey(
                    u,
                    TaskView { why, ..within_queue(TaskKind::DiscardSurvey, pkg, queue) },
                ),
            ),
            None => (unfrozen(s, pkg), discard_queue(queue, why)),
        }
    }
}

pub open spec fn discard_surveyed(
    s: EngineView,
    e: EnvView,
    pkg: Seq<char>,
    queue: Seq<Seq<char>>,
    why: DiscardReason,
    found: SurveyView,
) -> Outcome {
    match uid_of(e, pkg) {
        Some(u) => if found.has_procs && !never_discarded(s, e, pkg) {
            (
                s,
                StepView::Ask(
                    OpView::Discard(u),
                    TaskView { why, uid: u, ..within_queue(TaskKind::DiscardKill, pkg, queue) },
                ),
            )
        } else if never_discarded(s, e, pkg) {
            (s, discard_queue(queue, why))
        } else {
            (unfrozen(s, pkg), discard_queue(queue, why))
        },
        None => (unfrozen(s, pkg), discard_queue(queue, why)),
    }
}

/// The counters after one more app was discarded.
pub open spec fn discard_counted(c: Counters, why: DiscardReason) -> Counters {
    let d = Counters { discard_ops: c.discard_ops.wrapping_add(1), ..c };
    match why {
        DiscardReason::FrozenTimeout => Counters {
            discard_frozen_timeout: d.discard_frozen_timeout.wrapping_add(1),
            ..d
        },
        DiscardReason::Rule => Counters { discard_rule: d.discard_rule.wrapping_add(1), ..d },
        DiscardReason::MemWatermark => Counters {
            discard_mem_watermark: d.discard_mem_watermark.wrapping_add(1),
            ..d
        },
        DiscardReason::BootReclaim => Counters {
            discard_boot_reclaim: d.discard_boot_reclaim.wrapping_add(1),
            ..d
        },
    }
}

/// How many discarded packages are remembered.
pub const MAX_DISCARDED: usize = 20;

/// The discarded packages after one more: each once, the latest last, and no more than the
/// limit.
pub open spec fn remembered(v: Seq<Seq<char>>, pkg: Seq<char>) -> Seq<Seq<char>> {
    let w = without_name(v, pkg).push(pkg);
    if w.len() > MAX_DISCARDED {
        w.skip(1)
    } else {
        w
    }
}

pub open spec fn killed_text(uid: u32, killed: u64) -> Seq<char> {
    "uid="@ + dec(uid as nat) + " killed="@ + dec(killed as nat)
}

/// The state in which it is on record that the package was discarded.
pub open spec fn discard_recorded(s: EngineView, e: EnvView, pkg: Seq<char>) -> EngineView {
    let p = discarded_once(profile_of(s.profile, pkg), e.epoch);
    EngineView { profile: with_key(s.profile, pkg, p), ..s }
}

/// The rules after a discard: where a rule wanted it, that rule has applied.
pub open spec fn rules_after_discard(
    s: EngineView,
    e: EnvView,
    pkg: Seq<char>,
    why: DiscardReason,
) -> RulesView {
    if why == DiscardReason::Rule {
        after_hit(s.rules, pkg, RuleCondition::Always, None, e.now, e.today)
    } else {
        s.rules
    }
}

/// An app was discarded: everything about it is forgotten. Where no process was killed,
/// only its entry goes.
pub open spec fn discard_killed(
    s: EngineView,
    e: EnvView,
    pkg: Seq<char>,
    uid: u32,
    queue: Seq<Seq<char>>,
    why: DiscardReason,
    killed: u64,
) -> Outcome {
    let t = if killed == 0 {
        unfrozen(s, pkg)
    } else {
        noted_msg(
            discard_recorded(
                EngineView {
                    frozen: without_key(s.frozen, pkg),
                    grace: without_key(s.grace, pkg),
                    cooldown: without_key(s.cooldown, pkg),
                    adj_keep: without_name(s.adj_keep, pkg),
                    counters: discard_counted(s.counters, why),
                    discarded: remembered(s.discarded, pkg),
                    rules: rules_after_discard(s, e, pkg, why),
                    ..s
                },
                e,
                pkg,
            ),
            EvLevel::Warn,
            EvAction::Discard,
            pkg,
            why.name(),
            killed_text(uid, killed),
        )
    };
    (t, discard_queue(queue, why))
}

/// The memory in kB below which frozen apps are discarded.
pub open spec fn watermark_kb(s: EngineView) -> u64 {
    saturating_product(s.policy.discard_mem_watermark_mb, 1024)
}

/// Every twentieth tick the memory is looked at.
pub open spec fn mem_begin(s: EngineView) -> Outcome {
    if s.tick_count % 20 == 0 && s.policy.discard_mem_watermark_mb > 0 && s.frozen.len() > 0 {
        (s, StepView::Ask(OpView::Memory, plain(TaskKind::MemFirst)))
    } else {
        (s, next(TaskKind::BootBegin))
    }
}

/// The uids of the packages by the table, 0 where it does not know one.
pub open spec fn table_uids(e: EnvView, names: Seq<Seq<char>>) -> Seq<u32> {
    Seq::new(
        names.len(),
        |i: int|
            match uid_of(e, names[i]) {
                Some(u) => u,
                None => 0,
            },
    )
}

pub open spec fn mem_first(s: EngineView, e: EnvView, avail: Option<u64>) -> Outcome {
    match avail {
        Some(a) => if a < watermark_kb(s) {
            (
                s,
                StepView::Ask(
                    OpView::Resident(table_uids(e, keys_of(s.frozen))),
                    plain(TaskKind::MemResident),
                ),
            )
        } else {
            (s, next(TaskKind::BootBegin))
        },
        None => (s, next(TaskKind::BootBegin)),
    }
}

pub open spec fn mem_ranked(s: EngineView, rss: Seq<u64>) -> Outcome {
    (s, discard_queue(discard_order(s.frozen, rss), DiscardReason::MemWatermark))
}

/// The memory was read again: enough of it, or none readable, ends the discarding.
pub open spec fn mem_again(
    s: EngineView,
    e: EnvView,
    queue: Seq<Seq<char>>,
    avail: Option<u64>,
) -> Outcome {
    match avail {
        Some(a) => if a >= watermark_kb(s) || queue.len() == 0 {
            (s, next(TaskKind::BootBegin))
        } else {
            discard_one(s, e, queue[0], queue.skip(1), DiscardReason::MemWatermark)
        },
        None => (s, next(TaskKind::BootBegin)),
    }
}

// ---- After boot ----

pub open spec fn boot_begin(s: EngineView) -> Outcome {
    if s.tick_count % 100 == 0 && s.boot_completed_at is None {
        (s, StepView::Ask(OpView::BootCompleted, plain(TaskKind::BootFlag)))
    } else {
        (s, next(TaskKind::ReclaimBegin))
    }
}

pub open spec fn boot_flag(s: EngineView, e: EnvView, booted: bool) -> Outcome {
    (
        if booted {
            EngineView { boot_completed_at: Some(e.now), ..s }
        } else {
            s
        },
        next(TaskKind::ReclaimBegin),
    )
}

/// The packages to reclaim: those frozen in the last session, then those frozen now, each
/// once.
pub open spec fn reclaim_names(c: Seq<(Seq<char>, u32)>, frozen: Seq<Seq<char>>) -> Seq<Seq<char>>
    decreases c.len() + frozen.len(),
{
    if frozen.len() > 0 {
        with_name(reclaim_names(c, frozen.drop_last()), frozen.last())
    } else if c.len() > 0 {
        with_name(reclaim_names(c.drop_last(), frozen), c.last().0)
    } else {
        Seq::empty()
    }
}

/// Reclaiming is due once, some time after boot.
pub open spec fn reclaim_due(s: EngineView, e: EnvView) -> bool {
    &&& s.policy.discard_boot_reclaim
    &&& !s.boot_reclaim_done
    &&& s.boot_completed_at matches Some(at) && has_passed(
        e.now,
        at,
        s.policy.discard_boot_reclaim_delay_seconds,
    )
}

pub open spec fn reclaim_begin(s: EngineView, e: EnvView) -> Outcome {
    if reclaim_due(s, e) {
        (
            EngineView { boot_reclaim_done: true, ..s },
            StepView::Next(
                over(
                    TaskKind::ReclaimNext,
                    reclaim_names(s.boot_reclaim_candidates, keys_of(s.frozen)),
                ),
            ),
        )
    } else {
        (s, next(TaskKind::RelockBegin))
    }
}

pub open spec fn reclaim_next(
    s: EngineView,
    e: EnvView,
    queue: Seq<Seq<char>>,
    chosen: Seq<Seq<char>>,
) -> Outcome {
    if queue.len() == 0 {
        (s, discard_queue(sorted_texts(chosen), DiscardReason::BootReclaim))
    } else {
        let pkg = queue[0];
        let rest = queue.skip(1);
        let skip = StepView::Next(with_found(over(TaskKind::ReclaimNext, rest), chosen));
        if never_discarded(s, e, pkg) {
            (s, skip)
        } else {
            match uid_of(e, pkg) {
                Some(u) => (
                    s,
                    StepView::Ask(
                        OpView::Levels(u),
                        with_found(within_queue(TaskKind::ReclaimLevels, pkg, rest), chosen),
                    ),
                ),
                None => (s, skip),
            }
        }
    }
}

pub open spec fn reclaim_levels(
    s: EngineView,
    pkg: Seq<char>,
    queue: Seq<Seq<char>>,
    chosen: Seq<Seq<char>>,
    levels: Seq<Option<i32>>,
) -> Outcome {
    (
        s,
        StepView::Next(
            with_found(
                over(TaskKind::ReclaimNext, queue),
                if all_cached(levels) {
                    chosen.push(pkg)
                } else {
                    chosen
                },
            ),
        ),
    )
}

// ---- Protection, traffic, disk ----

/// The uids of the packages that the table knows.
pub open spec fn listed_uids(e: EnvView, names: Seq<Seq<char>>) -> Seq<u32>
    decreases names.len(),
{
    if names.len() == 0 {
        Seq::empty()
    } else {
        match uid_of(e, names.last()) {
            Some(u) => listed_uids(e, names.drop_last()).push(u),
            None => listed_uids(e, names.drop_last()),
        }
    }
}

/// Every fifth tick the frozen apps are protected from the memory killer again.
pub open spec fn relock_begin(s: EngineView, e: EnvView) -> Outcome {
    if s.tick_count % 5 == 0 {
        (
            s,
            StepView::Ask(
                OpView::Protect(listed_uids(e, keys_of(s.frozen))),
                plain(TaskKind::RestoreBegin),
            ),
        )
    } else {
        (s, next(TaskKind::RestoreBegin))
    }
}

/// The app in the foreground needs no protection any more.
pub open spec fn restore_begin(s: EngineView) -> Outcome {
    match s.last_focus {
        Some(f) => if s.adj_keep.contains(f) {
            (s, StepView::Ask(OpView::RestoreOom(f), about(TaskKind::Restored, f)))
        } else {
            (s, next(TaskKind::CountTick))
        },
        None => (s, next(TaskKind::CountTick)),
    }
}

pub open spec fn restored(s: EngineView, pkg: Seq<char>) -> Outcome {
    (
        EngineView { adj_keep: without_name(s.adj_keep, pkg), ..s },
        next(TaskKind::CountTick),
    )
}

/// The tick is counted; every tenth time the traffic of the frozen apps is looked at.
pub open spec fn count_tick(s: EngineView) -> Outcome {
    let t = EngineView { tick_count: s.tick_count.wrapping_add(1), ..s };
    if t.tick_count % 10 == 0 && t.frozen.len() > 0 {
        (t, StepView::Next(over(TaskKind::NetNext, keys_of(t.frozen))))
    } else {
        (t, next(TaskKind::PersistBegin))
    }
}

pub open spec fn net_next(
    s: EngineView,
    e: EnvView,
    queue: Seq<Seq<char>>,
    wake: Seq<Seq<char>>,
) -> Outcome {
    if queue.len() == 0 {
        (s, StepView::Next(over(TaskKind::NetThawNext, wake)))
    } else {
        let pkg = queue[0];
        let rest = queue.skip(1);
        let skip = StepView::Next(with_found(over(TaskKind::NetNext, rest), wake));
        if keeps_network(s, pkg) {
            match uid_of(e, pkg) {
                Some(u) => (
                    s,
                    ask_survey(u, with_found(within_queue(TaskKind::NetSurvey, pkg, rest), wake)),
                ),
                None => (s, skip),
            }
        } else {
            (s, skip)
        }
    }
}

/// A frozen app has traffic where any byte was moved since it was last looked at, however short
/// a time ago that was.
pub open spec fn net_surveyed(
    s: EngineView,
    e: EnvView,
    pkg: Seq<char>,
    queue: Seq<Seq<char>>,
    wake: Seq<Seq<char>>,
    found: SurveyView,
) -> Outcome {
    match uid_of(e, pkg) {
        Some(u) => {
            let (n, active) = sample(s.net, u, 0, 1, found.reading, e.now);
            (
                EngineView { net: n, ..s },
                StepView::Next(
                    with_found(
                        over(TaskKind::NetNext, queue),
                        if active {
                            wake.push(pkg)
                        } else {
                            wake
                        },
                    ),
                ),
            )
        },
        None => (s, StepView::Next(with_found(over(TaskKind::NetNext, queue), wake))),
    }
}

pub open spec fn net_thaw_next(s: EngineView, queue: Seq<Seq<char>>) -> Outcome {
    if queue.len() == 0 {
        (s, next(TaskKind::PersistBegin))
    } else {
        (
            s,
            StepView::Ask(
                OpView::ThawKeepOom(queue[0]),
                within_queue(TaskKind::NetThaw, queue[0], queue.skip(1)),
            ),
        )
    }
}

pub open spec fn net_thawed(
    s: EngineView,
    e: EnvView,
    pkg: Seq<char>,
    queue: Seq<Seq<char>>,
    ok: bool,
) -> Outcome {
    let t = if ok {
        protected(wakeup_counted(s), pkg)
    } else {
        s
    };
    (
        noted(
            cooling(ungraced(unfrozen(t, pkg), pkg), e, pkg),
            EvLevel::Info,
            EvAction::Unfreeze,
            pkg,
            "network_wakeup"@,
        ),
        StepView::Next(over(TaskKind::NetThawNext, queue)),
    )
}

/// The list of frozen apps is written where it differs from what was last written.
pub open spec fn persist_begin(s: EngineView, e: EnvView) -> Outcome {
    let snap = frozen_snapshot(s, e);
    if s.last_persist == Some(snap) {
        (s, next(TaskKind::EventsBegin))
    } else {
        (
            EngineView { last_persist: Some(snap), ..s },
            StepView::Ask(OpView::SaveState(state_text(snap)), plain(TaskKind::EventsBegin)),
        )
    }
}

pub open spec fn events_begin(s: EngineView) -> Outcome {
    let p = pending(s.log.events, s.log.flushed);
    if p.len() > 0 {
        (s, StepView::Ask(OpView::SaveEvents(json_lines(p)), plain(TaskKind::EventsSaved)))
    } else {
        (s, StepView::Done)
    }
}

pub open spec fn events_saved(s: EngineView, ok: bool) -> Outcome {
    (
        EngineView {
            log: if ok {
                crate::events::log_flushed(s.log)
            } else {
                s.log
            },
            ..s
        },
        StepView::Done,
    )
}

// ---- Stopping at a freeze ----

pub open spec fn leave_frozen(s: EngineView, e: EnvView, pkg: Seq<char>, ok: bool) -> Outcome {
    (freeze_done(s, e, pkg, "force"@, ok), StepView::Done)
}

pub open spec fn reload_next(s: EngineView, queue: Seq<Seq<char>>) -> Outcome {
    if queue.len() == 0 {
        (s, StepView::Done)
    } else {
        (
            s,
            StepView::Ask(
                OpView::Thaw(queue[0]),
                within_queue(TaskKind::ReloadThaw, queue[0], queue.skip(1)),
            ),
        )
    }
}

pub open spec fn reload_thawed(
    s: EngineView,
    pkg: Seq<char>,
    queue: Seq<Seq<char>>,
    ok: bool,
) -> Outcome {
    let t = if ok {
        thaw_counted(s)
    } else {
        s
    };
    (
        noted(
            ungraced(unfrozen(t, pkg), pkg),
            EvLevel::Info,
            EvAction::Unfreeze,
            pkg,
            "policy_reload"@,
        ),
        StepView::Next(over(TaskKind::ReloadNext, queue)),
    )
}

/// One step: the task takes up the reply.
pub open spec fn step(s: EngineView, e: EnvView, t: TaskView, r: ReplyView) -> Outcome {
    let s = stamped(s, e);
    match t.kind {
        TaskKind::Finish => (s, StepView::Done),
        TaskKind::FocusThaw => focus_thawed(s, e, t.pkg, r.flag()),
        TaskKind::FocusProbe => focus_probed(s, e, t.pkg, r.survey()),
        TaskKind::FocusResidual => focus_residual(s, e, t.pkg, r.flag()),
        TaskKind::LeaveSurvey => leave_surveyed(s, e, t.pkg, r.survey()),
        TaskKind::LeaveFreeze => leave_frozen(s, e, t.pkg, r.flag()),
        TaskKind::RuleFreeze => rule_frozen(s, e, t.pkg, r.flag()),
        TaskKind::WakeThaw => wakeup_thawed(s, e, t.pkg, r.flag()),
        TaskKind::ReloadNext => reload_next(s, t.queue),
        TaskKind::ReloadThaw => reload_thawed(s, t.pkg, t.queue, r.flag()),
        TaskKind::TickBody => tick_body(s, e),
        TaskKind::DisabledNext => disabled_next(s, t.queue, t.total),
        TaskKind::DisabledThaw => disabled_thawed(s, t.queue, t.total, r.flag()),
        TaskKind::DisabledClear => (cleared(s), next(TaskKind::PersistBegin)),
        TaskKind::GraceNext => grace_next(s, e, t.queue),
        TaskKind::GraceSurvey => grace_surveyed(s, e, t.pkg, t.queue, r.survey()),
        TaskKind::GraceFreeze => grace_frozen(s, e, t.pkg, t.queue, r.flag()),
        TaskKind::DeadBegin => (s, StepView::Next(over(TaskKind::DeadNext, keys_of(s.frozen)))),
        TaskKind::DeadNext => dead_next(s, e, t.queue, t.found),
        TaskKind::DeadSurvey => dead_surveyed(s, t.pkg, t.queue, t.found, r.survey()),
        TaskKind::DeadDrop => dead_drop(s, t.queue),
        TaskKind::TimeoutBegin => timeout_begin(s, e),
        TaskKind::RuleBegin => rule_begin(s, e),
        TaskKind::DiscardNext => discard_next(s, e, t.queue, t.why),
        TaskKind::DiscardSurvey => discard_surveyed(s, e, t.pkg, t.queue, t.why, r.survey()),
        TaskKind::DiscardKill => discard_killed(
            s,
            e,
            t.pkg,
            t.uid,
            t.queue,
            t.why,
            match r.number() {
                Some(n) => n,
                None => 0,
            },
        ),
        TaskKind::MemBegin => mem_begin(s),
        TaskKind::MemFirst => mem_first(s, e, r.number()),
        TaskKind::MemResident => mem_ranked(s, r.numbers()),
        TaskKind::MemAgain => mem_again(s, e, t.queue, r.number()),
        TaskKind::BootBegin => boot_begin(s),
        TaskKind::BootFlag => boot_flag(s, e, r.flag()),
        TaskKind::ReclaimBegin => reclaim_begin(s, e),
        TaskKind::ReclaimNext => reclaim_next(s, e, t.queue, t.found),
        TaskKind::ReclaimLevels => reclaim_levels(s, t.pkg, t.queue, t.found, r.levels()),
        TaskKind::RelockBegin => relock_begin(s, e),
        TaskKind::RestoreBegin => restore_begin(s),
        TaskKind::Restored => restored(s, t.pkg),
        TaskKind::CountTick => count_tick(s),
        TaskKind::NetNext => net_next(s, e, t.queue, t.found),
        TaskKind::NetSurvey => net_surveyed(s, e, t.pkg, t.queue, t.found, r.survey()),
        TaskKind::NetThawNext => net_thaw_next(s, t.queue),
        TaskKind::NetThaw => net_thawed(s, e, t.pkg, t.queue, r.flag()),
        TaskKind::PersistBegin => persist_begin(s, e),
        TaskKind::EventsBegin => events_begin(s),
        TaskKind::EventsSaved => events_saved(s, r.flag()),
    }
}

// ---- The steps ----

impl EngineState {
    fn go(kind: TaskKind) -> (r: Step)
        ensures
            r@ == next(kind),
    {
        Step::Next(Task::plain(kind))
    }

    /// The uids of the system components that must stay responsive.
    fn system_chain(&self, env: &Env) -> (r: Vec<u32>)
        ensures
            r@ == chain_uids(self@, env@),
    {
        let l = CRITICAL_PACKAGES;
        let mut out: Vec<u32> = Vec::new();
        let mut i: usize = 0;
        while i < l.len()
            invariant
                i <= l.len(),
                l == CRITICAL_PACKAGES,
                out@ == critical_uids(env@, i as int),
            decreases l.len() - i,
        {
            if let Some(u) = pkg_uid(&env.table, l[i]) {
                out.push(u);
            }
            i = i + 1;
        }
        if let Some(u) = self.media() {
            out.push(u);
        }
        out
    }

    /// The periodic tick.
    pub fn tick(&mut self, env: &Env) -> (r: Step)
        ensures
            (final(self)@, r@) == tick_begin(old(self)@, env@),
    {
        self.set_clock(env.epoch);
        if self.ticks() % 5 == 0 {
            let uids: Vec<u32> = self.system_chain(env);
            self.set_chain_locked();
            Step::Ask(Op::LockChain(uids), Task::plain(TaskKind::TickBody))
        } else {
            Self::go(TaskKind::TickBody)
        }
    }

    fn is_enabled(&self) -> (r: bool)
        ensures
            r == self@.policy.enabled,
    {
        let p = self.policy_ref();
        proof {
            p.lemma_fields();
        }
        p.enabled
    }

    fn on_tick_body(&mut self, env: &Env) -> (r: Step)
        ensures
            (final(self)@, r@) == tick_body(old(self)@, env@),
    {
        if self.is_enabled() {
            Step::Next(Task::over(TaskKind::GraceNext, self.due(env.now)))
        } else if self.frozen_map().len() > 0 {
            let n: usize = self.frozen_map().len();
            let names: Vec<String> = self.frozen_map().keys();
            Step::Next(Task::over(TaskKind::DisabledNext, names).with_total(n as u64))
        } else {
            Self::go(TaskKind::DisabledClear)
        }
    }

    fn on_disabled_next(&mut self, queue: Vec<String>, total: u64) -> (r: Step)
        ensures
            (final(self)@, r@) == disabled_next(old(self)@, texts(queue@), total),
    {
        let mut queue: Vec<String> = queue;
        if queue.len() == 0 {
            let mut msg: String = String::from_str("unfroze ");
            push_dec(&mut msg, total);
            msg.append(" pkgs");
            self.note_system(
                EvLevel::Info,
                EvAction::Unfreeze,
                "policy_disabled",
                Some(msg.as_str()),
            );
            return Self::go(TaskKind::DisabledClear);
        }
        let pkg: String = pop_first(&mut queue);
        Step::Ask(Op::Thaw(pkg), Task::over(TaskKind::DisabledThaw, queue).with_total(total))
    }

    fn on_disabled_thawed(&mut self, queue: Vec<String>, total: u64, ok: bool) -> (r: Step)
        ensures
            (final(self)@, r@) == disabled_thawed(old(self)@, texts(queue@), total, ok),
    {
        if ok {
            self.bump_unfreeze_ops();
        }
        Step::Next(Task::over(TaskKind::DisabledNext, queue).with_total(total))
    }

    fn on_disabled_clear(&mut self) -> (r: Step)
        ensures
            (final(self)@, r@) == (cleared(old(self)@), next(TaskKind::PersistBegin)),
    {
        self.frozen_clear();
        self.grace_clear();
        self.cooldown_clear();
        self.adj_clear();
        Self::go(TaskKind::PersistBegin)
    }

    fn grace_exempt(&self, pkg: &str, env: &Env) -> (r: Option<Option<&'static str>>)
        ensures
            grace_spared(self@, env@, pkg@) == match r {
                Some(Some(w)) => Some(Some(w@)),
                Some(None) => Some(None),
                None => None,
            },
    {
        if self.has_frozen(pkg) || self.is_focus(pkg) {
            Some(None)
        } else if self.policy_ref().is_critical(pkg) {
            Some(Some("tick_critical"))
        } else if self.is_vpn_protected(pkg, env) || self.is_listed(pkg) || self.is_rule_exempt(
            pkg,
            env,
        ) || self.has_cooldown(pkg) {
            Some(None)
        } else if self.busy(pkg) {
            Some(Some("tick_exempt"))
        } else {
            None
        }
    }

    fn on_grace_next(&mut self, queue: Vec<String>, env: &Env) -> (r: Step)
        ensures
            (final(self)@, r@) == grace_next(old(self)@, env@, texts(queue@)),
    {
        let mut queue: Vec<String> = queue;
        if queue.len() == 0 {
            self.cooldown_expire(env.now);
            return Self::go(TaskKind::DeadBegin);
        }
        let name: String = pop_first(&mut queue);
        let pkg: &str = name.as_str();
        match self.grace_exempt(pkg, env) {
            Some(Some(why)) => {
                self.note(EvLevel::Info, EvAction::Exempt, pkg, why);
                self.grace_remove(pkg);
                Step::Next(Task::over(TaskKind::GraceNext, queue))
            },
            Some(None) => {
                self.grace_remove(pkg);
                Step::Next(Task::over(TaskKind::GraceNext, queue))
            },
            None => match pkg_uid(&env.table, pkg) {
                Some(u) => Step::Ask(
                    Op::Survey(u),
                    Task::within_queue(TaskKind::GraceSurvey, pkg, queue),
                ),
                None => self.try_grace_freeze(pkg, queue, None, env),
            },
        }
    }

    fn on_grace_surveyed(&mut self, pkg: &str, queue: Vec<String>, found: &Survey, env: &Env) -> (r:
        Step)
        ensures
            (final(self)@, r@) == grace_surveyed(old(self)@, env@, pkg@, texts(queue@), found@),
    {
        match pkg_uid(&env.table, pkg) {
            Some(u) => match self.check_traffic(pkg, u, found, env) {
                Some(true) => {
                    self.note(EvLevel::Info, EvAction::Exempt, pkg, "tick_high_network");
                    self.grace_remove(pkg);
                    Step::Next(Task::over(TaskKind::GraceNext, queue))
                },
                Some(false) => {
                    self.note(EvLevel::Info, EvAction::Exempt, pkg, "tick_network_exempt");
                    self.grace_remove(pkg);
                    Step::Next(Task::over(TaskKind::GraceNext, queue))
                },
                None => self.try_grace_freeze(pkg, queue, Some(found.has_procs), env),
            },
            None => self.try_grace_freeze(pkg, queue, None, env),
        }
    }

    fn try_grace_freeze(
        &mut self,
        pkg: &str,
        queue: Vec<String>,
        alive: Option<bool>,
        env: &Env,
    ) -> (r: Step)
        ensures
            (final(self)@, r@) == grace_freeze(old(self)@, env@, pkg@, texts(queue@), alive),
    {
        if self.refuse_freeze(pkg, alive, env) {
            self.grace_remove(pkg);
            return Step::Next(Task::over(TaskKind::GraceNext, queue));
        }
        Step::Ask(
            Op::Freeze(String::from_str(pkg), self.push_mode(pkg)),
            Task::within_queue(TaskKind::GraceFreeze, pkg, queue),
        )
    }

    fn on_grace_frozen(&mut self, pkg: &str, queue: Vec<String>, ok: bool, env: &Env) -> (r: Step)
        ensures
            (final(self)@, r@) == grace_frozen(old(self)@, env@, pkg@, texts(queue@), ok),
    {
        self.finish_freeze(pkg, "grace_expired", ok, env);
        self.grace_remove(pkg);
        Step::Next(Task::over(TaskKind::GraceNext, queue))
    }

    fn on_dead_next(&mut self, queue: Vec<String>, dead: Vec<String>, env: &Env) -> (r: Step)
        ensures
            (final(self)@, r@) == dead_next(old(self)@, env@, texts(queue@), texts(dead@)),
    {
        let mut queue: Vec<String> = queue;
        let mut dead: Vec<String> = dead;
        if queue.len() == 0 {
            return Step::Next(Task::over(TaskKind::DeadDrop, dead));
        }
        let name: String = pop_first(&mut queue);
        match pkg_uid(&env.table, name.as_str()) {
            Some(u) => Step::Ask(
                Op::Survey(u),
                Task::within_queue(TaskKind::DeadSurvey, name.as_str(), queue).with_found(dead),
            ),
            None => {
                let ghost before = texts(dead@);
                dead.push(name);
                assert(texts(dead@) =~= before.push(name@));
                Step::Next(Task::over(TaskKind::DeadNext, queue).with_found(dead))
            },
        }
    }

    fn on_dead_surveyed(
        &mut self,
        pkg: String,
        queue: Vec<String>,
        dead: Vec<String>,
        found: &Survey,
    ) -> (r: Step)
        ensures
            (final(self)@, r@) == dead_surveyed(
                old(self)@,
                pkg@,
                texts(queue@),
                texts(dead@),
                found@,
            ),
    {
        let mut dead: Vec<String> = dead;
        if !found.has_procs {
            let ghost before = texts(dead@);
            dead.push(pkg);
            assert(texts(dead@) =~= before.push(pkg@));
        }
        Step::Next(Task::over(TaskKind::DeadNext, queue).with_found(dead))
    }

    fn on_dead_drop(&mut self, queue: Vec<String>) -> (r: Step)
        ensures
            (final(self)@, r@) == dead_drop(old(self)@, texts(queue@)),
    {
        let mut queue: Vec<String> = queue;
        if queue.len() == 0 {
            return Self::go(TaskKind::TimeoutBegin);
        }
        let name: String = pop_first(&mut queue);
        self.frozen_remove(name.as_str());
        self.note(EvLevel::Warn, EvAction::Unfreeze, name.as_str(), "no_procs");
        Step::Next(Task::over(TaskKind::DeadDrop, queue))
    }

    fn discard_all(queue: Vec<String>, why: DiscardReason) -> (r: Step)
        ensures
            r@ == discard_queue(texts(queue@), why),
    {
        Step::Next(Task::over(TaskKind::DiscardNext, queue).with_why(why))
    }

    fn on_timeout_begin(&mut self, env: &Env) -> (r: Step)
        ensures
            (final(self)@, r@) == timeout_begin(old(self)@, env@),
    {
        let p = self.policy_ref();
        proof {
            p.lemma_fields();
        }
        if self.ticks() % 10 == 0 && p.discard_frozen_timeout_seconds > 0 {
            Self::discard_all(
                self.expired_discard_candidates(env.now),
                DiscardReason::FrozenTimeout,
            )
        } else {
            Self::go(TaskKind::RuleBegin)
        }
    }

    fn on_rule_begin(&mut self, env: &Env) -> (r: Step)
        ensures
            (final(self)@, r@) == rule_begin(old(self)@, env@),
    {
        if self.ticks() % 10 == 0 {
            Self::discard_all(self.rule_discard_candidates(env), DiscardReason::Rule)
        } else {
            Self::go(TaskKind::MemBegin)
        }
    }

    fn on_discard_next(&mut self, queue: Vec<String>, why: DiscardReason, env: &Env) -> (r: Step)
        ensures
            (final(self)@, r@) == discard_next(old(self)@, env@, texts(queue@), why),
    {
        let mut queue: Vec<String> = queue;
        if queue.len() == 0 {
            return Self::go(
                match why {
                    DiscardReason::FrozenTimeout => TaskKind::RuleBegin,
                    DiscardReason::Rule => TaskKind::MemBegin,
                    DiscardReason::MemWatermark => TaskKind::BootBegin,
                    DiscardReason::BootReclaim => TaskKind::RelockBegin,
                },
            );
        }
        if why == DiscardReason::MemWatermark {
            return Step::Ask(Op::Memory, Task::over(TaskKind::MemAgain, queue));
        }
        let name: String = pop_first(&mut queue);
        self.discard_pkg(name.as_str(), queue, why, env)
    }

    /// Begins to discard a package, with more to come.
    pub fn discard_pkg(&mut self, pkg: &str, queue: Vec<String>, why: DiscardReason, env: &Env) -> (r:
        Step)
        ensures
            (final(self)@, r@) == discard_one(old(self)@, env@, pkg@, texts(queue@), why),
    {
        if self.discard_ineligible(pkg, env) {
            return Self::discard_all(queue, why);
        }
        match pkg_uid(&env.table, pkg) {
            Some(u) => Step::Ask(
                Op::Survey(u),
                Task::within_queue(TaskKind::DiscardSurvey, pkg, queue).with_why(why),
            ),
            None => {
                self.frozen_remove(pkg);
                Self::discard_all(queue, why)
            },
        }
    }

    fn on_discard_surveyed(
        &mut self,
        pkg: &str,
        queue: Vec<String>,
        why: DiscardReason,
        found: &Survey,
        env: &Env,
    ) -> (r: Step)
        ensures
            (final(self)@, r@) == discard_surveyed(
                old(self)@,
                env@,
                pkg@,
                texts(queue@),
                why,
                found@,
            ),
    {
        match pkg_uid(&env.table, pkg) {
            Some(u) => {
                if self.discard_ineligible(pkg, env) {
                    return Self::discard_all(queue, why);
                }
                if found.has_procs {
                    return Step::Ask(
                        Op::Discard(u),
                        Task::within_queue(TaskKind::DiscardKill, pkg, queue).with_why(
                            why,
                        ).with_uid(u),
                    );
                }
                self.frozen_remove(pkg);
                Self::discard_all(queue, why)
            },
            None => {
                self.frozen_remove(pkg);
                Self::discard_all(queue, why)
            },
        }
    }

    fn count_discard(&mut self, why: DiscardReason)
        ensures
            final(self)@ == (EngineView {
                counters: discard_counted(old(self)@.counters, why),
                ..old(self)@
            }),
    {
        self.bump_discard_ops();
        match why {
            DiscardReason::FrozenTimeout => self.bump_discard_frozen_timeout(),
            DiscardReason::Rule => self.bump_discard_rule(),
            DiscardReason::MemWatermark => self.bump_discard_mem_watermark(),
            DiscardReason::BootReclaim => self.bump_discard_boot_reclaim(),
        }
    }

    fn remember_discarded(&mut self, pkg: &str)
        ensures
            final(self)@ == (EngineView {
                discarded: remembered(old(self)@.discarded, pkg@),
                ..old(self)@
            }),
    {
        let mut list: Vec<String> = Vec::new();
        let v = self.discarded_ref();
        let ghost all = texts(v@);
        let mut i: usize = 0;
        assert(texts(list@) =~= all.take(0));
        while i < v.len()
            invariant
                i <= v.len(),
                all == texts(v@),
                texts(list@) == all.take(i as int),
            decreases v.len() - i,
        {
            let ghost done = texts(list@);
            list.push(v[i].clone());
            assert(texts(list@) =~= done.push(all[i as int]));
            assert(texts(list@) =~= all.take(i + 1));
            i = i + 1;
        }
        assert(all.take(all.len() as int) =~= all);
        remove_name(&mut list, pkg);
        let ghost w = texts(list@);
        list.push(String::from_str(pkg));
        assert(texts(list@) =~= w.push(pkg@));
        if list.len() > MAX_DISCARDED {
            let ghost full = texts(list@);
            list.remove(0);
            assert(texts(list@) =~= full.skip(1));
        }
        self.set_discarded(list);
    }

    fn on_discard_killed(
        &mut self,
        pkg: &str,
        uid: u32,
        queue: Vec<String>,
        why: DiscardReason,
        killed: u64,
        env: &Env,
    ) -> (r: Step)
        ensures
            (final(self)@, r@) == discard_killed(
                old(self)@,
                env@,
                pkg@,
                uid,
                texts(queue@),
                why,
                killed,
            ),
    {
        self.frozen_remove(pkg);
        if killed > 0 {
            self.grace_remove(pkg);
            self.cooldown_remove(pkg);
            self.adj_remove(pkg);
            self.count_discard(why);
            self.remember_discarded(pkg);
            if why == DiscardReason::Rule {
                self.rule_hit(pkg, RuleCondition::Always, None, env.now, env.today);
            }
            self.profile_discard(pkg, env.epoch);
            let mut msg: String = String::from_str("uid=");
            push_dec(&mut msg, uid as u64);
            msg.append(" killed=");
            push_dec(&mut msg, killed);
            self.note_msg(EvLevel::Warn, EvAction::Discard, pkg, why.as_str(), msg.as_str());
        }
        Self::discard_all(queue, why)
    }

    fn mem_floor(&self) -> (r: u64)
        ensures
            r == watermark_kb(self@),
    {
        let p = self.policy_ref();
        proof {
            p.lemma_fields();
        }
        match p.discard_mem_watermark_mb.checked_mul(1024) {
            Some(n) => n,
            None => u64::MAX,
        }
    }

    fn on_mem_begin(&mut self) -> (r: Step)
        ensures
            (final(self)@, r@) == mem_begin(old(self)@),
    {
        let p = self.policy_ref();
        proof {
            p.lemma_fields();
        }
        if self.ticks() % 20 == 0 && p.discard_mem_watermark_mb > 0 && self.frozen_map().len() > 0 {
            Step::Ask(Op::Memory, Task::plain(TaskKind::MemFirst))
        } else {
            Self::go(TaskKind::BootBegin)
        }
    }

    fn frozen_table_uids(&self, env: &Env) -> (r: Vec<u32>)
        ensures
            r@ == table_uids(env@, keys_of(self@.frozen)),
    {
        let m: &NameMap<u64> = self.frozen_map();
        let mut out: Vec<u32> = Vec::new();
        let mut i: usize = 0;
        let ghost all = table_uids(env@, keys_of(m@));
        while i < m.len()
            invariant
                i <= m@.len(),
                all == table_uids(env@, keys_of(m@)),
                out@ == all.take(i as int),
            decreases m@.len() - i,
        {
            let u: u32 = match pkg_uid(&env.table, m.key_at(i)) {
                Some(u) => u,
                None => 0,
            };
            out.push(u);
            assert(out@ =~= all.take(i + 1));
            i = i + 1;
        }
        assert(all.take(all.len() as int) =~= all);
        out
    }

    fn on_mem_first(&mut self, avail: Option<u64>, env: &Env) -> (r: Step)
        ensures
            (final(self)@, r@) == mem_first(old(self)@, env@, avail),
    {
        match avail {
            Some(a) => if a < self.mem_floor() {
                Step::Ask(
                    Op::Resident(self.frozen_table_uids(env)),
                    Task::plain(TaskKind::MemResident),
                )
            } else {
                Self::go(TaskKind::BootBegin)
            },
            None => Self::go(TaskKind::BootBegin),
        }
    }

    fn on_mem_again(&mut self, queue: Vec<String>, avail: Option<u64>, env: &Env) -> (r: Step)
        ensures
            (final(self)@, r@) == mem_again(old(self)@, env@, texts(queue@), avail),
    {
        let mut queue: Vec<String> = queue;
        match avail {
            Some(a) => {
                if a >= self.mem_floor() || queue.len() == 0 {
                    return Self::go(TaskKind::BootBegin);
                }
                let name: String = pop_first(&mut queue);
                self.discard_pkg(name.as_str(), queue, DiscardReason::MemWatermark, env)
            },
            None => Self::go(TaskKind::BootBegin),
        }
    }

    fn on_boot_begin(&mut self) -> (r: Step)
        ensures
            (final(self)@, r@) == boot_begin(old(self)@),
    {
        if self.ticks() % 100 == 0 && self.boot_at().is_none() {
            Step::Ask(Op::BootCompleted, Task::plain(TaskKind::BootFlag))
        } else {
            Self::go(TaskKind::ReclaimBegin)
        }
    }

    fn on_boot_flag(&mut self, booted: bool, env: &Env) -> (r: Step)
        ensures
            (final(self)@, r@) == boot_flag(old(self)@, env@, booted),
    {
        if booted {
            self.set_boot_completed(env.now);
        }
        Self::go(TaskKind::ReclaimBegin)
    }

    fn is_reclaim_due(&self, env: &Env) -> (r: bool)
        ensures
            r == reclaim_due(self@, env@),
    {
        let p = self.policy_ref();
        proof {
            p.lemma_fields();
        }
        p.discard_boot_reclaim && !self.boot_done() && match self.boot_at() {
            Some(at) => passed(env.now, at, p.discard_boot_reclaim_delay_seconds),
            None => false,
        }
    }

    fn reclaim_candidates(&self) -> (r: Vec<String>)
        ensures
            texts(r@) == reclaim_names(self@.boot_reclaim_candidates, keys_of(self@.frozen)),
    {
        let c = self.candidates_ref();
        let ghost cv = pair_views(c@);
        let mut set: crate::names::NameSet = crate::names::NameSet::new();
        let mut i: usize = 0;
        let ghost none = Seq::<Seq<char>>::empty();
        assert(set@ == reclaim_names(cv.take(0), none));
        while i < c.len()
            invariant
                i <= c.len(),
                cv == pair_views(c@),
                none == Seq::<Seq<char>>::empty(),
                set@ == reclaim_names(cv.take(i as int), none),
            decreases c.len() - i,
        {
            assert(cv.take(i + 1).drop_last() =~= cv.take(i as int));
            set.insert(c[i].0.clone());
            i = i + 1;
        }
        assert(cv.take(cv.len() as int) =~= cv);
        let m = self.frozen_map();
        let ghost ks = keys_of(m@);
        let mut j: usize = 0;
        assert(ks.take(0) =~= none);
        while j < m.len()
            invariant
                j <= m@.len(),
                ks == keys_of(m@),
                set@ == reclaim_names(cv, ks.take(j as int)),
            decreases m@.len() - j,
        {
            assert(ks.take(j + 1).drop_last() =~= ks.take(j as int));
            set.insert(String::from_str(m.key_at(j)));
            j = j + 1;
        }
        assert(ks.take(ks.len() as int) =~= ks);
        set.into_list()
    }

    fn on_reclaim_begin(&mut self, env: &Env) -> (r: Step)
        ensures
            (final(self)@, r@) == reclaim_begin(old(self)@, env@),
    {
        if self.is_reclaim_due(env) {
            let names: Vec<String> = self.reclaim_candidates();
            self.set_boot_reclaim_done();
            Step::Next(Task::over(TaskKind::ReclaimNext, names))
        } else {
            Self::go(TaskKind::RelockBegin)
        }
    }

    fn on_reclaim_next(&mut self, queue: Vec<String>, chosen: Vec<String>, env: &Env) -> (r: Step)
        ensures
            (final(self)@, r@) == reclaim_next(old(self)@, env@, texts(queue@), texts(chosen@)),
    {
        let mut queue: Vec<String> = queue;
        if queue.len() == 0 {
            return Self::discard_all(sort_texts(&chosen), DiscardReason::BootReclaim);
        }
        let name: String = pop_first(&mut queue);
        if self.discard_ineligible(name.as_str(), env) {
            return Step::Next(Task::over(TaskKind::ReclaimNext, queue).with_found(chosen));
        }
        match pkg_uid(&env.table, name.as_str()) {
            Some(u) => Step::Ask(
                Op::Levels(u),
                Task::within_queue(TaskKind::ReclaimLevels, name.as_str(), queue).with_found(
                    chosen,
                ),
            ),
            None => Step::Next(Task::over(TaskKind::ReclaimNext, queue).with_found(chosen)),
        }
    }

    fn on_reclaim_levels(
        &mut self,
        pkg: String,
        queue: Vec<String>,
        chosen: Vec<String>,
        levels: &Vec<Option<i32>>,
    ) -> (r: Step)
        ensures
            (final(self)@, r@) == reclaim_levels(
                old(self)@,
                pkg@,
                texts(queue@),
                texts(chosen@),
                levels@,
            ),
    {
        let mut chosen: Vec<String> = chosen;
        if is_cache_level(levels) {
            let ghost before = texts(chosen@);
            chosen.push(pkg);
            assert(texts(chosen@) =~= before.push(pkg@));
        }
        Step::Next(Task::over(TaskKind::ReclaimNext, queue).with_found(chosen))
    }

    fn on_relock_begin(&mut self, env: &Env) -> (r: Step)
        ensures
            (final(self)@, r@) == relock_begin(old(self)@, env@),
    {
        if self.ticks() % 5 == 0 {
            let m: &NameMap<u64> = self.frozen_map();
            let ghost ks = keys_of(m@);
            let mut uids: Vec<u32> = Vec::new();
            let mut i: usize = 0;
            while i < m.len()
                invariant
                    i <= m@.len(),
                    ks == keys_of(m@),
                    uids@ == listed_uids(env@, ks.take(i as int)),
                decreases m@.len() - i,
            {
                assert(ks.take(i + 1).drop_last() =~= ks.take(i as int));
                if let Some(u) = pkg_uid(&env.table, m.key_at(i)) {
                    uids.push(u);
                }
                i = i + 1;
            }
            assert(ks.take(ks.len() as int) =~= ks);
            Step::Ask(Op::Protect(uids), Task::plain(TaskKind::RestoreBegin))
        } else {
            Self::go(TaskKind::RestoreBegin)
        }
    }

    fn on_restore_begin(&mut self) -> (r: Step)
        ensures
            (final(self)@, r@) == restore_begin(old(self)@),
    {
        match self.focus_ref() {
            Some(f) => if self.in_adj(f.as_str()) {
                Step::Ask(Op::RestoreOom(f.clone()), Task::about(TaskKind::Restored, f.as_str()))
            } else {
                Self::go(TaskKind::CountTick)
            },
            None => Self::go(TaskKind::CountTick),
        }
    }

    fn on_restored(&mut self, pkg: &str) -> (r: Step)
        ensures
            (final(self)@, r@) == restored(old(self)@, pkg@),
    {
        self.adj_remove(pkg);
        Self::go(TaskKind::CountTick)
    }

    fn on_count_tick(&mut self) -> (r: Step)
        ensures
            (final(self)@, r@) == count_tick(old(self)@),
    {
        self.bump_tick_count();
        if self.ticks() % 10 == 0 && self.frozen_map().len() > 0 {
            Step::Next(Task::over(TaskKind::NetNext, self.frozen_map().keys()))
        } else {
            Self::go(TaskKind::PersistBegin)
        }
    }

    fn on_net_next(&mut self, queue: Vec<String>, wake: Vec<String>, env: &Env) -> (r: Step)
        ensures
            (final(self)@, r@) == net_next(old(self)@, env@, texts(queue@), texts(wake@)),
    {
        let mut queue: Vec<String> = queue;
        if queue.len() == 0 {
            return Step::Next(Task::over(TaskKind::NetThawNext, wake));
        }
        let name: String = pop_first(&mut queue);
        if self.keep_net(name.as_str()) {
            if let Some(u) = pkg_uid(&env.table, name.as_str()) {
                return Step::Ask(
                    Op::Survey(u),
                    Task::within_queue(TaskKind::NetSurvey, name.as_str(), queue).with_found(wake),
                );
            }
        }
        Step::Next(Task::over(TaskKind::NetNext, queue).with_found(wake))
    }

    fn on_net_surveyed(
        &mut self,
        pkg: String,
        queue: Vec<String>,
        wake: Vec<String>,
        found: &Survey,
        env: &Env,
    ) -> (r: Step)
        ensures
            (final(self)@, r@) == net_surveyed(
                old(self)@,
                env@,
                pkg@,
                texts(queue@),
                texts(wake@),
                found@,
            ),
    {
        let mut wake: Vec<String> = wake;
        if let Some(u) = pkg_uid(&env.table, pkg.as_str()) {
            if self.net_sample(u, 0, 1, &found.reading, env.now) {
                let ghost before = texts(wake@);
                wake.push(pkg);
                assert(texts(wake@) =~= before.push(pkg@));
            }
        }
        Step::Next(Task::over(TaskKind::NetNext, queue).with_found(wake))
    }

    fn on_net_thaw_next(&mut self, queue: Vec<String>) -> (r: Step)
        ensures
            (final(self)@, r@) == net_thaw_next(old(self)@, texts(queue@)),
    {
        let mut queue: Vec<String> = queue;
        if queue.len() == 0 {
            return Self::go(TaskKind::PersistBegin);
        }
        let name: String = pop_first(&mut queue);
        let t: Task = Task::within_queue(TaskKind::NetThaw, name.as_str(), queue);
        Step::Ask(Op::ThawKeepOom(name), t)
    }

    fn on_net_thawed(&mut self, pkg: &str, queue: Vec<String>, ok: bool, env: &Env) -> (r: Step)
        ensures
            (final(self)@, r@) == net_thawed(old(self)@, env@, pkg@, texts(queue@), ok),
    {
        if ok {
            self.bump_unfreeze_ops();
            self.bump_wakeup_thaws();
            self.adj_insert(pkg);
        }
        self.frozen_remove(pkg);
        self.grace_remove(pkg);
        self.cool_down(pkg, env);
        self.note(EvLevel::Info, EvAction::Unfreeze, pkg, "network_wakeup");
        Step::Next(Task::over(TaskKind::NetThawNext, queue))
    }

    fn on_persist_begin(&mut self, env: &Env) -> (r: Step)
        ensures
            (final(self)@, r@) == persist_begin(old(self)@, env@),
    {
        let snap: Vec<(String, u32)> = self.snapshot(env);
        let same: bool = match self.persisted_ref() {
            Some(v) => same_pairs(v, &snap),
            None => false,
        };
        if same {
            return Self::go(TaskKind::EventsBegin);
        }
        let text: String = frozen_state_text(&snap);
        self.set_last_persist(snap);
        Step::Ask(Op::SaveState(text), Task::plain(TaskKind::EventsBegin))
    }

    fn on_events_begin(&mut self) -> (r: Step)
        ensures
            (final(self)@, r@) == events_begin(old(self)@),
    {
        let (text, n) = self.log_ref().pending_text();
        if n > 0 {
            Step::Ask(Op::SaveEvents(text), Task::plain(TaskKind::EventsSaved))
        } else {
            Step::Done
        }
    }

    fn on_events_saved(&mut self, ok: bool) -> (r: Step)
        ensures
            (final(self)@, r@) == events_saved(old(self)@, ok),
    {
        self.log_persist(ok);
        Step::Done
    }

    fn on_reload_next(&mut self, queue: Vec<String>) -> (r: Step)
        ensures
            (final(self)@, r@) == reload_next(old(self)@, texts(queue@)),
    {
        let mut queue: Vec<String> = queue;
        if queue.len() == 0 {
            return Step::Done;
        }
        let name: String = pop_first(&mut queue);
        let t: Task = Task::within_queue(TaskKind::ReloadThaw, name.as_str(), queue);
        Step::Ask(Op::Thaw(name), t)
    }

    fn on_reload_thawed(&mut self, pkg: &str, queue: Vec<String>, ok: bool) -> (r: Step)
        ensures
            (final(self)@, r@) == reload_thawed(old(self)@, pkg@, texts(queue@), ok),
    {
        if ok {
            self.bump_unfreeze_ops();
        }
        self.frozen_remove(pkg);
        self.grace_remove(pkg);
        self.note(EvLevel::Info, EvAction::Unfreeze, pkg, "policy_reload");
        Step::Next(Task::over(TaskKind::ReloadNext, queue))
    }

    /// Goes on with a task: it takes up the reply to the operation that it was handed out
    /// with, or nothing where there was none.
    pub fn resume(&mut self, task: Task, reply: Reply, env: &Env) -> (r: Step)
        ensures
            (final(self)@, r@) == step(old(self)@, env@, task@, reply@),
    {
        self.set_clock(env.epoch);
        let Task { kind, pkg, queue, found, uid, why, total } = task;
        match kind {
            TaskKind::Finish => Step::Done,
            TaskKind::FocusThaw => self.on_focus_thawed(pkg.as_str(), reply.flag(), env),
            TaskKind::FocusProbe => self.on_focus_probed(pkg.as_str(), &reply.survey(), env),
            TaskKind::FocusResidual => self.on_focus_residual(pkg.as_str(), reply.flag(), env),
            TaskKind::LeaveSurvey => self.on_leave_surveyed(pkg.as_str(), &reply.survey(), env),
            TaskKind::LeaveFreeze => {
                self.finish_freeze(pkg.as_str(), "force", reply.flag(), env);
                Step::Done
            },
            TaskKind::RuleFreeze => self.on_rule_frozen(pkg.as_str(), reply.flag(), env),
            TaskKind::WakeThaw => self.on_wakeup_thawed(pkg.as_str(), reply.flag(), env),
            TaskKind::ReloadNext => self.on_reload_next(queue),
            TaskKind::ReloadThaw => self.on_reload_thawed(pkg.as_str(), queue, reply.flag()),
            TaskKind::TickBody => self.on_tick_body(env),
            TaskKind::DisabledNext => self.on_disabled_next(queue, total),
            TaskKind::DisabledThaw => self.on_disabled_thawed(queue, total, reply.flag()),
            TaskKind::DisabledClear => self.on_disabled_clear(),
            TaskKind::GraceNext => self.on_grace_next(queue, env),
            TaskKind::GraceSurvey => self.on_grace_surveyed(
                pkg.as_str(),
                queue,
                &reply.survey(),
                env,
            ),
            TaskKind::GraceFreeze => self.on_grace_frozen(pkg.as_str(), queue, reply.flag(), env),
            TaskKind::DeadBegin => Step::Next(
                Task::over(TaskKind::DeadNext, self.frozen_map().keys()),
            ),
            TaskKind::DeadNext => self.on_dead_next(queue, found, env),
            TaskKind::DeadSurvey => self.on_dead_surveyed(pkg, queue, found, &reply.survey()),
            TaskKind::DeadDrop => self.on_dead_drop(queue),
            TaskKind::TimeoutBegin => self.on_timeout_begin(env),
            TaskKind::RuleBegin => self.on_rule_begin(env),
            TaskKind::DiscardNext => self.on_discard_next(queue, why, env),
            TaskKind::DiscardSurvey => self.on_discard_surveyed(
                pkg.as_str(),
                queue,
                why,
                &reply.survey(),
                env,
            ),
            TaskKind::DiscardKill => {
                let killed: u64 = match reply.number() {
                    Some(n) => n,
                    None => 0,
                };
                self.on_discard_killed(pkg.as_str(), uid, queue, why, killed, env)
            },
            TaskKind::MemBegin => self.on_mem_begin(),
            TaskKind::MemFirst => self.on_mem_first(reply.number(), env),
            TaskKind::MemResident => Self::discard_all(
                self.sort_discard_candidates(&reply.numbers()),
                DiscardReason::MemWatermark,
            ),
            TaskKind::MemAgain => self.on_mem_again(queue, reply.number(), env),
            TaskKind::BootBegin => self.on_boot_begin(),
            TaskKind::BootFlag => self.on_boot_flag(reply.flag(), env),
            TaskKind::ReclaimBegin => self.on_reclaim_begin(env),
            TaskKind::ReclaimNext => self.on_reclaim_next(queue, found, env),
            TaskKind::ReclaimLevels => self.on_reclaim_levels(pkg, queue, found, &reply.levels()),
            TaskKind::RelockBegin => self.on_relock_begin(env),
            TaskKind::RestoreBegin => self.on_restore_begin(),
            TaskKind::Restored => self.on_restored(pkg.as_str()),
            TaskKind::CountTick => self.on_count_tick(),
            TaskKind::NetNext => self.on_net_next(queue, found, env),
            TaskKind::NetSurvey => self.on_net_surveyed(pkg, queue, found, &reply.survey(), env),
            TaskKind::NetThawNext => self.on_net_thaw_next(queue),
            TaskKind::NetThaw => self.on_net_thawed(pkg.as_str(), queue, reply.flag(), env),
            TaskKind::PersistBegin => self.on_persist_begin(env),
            TaskKind::EventsBegin => self.on_events_begin(),
            TaskKind::EventsSaved => self.on_events_saved(reply.flag()),
        }
    }
}

/// Whether two lists of packages and uids are the same.
fn same_pairs(a: &Vec<(String, u32)>, b: &Vec<(String, u32)>) -> (r: bool)
    ensures
        r == (pair_views(a@) == pair_views(b@)),
{
    if a.len() != b.len() {
        assert(pair_views(a@).len() != pair_views(b@).len());
        return false;
    }
    let ghost x = pair_views(a@);
    let ghost y = pair_views(b@);
    let mut i: usize = 0;
    while i < a.len()
        invariant
            i <= a.len(),
            a.len() == b.len(),
            x == pair_views(a@),
            y == pair_views(b@),
            forall|j: int| 0 <= j < i ==> x[j] == y[j],
        decreases a.len() - i,
    {
        if !(str_eq(a[i].0.as_str(), b[i].0.as_str()) && a[i].1 == b[i].1) {
            assert(x[i as int] != y[i as int]);
            return false;
        }
        i = i + 1;
    }
    assert(x =~= y);
    true
}

} // verus!
