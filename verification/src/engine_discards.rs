//! Which frozen apps are discarded, when, and what is left of them.

use vstd::prelude::*;
use crate::engine_effects::law_discard_rules_are_exact;
use crate::engine_guards::law_timeout_is_exact;
use crate::engine_laws::group_tables;
use crate::engine_ops::{
    plain, within_queue, DiscardReason, EnvView, OpView, ReplyView, StepView, SurveyView, TaskKind,
    TaskView,
};
use crate::engine_rules::{all_cached, law_discard_order, ranking, rss_at, Ranked};
use crate::engine_settings::{active, off_limits, seconds_apart};
use crate::engine_state::EngineView;
use crate::engine_tick::{
    boot_begin, boot_flag, dead_drop, dead_next, dead_surveyed, discard_next, discard_one,
    discard_surveyed, mem_again, mem_begin, mem_first, mem_ranked, reclaim_begin, reclaim_levels,
    reclaim_names, reclaim_next, rule_begin, step, timeout_begin,
};
use crate::events::{EvAction, EvLevel};
use crate::names::{
    has_key, keys_of, lemma_with_name, lemma_without_key, lemma_without_name, unique_keys, value_of,
};
use crate::order::sorted_texts;
use crate::policy::AppMode;
use crate::rules::{chosen, RuleAction, RuleCondition};
use crate::text::dec;

verus! {

// ---- By rule ----

/// Where the rule that applies to a frozen package at any time says that it is discarded, and
/// after how many seconds, it is discarded exactly when it has been frozen that long, whatever
/// the policy says of frozen packages; only where the rule gives no time does that of the
/// policy decide, and none where that is 0. No other rule, and no rule at all, discards it.
pub proof fn law_rule_discards_by_its_own_time(s: EngineView, e: EnvView, p: Seq<char>, since: u64)
    requires
        unique_keys(s.frozen),
        s.tick_count % 10 == 0,
        value_of(s.frozen, p) == Some(since),
    ensures
        rule_begin(s, e).1 matches StepView::Next(t) && t.kind == TaskKind::DiscardNext && t.why
            == DiscardReason::Rule && match chosen(
            s.rules.rules,
            p,
            RuleCondition::Always,
            None,
            e.now,
            e.today,
        ) {
            Some(i) => {
                let rule = s.rules.rules[i];
                let limit = s.policy.discard_frozen_timeout_seconds;
                &&& rule.action != RuleAction::Discard ==> !t.queue.contains(p)
                &&& rule.action == RuleAction::Discard ==> (rule.after_seconds matches Some(n) ==> (
                t.queue.contains(p) <==> seconds_apart(since, e.now, n)))
                &&& rule.action == RuleAction::Discard && rule.after_seconds is None ==> (
                t.queue.contains(p) <==> limit > 0 && seconds_apart(since, e.now, limit))
            },
            None => !t.queue.contains(p),
        },
{
    law_discard_rules_are_exact(s, e, p);
}

/// The time that the policy sets for frozen packages makes no difference to one that a rule
/// with a time of its own wants discarded.
pub proof fn law_rule_time_outranks_the_policy(
    s: EngineView,
    u: EngineView,
    e: EnvView,
    p: Seq<char>,
    q: Seq<Seq<char>>,
    r: Seq<Seq<char>>,
)
    requires
        unique_keys(s.frozen),
        s.tick_count % 10 == 0,
        u.frozen == s.frozen && u.rules == s.rules && u.tick_count == s.tick_count,
        chosen(s.rules.rules, p, RuleCondition::Always, None, e.now, e.today) matches Some(i)
            && s.rules.rules[i].after_seconds is Some,
        rule_begin(s, e).1 matches StepView::Next(t) && t.queue == q,
        rule_begin(u, e).1 matches StepView::Next(t) && t.queue == r,
    ensures
        q.contains(p) <==> r.contains(p),
{
    law_discard_rules_are_exact(s, e, p);
    law_discard_rules_are_exact(u, e, p);
}

/// Only every tenth tick looks for packages to discard by a rule or for their time.
pub proof fn law_discards_every_tenth_tick(s: EngineView, e: EnvView, p: Seq<char>)
    requires
        unique_keys(s.frozen),
    ensures
        s.tick_count % 10 != 0 ==> rule_begin(s, e) == (s, StepView::Next(plain(TaskKind::MemBegin))),
        s.tick_count % 10 != 0 || s.policy.discard_frozen_timeout_seconds == 0 ==> timeout_begin(s, e)
            == (s, StepView::Next(plain(TaskKind::RuleBegin))),
        s.tick_count % 10 == 0 && s.policy.discard_frozen_timeout_seconds > 0 ==> (timeout_begin(
            s,
            e,
        ).1 matches StepView::Next(t) && t.kind == TaskKind::DiscardNext && t.why
            == DiscardReason::FrozenTimeout && (t.queue.contains(p) <==> (value_of(
            s.frozen,
            p,
        ) matches Some(since) && seconds_apart(
            since,
            e.now,
            s.policy.discard_frozen_timeout_seconds,
        )))),
{
    law_timeout_is_exact(s, e.now, p);
}

// ---- Who may be discarded ----

/// Whether a package must not be discarded: it must not be frozen, is important, in the
/// foreground, or active.
pub open spec fn to_be_kept(s: EngineView, e: EnvView, pkg: Seq<char>) -> bool {
    ||| off_limits(s, e, pkg)
    ||| value_of(s.policy.apps, pkg) matches Some(a) && a.mode == AppMode::Important
    ||| s.last_focus == Some(pkg)
    ||| active(s, pkg)
}

/// A package that is to be kept is passed over, and stays as it is; another one is looked at,
/// and where it has processes these are killed, with its own uid. One without a uid or without
/// processes is forgotten as frozen.
pub proof fn law_who_is_discarded(
    s: EngineView,
    e: EnvView,
    pkg: Seq<char>,
    rest: Seq<Seq<char>>,
    why: DiscardReason,
    found: SurveyView,
)
    ensures
        ({
            let (u, st) = discard_one(s, e, pkg, rest, why);
            let (v, then) = discard_surveyed(s, e, pkg, rest, why, found);
            let on = StepView::Next(
                TaskView { why, queue: rest, ..plain(TaskKind::DiscardNext) },
            );
            &&& to_be_kept(s, e, pkg) ==> u == s && st == on
            &&& to_be_kept(s, e, pkg) && value_of(e.table, pkg) is Some ==> v == s && then == on
            &&& !to_be_kept(s, e, pkg) ==> match value_of(e.table, pkg) {
                Some(uid) => {
                    &&& u == s
                    &&& st == StepView::Ask(
                        OpView::Survey(uid),
                        TaskView { why, ..within_queue(TaskKind::DiscardSurvey, pkg, rest) },
                    )
                    &&& found.has_procs ==> v == s && then == StepView::Ask(
                        OpView::Discard(uid),
                        TaskView { why, uid, ..within_queue(TaskKind::DiscardKill, pkg, rest) },
                    )
                    &&& !found.has_procs ==> then == on && !has_key(v.frozen, pkg)
                },
                None => st == on && !has_key(u.frozen, pkg) && then == on && !has_key(
                    v.frozen,
                    pkg,
                ),
            }
            &&& u.grace == s.grace && v.grace == s.grace
            &&& u.counters == s.counters && v.counters == s.counters
            &&& forall|p: Seq<char>| p != pkg ==> #[trigger] value_of(u.frozen, p) == value_of(
                s.frozen,
                p,
            )
            &&& forall|p: Seq<char>| p != pkg ==> #[trigger] value_of(v.frozen, p) == value_of(
                s.frozen,
                p,
            )
        }),
{
    broadcast use group_tables;

    assert forall|p: Seq<char>| p != pkg implies value_of(
        #[trigger] crate::names::without_key(s.frozen, pkg),
        p,
    ) == value_of(s.frozen, p) by {
        lemma_without_key(s.frozen, pkg, p);
    }
    let u = discard_one(s, e, pkg, rest, why).0;
    let v = discard_surveyed(s, e, pkg, rest, why, found).0;
    assert forall|p: Seq<char>| p != pkg implies #[trigger] value_of(u.frozen, p) == value_of(
        s.frozen,
        p,
    ) by {
        lemma_without_key(s.frozen, pkg, p);
    }
    assert forall|p: Seq<char>| p != pkg implies #[trigger] value_of(v.frozen, p) == value_of(
        s.frozen,
        p,
    ) by {
        lemma_without_key(s.frozen, pkg, p);
    }
}

/// What is left of a package whose processes were killed: it is in no table any longer, it is
/// the last of the packages that were discarded, and one more discard is counted, in all and
/// for its reason alone. Where nothing was killed it is only forgotten as frozen.
pub proof fn law_what_a_discard_leaves(s: EngineView, e: EnvView, t: TaskView, r: ReplyView)
    requires
        t.kind == TaskKind::DiscardKill,
    ensures
        ({
            let (u, st) = step(s, e, t, r);
            let killed = r matches ReplyView::Number(Some(n)) && n > 0;
            let before = s.counters;
            let c = u.counters;
            let said = u.log.events.last();
            &&& !has_key(u.frozen, t.pkg)
            &&& st == StepView::Next(
                TaskView { why: t.why, queue: t.queue, ..plain(TaskKind::DiscardNext) },
            )
            &&& c.freeze_ops == before.freeze_ops && c.unfreeze_ops == before.unfreeze_ops
                && c.wakeup_thaws == before.wakeup_thaws && c.wake_throttled
                == before.wake_throttled
            &&& !killed ==> c == before && u.grace == s.grace && u.discarded == s.discarded
            &&& killed ==> {
                &&& !has_key(u.grace, t.pkg)
                &&& !has_key(u.cooldown, t.pkg)
                &&& !u.adj_keep.contains(t.pkg)
                &&& u.discarded.len() > 0 && u.discarded.last() == t.pkg
                &&& c.discard_ops == before.discard_ops.wrapping_add(1)
                &&& c.discard_frozen_timeout == (if t.why == DiscardReason::FrozenTimeout {
                    before.discard_frozen_timeout.wrapping_add(1)
                } else {
                    before.discard_frozen_timeout
                })
                &&& c.discard_rule == (if t.why == DiscardReason::Rule {
                    before.discard_rule.wrapping_add(1)
                } else {
                    before.discard_rule
                })
                &&& c.discard_mem_watermark == (if t.why == DiscardReason::MemWatermark {
                    before.discard_mem_watermark.wrapping_add(1)
                } else {
                    before.discard_mem_watermark
                })
                &&& c.discard_boot_reclaim == (if t.why == DiscardReason::BootReclaim {
                    before.discard_boot_reclaim.wrapping_add(1)
                } else {
                    before.discard_boot_reclaim
                })
                &&& said.pkg == Some(t.pkg) && said.action == EvAction::Discard && said.level
                    == EvLevel::Warn
                &&& said.msg == Some(
                    "uid="@ + dec(t.uid as nat) + " killed="@ + dec((r->Number_0)->0 as nat),
                )
            }
        }),
{
    broadcast use group_tables;

    lemma_without_name(s.adj_keep, t.pkg, t.pkg);
    lemma_without_name(s.discarded, t.pkg, t.pkg);
}

/// A package that is discarded again moves to the end of those that were discarded last; the
/// others keep their places, but for the first where there are more than 20.
pub proof fn law_last_discards_are_remembered(s: EngineView, e: EnvView, t: TaskView, n: u64)
    requires
        t.kind == TaskKind::DiscardKill,
        n > 0,
        !s.discarded.contains(t.pkg),
    ensures
        ({
            let u = step(s, e, t, ReplyView::Number(Some(n))).0;
            &&& s.discarded.len() < 20 ==> u.discarded == s.discarded.push(t.pkg)
            &&& s.discarded.len() >= 20 ==> u.discarded == s.discarded.push(t.pkg).skip(1)
        }),
{
    lemma_without_name(s.discarded, t.pkg, t.pkg);
}

// ---- Apps without processes ----

/// A frozen app is forgotten exactly where its uid is not known, or where it is found to have
/// no process.
pub proof fn law_dead_apps_are_forgotten(
    s: EngineView,
    e: EnvView,
    pkg: Seq<char>,
    rest: Seq<Seq<char>>,
    dead: Seq<Seq<char>>,
    found: SurveyView,
)
    ensures
        ({
            let (u, st) = dead_next(s, e, seq![pkg] + rest, dead);
            let (v, then) = dead_surveyed(s, pkg, rest, dead, found);
            let (w, last) = dead_drop(s, seq![pkg] + rest);
            &&& u == s && v == s
            &&& match value_of(e.table, pkg) {
                Some(uid) => st matches StepView::Ask(op, t) && op == OpView::Survey(uid) && t.kind
                    == TaskKind::DeadSurvey && t.pkg == pkg && t.queue == rest && t.found == dead,
                None => st matches StepView::Next(t) && t.kind == TaskKind::DeadNext && t.queue
                    == rest && t.found == dead.push(pkg),
            }
            &&& then matches StepView::Next(t) && t.kind == TaskKind::DeadNext && t.queue == rest
                && (found.has_procs ==> t.found == dead) && (!found.has_procs ==> t.found
                == dead.push(pkg))
            &&& !has_key(w.frozen, pkg)
            &&& w.counters == s.counters
            &&& last == StepView::Next(TaskView { queue: rest, ..plain(TaskKind::DeadDrop) })
            &&& dead_next(s, e, Seq::empty(), dead) == (
                s,
                StepView::Next(TaskView { queue: dead, ..plain(TaskKind::DeadDrop) }),
            )
        }),
{
    broadcast use group_tables;

    assert((seq![pkg] + rest).skip(1) =~= rest);
    assert((seq![pkg] + rest)[0] == pkg);
}

// ---- For want of memory ----

/// Frozen apps are discarded for want of memory only every twentieth tick, where a mark is set
/// and something is frozen, and only as long as less memory is available than the mark says.
pub proof fn law_memory_is_watched(
    s: EngineView,
    e: EnvView,
    avail: Option<u64>,
    pkg: Seq<char>,
    rest: Seq<Seq<char>>,
)
    ensures
        ({
            let short = avail matches Some(kb) && kb < (if s.policy.discard_mem_watermark_mb * 1024
                <= u64::MAX {
                s.policy.discard_mem_watermark_mb * 1024
            } else {
                u64::MAX as int
            });
            let over = StepView::Next(plain(TaskKind::BootBegin));
            &&& s.tick_count % 20 == 0 && s.policy.discard_mem_watermark_mb > 0 && s.frozen.len()
                > 0 ==> mem_begin(s) == (s, StepView::Ask(OpView::Memory, plain(TaskKind::MemFirst)))
            &&& s.tick_count % 20 != 0 || s.policy.discard_mem_watermark_mb == 0 || s.frozen.len()
                == 0 ==> mem_begin(s) == (s, over)
            &&& mem_first(s, e, avail).0 == s
            &&& short <==> (mem_first(s, e, avail).1 matches StepView::Ask(op, t) && op is Resident
                && t == plain(TaskKind::MemResident))
            &&& !short ==> mem_first(s, e, avail).1 == over
            &&& !short ==> mem_again(s, e, seq![pkg] + rest, avail) == (s, over)
            &&& short ==> mem_again(s, e, seq![pkg] + rest, avail) == discard_one(
                s,
                e,
                pkg,
                rest,
                DiscardReason::MemWatermark,
            )
        }),
{
    assert((seq![pkg] + rest).skip(1) =~= rest);
    assert((seq![pkg] + rest)[0] == pkg);
}

/// The apps are discarded for want of memory in the order in which they were frozen, and of
/// those frozen together the one with the most memory first; every frozen app has its place.
pub proof fn law_order_for_want_of_memory(s: EngineView, rss: Seq<u64>, i: int, j: int) -> (at: (int, int))
    requires
        0 <= i < s.frozen.len(),
        0 <= j < s.frozen.len(),
        rss.len() == s.frozen.len(),
        s.frozen[i].1 < s.frozen[j].1 || (s.frozen[i].1 == s.frozen[j].1 && rss[i] > rss[j]),
    ensures
        mem_ranked(s, rss).1 matches StepView::Next(t) && t.kind == TaskKind::DiscardNext && t.why
            == DiscardReason::MemWatermark && t.queue.len() == s.frozen.len() && 0 <= at.0 < at.1
            < t.queue.len() && t.queue[at.0] == s.frozen[i].0 && t.queue[at.1] == s.frozen[j].0,
{
    let n = s.frozen.len() as int;
    law_discard_order(s.frozen, rss, n);
    let w = ranking(s.frozen, rss, n);
    let x = Ranked { pkg: s.frozen[i].0, since: s.frozen[i].1, rss: rss_at(rss, i) };
    let y = Ranked { pkg: s.frozen[j].0, since: s.frozen[j].1, rss: rss_at(rss, j) };
    assert(w.contains(x) && w.contains(y));
    let a = choose|a: int| 0 <= a < w.len() && w[a] == x;
    let b = choose|b: int| 0 <= b < w.len() && w[b] == y;
    if b < a {
        assert(!crate::engine_rules::goes_first(w[a], w[b]));
    }
    (a, b)
}

// ---- After boot ----

/// The device is asked every hundredth tick whether it has booted, until it has; the time counts
/// from then on.
pub proof fn law_boot_is_noticed_once(s: EngineView, e: EnvView, booted: bool)
    ensures
        s.tick_count % 100 == 0 && s.boot_completed_at is None ==> boot_begin(s) == (
            s,
            StepView::Ask(OpView::BootCompleted, plain(TaskKind::BootFlag)),
        ),
        s.tick_count % 100 != 0 || s.boot_completed_at is Some ==> boot_begin(s) == (
            s,
            StepView::Next(plain(TaskKind::ReclaimBegin)),
        ),
        boot_flag(s, e, booted).0.boot_completed_at == (if booted {
            Some(e.now)
        } else {
            s.boot_completed_at
        }),
        boot_flag(s, e, booted).1 == StepView::Next(plain(TaskKind::ReclaimBegin)),
{
}

proof fn lemma_reclaimed(c: Seq<(Seq<char>, u32)>, frozen: Seq<Seq<char>>, p: Seq<char>)
    ensures
        reclaim_names(c, frozen).contains(p) <==> frozen.contains(p) || has_key(c, p),
    decreases c.len() + frozen.len(),
{
    if frozen.len() > 0 {
        let d = frozen.drop_last();
        lemma_reclaimed(c, d, p);
        lemma_with_name(reclaim_names(c, d), frozen.last(), p);
        if frozen.contains(p) && p != frozen.last() {
            let i = choose|i: int| 0 <= i < frozen.len() && frozen[i] == p;
            assert(d[i] == p);
        }
        if d.contains(p) {
            let i = choose|i: int| 0 <= i < d.len() && d[i] == p;
            assert(frozen[i] == p);
        }
        assert(frozen[frozen.len() - 1] == frozen.last());
    } else if c.len() > 0 {
        let d = c.drop_last();
        lemma_reclaimed(d, frozen, p);
        lemma_with_name(reclaim_names(d, frozen), c.last().0, p);
        crate::names::lemma_key_index(c, p);
        crate::names::lemma_key_index(d, p);
        if has_key(c, p) && p != c.last().0 {
            let i = crate::names::key_index(c, p);
            assert(d[i].0 == p);
        }
        if has_key(d, p) {
            assert(c[crate::names::key_index(d, p)].0 == p);
        }
        assert(c[c.len() - 1].0 == c.last().0);
    }
}

/// Reclaiming after boot starts exactly where the policy wants it, it was not done before, and
/// the device has been up for as many seconds as the policy says; the apps that are frozen and
/// those of the last session are then looked at, and no others.
pub proof fn law_reclaim_after_boot(s: EngineView, e: EnvView, p: Seq<char>)
    ensures
        ({
            let due = s.policy.discard_boot_reclaim && !s.boot_reclaim_done && (
            s.boot_completed_at matches Some(at) && seconds_apart(
                at,
                e.now,
                s.policy.discard_boot_reclaim_delay_seconds,
            ));
            let (u, st) = reclaim_begin(s, e);
            &&& !due ==> u == s && st == StepView::Next(plain(TaskKind::RelockBegin))
            &&& due ==> u.boot_reclaim_done && u.frozen == s.frozen
            &&& due ==> (st matches StepView::Next(t) && t.kind == TaskKind::ReclaimNext && (
            t.queue.contains(p) <==> has_key(s.frozen, p) || has_key(s.boot_reclaim_candidates, p)))
        }),
{
    let k = keys_of(s.frozen);
    lemma_reclaimed(s.boot_reclaim_candidates, k, p);
    crate::names::lemma_key_index(s.frozen, p);
    if has_key(s.frozen, p) {
        assert(k[crate::names::key_index(s.frozen, p)] == p);
    }
    if k.contains(p) {
        let i = choose|i: int| 0 <= i < k.len() && k[i] == p;
        assert(s.frozen[i].0 == p);
    }
}

/// An app is reclaimed exactly where it need not be kept, its uid is known, and it has processes
/// that all have a kill priority of 900 or more; those that are reclaimed are discarded in the
/// order of their names.
pub proof fn law_who_is_reclaimed(
    s: EngineView,
    e: EnvView,
    pkg: Seq<char>,
    rest: Seq<Seq<char>>,
    so_far: Seq<Seq<char>>,
    levels: Seq<Option<i32>>,
)
    ensures
        ({
            let (u, st) = reclaim_next(s, e, seq![pkg] + rest, so_far);
            let (v, then) = reclaim_levels(s, pkg, rest, so_far, levels);
            let low = levels.len() > 0 && forall|i: int|
                0 <= i < levels.len() ==> (#[trigger] levels[i] matches Some(l) && l >= 900);
            &&& u == s && v == s
            &&& !to_be_kept(s, e, pkg) && value_of(e.table, pkg) is Some ==> st == StepView::Ask(
                OpView::Levels(value_of(e.table, pkg)->0),
                TaskView {
                    found: so_far,
                    ..within_queue(TaskKind::ReclaimLevels, pkg, rest)
                },
            )
            &&& to_be_kept(s, e, pkg) || value_of(e.table, pkg) is None ==> st == StepView::Next(
                TaskView { queue: rest, found: so_far, ..plain(TaskKind::ReclaimNext) },
            )
            &&& then == StepView::Next(
                TaskView {
                    queue: rest,
                    found: if low {
                        so_far.push(pkg)
                    } else {
                        so_far
                    },
                    ..plain(TaskKind::ReclaimNext)
                },
            )
            &&& reclaim_next(s, e, Seq::empty(), so_far) == (
                s,
                StepView::Next(
                    TaskView {
                        queue: sorted_texts(so_far),
                        why: DiscardReason::BootReclaim,
                        ..plain(TaskKind::DiscardNext)
                    },
                ),
            )
        }),
{
    assert((seq![pkg] + rest).skip(1) =~= rest);
    assert((seq![pkg] + rest)[0] == pkg);
    let low = levels.len() > 0 && forall|i: int|
        0 <= i < levels.len() ==> (#[trigger] levels[i] matches Some(l) && l >= 900);
    assert(low == all_cached(levels));
}

/// The memory of the frozen apps is asked for in their order, each by its uid, or by 0 where that
/// is not known.
pub proof fn law_whose_memory_is_read(s: EngineView, e: EnvView, avail: u64, i: int)
    requires
        0 <= i < s.frozen.len(),
        avail < u64::MAX,
        avail < s.policy.discard_mem_watermark_mb * 1024,
    ensures
        mem_first(s, e, Some(avail)).1 matches StepView::Ask(OpView::Resident(us), _) && us.len()
            == s.frozen.len() && us[i] == (match value_of(e.table, s.frozen[i].0) {
            Some(u) => u,
            None => 0,
        }),
{
    let k = keys_of(s.frozen);
    assert(k[i] == s.frozen[i].0);
}

// ---- One after the other ----

/// The packages to be discarded take their turns in order; for want of memory the available
/// memory is read again before each. After the last, the tick goes on: from the time to the
/// rules, from these to the memory, from that to the boot, and then to the protection of what
/// is frozen.
pub proof fn law_discards_take_turns(
    s: EngineView,
    e: EnvView,
    pkg: Seq<char>,
    rest: Seq<Seq<char>>,
    why: DiscardReason,
)
    ensures
        why != DiscardReason::MemWatermark ==> discard_next(s, e, seq![pkg] + rest, why)
            == discard_one(s, e, pkg, rest, why),
        why == DiscardReason::MemWatermark ==> discard_next(s, e, seq![pkg] + rest, why) == (
            s,
            StepView::Ask(
                OpView::Memory,
                TaskView { queue: seq![pkg] + rest, ..plain(TaskKind::MemAgain) },
            ),
        ),
        discard_next(s, e, Seq::empty(), why).0 == s,
        discard_next(s, e, Seq::empty(), why).1 matches StepView::Next(t) && t == plain(t.kind) && (
        why == DiscardReason::FrozenTimeout ==> t.kind == TaskKind::RuleBegin) && (why
            == DiscardReason::Rule ==> t.kind == TaskKind::MemBegin) && (why
            == DiscardReason::MemWatermark ==> t.kind == TaskKind::BootBegin) && (why
            == DiscardReason::BootReclaim ==> t.kind == TaskKind::RelockBegin),
{
    assert((seq![pkg] + rest).skip(1) =~= rest);
    assert((seq![pkg] + rest)[0] == pkg);
}

/// A rule has applied once more where it discarded a package, and no rule has where another
/// reason did, or where nothing was killed.
pub proof fn law_rules_count_their_discards(s: EngineView, e: EnvView, t: TaskView, n: u64)
    requires
        t.kind == TaskKind::DiscardKill,
    ensures
        ({
            let u = step(s, e, t, ReplyView::Number(Some(n))).0;
            let rule = chosen(s.rules.rules, t.pkg, RuleCondition::Always, None, e.now, e.today);
            &&& n > 0 && t.why == DiscardReason::Rule && rule is Some ==> u.rules.hits
                == s.rules.hits.wrapping_add(1)
            &&& n == 0 || t.why != DiscardReason::Rule || rule is None ==> u.rules == s.rules
        }),
{
}

} // verus!
