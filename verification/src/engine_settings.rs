//! What the settings of an app bring about in the engine: how long it waits before it is
//! frozen, what spares it, and what a wakeup does to it.

use vstd::prelude::*;
use crate::engine::{
    freeze_refused, is_gated, is_throttled, leave_begin, leave_rest, leave_surveyed, wakeup_begin,
};
use crate::engine_laws::group_tables;
use crate::engine_ops::{
    about, over, plain, within_queue, EnvView, OpView, ReplyView, StepView, SurveyView, TaskKind,
    TaskView,
};
use crate::engine_rules::due_names;
use crate::engine_state::EngineView;
use crate::engine_tick::{grace_freeze, grace_next, grace_surveyed, net_next, step, tick_body};
use crate::events::{EvAction, EvLevel};
use crate::names::{
    has_key, key_index, lemma_key_index, lemma_with_key, lemma_with_name, lemma_without_key,
    unique_keys, value_of,
};
use crate::network::moved_bytes;
use crate::policy::{critical, default_app, AppMode, AppPolicy, PushMode};
use crate::rules::{peeked, RuleAction, RuleCondition};
use crate::text::dec;

verus! {

// ---- The delay before a freeze ----

/// Whether no rule spares the package when it leaves the foreground, and none freezes it.
pub open spec fn leaves_unruled(s: EngineView, e: EnvView, pkg: Seq<char>) -> bool {
    match peeked(s.rules, pkg, RuleCondition::Leave, None, e.now, e.today) {
        Some(h) => h.action != RuleAction::Exempt && h.action != RuleAction::Freeze,
        None => true,
    }
}

/// An app that leaves the foreground waits as long as its own settings say: as many seconds as
/// they give; or else 8 seconds where it is strict, twice the global delay where it is
/// important, and the global delay otherwise, as where it has no settings. It waits from now
/// on, it is kept from the memory killer meanwhile, and no other app waits longer or shorter
/// for it.
pub proof fn law_delay_follows_the_app(s: EngineView, e: EnvView, pkg: Seq<char>, alive: Option<bool>)
    requires
        !has_key(s.cooldown, pkg),
        leaves_unruled(s, e, pkg),
        !s.policy.force.contains(pkg),
    ensures
        ({
            let u = leave_rest(s, e, pkg, alive).0;
            let global = s.policy.grace_seconds;
            &&& value_of(u.grace, pkg) matches Some(w) && w.0 == e.now && match value_of(
                s.policy.apps,
                pkg,
            ) {
                Some(a) => {
                    &&& a.grace_override matches Some(g) ==> w.1 == g
                    &&& a.grace_override is None && a.mode == AppMode::Strict ==> w.1 == 8
                    &&& a.grace_override is None && a.mode == AppMode::Important ==> w.1 == (if 2
                        * global <= u64::MAX {
                        2 * global
                    } else {
                        u64::MAX as int
                    })
                    &&& a.grace_override is None && a.mode != AppMode::Strict && a.mode
                        != AppMode::Important ==> w.1 == global
                },
                None => w.1 == global,
            }
            &&& forall|p: Seq<char>| p != pkg ==> #[trigger] value_of(u.grace, p) == value_of(
                s.grace,
                p,
            )
            &&& u.frozen == s.frozen
            &&& u.adj_keep.contains(pkg)
            &&& u.counters == s.counters
        }),
{
    let w = crate::engine_rules::grace_seconds(s, pkg);
    assert forall|p: Seq<char>| p != pkg implies #[trigger] value_of(
        leave_rest(s, e, pkg, alive).0.grace,
        p,
    ) == value_of(s.grace, p) by {
        lemma_with_key(s.grace, pkg, (e.now, w), p);
    }
    lemma_with_key(s.grace, pkg, (e.now, w), pkg);
    lemma_with_name(s.adj_keep, pkg, pkg);
}

/// What is logged of the delay, and how many seconds it takes, agree; and where the uid of the
/// app is known its processes are protected next.
pub proof fn law_delay_is_announced(s: EngineView, e: EnvView, pkg: Seq<char>, alive: Option<bool>)
    requires
        !has_key(s.cooldown, pkg),
        leaves_unruled(s, e, pkg),
        !s.policy.force.contains(pkg),
    ensures
        ({
            let (u, st) = leave_rest(s, e, pkg, alive);
            let said = u.log.events.last();
            &&& value_of(u.grace, pkg) matches Some(w) && said.msg == Some(
                dec(w.1 as nat) + "s"@,
            )
            &&& said.pkg == Some(pkg) && said.reason == Some("grace"@)
            &&& said.level == EvLevel::Timer && said.action == EvAction::Delay
            &&& match value_of(e.table, pkg) {
                Some(uid) => st == StepView::Ask(
                    OpView::Protect(seq![uid]),
                    plain(TaskKind::Finish),
                ),
                None => st == StepView::Done,
            }
        }),
{
    let w = crate::engine_rules::grace_seconds(s, pkg);
    lemma_with_key(s.grace, pkg, (e.now, w), pkg);
}

/// An app that cools down neither waits nor is frozen when it leaves the foreground.
pub proof fn law_cooling_apps_do_not_wait(s: EngineView, e: EnvView, pkg: Seq<char>, alive: Option<bool>)
    requires
        has_key(s.cooldown, pkg),
    ensures
        leave_rest(s, e, pkg, alive) == (s, StepView::Done),
{
}

/// An app that is to be frozen at once is, where nothing forbids it: no delay is entered.
pub proof fn law_forced_apps_do_not_wait(s: EngineView, e: EnvView, pkg: Seq<char>, alive: Option<bool>)
    requires
        !has_key(s.cooldown, pkg),
        leaves_unruled(s, e, pkg),
        s.policy.force.contains(pkg),
        freeze_refused(s, e, pkg, alive) is None,
    ensures
        ({
            let (u, st) = leave_rest(s, e, pkg, alive);
            &&& u == s
            &&& st matches StepView::Ask(OpView::Freeze(p, _), t) && p == pkg && t == about(
                TaskKind::LeaveFreeze,
                pkg,
            )
        }),
{
}

/// Whether at least `secs` seconds lie between two moments in nanoseconds.
pub open spec fn seconds_apart(from: u64, to: u64, secs: u64) -> bool {
    secs == 0 || to - from >= secs * 1_000_000_000
}

proof fn lemma_due_passed(m: Seq<(Seq<char>, (u64, u64))>, now: u64, p: Seq<char>) -> (i: int)
    requires
        due_names(m, now).contains(p),
    ensures
        0 <= i < m.len(),
        m[i].0 == p,
        seconds_apart(m[i].1.0, now, m[i].1.1),
    decreases m.len(),
{
    let w = due_names(m, now);
    let k = due_names(m.drop_last(), now);
    let j = choose|j: int| 0 <= j < w.len() && w[j] == p;
    if crate::engine_rules::has_passed(now, m.last().1.0, m.last().1.1) && j == w.len() - 1 {
        m.len() - 1
    } else {
        assert(k[j] == p);
        lemma_due_passed(m.drop_last(), now, p)
    }
}

proof fn lemma_passed_due(m: Seq<(Seq<char>, (u64, u64))>, now: u64, i: int)
    requires
        0 <= i < m.len(),
        seconds_apart(m[i].1.0, now, m[i].1.1),
    ensures
        due_names(m, now).contains(m[i].0),
    decreases m.len(),
{
    let w = due_names(m, now);
    let k = due_names(m.drop_last(), now);
    if i < m.len() - 1 {
        lemma_passed_due(m.drop_last(), now, i);
        let j = choose|j: int| 0 <= j < k.len() && k[j] == m[i].0;
        assert(w[j] == m[i].0);
    } else {
        assert(w[w.len() - 1] == m[i].0);
    }
}

/// The apps whose turn comes in a tick are exactly those that have waited as long as was
/// entered for them: none earlier, and none later.
pub proof fn law_turns_come_after_the_delay(s: EngineView, e: EnvView, p: Seq<char>)
    requires
        s.policy.enabled,
        unique_keys(s.grace),
    ensures
        tick_body(s, e).0 == s,
        tick_body(s, e).1 matches StepView::Next(t) && t.kind == TaskKind::GraceNext && (
        t.queue.contains(p) <==> (match value_of(s.grace, p) {
            Some(w) => seconds_apart(w.0, e.now, w.1),
            None => false,
        })),
{
    lemma_key_index(s.grace, p);
    let i = key_index(s.grace, p);
    if due_names(s.grace, e.now).contains(p) {
        let j = lemma_due_passed(s.grace, e.now, p);
        if i < j {
            assert(s.grace[i].0 != s.grace[j].0);
        } else if j < i {
            assert(s.grace[j].0 != p);
        }
    }
    if has_key(s.grace, p) && seconds_apart(s.grace[i].1.0, e.now, s.grace[i].1.1) {
        lemma_passed_due(s.grace, e.now, i);
    }
}

// ---- Wakeups ----

/// Whether a wakeup may thaw the app by its own settings: an important app always, another one
/// unless they say that it may not.
pub open spec fn may_be_woken(s: EngineView, pkg: Seq<char>) -> bool {
    value_of(s.policy.apps, pkg) matches Some(a) ==> a.mode == AppMode::Important || a.keep_wakeup
        != Some(false)
}

/// Whether a rule keeps a wakeup from the package.
pub open spec fn wakeup_suppressed(
    s: EngineView,
    e: EnvView,
    pkg: Seq<char>,
    source: Seq<char>,
) -> bool {
    peeked(s.rules, pkg, RuleCondition::Wakeup, Some(source), e.now, e.today) matches Some(h)
        && h.action == RuleAction::Suppress
}

/// A wakeup that nothing holds back cancels the delay of an app that waits, at once, and has one
/// that is frozen thawed; with the thaw, whether it works or not, the event is dealt with, and
/// the app does not wait either.
pub proof fn law_wakeup_releases(
    s: EngineView,
    e: EnvView,
    pkg: Seq<char>,
    source: Seq<char>,
    action: Seq<char>,
    r: ReplyView,
)
    requires
        may_be_woken(s, pkg),
        !wakeup_suppressed(s, e, pkg, source),
        has_key(s.frozen, pkg) ==> !is_gated(s, pkg, source, action) && !is_throttled(s, e, pkg),
    ensures
        ({
            let (u, st) = wakeup_begin(s, e, pkg, source, action);
            &&& !has_key(s.frozen, pkg) ==> st == StepView::Done && !has_key(u.grace, pkg)
                && u.frozen == s.frozen
            &&& has_key(s.frozen, pkg) ==> !has_key(u.frozen, pkg)
            &&& has_key(s.frozen, pkg) ==> (st matches StepView::Ask(op, t) && op
                == OpView::ThawKeepOom(pkg) && ({
                let (v, end) = step(u, e, t, r);
                &&& end == StepView::Done
                &&& !has_key(v.grace, pkg)
                &&& !has_key(v.frozen, pkg)
            }))
            &&& forall|p: Seq<char>| p != pkg ==> #[trigger] value_of(u.grace, p) == value_of(
                s.grace,
                p,
            )
            &&& forall|p: Seq<char>| p != pkg ==> #[trigger] value_of(u.frozen, p) == value_of(
                s.frozen,
                p,
            )
        }),
{
    broadcast use group_tables;

    assert forall|p: Seq<char>| p != pkg implies #[trigger] value_of(
        wakeup_begin(s, e, pkg, source, action).0.grace,
        p,
    ) == value_of(s.grace, p) by {
        lemma_without_key(s.grace, pkg, p);
    }
    assert forall|p: Seq<char>| p != pkg implies #[trigger] value_of(
        wakeup_begin(s, e, pkg, source, action).0.frozen,
        p,
    ) == value_of(s.frozen, p) by {
        lemma_without_key(s.frozen, pkg, p);
    }
}

/// An app is thawed by a wakeup exactly where its settings allow it, no rule suppresses the
/// wakeup, and it is frozen; a broadcast moreover only where the list of actions is empty or
/// names the action, or the app is important; and none before the time until which the last
/// thaw throttles the next, where throttling is on.
pub proof fn law_thaws_by_wakeup_are_due(
    s: EngineView,
    e: EnvView,
    pkg: Seq<char>,
    source: Seq<char>,
    action: Seq<char>,
)
    ensures
        wakeup_begin(s, e, pkg, source, action).1 != StepView::Done <==> {
            &&& has_key(s.frozen, pkg)
            &&& may_be_woken(s, pkg)
            &&& !wakeup_suppressed(s, e, pkg, source)
            &&& source == "broadcast"@ ==> s.policy.receiver_gate.len() == 0
                || s.policy.receiver_gate.contains(action) || (value_of(s.policy.apps, pkg) matches
                Some(a) && a.mode == AppMode::Important)
            &&& s.policy.wake_throttle_seconds > 0 ==> (value_of(
                s.wake_throttle,
                pkg,
            ) matches Some(until) ==> e.now >= until)
        },
{
}

/// What comes of a thaw by a wakeup: where it worked, both counters of thaws go up by one, the
/// app is kept from the memory killer, and further wakeups are throttled for as many seconds as
/// the policy says, or not at all where it says 0; where it did not, none of this. Either way
/// the app cools down for as many seconds as the policy says.
pub proof fn law_wakeup_thaw_is_recorded(s: EngineView, e: EnvView, t: TaskView, r: ReplyView)
    requires
        t.kind == TaskKind::WakeThaw,
    ensures
        ({
            let u = step(s, e, t, r).0;
            let said = u.log.events.last();
            &&& value_of(u.cooldown, t.pkg) matches Some(until) && until == e.now
                + s.policy.cooldown_seconds * 1_000_000_000
            &&& said.pkg == Some(t.pkg) && said.action == EvAction::Unfreeze
            &&& r == ReplyView::Flag(true) ==> {
                &&& u.counters.unfreeze_ops == s.counters.unfreeze_ops.wrapping_add(1)
                &&& u.counters.wakeup_thaws == s.counters.wakeup_thaws.wrapping_add(1)
                &&& u.counters.freeze_ops == s.counters.freeze_ops
                &&& u.counters.wake_throttled == s.counters.wake_throttled
                &&& u.counters.discard_ops == s.counters.discard_ops
                &&& u.adj_keep.contains(t.pkg)
                &&& s.policy.wake_throttle_seconds > 0 ==> (value_of(
                    u.wake_throttle,
                    t.pkg,
                ) matches Some(until) && until == e.now + s.policy.wake_throttle_seconds
                    * 1_000_000_000)
                &&& s.policy.wake_throttle_seconds == 0 ==> u.wake_throttle == s.wake_throttle
                &&& said.reason == Some("wakeup"@)
            }
            &&& r != ReplyView::Flag(true) ==> {
                &&& u.counters == s.counters
                &&& u.wake_throttle == s.wake_throttle
                &&& u.adj_keep == s.adj_keep
                &&& said.reason == Some("wakeup_failed"@)
            }
        }),
{
    let secs = s.policy.wake_throttle_seconds;
    lemma_with_key(
        s.cooldown,
        t.pkg,
        crate::engine_rules::time_after(e.now, s.policy.cooldown_seconds),
        t.pkg,
    );
    lemma_with_key(s.wake_throttle, t.pkg, crate::engine_rules::time_after(e.now, secs), t.pkg);
    lemma_with_name(s.adj_keep, t.pkg, t.pkg);
    assert(e.now + s.policy.cooldown_seconds * 1_000_000_000 <= u128::MAX) by (nonlinear_arith)
        requires
            e.now <= u64::MAX,
            s.policy.cooldown_seconds <= u64::MAX,
    ;
    assert(e.now + secs * 1_000_000_000 <= u128::MAX) by (nonlinear_arith)
        requires
            e.now <= u64::MAX,
            secs <= u64::MAX,
    ;
}

// ---- What spares an app ----

/// Whether the package must not be frozen, whatever its app does: it is built-in critical,
/// belongs to the system, is on the white list, is exempt by its own settings, belongs to the
/// VPN where that is kept, or a rule exempts it when it leaves the foreground.
pub open spec fn off_limits(s: EngineView, e: EnvView, pkg: Seq<char>) -> bool {
    ||| critical(pkg)
    ||| s.system_apps.contains(pkg)
    ||| s.policy.whitelist.contains(pkg)
    ||| value_of(s.policy.apps, pkg) matches Some(a) && a.mode == AppMode::Exempt
    ||| s.policy.keep_vpn && s.policy.vpn_packages.contains(pkg)
    ||| s.policy.keep_vpn && (value_of(e.table, pkg) matches Some(uid) && e.vpn_uid == Some(uid))
    ||| peeked(s.rules, pkg, RuleCondition::Leave, None, e.now, e.today) matches Some(h) && h.action
        == RuleAction::Exempt
}

/// The settings of an app; one that has none leaves everything to the policy.
pub open spec fn settings(s: EngineView, pkg: Seq<char>) -> AppPolicy {
    match value_of(s.policy.apps, pkg) {
        Some(a) => a,
        None => default_app(),
    }
}

/// Whether something is permitted to an app: by its own settings, or where these say nothing by
/// the policy.
pub open spec fn permitted(own: Option<bool>, global: bool) -> bool {
    own == Some(true) || (global && own != Some(false))
}

/// Whether the app was last reported to be doing something that is permitted.
pub open spec fn active(s: EngineView, pkg: Seq<char>) -> bool {
    value_of(s.exempt, pkg) matches Some(f) && ({
        let a = settings(s, pkg);
        ||| f.fg_service && permitted(a.keep_fg_service, s.policy.keep_fg_service)
        ||| f.media && permitted(a.keep_media, s.policy.keep_media)
        ||| f.location && permitted(a.keep_location, s.policy.keep_location)
    })
}

/// Whether the time of day lies in the window of the app, its ends included.
pub open spec fn scheduled(s: EngineView, e: EnvView, pkg: Seq<char>) -> bool {
    value_of(s.policy.apps, pkg) matches Some(a) && a.unfreeze_window matches Some(w)
        && e.minute matches Some(m) && w.0 <= m && m <= w.1
}

/// An app that leaves the foreground is let alone exactly where the policy is off, it is off
/// limits but for a rule, it is active, or its window is open; otherwise the engine goes on:
/// it looks at the app where it knows its uid.
pub proof fn law_who_is_let_alone(s: EngineView, e: EnvView, pkg: Seq<char>)
    ensures
        !s.policy.enabled || active(s, pkg) || scheduled(s, e, pkg) || (off_limits(s, e, pkg)
            && leaves_unruled(s, e, pkg)) ==> {
            let (u, st) = leave_begin(s, e, pkg);
            &&& st == StepView::Done
            &&& u.grace == s.grace
            &&& u.frozen == s.frozen
        },
        s.policy.enabled && !active(s, pkg) && !scheduled(s, e, pkg) && !off_limits(s, e, pkg)
            ==> leave_begin(s, e, pkg) == match value_of(e.table, pkg) {
            Some(uid) => (s, StepView::Ask(OpView::Survey(uid), about(TaskKind::LeaveSurvey, pkg))),
            None => leave_rest(s, e, pkg, None),
        },
{
}

/// A freeze is refused exactly where the package is off limits, or is known to have no process;
/// refusing it freezes nothing, and a package that is off limits does not wait any longer.
pub proof fn law_who_is_not_frozen(s: EngineView, e: EnvView, pkg: Seq<char>, alive: Option<bool>)
    ensures
        freeze_refused(s, e, pkg, alive) is Some <==> off_limits(s, e, pkg) || alive == Some(false),
        freeze_refused(s, e, pkg, alive) matches Some(t) ==> t.frozen == s.frozen && t.counters
            == s.counters,
        off_limits(s, e, pkg) ==> (freeze_refused(s, e, pkg, alive) matches Some(t) && !has_key(
            t.grace,
            pkg,
        )),
{
    broadcast use group_tables;

}

/// An app whose turn has come is spared exactly where it is frozen already, in the foreground,
/// cooling down, active, or off limits but for belonging to the system, which is found out when
/// it is to be frozen: it then waits no longer. Otherwise it is looked at where its uid is
/// known, and frozen where that is not.
pub proof fn law_whose_turn_passes(s: EngineView, e: EnvView, pkg: Seq<char>, rest: Seq<Seq<char>>)
    ensures
        has_key(s.frozen, pkg) || s.last_focus == Some(pkg) || has_key(s.cooldown, pkg) || active(
            s,
            pkg,
        ) || (off_limits(s, e, pkg) && !s.system_apps.contains(pkg)) ==> {
            let (u, st) = grace_next(s, e, seq![pkg] + rest);
            &&& st == StepView::Next(over(TaskKind::GraceNext, rest))
            &&& !has_key(u.grace, pkg)
            &&& u.frozen == s.frozen
        },
        !has_key(s.frozen, pkg) && s.last_focus != Some(pkg) && !has_key(s.cooldown, pkg)
            && !active(s, pkg) && !off_limits(s, e, pkg) ==> grace_next(s, e, seq![pkg] + rest)
            == match value_of(e.table, pkg) {
            Some(uid) => (
                s,
                StepView::Ask(
                    OpView::Survey(uid),
                    within_queue(TaskKind::GraceSurvey, pkg, rest),
                ),
            ),
            None => grace_freeze(s, e, pkg, rest, None),
        },
{
    broadcast use group_tables;

    assert((seq![pkg] + rest).skip(1) =~= rest);
    assert((seq![pkg] + rest)[0] == pkg);
}

/// An app is frozen with the push setting of its own, or that of the policy where it has none,
/// by whatever way it comes to be frozen.
pub proof fn law_push_follows_the_app(
    s: EngineView,
    e: EnvView,
    pkg: Seq<char>,
    rest: Seq<Seq<char>>,
    alive: Option<bool>,
    op: OpView,
    t: TaskView,
    m: PushMode,
)
    requires
        leave_rest(s, e, pkg, alive).1 == StepView::Ask(op, t) || grace_freeze(
            s,
            e,
            pkg,
            rest,
            alive,
        ).1 == StepView::Ask(op, t),
        op == OpView::Freeze(pkg, m),
    ensures
        match value_of(s.policy.apps, pkg) {
            Some(a) => (a.push_mode matches Some(own) ==> m == own) && (a.push_mode is None ==> m
                == s.policy.push_policy),
            None => m == s.policy.push_policy,
        },
        !off_limits(s, e, pkg),
        alive != Some(false),
{
}

/// What one look at the traffic of an app decides, with the bytes that it moved since a look at
/// least 30 seconds ago: 256 kB or more spare it where its settings, or else the policy, let high
/// traffic count; any byte does where they let any traffic count; otherwise the engine goes on.
pub proof fn law_traffic_spares(
    s: EngineView,
    e: EnvView,
    pkg: Seq<char>,
    rest: Seq<Seq<char>>,
    found: SurveyView,
    uid: u32,
)
    requires
        value_of(e.table, pkg) == Some(uid),
    ensures
        ({
            let (n, moved) = moved_bytes(s.net, uid, 30_000_000_000, found.reading, e.now);
            let a = settings(s, pkg);
            let high = permitted(a.keep_high_network, s.policy.keep_high_network);
            let any = permitted(a.keep_network, s.policy.keep_network);
            let spared = moved matches Some(b) && ((high && b >= 262_144) || (any && b >= 1));
            let seen = if high || any {
                EngineView { net: n, ..s }
            } else {
                s
            };
            let (u, st) = leave_surveyed(s, e, pkg, found);
            let (v, next) = grace_surveyed(s, e, pkg, rest, found);
            &&& spared ==> st == StepView::Done && u.grace == s.grace && u.frozen == s.frozen
            &&& spared ==> next == StepView::Next(over(TaskKind::GraceNext, rest)) && !has_key(
                v.grace,
                pkg,
            ) && v.frozen == s.frozen
            &&& !spared ==> (u, st) == leave_rest(seen, e, pkg, Some(found.has_procs))
            &&& !spared ==> (v, next) == grace_freeze(seen, e, pkg, rest, Some(found.has_procs))
            &&& u.net == seen.net && v.net == seen.net
        }),
{
    broadcast use group_tables;

}

/// A frozen app is looked at for traffic exactly where any traffic counts for it, and its uid
/// is known.
pub proof fn law_whose_traffic_is_watched(
    s: EngineView,
    e: EnvView,
    pkg: Seq<char>,
    rest: Seq<Seq<char>>,
    wake: Seq<Seq<char>>,
)
    ensures
        ({
            let (u, st) = net_next(s, e, seq![pkg] + rest, wake);
            &&& u == s
            &&& match st {
                StepView::Ask(op, t) => permitted(
                    settings(s, pkg).keep_network,
                    s.policy.keep_network,
                ) && (value_of(e.table, pkg) matches Some(uid) && op == OpView::Survey(uid))
                    && t.kind == TaskKind::NetSurvey && t.pkg == pkg && t.queue == rest && t.found
                    == wake,
                StepView::Next(t) => !(permitted(
                    settings(s, pkg).keep_network,
                    s.policy.keep_network,
                ) && value_of(e.table, pkg) is Some) && t.kind == TaskKind::NetNext && t.queue
                    == rest && t.found == wake,
                StepView::Done => false,
            }
        }),
{
    assert((seq![pkg] + rest).skip(1) =~= rest);
    assert((seq![pkg] + rest)[0] == pkg);
}

// ---- What is said of it ----

/// Whether an event is about an app, with a reason.
pub open spec fn says_why(s: EngineView, pkg: Seq<char>, reason: Seq<char>) -> bool {
    let x = s.log.events.last();
    x.pkg == Some(pkg) && x.reason == Some(reason) && x.action == EvAction::Exempt
}

/// What is said of an app that leaves the foreground and is let alone: the first that holds of
/// critical, of the system, of the VPN, exempt by its settings, active, and in its window. Of one
/// on the white list, and with the policy off, nothing is said.
pub proof fn law_why_an_app_is_let_alone(s: EngineView, e: EnvView, pkg: Seq<char>)
    ensures
        ({
            let u = leave_begin(s, e, pkg).0;
            let vpn = s.policy.keep_vpn && (s.policy.vpn_packages.contains(pkg) || (value_of(
                e.table,
                pkg,
            ) matches Some(uid) && e.vpn_uid == Some(uid)));
            let white = s.policy.whitelist.contains(pkg);
            let system = s.system_apps.contains(pkg);
            let exempt = value_of(s.policy.apps, pkg) matches Some(a) && a.mode == AppMode::Exempt;
            &&& !s.policy.enabled ==> u == s
            &&& s.policy.enabled && critical(pkg) ==> says_why(u, pkg, "critical"@)
            &&& s.policy.enabled && !critical(pkg) && system ==> says_why(u, pkg, "system_app"@)
            &&& s.policy.enabled && !critical(pkg) && !system && white ==> u == s
            &&& s.policy.enabled && !critical(pkg) && !system && !white && vpn ==> says_why(
                u,
                pkg,
                "vpn_protected"@,
            )
            &&& s.policy.enabled && !critical(pkg) && !system && !white && !vpn && exempt
                ==> says_why(u, pkg, "per_app_exempt"@)
            &&& s.policy.enabled && !critical(pkg) && !system && !white && !vpn && !exempt && active(
                s,
                pkg,
            ) ==> says_why(u, pkg, "exempt_action"@)
            &&& s.policy.enabled && !critical(pkg) && !system && !white && !vpn && !exempt && !active(
                s,
                pkg,
            ) && scheduled(s, e, pkg) ==> says_why(u, pkg, "schedule_window"@)
        }),
{
}

/// What is said of a wakeup that does not thaw an app, and that only one that comes too soon is
/// counted as such: first that the app ignores wakeups, then that a rule suppresses it, then that
/// its action is not on the list, and then that it is throttled.
pub proof fn law_why_a_wakeup_does_not_thaw(
    s: EngineView,
    e: EnvView,
    pkg: Seq<char>,
    source: Seq<char>,
    action: Seq<char>,
)
    ensures
        ({
            let u = wakeup_begin(s, e, pkg, source, action).0;
            let msg = u.log.events.last().msg;
            let frozen = has_key(s.frozen, pkg);
            let open = may_be_woken(s, pkg) && !wakeup_suppressed(s, e, pkg, source);
            let gated = frozen && source == "broadcast"@ && s.policy.receiver_gate.len() > 0
                && !s.policy.receiver_gate.contains(action) && !(value_of(
                s.policy.apps,
                pkg,
            ) matches Some(a) && a.mode == AppMode::Important);
            let soon = frozen && s.policy.wake_throttle_seconds > 0 && (value_of(
                s.wake_throttle,
                pkg,
            ) matches Some(until) && e.now < until);
            &&& !may_be_woken(s, pkg) ==> says_why(u, pkg, "wakeup_ignored"@)
            &&& may_be_woken(s, pkg) && wakeup_suppressed(s, e, pkg, source) ==> says_why(
                u,
                pkg,
                "rule_suppressed"@,
            ) && (peeked(s.rules, pkg, RuleCondition::Wakeup, Some(source), e.now, e.today) matches
                Some(h) && msg == Some(h.id))
            &&& open && gated ==> says_why(u, pkg, "receiver_gated"@) && msg == Some(action)
            &&& open && !gated && soon ==> says_why(u, pkg, "wakeup_throttled"@) && msg == Some(
                source,
            )
            &&& u.counters.wake_throttled == (if open && !gated && soon {
                s.counters.wake_throttled.wrapping_add(1)
            } else {
                s.counters.wake_throttled
            })
            &&& u.counters.freeze_ops == s.counters.freeze_ops && u.counters.unfreeze_ops
                == s.counters.unfreeze_ops && u.counters.wakeup_thaws == s.counters.wakeup_thaws
                && u.counters.discard_ops == s.counters.discard_ops
        }),
{
}

/// What is said of an app that is spared for its traffic, or by a rule, when it leaves the
/// foreground or its delay is over.
pub proof fn law_why_an_app_is_spared(
    s: EngineView,
    e: EnvView,
    pkg: Seq<char>,
    rest: Seq<Seq<char>>,
    found: SurveyView,
    uid: u32,
    alive: Option<bool>,
)
    requires
        value_of(e.table, pkg) == Some(uid),
    ensures
        ({
            let moved = moved_bytes(s.net, uid, 30_000_000_000, found.reading, e.now).1;
            let a = settings(s, pkg);
            let high = permitted(a.keep_high_network, s.policy.keep_high_network) && (moved matches
                Some(b) && b >= 262_144);
            let any = permitted(a.keep_network, s.policy.keep_network) && (moved matches Some(b) && b
                >= 1);
            let u = leave_surveyed(s, e, pkg, found).0;
            let v = grace_surveyed(s, e, pkg, rest, found).0;
            &&& high ==> says_why(u, pkg, "high_network"@) && says_why(v, pkg, "tick_high_network"@)
            &&& !high && any ==> says_why(u, pkg, "network_exempt"@) && says_why(
                v,
                pkg,
                "tick_network_exempt"@,
            )
        }),
        !has_key(s.cooldown, pkg) && (peeked(
            s.rules,
            pkg,
            RuleCondition::Leave,
            None,
            e.now,
            e.today,
        ) matches Some(h) && h.action == RuleAction::Exempt) ==> says_why(
            leave_rest(s, e, pkg, alive).0,
            pkg,
            "rule_exempt"@,
        ),
{
}

} // verus!
