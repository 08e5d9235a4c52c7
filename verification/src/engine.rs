//! The policy engine: what happens when an app comes to the foreground, is woken, or is
//! stopped, and what the periodic tick does.
//!
//! The engine decides; the device acts. An event starts with one call and goes on, step by
//! step, until it is dealt with: each step changes the state and says what comes next. An
//! operation on the device is handed out together with the task that takes up its reply.

use vstd::prelude::*;
use crate::engine_ops::{
    about, plain, Env, EnvView, Op, OpView, Step, StepView, Survey, SurveyView, Task, TaskKind,
    TaskView,
};
use crate::engine_rules::{
    acts_as, after, grace_seconds, in_daily_window, is_busy, keeps_high_network, keeps_network,
    keeps_wakeup, leave_rule, listed, mode, push_of, rule_exempts, time_after, uid_of,
    vpn_protected, wakeup_rule,
};
use crate::engine_state::{noted, noted_msg, Counters, EngineState, EngineView, ExemptFlags};
use crate::events::{pending, EvAction, EvLevel, LogView};
use crate::freezer::pkg_uid;
use crate::names::{
    contains_name, has_key, value_of, with_key, with_name, without_key, without_name,
};
use crate::network::{sample, DEFAULT_THRESHOLD, DEFAULT_WINDOW};
use crate::pids::{pid_added, pid_removed, pkg_removed};
use crate::policy::{critical, AppMode};
use crate::profile::{count_in, focused, frozen_once, left, profile_of, thawed_once, woken};
use crate::rules::{after_hit, RuleAction, RuleCondition, RuleHit};
use crate::text::{dec, push_dec, str_eq};

verus! {

broadcast use {crate::lists::texts_len, crate::lists::texts_at};

/// The state after a step, and what comes next.
pub type Outcome = (EngineView, StepView);

/// The state with the clock of its log set.
pub open spec fn stamped(s: EngineView, e: EnvView) -> EngineView {
    EngineView { log: LogView { clock: e.epoch, ..s.log }, ..s }
}

/// The state in which it is on record that the package came to the foreground.
pub open spec fn arrival_recorded(s: EngineView, e: EnvView, pkg: Seq<char>) -> EngineView {
    let p = focused(profile_of(s.profile, pkg), e.now, e.epoch);
    EngineView { profile: with_key(s.profile, pkg, p), ..s }
}

/// The same for a package that left the foreground.
pub open spec fn leave_recorded(s: EngineView, e: EnvView, pkg: Seq<char>) -> EngineView {
    let p = left(profile_of(s.profile, pkg), e.now);
    EngineView { profile: with_key(s.profile, pkg, p), ..s }
}

/// The same for one that was woken, whatever comes of it; the source is counted for all apps
/// together as well.
pub open spec fn wakeup_recorded(
    s: EngineView,
    e: EnvView,
    pkg: Seq<char>,
    source: Seq<char>,
) -> EngineView {
    let p = woken(profile_of(s.profile, pkg), source, e.epoch);
    let n = count_in(s.wakeup_sources, source).wrapping_add(1);
    EngineView {
        profile: with_key(s.profile, pkg, p),
        wakeup_sources: with_key(s.wakeup_sources, source, n),
        ..s
    }
}

/// The same for one that was frozen.
pub open spec fn freeze_recorded(s: EngineView, e: EnvView, pkg: Seq<char>) -> EngineView {
    let p = frozen_once(profile_of(s.profile, pkg), e.epoch);
    EngineView { profile: with_key(s.profile, pkg, p), ..s }
}

/// The same for one that was thawed.
pub open spec fn thaw_recorded(s: EngineView, e: EnvView, pkg: Seq<char>) -> EngineView {
    let p = thawed_once(profile_of(s.profile, pkg), e.epoch);
    EngineView { profile: with_key(s.profile, pkg, p), ..s }
}

/// The state after the rule that applies when a package leaves was applied.
pub open spec fn leave_rule_hit(s: EngineView, e: EnvView, pkg: Seq<char>) -> EngineView {
    EngineView {
        rules: after_hit(s.rules, pkg, RuleCondition::Leave, None, e.now, e.today),
        ..s
    }
}

/// The state after the rule that applies when a package is woken was applied.
pub open spec fn wakeup_rule_hit(
    s: EngineView,
    e: EnvView,
    pkg: Seq<char>,
    source: Seq<char>,
) -> EngineView {
    EngineView {
        rules: after_hit(s.rules, pkg, RuleCondition::Wakeup, Some(source), e.now, e.today),
        ..s
    }
}

/// The state after a thaw that succeeded.
pub open spec fn thaw_counted(s: EngineView) -> EngineView {
    EngineView {
        counters: Counters { unfreeze_ops: s.counters.unfreeze_ops.wrapping_add(1), ..s.counters },
        ..s
    }
}

/// The state after a thaw for a wakeup that succeeded.
pub open spec fn wakeup_counted(s: EngineView) -> EngineView {
    let t = thaw_counted(s);
    EngineView {
        counters: Counters { wakeup_thaws: t.counters.wakeup_thaws.wrapping_add(1), ..t.counters },
        ..t
    }
}

pub open spec fn protected(s: EngineView, pkg: Seq<char>) -> EngineView {
    EngineView { adj_keep: with_name(s.adj_keep, pkg), ..s }
}

/// The state in which the package is not frozen again for a while.
pub open spec fn cooling(s: EngineView, e: EnvView, pkg: Seq<char>) -> EngineView {
    EngineView {
        cooldown: with_key(s.cooldown, pkg, time_after(e.now, s.policy.cooldown_seconds)),
        ..s
    }
}

pub open spec fn unfrozen(s: EngineView, pkg: Seq<char>) -> EngineView {
    EngineView { frozen: without_key(s.frozen, pkg), ..s }
}

pub open spec fn ungraced(s: EngineView, pkg: Seq<char>) -> EngineView {
    EngineView { grace: without_key(s.grace, pkg), ..s }
}

pub open spec fn ask_survey(uid: u32, t: TaskView) -> StepView {
    StepView::Ask(OpView::Survey(uid), t)
}

// ---- An app comes to the foreground ----

/// A new foreground app: thawed where it is frozen; where the table does not hold it frozen,
/// it is looked at nonetheless.
pub open spec fn focus_begin(s: EngineView, e: EnvView, pkg: Seq<char>) -> Outcome {
    let s = if s.last_focus == Some(pkg) {
        stamped(s, e)
    } else {
        arrival_recorded(stamped(s, e), e, pkg)
    };
    if has_key(s.frozen, pkg) {
        (
            unfrozen(s, pkg),
            StepView::Ask(OpView::ThawKeepOom(pkg), about(TaskKind::FocusThaw, pkg)),
        )
    } else {
        match uid_of(e, pkg) {
            Some(u) => (s, ask_survey(u, about(TaskKind::FocusProbe, pkg))),
            None => focus_rest(s, e, pkg),
        }
    }
}

/// The state after the thaw of the new foreground app was tried.
pub open spec fn focus_noted(s: EngineView, e: EnvView, pkg: Seq<char>, ok: bool) -> EngineView {
    if ok {
        noted(
            thaw_recorded(protected(thaw_counted(s), pkg), e, pkg),
            EvLevel::Event,
            EvAction::Unfreeze,
            pkg,
            "foreground"@,
        )
    } else {
        noted(s, EvLevel::Warn, EvAction::Unfreeze, pkg, "foreground_failed"@)
    }
}

pub open spec fn focus_thawed(s: EngineView, e: EnvView, pkg: Seq<char>, ok: bool) -> Outcome {
    focus_rest(cooling(focus_noted(s, e, pkg, ok), e, pkg), e, pkg)
}

pub open spec fn focus_probed(
    s: EngineView,
    e: EnvView,
    pkg: Seq<char>,
    found: SurveyView,
) -> Outcome {
    if found.has_frozen {
        (s, StepView::Ask(OpView::ThawKeepOom(pkg), about(TaskKind::FocusResidual, pkg)))
    } else {
        focus_rest(s, e, pkg)
    }
}

/// The state after the thaw of what was frozen of the new foreground app was tried.
pub open spec fn residual_noted(s: EngineView, e: EnvView, pkg: Seq<char>, ok: bool) -> EngineView {
    if ok {
        cooling(
            noted(
                thaw_recorded(protected(thaw_counted(s), pkg), e, pkg),
                EvLevel::Warn,
                EvAction::Unfreeze,
                pkg,
                "residual_thaw"@,
            ),
            e,
            pkg,
        )
    } else {
        s
    }
}

pub open spec fn focus_residual(s: EngineView, e: EnvView, pkg: Seq<char>, ok: bool) -> Outcome {
    focus_rest(residual_noted(s, e, pkg, ok), e, pkg)
}

/// The delay of the new foreground app ends, and the old one is dealt with.
pub open spec fn focus_rest(s: EngineView, e: EnvView, pkg: Seq<char>) -> Outcome {
    let t = EngineView { last_focus: Some(pkg), ..ungraced(s, pkg) };
    match s.last_focus {
        Some(prev) => if prev != pkg {
            leave_begin(leave_recorded(t, e, prev), e, prev)
        } else {
            (t, StepView::Done)
        },
        None => (t, StepView::Done),
    }
}

// ---- An app leaves the foreground ----

/// Why an app that leaves the foreground is spared without looking at its traffic, and
/// whether that is noted.
pub open spec fn leave_spared(s: EngineView, e: EnvView, pkg: Seq<char>) -> Option<
    Option<Seq<char>>,
> {
    if !s.policy.enabled {
        Some(None)
    } else if critical(pkg) {
        Some(Some("critical"@))
    } else if s.system_apps.contains(pkg) {
        Some(Some("system_app"@))
    } else if s.policy.whitelist.contains(pkg) {
        Some(None)
    } else if vpn_protected(s, e, pkg) {
        Some(Some("vpn_protected"@))
    } else if mode(s, pkg) == AppMode::Exempt {
        Some(Some("per_app_exempt"@))
    } else if is_busy(s, pkg) {
        Some(Some("exempt_action"@))
    } else if in_daily_window(s, e, pkg) {
        Some(Some("schedule_window"@))
    } else {
        None
    }
}

pub open spec fn leave_begin(s: EngineView, e: EnvView, pkg: Seq<char>) -> Outcome {
    match leave_spared(s, e, pkg) {
        Some(Some(why)) => (
            noted(s, EvLevel::Info, EvAction::Exempt, pkg, why),
            StepView::Done,
        ),
        Some(None) => (s, StepView::Done),
        None => match uid_of(e, pkg) {
            Some(u) => (s, ask_survey(u, about(TaskKind::LeaveSurvey, pkg))),
            None => leave_rest(s, e, pkg, None),
        },
    }
}

/// The traffic of a package by one sample, held against the high threshold where that switch
/// is on, and against any byte where the other one is. With neither no sample is taken.
pub open spec fn traffic_check(
    s: EngineView,
    e: EnvView,
    pkg: Seq<char>,
    uid: u32,
    found: SurveyView,
) -> (EngineView, Option<bool>) {
    let (n, high) = sample(
        s.net,
        uid,
        DEFAULT_WINDOW,
        DEFAULT_THRESHOLD,
        found.reading,
        e.now,
    );
    let any = sample(s.net, uid, DEFAULT_WINDOW, 1, found.reading, e.now).1;
    if !keeps_high_network(s, pkg) && !keeps_network(s, pkg) {
        (s, None)
    } else if keeps_high_network(s, pkg) && high {
        (EngineView { net: n, ..s }, Some(true))
    } else if keeps_network(s, pkg) && any {
        (EngineView { net: n, ..s }, Some(false))
    } else {
        (EngineView { net: n, ..s }, None)
    }
}

pub open spec fn leave_surveyed(
    s: EngineView,
    e: EnvView,
    pkg: Seq<char>,
    found: SurveyView,
) -> Outcome {
    match uid_of(e, pkg) {
        Some(u) => {
            let (t, active) = traffic_check(s, e, pkg, u, found);
            match active {
                Some(true) => (
                    noted(t, EvLevel::Info, EvAction::Exempt, pkg, "high_network"@),
                    StepView::Done,
                ),
                Some(false) => (
                    noted(t, EvLevel::Info, EvAction::Exempt, pkg, "network_exempt"@),
                    StepView::Done,
                ),
                None => leave_rest(t, e, pkg, Some(found.has_procs)),
            }
        },
        None => leave_rest(s, e, pkg, None),
    }
}

/// The delay in words.
pub open spec fn seconds_text(secs: u64) -> Seq<char> {
    dec(secs as nat) + "s"@
}

/// An app that nothing spares: left alone while it cools down; spared or frozen at once where
/// a rule says so; frozen at once where it is on the list for that; and frozen after its delay
/// otherwise.
pub open spec fn leave_rest(
    s: EngineView,
    e: EnvView,
    pkg: Seq<char>,
    alive: Option<bool>,
) -> Outcome {
    if has_key(s.cooldown, pkg) {
        (s, StepView::Done)
    } else if rule_exempts(s, e, pkg) {
        (
            noted_msg(
                leave_rule_hit(s, e, pkg),
                EvLevel::Info,
                EvAction::Exempt,
                pkg,
                "rule_exempt"@,
                leave_rule(s, e, pkg)->0.id,
            ),
            StepView::Done,
        )
    } else if acts_as(leave_rule(s, e, pkg), RuleAction::Freeze) {
        match freeze_refused(s, e, pkg, alive) {
            Some(t) => (t, StepView::Done),
            None => (
                s,
                StepView::Ask(
                    OpView::Freeze(pkg, push_of(s, pkg)),
                    about(TaskKind::RuleFreeze, pkg),
                ),
            ),
        }
    } else if s.policy.force.contains(pkg) {
        match freeze_refused(s, e, pkg, alive) {
            Some(t) => (t, StepView::Done),
            None => (
                s,
                StepView::Ask(
                    OpView::Freeze(pkg, push_of(s, pkg)),
                    about(TaskKind::LeaveFreeze, pkg),
                ),
            ),
        }
    } else {
        let secs = grace_seconds(s, pkg);
        let t = noted_msg(
            protected(
                EngineView { grace: with_key(s.grace, pkg, (e.now, secs)), ..s },
                pkg,
            ),
            EvLevel::Timer,
            EvAction::Delay,
            pkg,
            "grace"@,
            seconds_text(secs),
        );
        match uid_of(e, pkg) {
            Some(u) => (
                t,
                StepView::Ask(OpView::Protect(seq![u]), plain(TaskKind::Finish)),
            ),
            None => (t, StepView::Done),
        }
    }
}

/// The last line of defence before a freeze: the state where it is refused.
pub open spec fn freeze_refused(
    s: EngineView,
    e: EnvView,
    pkg: Seq<char>,
    alive: Option<bool>,
) -> Option<EngineView> {
    if critical(pkg) {
        Some(ungraced(noted(s, EvLevel::Warn, EvAction::Exempt, pkg, "critical"@), pkg))
    } else if s.system_apps.contains(pkg) {
        Some(ungraced(noted(s, EvLevel::Warn, EvAction::Exempt, pkg, "system_app"@), pkg))
    } else if vpn_protected(s, e, pkg) {
        Some(ungraced(noted(s, EvLevel::Warn, EvAction::Exempt, pkg, "vpn_protected"@), pkg))
    } else if listed(s, pkg) || rule_exempts(s, e, pkg) {
        Some(ungraced(s, pkg))
    } else if alive == Some(false) {
        Some(noted(s, EvLevel::Warn, EvAction::Freeze, pkg, "no_procs"@))
    } else {
        None
    }
}

/// A freeze that a rule wants was tried: where it succeeded, the rule has applied.
pub open spec fn rule_frozen(s: EngineView, e: EnvView, pkg: Seq<char>, ok: bool) -> Outcome {
    let t = freeze_done(s, e, pkg, "rule_freeze"@, ok);
    (
        if ok {
            leave_rule_hit(t, e, pkg)
        } else {
            t
        },
        StepView::Done,
    )
}

/// The state after a freeze was tried.
pub open spec fn freeze_done(
    s: EngineView,
    e: EnvView,
    pkg: Seq<char>,
    reason: Seq<char>,
    ok: bool,
) -> EngineView {
    if ok {
        noted(
            freeze_recorded(
                EngineView {
                    frozen: with_key(s.frozen, pkg, e.now),
                    counters: Counters {
                        freeze_ops: s.counters.freeze_ops.wrapping_add(1),
                        ..s.counters
                    },
                    ..s
                },
                e,
                pkg,
            ),
            EvLevel::Success,
            EvAction::Freeze,
            pkg,
            reason,
        )
    } else {
        noted(s, EvLevel::Error, EvAction::Freeze, pkg, "freeze_failed"@)
    }
}

// ---- Wakeups and reports ----

/// Whether a broadcast may not thaw the frozen app: there is a list of actions that may, the
/// action is not on it, and the app is not important.
pub open spec fn is_gated(
    s: EngineView,
    pkg: Seq<char>,
    source: Seq<char>,
    action: Seq<char>,
) -> bool {
    &&& source == "broadcast"@
    &&& s.policy.receiver_gate.len() > 0
    &&& mode(s, pkg) != AppMode::Important
    &&& has_key(s.frozen, pkg)
    &&& !s.policy.receiver_gate.contains(action)
}

/// Whether the app is frozen and was thawed for a wakeup only a moment ago.
pub open spec fn is_throttled(s: EngineView, e: EnvView, pkg: Seq<char>) -> bool {
    &&& s.policy.wake_throttle_seconds > 0
    &&& has_key(s.frozen, pkg)
    &&& value_of(s.wake_throttle, pkg) matches Some(until) && e.now < until
}

pub open spec fn wakeup_begin(
    s: EngineView,
    e: EnvView,
    pkg: Seq<char>,
    source: Seq<char>,
    action: Seq<char>,
) -> Outcome {
    let s = wakeup_recorded(stamped(s, e), e, pkg, source);
    if !keeps_wakeup(s, pkg) {
        (noted(s, EvLevel::Info, EvAction::Exempt, pkg, "wakeup_ignored"@), StepView::Done)
    } else if acts_as(wakeup_rule(s, e, pkg, source), RuleAction::Suppress) {
        (
            noted_msg(
                wakeup_rule_hit(s, e, pkg, source),
                EvLevel::Info,
                EvAction::Exempt,
                pkg,
                "rule_suppressed"@,
                wakeup_rule(s, e, pkg, source)->0.id,
            ),
            StepView::Done,
        )
    } else if is_gated(s, pkg, source, action) {
        (
            noted_msg(s, EvLevel::Info, EvAction::Exempt, pkg, "receiver_gated"@, action),
            StepView::Done,
        )
    } else if is_throttled(s, e, pkg) {
        (
            noted_msg(
                EngineView {
                    counters: Counters {
                        wake_throttled: s.counters.wake_throttled.wrapping_add(1),
                        ..s.counters
                    },
                    ..s
                },
                EvLevel::Info,
                EvAction::Exempt,
                pkg,
                "wakeup_throttled"@,
                source,
            ),
            StepView::Done,
        )
    } else if has_key(s.frozen, pkg) {
        (
            unfrozen(s, pkg),
            StepView::Ask(OpView::ThawKeepOom(pkg), about(TaskKind::WakeThaw, pkg)),
        )
    } else {
        (ungraced(s, pkg), StepView::Done)
    }
}

pub open spec fn wakeup_thawed(s: EngineView, e: EnvView, pkg: Seq<char>, ok: bool) -> Outcome {
    let t = if ok {
        let u = protected(wakeup_counted(s), pkg);
        let secs = s.policy.wake_throttle_seconds;
        let v = if secs > 0 {
            EngineView { wake_throttle: with_key(u.wake_throttle, pkg, time_after(e.now, secs)), ..u }
        } else {
            u
        };
        noted(thaw_recorded(v, e, pkg), EvLevel::Event, EvAction::Unfreeze, pkg, "wakeup"@)
    } else {
        noted(s, EvLevel::Warn, EvAction::Unfreeze, pkg, "wakeup_failed"@)
    };
    (ungraced(cooling(t, e, pkg), pkg), StepView::Done)
}

pub open spec fn exempt_reason(f: ExemptFlags) -> Seq<char> {
    if f.fg_service {
        "fg_service"@
    } else if f.media {
        "media"@
    } else if f.location {
        "location"@
    } else {
        "none"@
    }
}

pub open spec fn exempt_reported(s: EngineView, epoch: u64, pkg: Seq<char>, f: ExemptFlags) -> EngineView {
    let s = EngineView { log: LogView { clock: epoch, ..s.log }, ..s };
    noted(
        EngineView { exempt: with_key(s.exempt, pkg, f), ..s },
        EvLevel::Info,
        EvAction::Exempt,
        pkg,
        exempt_reason(f),
    )
}

pub open spec fn process_started(
    s: EngineView,
    pid: u32,
    pkg: Seq<char>,
    uid: Option<u32>,
) -> EngineView {
    EngineView {
        pkg_uids: match uid {
            Some(u) => with_key(s.pkg_uids, pkg, u),
            None => s.pkg_uids,
        },
        pkg_pids: pid_added(s.pkg_pids, pkg, pid),
        ..s
    }
}

/// A package was stopped: everything about it is forgotten, and it is thawed to be safe.
pub open spec fn force_stopped(s: EngineView, e: EnvView, pkg: Seq<char>) -> Outcome {
    let s = stamped(s, e);
    let t = EngineView {
        frozen: without_key(s.frozen, pkg),
        grace: without_key(s.grace, pkg),
        cooldown: without_key(s.cooldown, pkg),
        adj_keep: without_name(s.adj_keep, pkg),
        pkg_pids: pkg_removed(s.pkg_pids, pkg),
        pkg_uids: without_key(s.pkg_uids, pkg),
        ..s
    };
    (
        noted(t, EvLevel::Event, EvAction::Close, pkg, "force_stop"@),
        StepView::Ask(OpView::Thaw(pkg), plain(TaskKind::Finish)),
    )
}

impl EngineState {
    /// An app comes to the foreground. What it does at that moment is reported separately,
    /// by `on_exempt`.
    pub fn on_focus(&mut self, pkg: &str, _fg: bool, _media: bool, env: &Env) -> (r: Step)
        ensures
            (final(self)@, r@) == focus_begin(old(self)@, env@, pkg@),
    {
        self.set_clock(env.epoch);
        if !self.is_focus(pkg) {
            self.profile_focus(pkg, env.now, env.epoch);
        }
        if self.has_frozen(pkg) {
            self.frozen_remove(pkg);
            return Step::Ask(
                Op::ThawKeepOom(String::from_str(pkg)),
                Task::about(TaskKind::FocusThaw, pkg),
            );
        }
        match pkg_uid(&env.table, pkg) {
            Some(u) => Step::Ask(Op::Survey(u), Task::about(TaskKind::FocusProbe, pkg)),
            None => self.focus_tail(pkg, env),
        }
    }

    pub(crate) fn cool_down(&mut self, pkg: &str, env: &Env)
        ensures
            final(self)@ == cooling(old(self)@, env@, pkg@),
    {
        let p = self.policy_ref();
        proof {
            p.lemma_fields();
        }
        let secs: u64 = p.cooldown_seconds;
        self.cooldown_insert(pkg, after(env.now, secs));
    }

    pub(crate) fn count_thaw(&mut self, pkg: &str)
        ensures
            final(self)@ == protected(thaw_counted(old(self)@), pkg@),
    {
        self.bump_unfreeze_ops();
        self.adj_insert(pkg);
    }

    pub(crate) fn on_focus_thawed(&mut self, pkg: &str, ok: bool, env: &Env) -> (r: Step)
        ensures
            (final(self)@, r@) == focus_thawed(old(self)@, env@, pkg@, ok),
    {
        if ok {
            self.count_thaw(pkg);
            self.profile_unfreeze(pkg, env.epoch);
            self.note(EvLevel::Event, EvAction::Unfreeze, pkg, "foreground");
        } else {
            self.note(EvLevel::Warn, EvAction::Unfreeze, pkg, "foreground_failed");
        }
        self.cool_down(pkg, env);
        self.focus_tail(pkg, env)
    }

    pub(crate) fn on_focus_probed(&mut self, pkg: &str, found: &Survey, env: &Env) -> (r: Step)
        ensures
            (final(self)@, r@) == focus_probed(old(self)@, env@, pkg@, found@),
    {
        if found.has_frozen {
            Step::Ask(
                Op::ThawKeepOom(String::from_str(pkg)),
                Task::about(TaskKind::FocusResidual, pkg),
            )
        } else {
            self.focus_tail(pkg, env)
        }
    }

    pub(crate) fn on_focus_residual(&mut self, pkg: &str, ok: bool, env: &Env) -> (r: Step)
        ensures
            (final(self)@, r@) == focus_residual(old(self)@, env@, pkg@, ok),
    {
        if ok {
            self.count_thaw(pkg);
            self.profile_unfreeze(pkg, env.epoch);
            self.note(EvLevel::Warn, EvAction::Unfreeze, pkg, "residual_thaw");
            self.cool_down(pkg, env);
        }
        self.focus_tail(pkg, env)
    }

    fn focus_tail(&mut self, pkg: &str, env: &Env) -> (r: Step)
        ensures
            (final(self)@, r@) == focus_rest(old(self)@, env@, pkg@),
    {
        let prev: Option<String> = match self.focus_ref() {
            Some(p) => Some(p.clone()),
            None => None,
        };
        self.grace_remove(pkg);
        self.set_last_focus(pkg);
        match prev {
            Some(p) => if !str_eq(p.as_str(), pkg) {
                self.profile_leave(p.as_str(), env.now);
                self.decide_leave(p.as_str(), env)
            } else {
                Step::Done
            },
            None => Step::Done,
        }
    }

    fn spared(&self, pkg: &str, env: &Env) -> (r: Option<Option<&'static str>>)
        ensures
            leave_spared(self@, env@, pkg@) == match r {
                Some(Some(w)) => Some(Some(w@)),
                Some(None) => Some(None),
                None => None,
            },
    {
        let p = self.policy_ref();
        proof {
            p.lemma_fields();
        }
        if !p.enabled {
            Some(None)
        } else if p.is_critical(pkg) {
            Some(Some("critical"))
        } else if self.in_system(pkg) {
            Some(Some("system_app"))
        } else if p.is_whitelisted(pkg) {
            Some(None)
        } else if self.is_vpn_protected(pkg, env) {
            Some(Some("vpn_protected"))
        } else if self.mode_of(pkg) == AppMode::Exempt {
            Some(Some("per_app_exempt"))
        } else if self.busy(pkg) {
            Some(Some("exempt_action"))
        } else if self.in_unfreeze_window(pkg, env) {
            Some(Some("schedule_window"))
        } else {
            None
        }
    }

    /// An app left the foreground.
    fn decide_leave(&mut self, pkg: &str, env: &Env) -> (r: Step)
        ensures
            (final(self)@, r@) == leave_begin(old(self)@, env@, pkg@),
    {
        match self.spared(pkg, env) {
            Some(Some(why)) => {
                self.note(EvLevel::Info, EvAction::Exempt, pkg, why);
                Step::Done
            },
            Some(None) => Step::Done,
            None => match pkg_uid(&env.table, pkg) {
                Some(u) => Step::Ask(Op::Survey(u), Task::about(TaskKind::LeaveSurvey, pkg)),
                None => self.leave_tail(pkg, None, env),
            },
        }
    }

    pub(crate) fn check_traffic(&mut self, pkg: &str, uid: u32, found: &Survey, env: &Env) -> (r: Option<bool>)
        ensures
            (final(self)@, r) == traffic_check(old(self)@, env@, pkg@, uid, found@),
    {
        let hn: bool = self.keep_hn(pkg);
        let any: bool = self.keep_net(pkg);
        if !hn && !any {
            return None;
        }
        let moved: Option<u64> = self.net_moved(uid, DEFAULT_WINDOW, &found.reading, env.now);
        match moved {
            Some(bytes) => if hn && bytes >= DEFAULT_THRESHOLD {
                Some(true)
            } else if any && bytes >= 1 {
                Some(false)
            } else {
                None
            },
            None => None,
        }
    }

    pub(crate) fn on_leave_surveyed(&mut self, pkg: &str, found: &Survey, env: &Env) -> (r: Step)
        ensures
            (final(self)@, r@) == leave_surveyed(old(self)@, env@, pkg@, found@),
    {
        match pkg_uid(&env.table, pkg) {
            Some(u) => match self.check_traffic(pkg, u, found, env) {
                Some(true) => {
                    self.note(EvLevel::Info, EvAction::Exempt, pkg, "high_network");
                    Step::Done
                },
                Some(false) => {
                    self.note(EvLevel::Info, EvAction::Exempt, pkg, "network_exempt");
                    Step::Done
                },
                None => self.leave_tail(pkg, Some(found.has_procs), env),
            },
            None => self.leave_tail(pkg, None, env),
        }
    }

    fn leave_tail(&mut self, pkg: &str, alive: Option<bool>, env: &Env) -> (r: Step)
        ensures
            (final(self)@, r@) == leave_rest(old(self)@, env@, pkg@, alive),
    {
        if self.has_cooldown(pkg) {
            return Step::Done;
        }
        let rule: Option<RuleHit> = self.rule_peek(
            pkg,
            RuleCondition::Leave,
            None,
            env.now,
            env.today,
        );
        if let Some(h) = &rule {
            if h.action == RuleAction::Exempt {
                self.rule_hit(pkg, RuleCondition::Leave, None, env.now, env.today);
                self.note_msg(
                    EvLevel::Info,
                    EvAction::Exempt,
                    pkg,
                    "rule_exempt",
                    h.id.as_str(),
                );
                return Step::Done;
            }
            if h.action == RuleAction::Freeze {
                if self.refuse_freeze(pkg, alive, env) {
                    return Step::Done;
                }
                return Step::Ask(
                    Op::Freeze(String::from_str(pkg), self.push_mode(pkg)),
                    Task::about(TaskKind::RuleFreeze, pkg),
                );
            }
        }
        if self.policy_ref().is_forced(pkg) {
            if self.refuse_freeze(pkg, alive, env) {
                return Step::Done;
            }
            return Step::Ask(
                Op::Freeze(String::from_str(pkg), self.push_mode(pkg)),
                Task::about(TaskKind::LeaveFreeze, pkg),
            );
        }
        let secs: u64 = self.grace_of(pkg);
        self.grace_insert(pkg, (env.now, secs));
        self.adj_insert(pkg);
        let mut msg: String = String::new();
        push_dec(&mut msg, secs);
        msg.append("s");
        assert(msg@ =~= seconds_text(secs));
        self.note_msg(EvLevel::Timer, EvAction::Delay, pkg, "grace", msg.as_str());
        match pkg_uid(&env.table, pkg) {
            Some(u) => {
                let mut uids: Vec<u32> = Vec::new();
                uids.push(u);
                assert(uids@ =~= seq![u]);
                Step::Ask(Op::Protect(uids), Task::plain(TaskKind::Finish))
            },
            None => Step::Done,
        }
    }

    /// The last line of defence before a freeze; says whether it is refused.
    pub(crate) fn refuse_freeze(&mut self, pkg: &str, alive: Option<bool>, env: &Env) -> (r: bool)
        ensures
            match freeze_refused(old(self)@, env@, pkg@, alive) {
                Some(t) => r && final(self)@ == t,
                None => !r && final(self)@ == old(self)@,
            },
    {
        if self.policy_ref().is_critical(pkg) {
            self.note(EvLevel::Warn, EvAction::Exempt, pkg, "critical");
            self.grace_remove(pkg);
            return true;
        }
        if self.in_system(pkg) {
            self.note(EvLevel::Warn, EvAction::Exempt, pkg, "system_app");
            self.grace_remove(pkg);
            return true;
        }
        if self.is_vpn_protected(pkg, env) {
            self.note(EvLevel::Warn, EvAction::Exempt, pkg, "vpn_protected");
            self.grace_remove(pkg);
            return true;
        }
        if self.is_listed(pkg) || self.is_rule_exempt(pkg, env) {
            self.grace_remove(pkg);
            return true;
        }
        if let Some(a) = alive {
            if !a {
                self.note(EvLevel::Warn, EvAction::Freeze, pkg, "no_procs");
                return true;
            }
        }
        false
    }

    pub(crate) fn finish_freeze(&mut self, pkg: &str, reason: &str, ok: bool, env: &Env)
        ensures
            final(self)@ == freeze_done(old(self)@, env@, pkg@, reason@, ok),
    {
        if ok {
            self.frozen_insert(pkg, env.now);
            self.bump_freeze_ops();
            self.profile_freeze(pkg, env.epoch);
            self.note(EvLevel::Success, EvAction::Freeze, pkg, reason);
        } else {
            self.note(EvLevel::Error, EvAction::Freeze, pkg, "freeze_failed");
        }
    }

    pub(crate) fn on_rule_frozen(&mut self, pkg: &str, ok: bool, env: &Env) -> (r: Step)
        ensures
            (final(self)@, r@) == rule_frozen(old(self)@, env@, pkg@, ok),
    {
        self.finish_freeze(pkg, "rule_freeze", ok, env);
        if ok {
            self.rule_hit(pkg, RuleCondition::Leave, None, env.now, env.today);
        }
        Step::Done
    }

    fn gated(&self, pkg: &str, source: &str, action: &str) -> (r: bool)
        ensures
            r == is_gated(self@, pkg@, source@, action@),
    {
        let p = self.policy_ref();
        proof {
            p.lemma_fields();
        }
        str_eq(source, "broadcast") && p.receiver_gate.len() > 0 && self.mode_of(pkg)
            != AppMode::Important && self.has_frozen(pkg) && !contains_name(
            &p.receiver_gate,
            action,
        )
    }

    fn throttled(&self, pkg: &str, env: &Env) -> (r: bool)
        ensures
            r == is_throttled(self@, env@, pkg@),
    {
        let p = self.policy_ref();
        proof {
            p.lemma_fields();
        }
        p.wake_throttle_seconds > 0 && self.has_frozen(pkg) && match self.throttle_until(pkg) {
            Some(until) => (env.now as u128) < until,
            None => false,
        }
    }

    /// A frozen app is woken by a broadcast, a service or a pending intent.
    pub fn on_wakeup(&mut self, pkg: &str, source: &str, action: &str, env: &Env) -> (r: Step)
        ensures
            (final(self)@, r@) == wakeup_begin(old(self)@, env@, pkg@, source@, action@),
    {
        self.set_clock(env.epoch);
        self.profile_wakeup(pkg, source, env.epoch);
        if !self.keep_wakeup(pkg) {
            self.note(EvLevel::Info, EvAction::Exempt, pkg, "wakeup_ignored");
            return Step::Done;
        }
        let rule: Option<RuleHit> = self.rule_peek(
            pkg,
            RuleCondition::Wakeup,
            Some(source),
            env.now,
            env.today,
        );
        if let Some(h) = &rule {
            if h.action == RuleAction::Suppress {
                self.rule_hit(pkg, RuleCondition::Wakeup, Some(source), env.now, env.today);
                self.note_msg(
                    EvLevel::Info,
                    EvAction::Exempt,
                    pkg,
                    "rule_suppressed",
                    h.id.as_str(),
                );
                return Step::Done;
            }
        }
        if self.gated(pkg, source, action) {
            self.note_msg(EvLevel::Info, EvAction::Exempt, pkg, "receiver_gated", action);
            return Step::Done;
        }
        if self.throttled(pkg, env) {
            self.bump_wake_throttled();
            self.note_msg(EvLevel::Info, EvAction::Exempt, pkg, "wakeup_throttled", source);
            return Step::Done;
        }
        if self.has_frozen(pkg) {
            self.frozen_remove(pkg);
            return Step::Ask(
                Op::ThawKeepOom(String::from_str(pkg)),
                Task::about(TaskKind::WakeThaw, pkg),
            );
        }
        self.grace_remove(pkg);
        Step::Done
    }

    pub(crate) fn on_wakeup_thawed(&mut self, pkg: &str, ok: bool, env: &Env) -> (r: Step)
        ensures
            (final(self)@, r@) == wakeup_thawed(old(self)@, env@, pkg@, ok),
    {
        if ok {
            let p = self.policy_ref();
            proof {
                p.lemma_fields();
            }
            let secs: u64 = p.wake_throttle_seconds;
            self.bump_unfreeze_ops();
            self.bump_wakeup_thaws();
            self.adj_insert(pkg);
            if secs > 0 {
                self.wake_throttle_insert(pkg, after(env.now, secs));
            }
            self.profile_unfreeze(pkg, env.epoch);
            self.note(EvLevel::Event, EvAction::Unfreeze, pkg, "wakeup");
        } else {
            self.note(EvLevel::Warn, EvAction::Unfreeze, pkg, "wakeup_failed");
        }
        self.cool_down(pkg, env);
        self.grace_remove(pkg);
        Step::Done
    }

    /// It is reported what an app is doing.
    pub fn on_exempt(&mut self, pkg: &str, fg: bool, media: bool, loc: bool, epoch: u64)
        ensures
            final(self)@ == exempt_reported(
                old(self)@,
                epoch,
                pkg@,
                (ExemptFlags { fg_service: fg, media, location: loc }),
            ),
    {
        self.set_clock(epoch);
        self.exempt_insert(pkg, ExemptFlags { fg_service: fg, media, location: loc });
        let reason: &str = if fg {
            "fg_service"
        } else if media {
            "media"
        } else if loc {
            "location"
        } else {
            "none"
        };
        self.note(EvLevel::Info, EvAction::Exempt, pkg, reason);
    }

    /// A process of a package started.
    pub fn on_proc_add(&mut self, pid: u32, pkg: &str, uid: Option<u32>)
        ensures
            final(self)@ == process_started(old(self)@, pid, pkg@, uid),
    {
        if let Some(u) = uid {
            self.pkg_uids_insert(pkg, u);
        }
        self.pids_add(pkg, pid);
    }

    /// A process ended.
    pub fn on_proc_remove(&mut self, pid: u32)
        ensures
            final(self)@ == (EngineView {
                pkg_pids: pid_removed(old(self)@.pkg_pids, pid),
                ..old(self)@
            }),
    {
        self.pids_remove(pid);
    }

    /// A package was stopped.
    pub fn on_force_stop(&mut self, pkg: &str, env: &Env) -> (r: Step)
        ensures
            (final(self)@, r@) == force_stopped(old(self)@, env@, pkg@),
    {
        self.set_clock(env.epoch);
        self.frozen_remove(pkg);
        self.grace_remove(pkg);
        self.cooldown_remove(pkg);
        self.adj_remove(pkg);
        self.pids_forget(pkg);
        self.pkg_uids_remove(pkg);
        self.note(EvLevel::Event, EvAction::Close, pkg, "force_stop");
        Step::Ask(Op::Thaw(String::from_str(pkg)), Task::plain(TaskKind::Finish))
    }
}

} // verus!
