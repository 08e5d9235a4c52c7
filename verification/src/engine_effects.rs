//! What the rules and the traffic bring about in the engine, and what is put on record of the
//! apps.

use vstd::prelude::*;
use crate::engine::{
    focus_begin, focus_rest, freeze_done, freeze_refused, leave_rest, rule_frozen, traffic_check,
    wakeup_begin, wakeup_thawed,
};
use crate::engine_admin::{reload_begin, ReloadView};
use crate::engine_ops::{
    about, over, DiscardReason, EnvView, OpView, StepView, SurveyView, TaskKind,
};
use crate::engine_rules::{
    acts_as, keeps_high_network, keeps_network, keeps_wakeup, leave_rule, never_discarded, never_frozen, push_of, rule_exempts,
    rule_is_due, ruled_names, uid_of, wakeup_rule,
};
use crate::engine_state::EngineView;
use crate::engine_tick::{discard_killed, net_surveyed, rule_begin, with_found};
use crate::names::{
    has_key, key_index, lemma_key_index, lemma_with_key, unique_keys, value_of, with_key,
};
use crate::network::{moved_bytes, sample, DEFAULT_THRESHOLD, DEFAULT_WINDOW};
use crate::profile::{discarded_once, focused, frozen_once, left, profile_of, thawed_once, woken};
use crate::rules::{
    applies, law_chosen_rule, loaded_rules, RuleAction, RuleCondition, RuleView,
};

verus! {

// ---- Rules ----

/// A wakeup that a rule suppresses thaws nothing and cancels no delay, and it is dealt with at
/// once; the rule has applied once more.
pub proof fn law_suppress_keeps_frozen(
    s: EngineView,
    e: EnvView,
    pkg: Seq<char>,
    source: Seq<char>,
    action: Seq<char>,
)
    requires
        keeps_wakeup(s, pkg),
        acts_as(wakeup_rule(s, e, pkg, source), RuleAction::Suppress),
    ensures
        ({
            let (u, st) = wakeup_begin(s, e, pkg, source, action);
            &&& st == StepView::Done
            &&& u.frozen == s.frozen
            &&& u.grace == s.grace
            &&& u.cooldown == s.cooldown
            &&& u.rules.hits == s.rules.hits.wrapping_add(1)
        }),
{
}

/// An app that leaves the foreground and that a rule exempts does not wait to be frozen, and is
/// not frozen; the rule has applied once more.
pub proof fn law_exempt_spares(s: EngineView, e: EnvView, pkg: Seq<char>, alive: Option<bool>)
    requires
        !has_key(s.cooldown, pkg),
        rule_exempts(s, e, pkg),
    ensures
        ({
            let (u, st) = leave_rest(s, e, pkg, alive);
            &&& st == StepView::Done
            &&& u.frozen == s.frozen
            &&& u.grace == s.grace
            &&& u.rules.hits == s.rules.hits.wrapping_add(1)
        }),
        never_frozen(s, e, pkg),
        never_discarded(s, e, pkg),
        freeze_refused(s, e, pkg, alive) is Some,
{
}

/// An app that leaves the foreground and that a rule wants frozen is frozen without delay,
/// unless it must not be or has no process. Once it is frozen the rule has applied once more,
/// where it still applies.
pub proof fn law_freeze_skips_the_delay(
    s: EngineView,
    e: EnvView,
    pkg: Seq<char>,
    alive: Option<bool>,
)
    requires
        !has_key(s.cooldown, pkg),
        acts_as(leave_rule(s, e, pkg), RuleAction::Freeze),
    ensures
        freeze_refused(s, e, pkg, alive) is None ==> leave_rest(s, e, pkg, alive) == (
            s,
            StepView::Ask(
                OpView::Freeze(pkg, push_of(s, pkg)),
                about(TaskKind::RuleFreeze, pkg),
            ),
        ),
        freeze_refused(s, e, pkg, alive) matches Some(t) ==> leave_rest(s, e, pkg, alive) == (
            t,
            StepView::Done,
        ),
        has_key(rule_frozen(s, e, pkg, true).0.frozen, pkg),
        rule_frozen(s, e, pkg, true).0.rules.hits == s.rules.hits.wrapping_add(1),
        rule_frozen(s, e, pkg, false).0.frozen == s.frozen,
        rule_frozen(s, e, pkg, false).0.rules == s.rules,
{
    lemma_with_key(s.frozen, pkg, e.now, pkg);
}

proof fn lemma_ruled_found(s: EngineView, e: EnvView, m: Seq<(Seq<char>, u64)>, i: int)
    requires
        0 <= i < m.len(),
        rule_is_due(s, e, m[i].0, m[i].1),
    ensures
        ruled_names(s, e, m).contains(m[i].0),
    decreases m.len(),
{
    let w = ruled_names(s, e, m);
    let k = ruled_names(s, e, m.drop_last());
    if i < m.len() - 1 {
        lemma_ruled_found(s, e, m.drop_last(), i);
        let j = choose|j: int| 0 <= j < k.len() && k[j] == m[i].0;
        assert(w[j] == m[i].0);
    } else {
        assert(w[w.len() - 1] == m[i].0);
    }
}

proof fn lemma_ruled_due(s: EngineView, e: EnvView, m: Seq<(Seq<char>, u64)>, p: Seq<char>) -> (i:
    int)
    requires
        ruled_names(s, e, m).contains(p),
    ensures
        0 <= i < m.len(),
        m[i].0 == p,
        rule_is_due(s, e, p, m[i].1),
    decreases m.len(),
{
    let w = ruled_names(s, e, m);
    let k = ruled_names(s, e, m.drop_last());
    let j = choose|j: int| 0 <= j < w.len() && w[j] == p;
    if rule_is_due(s, e, m.last().0, m.last().1) && j == w.len() - 1 {
        m.len() - 1
    } else {
        assert(k[j] == p);
        lemma_ruled_due(s, e, m.drop_last(), p)
    }
}

/// The packages that rules want discarded are frozen ones, each once.
pub proof fn lemma_ruled(s: EngineView, e: EnvView, m: Seq<(Seq<char>, u64)>)
    requires
        unique_keys(m),
    ensures
        ruled_names(s, e, m).no_duplicates(),
        forall|i: int|
            0 <= i < ruled_names(s, e, m).len() ==> exists|j: int|
                0 <= j < m.len() && m[j].0 == #[trigger] ruled_names(s, e, m)[i],
    decreases m.len(),
{
    if m.len() > 0 {
        let d = m.drop_last();
        assert forall|i: int, j: int| 0 <= i < j < d.len() implies d[i].0 != d[j].0 by {
            assert(m[i].0 != m[j].0);
        }
        lemma_ruled(s, e, d);
        let w = ruled_names(s, e, m);
        let k = ruled_names(s, e, d);
        assert forall|i: int| 0 <= i < w.len() implies exists|j: int|
            0 <= j < m.len() && m[j].0 == #[trigger] w[i] by {
            if i < k.len() {
                assert(k[i] == w[i]);
                let j = choose|j: int| 0 <= j < d.len() && d[j].0 == k[i];
                assert(m[j].0 == w[i]);
            } else {
                assert(m[m.len() - 1].0 == w[i]);
            }
        }
        assert forall|a: int, b: int| 0 <= a < w.len() && 0 <= b < w.len() && a != b implies w[a]
            != w[b] by {
            if a == k.len() {
                let j = choose|j: int| 0 <= j < d.len() && d[j].0 == k[b];
                assert(m[j].0 != m[m.len() - 1].0);
            } else if b == k.len() {
                let j = choose|j: int| 0 <= j < d.len() && d[j].0 == k[a];
                assert(m[j].0 != m[m.len() - 1].0);
            }
        }
    }
}

/// Every tenth tick exactly those frozen apps are to be discarded by a rule that have been
/// frozen as long as the rule says, or as the policy does where the rule does not.
pub proof fn law_discard_rules_are_exact(s: EngineView, e: EnvView, p: Seq<char>)
    requires
        unique_keys(s.frozen),
        s.tick_count % 10 == 0,
    ensures
        rule_begin(s, e).1 matches StepView::Next(t) && t.kind == TaskKind::DiscardNext && t.why
            == DiscardReason::Rule && (t.queue.contains(p) <==> (match value_of(s.frozen, p) {
            Some(since) => rule_is_due(s, e, p, since),
            None => false,
        })),
{
    let w = ruled_names(s, e, s.frozen);
    lemma_key_index(s.frozen, p);
    let i = key_index(s.frozen, p);
    if w.contains(p) {
        let j = lemma_ruled_due(s, e, s.frozen, p);
        if i < j {
            assert(s.frozen[i].0 != s.frozen[j].0);
        } else if j < i {
            assert(s.frozen[j].0 != p);
        }
    }
    if has_key(s.frozen, p) && rule_is_due(s, e, p, s.frozen[i].1) {
        lemma_ruled_found(s, e, s.frozen, i);
    }
}

/// Without rules nothing is suppressed, exempted, frozen or discarded by one.
pub proof fn law_no_rules_no_effect(
    s: EngineView,
    e: EnvView,
    pkg: Seq<char>,
    source: Seq<char>,
    m: Seq<(Seq<char>, u64)>,
)
    requires
        s.rules.rules.len() == 0,
    ensures
        wakeup_rule(s, e, pkg, source) is None,
        leave_rule(s, e, pkg) is None,
        ruled_names(s, e, m).len() == 0,
    decreases m.len(),
{
    if m.len() > 0 {
        law_no_rules_no_effect(s, e, pkg, source, m.drop_last());
    }
}

/// A rule that applies where an app leaves, or where it is woken, and that no other one which
/// applies there outranks, is the one that is obeyed.
pub proof fn law_highest_rule_is_obeyed(
    s: EngineView,
    e: EnvView,
    pkg: Seq<char>,
    source: Seq<char>,
    i: int,
)
    requires
        0 <= i < s.rules.rules.len(),
    ensures
        outranks(s.rules.rules, pkg, RuleCondition::Leave, None, e, i) ==> acts_as(
            leave_rule(s, e, pkg),
            s.rules.rules[i].action,
        ),
        outranks(s.rules.rules, pkg, RuleCondition::Wakeup, Some(source), e, i) ==> acts_as(
            wakeup_rule(s, e, pkg, source),
            s.rules.rules[i].action,
        ),
{
    law_chosen_rule(s.rules.rules, pkg, RuleCondition::Leave, None, e.now, e.today);
    law_chosen_rule(s.rules.rules, pkg, RuleCondition::Wakeup, Some(source), e.now, e.today);
}

/// Whether a rule applies and every other one that applies has a lower priority.
pub open spec fn outranks(
    rules: Seq<RuleView>,
    pkg: Seq<char>,
    cond: RuleCondition,
    source: Option<Seq<char>>,
    e: EnvView,
    i: int,
) -> bool {
    &&& applies(rules[i], pkg, cond, source, e.now, e.today)
    &&& forall|j: int|
        0 <= j < rules.len() && j != i && #[trigger] applies(
            rules[j],
            pkg,
            cond,
            source,
            e.now,
            e.today,
        ) ==> rules[j].priority < rules[i].priority
}

/// A reload takes over the rules of a file that can be loaded, and keeps the old ones
/// otherwise.
pub proof fn law_reload_takes_rules(s: EngineView, e: EnvView, i: ReloadView)
    ensures
        reload_begin(s, e, i).0.rules == (match loaded_rules(i.rules, i.rules_revision) {
            Some(t) => t,
            None => s.rules,
        }),
{
}

// ---- What is on record of the apps ----

/// Every wakeup is counted with its source, whether it thaws the app or not.
pub proof fn law_wakeups_are_counted(
    s: EngineView,
    e: EnvView,
    pkg: Seq<char>,
    source: Seq<char>,
    action: Seq<char>,
)
    ensures
        profile_of(wakeup_begin(s, e, pkg, source, action).0.profile, pkg) == woken(
            profile_of(s.profile, pkg),
            source,
            e.epoch,
        ),
{
    lemma_with_key(s.profile, pkg, woken(profile_of(s.profile, pkg), source, e.epoch), pkg);
}

/// Freezes, thaws and discards that succeed are counted, and those that fail are not.
pub proof fn law_operations_are_counted(
    s: EngineView,
    e: EnvView,
    pkg: Seq<char>,
    reason: Seq<char>,
    uid: u32,
    queue: Seq<Seq<char>>,
    why: DiscardReason,
    killed: u64,
)
    ensures
        profile_of(freeze_done(s, e, pkg, reason, true).profile, pkg) == frozen_once(
            profile_of(s.profile, pkg),
            e.epoch,
        ),
        freeze_done(s, e, pkg, reason, false).profile == s.profile,
        profile_of(wakeup_thawed(s, e, pkg, true).0.profile, pkg) == thawed_once(
            profile_of(s.profile, pkg),
            e.epoch,
        ),
        wakeup_thawed(s, e, pkg, false).0.profile == s.profile,
        killed > 0 ==> profile_of(
            discard_killed(s, e, pkg, uid, queue, why, killed).0.profile,
            pkg,
        ) == discarded_once(profile_of(s.profile, pkg), e.epoch),
        discard_killed(s, e, pkg, uid, queue, why, 0).0.profile == s.profile,
{
    let p = profile_of(s.profile, pkg);
    lemma_with_key(s.profile, pkg, frozen_once(p, e.epoch), pkg);
    lemma_with_key(s.profile, pkg, thawed_once(p, e.epoch), pkg);
    lemma_with_key(s.profile, pkg, discarded_once(p, e.epoch), pkg);
}

/// An app that comes to the foreground is counted once for its stay, and the time of the stay
/// runs until another one comes.
pub proof fn law_stays_are_counted(s: EngineView, e: EnvView, pkg: Seq<char>)
    ensures
        s.last_focus != Some(pkg) ==> profile_of(focus_begin(s, e, pkg).0.profile, pkg) == focused(
            profile_of(s.profile, pkg),
            e.now,
            e.epoch,
        ),
        s.last_focus == Some(pkg) ==> focus_begin(s, e, pkg).0.profile == s.profile,
        s.last_focus matches Some(prev) ==> prev != pkg ==> profile_of(
            focus_rest(s, e, pkg).0.profile,
            prev,
        ) == left(profile_of(s.profile, prev), e.now),
{
    let p = focused(profile_of(s.profile, pkg), e.now, e.epoch);
    let m = with_key(s.profile, pkg, p);
    lemma_with_key(s.profile, pkg, p, pkg);
    if let Some(prev) = s.last_focus {
        lemma_with_key(s.profile, prev, left(profile_of(s.profile, prev), e.now), prev);
        lemma_with_key(m, prev, left(profile_of(m, prev), e.now), pkg);
    }
}

// ---- Traffic ----

/// A frozen app that keeps its traffic is to be thawed where any byte was moved since it was
/// last looked at, and only then; and so the time since the last look makes no difference.
pub proof fn law_traffic_wakes(
    s: EngineView,
    e: EnvView,
    pkg: Seq<char>,
    queue: Seq<Seq<char>>,
    wake: Seq<Seq<char>>,
    found: SurveyView,
    uid: u32,
)
    requires
        uid_of(e, pkg) == Some(uid),
    ensures
        ({
            let moved = moved_bytes(s.net, uid, 0, found.reading, e.now).1;
            net_surveyed(s, e, pkg, queue, wake, found).1 == StepView::Next(
                with_found(
                    over(TaskKind::NetNext, queue),
                    if moved matches Some(n) && n > 0 {
                        wake.push(pkg)
                    } else {
                        wake
                    },
                ),
            )
        }),
{
}

/// An app that leaves, or whose delay is over, is spared for its traffic where one sample says
/// so by either threshold whose switch is on.
pub proof fn law_one_sample_decides(
    s: EngineView,
    e: EnvView,
    pkg: Seq<char>,
    uid: u32,
    found: SurveyView,
)
    ensures
        keeps_network(s, pkg) && sample(s.net, uid, DEFAULT_WINDOW, 1, found.reading, e.now).1
            ==> traffic_check(s, e, pkg, uid, found).1 is Some,
        keeps_high_network(s, pkg) && sample(
            s.net,
            uid,
            DEFAULT_WINDOW,
            DEFAULT_THRESHOLD,
            found.reading,
            e.now,
        ).1 ==> traffic_check(s, e, pkg, uid, found).1 == Some(true),
        !keeps_network(s, pkg) && !keeps_high_network(s, pkg) ==> traffic_check(
            s,
            e,
            pkg,
            uid,
            found,
        ) == (s, None::<bool>),
{
}

} // verus!
