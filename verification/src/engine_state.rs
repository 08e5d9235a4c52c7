//! The state of the policy engine, and the single changes that it can undergo.
//!
//! The engine proper reasons about the view alone: every change here says which part of
//! the view it touches.

use vstd::prelude::*;
use crate::events::{
    empty_log, log_app, log_system, opt_str, opt_view, EvAction, EvLevel, EventBuffer, LogView,
};
use crate::freezer::pair_views;
use crate::lists::texts;
use crate::names::{
    has_key, later_entries, value_of, with_key, with_name, without_key, without_name, NameMap,
    NameSet,
};
use crate::network::{empty_sampler, sample, NetReading, NetSampler, SamplerView};
use crate::pids::{pid_added, pid_removed, pkg_removed, PidIndex};
use crate::policy::{default_policy, AppPolicy, Policy, PolicyView};
use crate::preset::{empty_presets, Preset, PresetTable, PresetsView};
use crate::profile::{
    count_in, discarded_once, focused, frozen_once, left, profile_of, thawed_once, woken, ProfileTable,
    ProfileView,
};
use crate::rules::{
    after_hit, hit_view, peeked, RuleCondition, RuleHit, RuleTable, RulesView,
};

verus! {

broadcast use {crate::lists::texts_len, crate::lists::texts_at};

/// What an app was last reported to be doing.
#[derive(Debug, Clone, Copy)]
pub struct ExemptFlags {
    pub fg_service: bool,
    pub media: bool,
    pub location: bool,
}

/// The state of the engine. Times are nanoseconds of a clock that only goes forward.
#[derive(Debug)]
pub struct EngineState {
    pub policy: Policy,
    /// When each frozen package was frozen.
    pub frozen: NameMap<u64>,
    /// The frozen packages and uids that were last written to disk.
    pub last_persist: Option<Vec<(String, u32)>>,
    /// When each package left the foreground, and its delay in seconds.
    pub grace: NameMap<(u64, u64)>,
    /// Until when each package is not frozen again.
    pub cooldown: NameMap<u128>,
    /// The packages whose processes are kept from the memory killer.
    pub adj_keep: NameSet,
    /// Until when wakeups of each package do not thaw it.
    pub wake_throttle: NameMap<u128>,
    pub wake_throttled: u64,
    pub exempt: NameMap<ExemptFlags>,
    /// The package in the foreground.
    pub last_focus: Option<String>,
    /// The packages that belong to the system.
    pub system_apps: NameSet,
    /// The uid of the media process.
    pub media_uid: Option<u32>,
    pub system_chain_locked: bool,
    /// The uids that were reported with processes.
    pub pkg_uids: NameMap<u32>,
    pub pkg_pids: PidIndex,
    pub events: EventBuffer,
    pub presets: PresetTable,
    pub active_preset: Option<String>,
    pub rules: RuleTable,
    /// How each app is used.
    pub profile: ProfileTable,
    /// Wakeups by source, of all apps.
    pub wakeup_sources: NameMap<u64>,
    pub net: NetSampler,
    pub freeze_ops: u64,
    pub unfreeze_ops: u64,
    pub wakeup_thaws: u64,
    pub tick_count: u64,
    pub discard_ops: u64,
    pub discard_frozen_timeout: u64,
    pub discard_rule: u64,
    pub discard_mem_watermark: u64,
    pub discard_boot_reclaim: u64,
    /// The packages that were discarded last, each once.
    pub discarded: Vec<String>,
    pub boot_completed_at: Option<u64>,
    pub boot_reclaim_done: bool,
    /// The packages that were frozen in the last session.
    pub boot_reclaim_candidates: Vec<(String, u32)>,
}

/// The counters of the engine.
pub struct Counters {
    pub wake_throttled: u64,
    pub freeze_ops: u64,
    pub unfreeze_ops: u64,
    pub wakeup_thaws: u64,
    pub discard_ops: u64,
    pub discard_frozen_timeout: u64,
    pub discard_rule: u64,
    pub discard_mem_watermark: u64,
    pub discard_boot_reclaim: u64,
}

/// What the state denotes.
pub struct EngineView {
    pub policy: PolicyView,
    pub frozen: Seq<(Seq<char>, u64)>,
    pub last_persist: Option<Seq<(Seq<char>, u32)>>,
    pub grace: Seq<(Seq<char>, (u64, u64))>,
    pub cooldown: Seq<(Seq<char>, u128)>,
    pub adj_keep: Seq<Seq<char>>,
    pub wake_throttle: Seq<(Seq<char>, u128)>,
    pub exempt: Seq<(Seq<char>, ExemptFlags)>,
    pub last_focus: Option<Seq<char>>,
    pub system_apps: Seq<Seq<char>>,
    pub media_uid: Option<u32>,
    pub system_chain_locked: bool,
    pub pkg_uids: Seq<(Seq<char>, u32)>,
    pub pkg_pids: Seq<(Seq<char>, Seq<u32>)>,
    pub log: LogView,
    pub presets: PresetsView,
    pub active_preset: Option<Seq<char>>,
    pub rules: RulesView,
    pub profile: Seq<(Seq<char>, ProfileView)>,
    pub wakeup_sources: Seq<(Seq<char>, u64)>,
    pub net: SamplerView,
    pub counters: Counters,
    pub tick_count: u64,
    pub discarded: Seq<Seq<char>>,
    pub boot_completed_at: Option<u64>,
    pub boot_reclaim_done: bool,
    pub boot_reclaim_candidates: Seq<(Seq<char>, u32)>,
}

/// The views of a list of packages and uids that may be missing.
pub open spec fn opt_pairs(v: Option<Vec<(String, u32)>>) -> Option<Seq<(Seq<char>, u32)>> {
    match v {
        Some(s) => Some(pair_views(s@)),
        None => None,
    }
}

impl View for EngineState {
    type V = EngineView;

    closed spec fn view(&self) -> EngineView {
        EngineView {
            policy: self.policy@,
            frozen: self.frozen@,
            last_persist: opt_pairs(self.last_persist),
            grace: self.grace@,
            cooldown: self.cooldown@,
            adj_keep: self.adj_keep@,
            wake_throttle: self.wake_throttle@,
            exempt: self.exempt@,
            last_focus: opt_view(self.last_focus),
            system_apps: self.system_apps@,
            media_uid: self.media_uid,
            system_chain_locked: self.system_chain_locked,
            pkg_uids: self.pkg_uids@,
            pkg_pids: self.pkg_pids@,
            log: self.events@,
            presets: self.presets@,
            active_preset: opt_view(self.active_preset),
            rules: self.rules@,
            profile: self.profile@,
            wakeup_sources: self.wakeup_sources@,
            net: self.net@,
            counters: Counters {
                wake_throttled: self.wake_throttled,
                freeze_ops: self.freeze_ops,
                unfreeze_ops: self.unfreeze_ops,
                wakeup_thaws: self.wakeup_thaws,
                discard_ops: self.discard_ops,
                discard_frozen_timeout: self.discard_frozen_timeout,
                discard_rule: self.discard_rule,
                discard_mem_watermark: self.discard_mem_watermark,
                discard_boot_reclaim: self.discard_boot_reclaim,
            },
            tick_count: self.tick_count,
            discarded: texts(self.discarded@),
            boot_completed_at: self.boot_completed_at,
            boot_reclaim_done: self.boot_reclaim_done,
            boot_reclaim_candidates: pair_views(self.boot_reclaim_candidates@),
        }
    }
}

pub open spec fn zero_counters() -> Counters {
    Counters {
        wake_throttled: 0,
        freeze_ops: 0,
        unfreeze_ops: 0,
        wakeup_thaws: 0,
        discard_ops: 0,
        discard_frozen_timeout: 0,
        discard_rule: 0,
        discard_mem_watermark: 0,
        discard_boot_reclaim: 0,
    }
}

/// The state at start.
pub open spec fn initial_engine() -> EngineView {
    EngineView {
        policy: default_policy(),
        frozen: Seq::empty(),
        last_persist: None,
        grace: Seq::empty(),
        cooldown: Seq::empty(),
        adj_keep: Seq::empty(),
        wake_throttle: Seq::empty(),
        exempt: Seq::empty(),
        last_focus: None,
        system_apps: Seq::empty(),
        media_uid: None,
        system_chain_locked: false,
        pkg_uids: Seq::empty(),
        pkg_pids: Seq::empty(),
        log: empty_log(),
        presets: empty_presets(),
        active_preset: None,
        rules: (RulesView { rules: Seq::empty(), revision: 0, hits: 0 }),
        profile: Seq::empty(),
        wakeup_sources: Seq::empty(),
        net: empty_sampler(),
        counters: zero_counters(),
        tick_count: 0,
        discarded: Seq::empty(),
        boot_completed_at: None,
        boot_reclaim_done: false,
        boot_reclaim_candidates: Seq::empty(),
    }
}

impl Default for EngineState {
    fn default() -> (r: Self)
        ensures
            r@ == initial_engine(),
    {
        let r = EngineState {
            policy: Policy::default(),
            frozen: NameMap::new(),
            last_persist: None,
            grace: NameMap::new(),
            cooldown: NameMap::new(),
            adj_keep: NameSet::new(),
            wake_throttle: NameMap::new(),
            wake_throttled: 0,
            exempt: NameMap::new(),
            last_focus: None,
            system_apps: NameSet::new(),
            media_uid: None,
            system_chain_locked: false,
            pkg_uids: NameMap::new(),
            pkg_pids: PidIndex::new(),
            events: EventBuffer::default(),
            presets: PresetTable::default(),
            active_preset: None,
            rules: RuleTable::default(),
            profile: ProfileTable::default(),
            wakeup_sources: NameMap::new(),
            net: NetSampler::new(),
            freeze_ops: 0,
            unfreeze_ops: 0,
            wakeup_thaws: 0,
            tick_count: 0,
            discard_ops: 0,
            discard_frozen_timeout: 0,
            discard_rule: 0,
            discard_mem_watermark: 0,
            discard_boot_reclaim: 0,
            discarded: Vec::new(),
            boot_completed_at: None,
            boot_reclaim_done: false,
            boot_reclaim_candidates: Vec::new(),
        };
        assert(texts(r.discarded@) =~= Seq::empty());
        assert(pair_views(r.boot_reclaim_candidates@) =~= Seq::empty());
        r
    }
}

/// The state with an event about an app in its log.
pub open spec fn noted(
    s: EngineView,
    level: EvLevel,
    action: EvAction,
    pkg: Seq<char>,
    reason: Seq<char>,
) -> EngineView {
    EngineView { log: log_app(s.log, level, action, pkg, Some(reason), None), ..s }
}

/// The same with a message.
pub open spec fn noted_msg(
    s: EngineView,
    level: EvLevel,
    action: EvAction,
    pkg: Seq<char>,
    reason: Seq<char>,
    msg: Seq<char>,
) -> EngineView {
    EngineView { log: log_app(s.log, level, action, pkg, Some(reason), Some(msg)), ..s }
}

/// The state with an event about the system in its log.
pub open spec fn noted_system(
    s: EngineView,
    level: EvLevel,
    action: EvAction,
    reason: Seq<char>,
    msg: Option<Seq<char>>,
) -> EngineView {
    EngineView { log: log_system(s.log, level, action, Some(reason), msg), ..s }
}

impl EngineState {
    pub(crate) fn set_policy(&mut self, p: Policy)
        ensures
            final(self)@ == (EngineView { policy: p@, ..old(self)@ }),
    {
        self.policy = p;
    }

    pub(crate) fn frozen_insert(&mut self, pkg: &str, v: u64)
        ensures
            final(self)@ == (EngineView { frozen: with_key(old(self)@.frozen, pkg@, v), ..old(self)@ }),
    {
        self.frozen.insert(String::from_str(pkg), v);
    }

    pub(crate) fn grace_insert(&mut self, pkg: &str, v: (u64, u64))
        ensures
            final(self)@ == (EngineView { grace: with_key(old(self)@.grace, pkg@, v), ..old(self)@ }),
    {
        self.grace.insert(String::from_str(pkg), v);
    }

    pub(crate) fn cooldown_insert(&mut self, pkg: &str, v: u128)
        ensures
            final(self)@ == (EngineView { cooldown: with_key(old(self)@.cooldown, pkg@, v), ..old(self)@ }),
    {
        self.cooldown.insert(String::from_str(pkg), v);
    }

    pub(crate) fn wake_throttle_insert(&mut self, pkg: &str, v: u128)
        ensures
            final(self)@ == (EngineView { wake_throttle: with_key(old(self)@.wake_throttle, pkg@, v), ..old(self)@ }),
    {
        self.wake_throttle.insert(String::from_str(pkg), v);
    }

    pub(crate) fn exempt_insert(&mut self, pkg: &str, v: ExemptFlags)
        ensures
            final(self)@ == (EngineView { exempt: with_key(old(self)@.exempt, pkg@, v), ..old(self)@ }),
    {
        self.exempt.insert(String::from_str(pkg), v);
    }

    pub(crate) fn pkg_uids_insert(&mut self, pkg: &str, v: u32)
        ensures
            final(self)@ == (EngineView { pkg_uids: with_key(old(self)@.pkg_uids, pkg@, v), ..old(self)@ }),
    {
        self.pkg_uids.insert(String::from_str(pkg), v);
    }

    pub(crate) fn frozen_remove(&mut self, pkg: &str)
        ensures
            final(self)@ == (EngineView { frozen: without_key(old(self)@.frozen, pkg@), ..old(self)@ }),
    {
        let _ = self.frozen.remove(pkg);
    }

    pub(crate) fn grace_remove(&mut self, pkg: &str)
        ensures
            final(self)@ == (EngineView { grace: without_key(old(self)@.grace, pkg@), ..old(self)@ }),
    {
        let _ = self.grace.remove(pkg);
    }

    pub(crate) fn cooldown_remove(&mut self, pkg: &str)
        ensures
            final(self)@ == (EngineView { cooldown: without_key(old(self)@.cooldown, pkg@), ..old(self)@ }),
    {
        let _ = self.cooldown.remove(pkg);
    }

    pub(crate) fn pkg_uids_remove(&mut self, pkg: &str)
        ensures
            final(self)@ == (EngineView { pkg_uids: without_key(old(self)@.pkg_uids, pkg@), ..old(self)@ }),
    {
        let _ = self.pkg_uids.remove(pkg);
    }

    pub(crate) fn frozen_clear(&mut self)
        ensures
            final(self)@ == (EngineView { frozen: Seq::empty(), ..old(self)@ }),
    {
        self.frozen.clear();
    }

    pub(crate) fn grace_clear(&mut self)
        ensures
            final(self)@ == (EngineView { grace: Seq::empty(), ..old(self)@ }),
    {
        self.grace.clear();
    }

    pub(crate) fn cooldown_clear(&mut self)
        ensures
            final(self)@ == (EngineView { cooldown: Seq::empty(), ..old(self)@ }),
    {
        self.cooldown.clear();
    }

    pub(crate) fn cooldown_expire(&mut self, now: u64)
        ensures
            final(self)@ == (EngineView { cooldown: later_entries(old(self)@.cooldown, now), ..old(self)@ }),
    {
        self.cooldown.retain_later(now);
    }

    pub(crate) fn adj_insert(&mut self, pkg: &str)
        ensures
            final(self)@ == (EngineView { adj_keep: with_name(old(self)@.adj_keep, pkg@), ..old(self)@ }),
    {
        self.adj_keep.insert(String::from_str(pkg));
    }

    pub(crate) fn adj_remove(&mut self, pkg: &str)
        ensures
            final(self)@ == (EngineView { adj_keep: without_name(old(self)@.adj_keep, pkg@), ..old(self)@ }),
    {
        self.adj_keep.remove(pkg);
    }

    pub(crate) fn adj_clear(&mut self)
        ensures
            final(self)@ == (EngineView { adj_keep: Seq::empty(), ..old(self)@ }),
    {
        self.adj_keep.clear();
    }

    pub(crate) fn set_last_focus(&mut self, pkg: &str)
        ensures
            final(self)@ == (EngineView { last_focus: Some(pkg@), ..old(self)@ }),
    {
        self.last_focus = Some(String::from_str(pkg));
    }

    pub(crate) fn set_system_apps(&mut self, v: NameSet)
        ensures
            final(self)@ == (EngineView { system_apps: v@, ..old(self)@ }),
    {
        self.system_apps = v;
    }

    pub(crate) fn set_media_uid(&mut self, v: Option<u32>)
        ensures
            final(self)@ == (EngineView { media_uid: v, ..old(self)@ }),
    {
        self.media_uid = v;
    }

    pub(crate) fn set_chain_locked(&mut self)
        ensures
            final(self)@ == (EngineView { system_chain_locked: true, ..old(self)@ }),
    {
        self.system_chain_locked = true;
    }

    pub(crate) fn pids_add(&mut self, pkg: &str, pid: u32)
        ensures
            final(self)@ == (EngineView { pkg_pids: pid_added(old(self)@.pkg_pids, pkg@, pid), ..old(self)@ }),
    {
        self.pkg_pids.add_pid(pkg, pid);
    }

    pub(crate) fn pids_remove(&mut self, pid: u32)
        ensures
            final(self)@ == (EngineView { pkg_pids: pid_removed(old(self)@.pkg_pids, pid), ..old(self)@ }),
    {
        self.pkg_pids.remove_pid(pid);
    }

    pub(crate) fn pids_forget(&mut self, pkg: &str)
        ensures
            final(self)@ == (EngineView { pkg_pids: pkg_removed(old(self)@.pkg_pids, pkg@), ..old(self)@ }),
    {
        self.pkg_pids.remove_pkg(pkg);
    }

    pub(crate) fn set_clock(&mut self, epoch: u64)
        ensures
            final(self)@ == (EngineView { log: (LogView { clock: epoch, ..old(self)@.log }), ..old(self)@ }),
    {
        self.events.set_clock(epoch);
    }

    pub(crate) fn note(&mut self, level: EvLevel, action: EvAction, pkg: &str, reason: &str)
        ensures
            final(self)@ == (noted(old(self)@, level, action, pkg@, reason@)),
    {
        self.events.push_app(level, action, pkg, Some(reason), None);
    }

    pub(crate) fn note_msg(&mut self, level: EvLevel, action: EvAction, pkg: &str, reason: &str, msg: &str)
        ensures
            final(self)@ == (noted_msg(old(self)@, level, action, pkg@, reason@, msg@)),
    {
        self.events.push_app(level, action, pkg, Some(reason), Some(msg));
    }

    pub(crate) fn note_system(&mut self, level: EvLevel, action: EvAction, reason: &str, msg: Option<&str>)
        ensures
            final(self)@ == (noted_system(old(self)@, level, action, reason@, opt_str(msg))),
    {
        self.events.push_system(level, action, Some(reason), msg);
    }

    pub(crate) fn set_presets(&mut self, v: PresetTable)
        ensures
            final(self)@ == (EngineView { presets: v@, ..old(self)@ }),
    {
        self.presets = v;
    }

    pub(crate) fn set_rules(&mut self, v: RuleTable)
        ensures
            final(self)@ == (EngineView { rules: v@, ..old(self)@ }),
    {
        self.rules = v;
    }

    /// What a rule says, without applying it.
    pub(crate) fn rule_peek(
        &self,
        pkg: &str,
        cond: RuleCondition,
        source: Option<&str>,
        now: u64,
        today: Option<(u32, u32, u32)>,
    ) -> (r: Option<RuleHit>)
        ensures
            hit_view(r) == peeked(self@.rules, pkg@, cond, opt_str(source), now, today),
    {
        self.rules.peek(pkg, cond, source, now, today)
    }

    /// Applies the rule that applies.
    pub(crate) fn rule_hit(
        &mut self,
        pkg: &str,
        cond: RuleCondition,
        source: Option<&str>,
        now: u64,
        today: Option<(u32, u32, u32)>,
    )
        ensures
            final(self)@ == (EngineView {
                rules: after_hit(old(self)@.rules, pkg@, cond, opt_str(source), now, today),
                ..old(self)@
            }),
    {
        let _hit: Option<RuleHit> = self.rules.hit(pkg, cond, source, now, today);
    }

    pub(crate) fn profile_focus(&mut self, pkg: &str, now: u64, epoch: u64)
        ensures
            final(self)@ == (EngineView {
                profile: with_key(
                    old(self)@.profile,
                    pkg@,
                    focused(profile_of(old(self)@.profile, pkg@), now, epoch),
                ),
                ..old(self)@
            }),
    {
        self.profile.on_focus(pkg, now, epoch);
    }

    pub(crate) fn profile_leave(&mut self, pkg: &str, now: u64)
        ensures
            final(self)@ == (EngineView {
                profile: with_key(
                    old(self)@.profile,
                    pkg@,
                    left(profile_of(old(self)@.profile, pkg@), now),
                ),
                ..old(self)@
            }),
    {
        self.profile.on_leave(pkg, now);
    }

    pub(crate) fn profile_wakeup(&mut self, pkg: &str, source: &str, epoch: u64)
        ensures
            final(self)@ == (EngineView {
                profile: with_key(
                    old(self)@.profile,
                    pkg@,
                    woken(profile_of(old(self)@.profile, pkg@), source@, epoch),
                ),
                wakeup_sources: with_key(
                    old(self)@.wakeup_sources,
                    source@,
                    count_in(old(self)@.wakeup_sources, source@).wrapping_add(1),
                ),
                ..old(self)@
            }),
    {
        self.profile.on_wakeup(pkg, source, epoch);
        let n: u64 = match self.wakeup_sources.get(source) {
            Some(n) => *n,
            None => 0,
        };
        self.wakeup_sources.insert(String::from_str(source), n.wrapping_add(1));
    }

    pub(crate) fn profile_freeze(&mut self, pkg: &str, epoch: u64)
        ensures
            final(self)@ == (EngineView {
                profile: with_key(
                    old(self)@.profile,
                    pkg@,
                    frozen_once(profile_of(old(self)@.profile, pkg@), epoch),
                ),
                ..old(self)@
            }),
    {
        self.profile.on_freeze(pkg, epoch);
    }

    pub(crate) fn profile_unfreeze(&mut self, pkg: &str, epoch: u64)
        ensures
            final(self)@ == (EngineView {
                profile: with_key(
                    old(self)@.profile,
                    pkg@,
                    thawed_once(profile_of(old(self)@.profile, pkg@), epoch),
                ),
                ..old(self)@
            }),
    {
        self.profile.on_unfreeze(pkg, epoch);
    }

    pub(crate) fn profile_discard(&mut self, pkg: &str, epoch: u64)
        ensures
            final(self)@ == (EngineView {
                profile: with_key(
                    old(self)@.profile,
                    pkg@,
                    discarded_once(profile_of(old(self)@.profile, pkg@), epoch),
                ),
                ..old(self)@
            }),
    {
        self.profile.on_discard(pkg, epoch);
    }

    pub(crate) fn bump_discard_rule(&mut self)
        ensures
            final(self)@ == (EngineView {
                counters: (Counters {
                    discard_rule: old(self)@.counters.discard_rule.wrapping_add(1),
                    ..old(self)@.counters
                }),
                ..old(self)@
            }),
    {
        self.discard_rule = self.discard_rule.wrapping_add(1);
    }

    pub(crate) fn rules_ref(&self) -> (r: &RuleTable)
        ensures
            r@ == self@.rules,
    {
        &self.rules
    }

    pub(crate) fn sources_ref(&self) -> (r: &NameMap<u64>)
        ensures
            r@ == self@.wakeup_sources,
    {
        &self.wakeup_sources
    }

    pub(crate) fn profile_ref(&self) -> (r: &ProfileTable)
        ensures
            r@ == self@.profile,
    {
        &self.profile
    }

    pub(crate) fn set_active_preset(&mut self, v: Option<String>)
        ensures
            final(self)@ == (EngineView { active_preset: opt_view(v), ..old(self)@ }),
    {
        self.active_preset = v;
    }

    pub(crate) fn bump_wake_throttled(&mut self)
        ensures
            final(self)@ == (EngineView {
                counters: (Counters {
                    wake_throttled: old(self)@.counters.wake_throttled.wrapping_add(1),
                    ..old(self)@.counters
                }),
                ..old(self)@
            }),
    {
        self.wake_throttled = self.wake_throttled.wrapping_add(1);
    }

    pub(crate) fn bump_freeze_ops(&mut self)
        ensures
            final(self)@ == (EngineView {
                counters: (Counters {
                    freeze_ops: old(self)@.counters.freeze_ops.wrapping_add(1),
                    ..old(self)@.counters
                }),
                ..old(self)@
            }),
    {
        self.freeze_ops = self.freeze_ops.wrapping_add(1);
    }

    pub(crate) fn bump_unfreeze_ops(&mut self)
        ensures
            final(self)@ == (EngineView {
                counters: (Counters {
                    unfreeze_ops: old(self)@.counters.unfreeze_ops.wrapping_add(1),
                    ..old(self)@.counters
                }),
                ..old(self)@
            }),
    {
        self.unfreeze_ops = self.unfreeze_ops.wrapping_add(1);
    }

    pub(crate) fn bump_wakeup_thaws(&mut self)
        ensures
            final(self)@ == (EngineView {
                counters: (Counters {
                    wakeup_thaws: old(self)@.counters.wakeup_thaws.wrapping_add(1),
                    ..old(self)@.counters
                }),
                ..old(self)@
            }),
    {
        self.wakeup_thaws = self.wakeup_thaws.wrapping_add(1);
    }

    pub(crate) fn bump_discard_ops(&mut self)
        ensures
            final(self)@ == (EngineView {
                counters: (Counters {
                    discard_ops: old(self)@.counters.discard_ops.wrapping_add(1),
                    ..old(self)@.counters
                }),
                ..old(self)@
            }),
    {
        self.discard_ops = self.discard_ops.wrapping_add(1);
    }

    pub(crate) fn bump_discard_frozen_timeout(&mut self)
        ensures
            final(self)@ == (EngineView {
                counters: (Counters {
                    discard_frozen_timeout: old(self)@.counters.discard_frozen_timeout.wrapping_add(1),
                    ..old(self)@.counters
                }),
                ..old(self)@
            }),
    {
        self.discard_frozen_timeout = self.discard_frozen_timeout.wrapping_add(1);
    }

    pub(crate) fn bump_discard_mem_watermark(&mut self)
        ensures
            final(self)@ == (EngineView {
                counters: (Counters {
                    discard_mem_watermark: old(self)@.counters.discard_mem_watermark.wrapping_add(1),
                    ..old(self)@.counters
                }),
                ..old(self)@
            }),
    {
        self.discard_mem_watermark = self.discard_mem_watermark.wrapping_add(1);
    }

    pub(crate) fn bump_discard_boot_reclaim(&mut self)
        ensures
            final(self)@ == (EngineView {
                counters: (Counters {
                    discard_boot_reclaim: old(self)@.counters.discard_boot_reclaim.wrapping_add(1),
                    ..old(self)@.counters
                }),
                ..old(self)@
            }),
    {
        self.discard_boot_reclaim = self.discard_boot_reclaim.wrapping_add(1);
    }

    pub(crate) fn bump_tick_count(&mut self)
        ensures
            final(self)@ == (EngineView { tick_count: old(self)@.tick_count.wrapping_add(1), ..old(self)@ }),
    {
        self.tick_count = self.tick_count.wrapping_add(1);
    }

    pub(crate) fn set_discarded(&mut self, v: Vec<String>)
        ensures
            final(self)@ == (EngineView { discarded: texts(v@), ..old(self)@ }),
    {
        self.discarded = v;
    }

    pub(crate) fn set_boot_completed(&mut self, at: u64)
        ensures
            final(self)@ == (EngineView { boot_completed_at: Some(at), ..old(self)@ }),
    {
        self.boot_completed_at = Some(at);
    }

    pub(crate) fn set_boot_reclaim_done(&mut self)
        ensures
            final(self)@ == (EngineView { boot_reclaim_done: true, ..old(self)@ }),
    {
        self.boot_reclaim_done = true;
    }

    pub(crate) fn set_last_persist(&mut self, v: Vec<(String, u32)>)
        ensures
            final(self)@ == (EngineView { last_persist: Some(pair_views(v@)), ..old(self)@ }),
    {
        self.last_persist = Some(v);
    }

    /// Takes the apps that the last session froze, for the reclaim after the boot.
    pub fn set_boot_reclaim_candidates(&mut self, v: Vec<(String, u32)>)
        ensures
            final(self)@ == (EngineView { boot_reclaim_candidates: pair_views(v@), ..old(self)@ }),
    {
        self.boot_reclaim_candidates = v;
    }

    pub(crate) fn log_persist(&mut self, written: bool)
        ensures
            final(self)@ == (EngineView {
                log: (if written {
                    crate::events::log_flushed(old(self)@.log)
                } else {
                    old(self)@.log
                }),
                ..old(self)@
            }),
    {
        let _ = self.events.persist_new(written);
    }

    pub(crate) fn overlay(&mut self, p: &Preset)
        ensures
            final(self)@ == (EngineView {
                policy: (PolicyView {
                    enabled: p.enabled,
                    grace_seconds: p.grace_seconds,
                    cooldown_seconds: p.cooldown_seconds,
                    keep_fg_service: p.keep_fg_service,
                    keep_media: p.keep_media,
                    ..old(self)@.policy
                }),
                ..old(self)@
            }),
    {
        self.policy.set_enabled(p.enabled);
        self.policy.set_grace_seconds(p.grace_seconds);
        self.policy.set_cooldown_seconds(p.cooldown_seconds);
        self.policy.set_keep_fg_service(p.keep_fg_service);
        self.policy.set_keep_media(p.keep_media);
    }

    /// Samples the traffic of a uid.
    pub(crate) fn net_sample(
        &mut self,
        uid: u32,
        window: u64,
        threshold: u64,
        reading: &NetReading,
        now: u64,
    ) -> (r: bool)
        ensures
            final(self)@ == (EngineView {
                net: sample(old(self)@.net, uid, window, threshold, reading@, now).0,
                ..old(self)@
            }),
            r == sample(old(self)@.net, uid, window, threshold, reading@, now).1,
    {
        self.net.is_active(uid, window, threshold, reading, now)
    }

    /// Samples the traffic of a uid: the bytes that it moved since a sample that is old enough.
    pub(crate) fn net_moved(&mut self, uid: u32, window: u64, reading: &NetReading, now: u64) -> (r:
        Option<u64>)
        ensures
            forall|threshold: u64|
                final(self)@ == (EngineView {
                    net: (#[trigger] sample(
                        old(self)@.net,
                        uid,
                        window,
                        threshold,
                        reading@,
                        now,
                    )).0,
                    ..old(self)@
                }) && sample(old(self)@.net, uid, window, threshold, reading@, now).1 == (match r {
                    Some(bytes) => bytes >= threshold,
                    None => false,
                }),
    {
        self.net.moved(uid, window, reading, now)
    }

    pub(crate) fn has_frozen(&self, pkg: &str) -> (r: bool)
        ensures
            r == has_key(self@.frozen, pkg@),
    {
        self.frozen.contains_key(pkg)
    }

    pub(crate) fn has_cooldown(&self, pkg: &str) -> (r: bool)
        ensures
            r == has_key(self@.cooldown, pkg@),
    {
        self.cooldown.contains_key(pkg)
    }

    pub(crate) fn in_system(&self, pkg: &str) -> (r: bool)
        ensures
            r == self@.system_apps.contains(pkg@),
    {
        self.system_apps.contains(pkg)
    }

    pub(crate) fn in_adj(&self, pkg: &str) -> (r: bool)
        ensures
            r == self@.adj_keep.contains(pkg@),
    {
        self.adj_keep.contains(pkg)
    }

    pub(crate) fn throttle_until(&self, pkg: &str) -> (r: Option<u128>)
        ensures
            r == value_of(self@.wake_throttle, pkg@),
    {
        match self.wake_throttle.get(pkg) {
            Some(t) => Some(*t),
            None => None,
        }
    }

    pub(crate) fn exempt_flags(&self, pkg: &str) -> (r: Option<ExemptFlags>)
        ensures
            r == value_of(self@.exempt, pkg@),
    {
        match self.exempt.get(pkg) {
            Some(f) => Some(*f),
            None => None,
        }
    }

    pub(crate) fn reported_uid(&self, pkg: &str) -> (r: Option<u32>)
        ensures
            r == value_of(self@.pkg_uids, pkg@),
    {
        match self.pkg_uids.get(pkg) {
            Some(u) => Some(*u),
            None => None,
        }
    }

    pub(crate) fn app_policy(&self, pkg: &str) -> (r: Option<AppPolicy>)
        ensures
            r == value_of(self@.policy.apps, pkg@),
    {
        self.policy.app(pkg)
    }

    pub(crate) fn preset(&self, name: &str) -> (r: Option<Preset>)
        ensures
            r == value_of(self@.presets.presets, name@),
    {
        match self.presets.presets.get(name) {
            Some(p) => Some(*p),
            None => None,
        }
    }

    pub(crate) fn policy_ref(&self) -> (r: &Policy)
        ensures
            r@ == self@.policy,
    {
        &self.policy
    }

    pub(crate) fn presets_ref(&self) -> (r: &PresetTable)
        ensures
            r@ == self@.presets,
    {
        &self.presets
    }

    pub(crate) fn frozen_map(&self) -> (r: &NameMap<u64>)
        ensures
            r@ == self@.frozen,
    {
        &self.frozen
    }

    pub(crate) fn grace_map(&self) -> (r: &NameMap<(u64, u64)>)
        ensures
            r@ == self@.grace,
    {
        &self.grace
    }

    pub(crate) fn adj_set(&self) -> (r: &NameSet)
        ensures
            r@ == self@.adj_keep,
    {
        &self.adj_keep
    }

    pub(crate) fn log_ref(&self) -> (r: &EventBuffer)
        ensures
            r@ == self@.log,
    {
        &self.events
    }

    pub(crate) fn counters(&self) -> (r: Counters)
        ensures
            r == self@.counters,
    {
        Counters {
            wake_throttled: self.wake_throttled,
            freeze_ops: self.freeze_ops,
            unfreeze_ops: self.unfreeze_ops,
            wakeup_thaws: self.wakeup_thaws,
            discard_ops: self.discard_ops,
            discard_frozen_timeout: self.discard_frozen_timeout,
            discard_rule: self.discard_rule,
            discard_mem_watermark: self.discard_mem_watermark,
            discard_boot_reclaim: self.discard_boot_reclaim,
        }
    }

    pub(crate) fn ticks(&self) -> (r: u64)
        ensures
            r == self@.tick_count,
    {
        self.tick_count
    }

    pub(crate) fn media(&self) -> (r: Option<u32>)
        ensures
            r == self@.media_uid,
    {
        self.media_uid
    }

    pub(crate) fn boot_at(&self) -> (r: Option<u64>)
        ensures
            r == self@.boot_completed_at,
    {
        self.boot_completed_at
    }

    pub(crate) fn boot_done(&self) -> (r: bool)
        ensures
            r == self@.boot_reclaim_done,
    {
        self.boot_reclaim_done
    }

    pub(crate) fn focus_ref(&self) -> (r: &Option<String>)
        ensures
            opt_view(*r) == self@.last_focus,
    {
        &self.last_focus
    }

    pub(crate) fn active_ref(&self) -> (r: &Option<String>)
        ensures
            opt_view(*r) == self@.active_preset,
    {
        &self.active_preset
    }

    pub(crate) fn discarded_ref(&self) -> (r: &Vec<String>)
        ensures
            texts(r@) == self@.discarded,
    {
        &self.discarded
    }

    pub(crate) fn candidates_ref(&self) -> (r: &Vec<(String, u32)>)
        ensures
            pair_views(r@) == self@.boot_reclaim_candidates,
    {
        &self.boot_reclaim_candidates
    }

    pub(crate) fn persisted_ref(&self) -> (r: &Option<Vec<(String, u32)>>)
        ensures
            opt_pairs(*r) == self@.last_persist,
    {
        &self.last_persist
    }
}

} // verus!
