//! Reloading the configuration, presets, and taking over from the last session.

use vstd::prelude::*;
use crate::engine::stamped;
use crate::engine_ops::{over, Env, EnvView, Step, StepView, Task, TaskKind};
use crate::engine::Outcome;
use crate::engine_rules::{
    media_uid_of, never_frozen, proc_views, resolve_media_uid, system_names, system_set, ProcText,
    ProcTextView,
};
use crate::engine_state::{noted_system, EngineState, EngineView};
use crate::events::{opt_str, opt_view, EvAction, EvLevel, LogView};
use crate::freezer::Reconcile;
use crate::lists::texts;
use crate::names::{keys_of, value_of, with_key, without_key, NameMap, NameSet};
use crate::order::sorted_texts;
use crate::policy::{Policy, PolicyView};
use crate::policy_file::loaded_policy;
use crate::preset::{loaded_presets, Preset, PresetTable, PresetsView};
use crate::rules::{loaded_rules, RuleTable};
use crate::text::{bool_text, dec, join, joined, push_bool, push_dec};

verus! {

broadcast use {crate::lists::texts_len, crate::lists::texts_at};

/// What was read for a reload; a file that could not be read is missing.
#[derive(Debug)]
pub struct ReloadInput {
    /// The output of the package manager.
    pub pm: Option<String>,
    pub procs: Vec<ProcText>,
    pub presets: Option<String>,
    pub presets_revision: u64,
    pub policy: Option<String>,
    pub policy_revision: u64,
    pub rules: Option<String>,
    pub rules_revision: u64,
}

pub struct ReloadView {
    pub pm: Option<Seq<char>>,
    pub procs: Seq<ProcTextView>,
    pub presets: Option<Seq<char>>,
    pub presets_revision: u64,
    pub policy: Option<Seq<char>>,
    pub policy_revision: u64,
    pub rules: Option<Seq<char>>,
    pub rules_revision: u64,
}

impl View for ReloadInput {
    type V = ReloadView;

    open spec fn view(&self) -> ReloadView {
        ReloadView {
            pm: opt_view(self.pm),
            procs: proc_views(self.procs@),
            presets: opt_view(self.presets),
            presets_revision: self.presets_revision,
            policy: opt_view(self.policy),
            policy_revision: self.policy_revision,
            rules: opt_view(self.rules),
            rules_revision: self.rules_revision,
        }
    }
}

/// The state with the system packages found anew; none where the package manager failed, and
/// then the built-in list still holds.
pub open spec fn system_refreshed(
    s: EngineView,
    pm: Option<Seq<char>>,
    procs: Seq<ProcTextView>,
) -> EngineView {
    EngineView {
        system_apps: match pm {
            Some(t) => system_names(crate::text::line_texts(t)),
            None => Seq::empty(),
        },
        media_uid: media_uid_of(procs),
        ..s
    }
}

/// The policy with the parameters of a preset laid over it.
pub open spec fn overlaid(p: PolicyView, preset: Preset) -> PolicyView {
    PolicyView {
        enabled: preset.enabled,
        grace_seconds: preset.grace_seconds,
        cooldown_seconds: preset.cooldown_seconds,
        keep_fg_service: preset.keep_fg_service,
        keep_media: preset.keep_media,
        ..p
    }
}

pub open spec fn reloaded_text(p: PolicyView) -> Seq<char> {
    "enabled="@ + bool_text(p.enabled) + " apps="@ + dec(p.apps.len()) + " rev="@ + dec(
        p.revision as nat,
    )
}

/// The rules after a reload: those of the file where it can be loaded, the old ones otherwise.
pub open spec fn rules_reloaded(
    s: EngineView,
    rules: Option<Seq<char>>,
    revision: u64,
) -> EngineView {
    match loaded_rules(rules, revision) {
        Some(t) => noted_system(
            EngineView { rules: t, ..s },
            EvLevel::Report,
            EvAction::Policy,
            "rules_reloaded"@,
            Some("rules="@ + dec(t.rules.len()) + " rev="@ + dec(revision as nat)),
        ),
        None => s,
    }
}

/// The active preset after a reload: applied again where it still exists, given up otherwise.
pub open spec fn preset_replayed(s: EngineView) -> EngineView {
    match s.active_preset {
        Some(name) => match value_of(s.presets.presets, name) {
            Some(p) => EngineView { policy: overlaid(s.policy, p), ..s },
            None => EngineView { active_preset: None, ..s },
        },
        None => s,
    }
}

/// The names that the policy never freezes.
pub open spec fn protected_names(s: EngineView, e: EnvView, names: Seq<Seq<char>>) -> Seq<Seq<char>>
    decreases names.len(),
{
    if names.len() == 0 {
        Seq::empty()
    } else if never_frozen(s, e, names.last()) {
        protected_names(s, e, names.drop_last()).push(names.last())
    } else {
        protected_names(s, e, names.drop_last())
    }
}

/// The table without the names.
pub open spec fn without_keys<V>(m: Seq<(Seq<char>, V)>, names: Seq<Seq<char>>) -> Seq<
    (Seq<char>, V),
>
    decreases names.len(),
{
    if names.len() == 0 {
        m
    } else {
        without_key(without_keys(m, names.drop_last()), names.last())
    }
}

/// The state without the packages that wait to be frozen although the policy protects them.
pub open spec fn grace_released(s: EngineView, e: EnvView) -> EngineView {
    EngineView {
        grace: without_keys(s.grace, protected_names(s, e, keys_of(s.grace))),
        ..s
    }
}

/// The state with the files of a reload taken over.
pub open spec fn reload_settled(s: EngineView, e: EnvView, i: ReloadView) -> EngineView {
    let s1 = rules_reloaded(
        EngineView {
            presets: loaded_presets(i.presets, i.presets_revision),
            ..system_refreshed(stamped(s, e), i.pm, i.procs)
        },
        i.rules,
        i.rules_revision,
    );
    match loaded_policy(i.policy, i.policy_revision) {
        Some(p) => {
            let s2 = noted_system(
                s1,
                EvLevel::Report,
                EvAction::Policy,
                "reloaded"@,
                Some(reloaded_text(p)),
            );
            preset_replayed(EngineView { policy: p, ..s2 })
        },
        None => noted_system(s1, EvLevel::Error, EvAction::Policy, "reload_failed"@, None),
    }
}

/// A reload: the new policy takes effect at once. Apps that it protects and that wait to be
/// frozen are released, and those that are frozen are thawed. A policy that cannot be loaded leaves the old one in force.
pub open spec fn reload_begin(s: EngineView, e: EnvView, i: ReloadView) -> Outcome {
    let t = reload_settled(s, e, i);
    match loaded_policy(i.policy, i.policy_revision) {
        Some(_) => (
            grace_released(t, e),
            StepView::Next(over(TaskKind::ReloadNext, protected_names(t, e, keys_of(t.frozen)))),
        ),
        None => (t, StepView::Done),
    }
}

pub open spec fn applied_text(name: Seq<char>, p: Preset) -> Seq<char> {
    "apply="@ + name + " enabled="@ + bool_text(p.enabled) + " grace="@ + dec(
        p.grace_seconds as nat,
    ) + "s"@
}

/// Why a preset cannot be applied.
pub open spec fn preset_missing(t: PresetsView, name: Seq<char>) -> Seq<char> {
    let names = sorted_texts(keys_of(t.presets));
    if names.len() == 0 {
        "预设表为空（action.toml 缺失或未定义预设）"@
    } else {
        "预设不存在: "@ + name + "（可用: "@ + joined(names, ", "@) + "）"@
    }
}

/// The state with a preset applied.
pub open spec fn preset_applied(s: EngineView, epoch: u64, name: Seq<char>, p: Preset) -> EngineView {
    let s = EngineView { log: LogView { clock: epoch, ..s.log }, ..s };
    noted_system(
        EngineView { policy: overlaid(s.policy, p), active_preset: Some(name), ..s },
        EvLevel::Report,
        EvAction::Policy,
        "preset"@,
        Some(applied_text(name, p)),
    )
}

/// The state with the preset given up: the policy file holds again. Where it cannot be
/// loaded, nothing changes.
pub open spec fn preset_cleared(
    s: EngineView,
    epoch: u64,
    policy: Option<Seq<char>>,
    revision: u64,
) -> EngineView {
    let s = EngineView { log: LogView { clock: epoch, ..s.log }, ..s };
    match loaded_policy(policy, revision) {
        Some(p) => {
            let t = EngineView { policy: p, active_preset: None, ..s };
            match s.active_preset {
                Some(name) => noted_system(
                    t,
                    EvLevel::Report,
                    EvAction::Policy,
                    "preset"@,
                    Some("clear="@ + name),
                ),
                None => t,
            }
        },
        None => s,
    }
}

/// The state after an app of the last session was looked at.
pub open spec fn reconciled(
    s: EngineView,
    e: EnvView,
    pkg: Seq<char>,
    uid: u32,
    what: Reconcile,
    thawed: bool,
) -> EngineView {
    let s = stamped(s, e);
    match what {
        Reconcile::Ignore => s,
        Reconcile::Restore => EngineView { frozen: with_key(s.frozen, pkg, e.now), ..s },
        Reconcile::Thaw => if thawed {
            noted_system(
                s,
                EvLevel::Warn,
                EvAction::Unfreeze,
                "startup_zombie"@,
                Some("uid="@ + dec(uid as nat)),
            )
        } else {
            s
        },
    }
}

impl EngineState {
    /// Finds the packages of the system anew.
    pub fn refresh_system_apps(&mut self, pm: Option<&str>, procs: &Vec<ProcText>)
        ensures
            final(self)@ == system_refreshed(old(self)@, opt_str(pm), proc_views(procs@)),
    {
        let set: NameSet = match pm {
            Some(t) => system_set(t),
            None => NameSet::new(),
        };
        self.set_system_apps(set);
        self.set_media_uid(resolve_media_uid(procs));
    }

    /// Takes over the rules of a file; where there is none or it does not parse, the rules in
    /// force stay.
    pub fn reload_rules(&mut self, text: Option<&str>, revision: u64)
        ensures
            final(self)@ == rules_reloaded(old(self)@, opt_str(text), revision),
    {
        if let Some((t, _)) = RuleTable::load(text, revision) {
            let mut msg: String = String::from_str("rules=");
            push_dec(&mut msg, t.len() as u64);
            msg.append(" rev=");
            push_dec(&mut msg, revision);
            self.set_rules(t);
            self.note_system(
                EvLevel::Report,
                EvAction::Policy,
                "rules_reloaded",
                Some(msg.as_str()),
            );
        }
    }

    fn replay_preset(&mut self)
        ensures
            final(self)@ == preset_replayed(old(self)@),
    {
        let name: String = match self.active_ref() {
            Some(n) => n.clone(),
            None => {
                return;
            },
        };
        match self.preset(name.as_str()) {
            Some(p) => self.overlay(&p),
            None => self.set_active_preset(None),
        }
    }

    /// The packages of a table that the policy never freezes.
    fn protected_keys<V>(&self, m: &NameMap<V>, env: &Env) -> (r: Vec<String>)
        ensures
            texts(r@) == protected_names(self@, env@, keys_of(m@)),
    {
        let ghost ks = keys_of(m@);
        let mut out: Vec<String> = Vec::new();
        let mut i: usize = 0;
        assert(texts(out@) =~= Seq::empty());
        while i < m.len()
            invariant
                i <= m@.len(),
                ks == keys_of(m@),
                texts(out@) == protected_names(self@, env@, ks.take(i as int)),
            decreases m@.len() - i,
        {
            assert(ks.take(i + 1).drop_last() =~= ks.take(i as int));
            if self.should_never_freeze(m.key_at(i), env) {
                let ghost done = texts(out@);
                out.push(String::from_str(m.key_at(i)));
                assert(texts(out@) =~= done.push(ks[i as int]));
            }
            i = i + 1;
        }
        assert(ks.take(ks.len() as int) =~= ks);
        out
    }

    /// Lets the packages go that wait to be frozen although the policy protects them.
    fn release_grace(&mut self, env: &Env)
        ensures
            final(self)@ == grace_released(old(self)@, env@),
    {
        let names: Vec<String> = self.protected_keys(self.grace_map(), env);
        let ghost start = self@;
        let ghost all = texts(names@);
        let mut i: usize = 0;
        assert(all.take(0) =~= Seq::empty());
        while i < names.len()
            invariant
                i <= names.len(),
                all == texts(names@),
                self@ == (EngineView { grace: without_keys(start.grace, all.take(i as int)), ..start }),
            decreases names.len() - i,
        {
            self.grace_remove(names[i].as_str());
            assert(all.take(i + 1).drop_last() =~= all.take(i as int));
            assert(all.take(i + 1).last() == names@[i as int]@);
            i = i + 1;
        }
        assert(all.take(all.len() as int) =~= all);
    }

    /// Takes over the configuration that was read.
    pub fn reload_policy(&mut self, input: &ReloadInput, env: &Env) -> (r: Step)
        ensures
            (final(self)@, r@) == reload_begin(old(self)@, env@, input@),
    {
        self.set_clock(env.epoch);
        self.refresh_system_apps(as_str_opt(&input.pm), &input.procs);
        self.set_presets(PresetTable::load(as_str_opt(&input.presets), input.presets_revision));
        self.reload_rules(as_str_opt(&input.rules), input.rules_revision);
        match Policy::load(as_str_opt(&input.policy), input.policy_revision) {
            Some(p) => {
                let ghost pv = p@;
                let mut msg: String = String::from_str("enabled=");
                proof {
                    p.lemma_fields();
                }
                push_bool(&mut msg, p.enabled);
                msg.append(" apps=");
                push_dec(&mut msg, p.apps.len() as u64);
                msg.append(" rev=");
                push_dec(&mut msg, p.revision);
                self.note_system(EvLevel::Report, EvAction::Policy, "reloaded", Some(msg.as_str()));
                self.set_policy(p);
                self.replay_preset();
                let names: Vec<String> = self.protected_keys(self.frozen_map(), env);
                self.release_grace(env);
                Step::Next(Task::over(TaskKind::ReloadNext, names))
            },
            None => {
                self.note_system(EvLevel::Error, EvAction::Policy, "reload_failed", None);
                Step::Done
            },
        }
    }

    /// Lays a preset over the policy; the file on disk stays as it is.
    pub fn apply_preset(&mut self, name: &str, epoch: u64) -> (r: Result<(), String>)
        ensures
            match value_of(old(self)@.presets.presets, name@) {
                Some(p) => r is Ok && final(self)@ == preset_applied(old(self)@, epoch, name@, p),
                None => final(self)@ == old(self)@ && (r matches Err(m) && m@ == preset_missing(
                    old(self)@.presets,
                    name@,
                )),
            },
    {
        let p: Preset = match self.preset(name) {
            Some(p) => p,
            None => {
                let avail: Vec<String> = self.presets_ref().names();
                if avail.len() == 0 {
                    return Err(String::from_str("预设表为空（action.toml 缺失或未定义预设）"));
                }
                let mut m: String = String::from_str("预设不存在: ");
                m.append(name);
                m.append("（可用: ");
                let list: String = join(&avail, ", ");
                m.append(list.as_str());
                m.append("）");
                return Err(m);
            },
        };
        self.set_clock(epoch);
        self.overlay(&p);
        self.set_active_preset(Some(String::from_str(name)));
        let mut msg: String = String::from_str("apply=");
        msg.append(name);
        msg.append(" enabled=");
        push_bool(&mut msg, p.enabled);
        msg.append(" grace=");
        push_dec(&mut msg, p.grace_seconds);
        msg.append("s");
        self.note_system(EvLevel::Report, EvAction::Policy, "preset", Some(msg.as_str()));
        Ok(())
    }

    /// Gives up the preset: the policy file, whose text is given, holds again.
    pub fn clear_preset(&mut self, policy: Option<&str>, revision: u64, epoch: u64)
        ensures
            final(self)@ == preset_cleared(old(self)@, epoch, opt_str(policy), revision),
    {
        self.set_clock(epoch);
        match Policy::load(policy, revision) {
            Some(p) => {
                let prev: Option<String> = match self.active_ref() {
                    Some(n) => Some(n.clone()),
                    None => None,
                };
                self.set_policy(p);
                self.set_active_preset(None);
                if let Some(name) = prev {
                    let mut msg: String = String::from_str("clear=");
                    msg.append(name.as_str());
                    self.note_system(
                        EvLevel::Report,
                        EvAction::Policy,
                        "preset",
                        Some(msg.as_str()),
                    );
                }
            },
            None => {},
        }
    }

    /// Takes note of what was done with an app of the last session. `thawed` says whether its
    /// group could be thawed.
    pub fn reconcile(&mut self, pkg: &str, uid: u32, what: Reconcile, thawed: bool, env: &Env)
        ensures
            final(self)@ == reconciled(old(self)@, env@, pkg@, uid, what, thawed),
    {
        self.set_clock(env.epoch);
        match what {
            Reconcile::Ignore => {},
            Reconcile::Restore => self.frozen_insert(pkg, env.now),
            Reconcile::Thaw => if thawed {
                let mut msg: String = String::from_str("uid=");
                push_dec(&mut msg, uid as u64);
                self.note_system(
                    EvLevel::Warn,
                    EvAction::Unfreeze,
                    "startup_zombie",
                    Some(msg.as_str()),
                );
            },
        }
    }
}

fn as_str_opt(s: &Option<String>) -> (r: Option<&str>)
    ensures
        opt_str(r) == opt_view(*s),
{
    match s {
        Some(t) => Some(t.as_str()),
        None => None,
    }
}

/// A preset touches the general parameters alone: the lists, the settings of the apps, and
/// everything else stay as the policy file has them.
pub proof fn law_preset_keeps_the_rest(s: EngineView, epoch: u64, name: Seq<char>, p: Preset)
    ensures
        ({
            let a = s.policy;
            let b = preset_applied(s, epoch, name, p).policy;
            &&& b.whitelist == a.whitelist
            &&& b.force == a.force
            &&& b.apps == a.apps
            &&& b.receiver_gate == a.receiver_gate
            &&& b.vpn_packages == a.vpn_packages
            &&& b.keep_vpn == a.keep_vpn
            &&& b.keep_location == a.keep_location
            &&& b.keep_high_network == a.keep_high_network
            &&& b.keep_network == a.keep_network
            &&& b.push_policy == a.push_policy
            &&& b.wake_throttle_seconds == a.wake_throttle_seconds
            &&& b.discard_frozen_timeout_seconds == a.discard_frozen_timeout_seconds
            &&& b.discard_mem_watermark_mb == a.discard_mem_watermark_mb
            &&& b.discard_boot_reclaim == a.discard_boot_reclaim
            &&& b.discard_boot_reclaim_delay_seconds == a.discard_boot_reclaim_delay_seconds
            &&& b.revision == a.revision
        }),
{
}

/// Applying a preset and giving it up again leaves the policy of the file.
pub proof fn law_clear_undoes_apply(
    s: EngineView,
    epoch: u64,
    name: Seq<char>,
    p: Preset,
    policy: Option<Seq<char>>,
    revision: u64,
)
    ensures
        loaded_policy(policy, revision) matches Some(file) ==> {
            let t = preset_cleared(preset_applied(s, epoch, name, p), epoch, policy, revision);
            t.policy == file && t.active_preset is None
        },
{
}

/// A file that does not parse changes neither the policy nor the preset in force.
pub proof fn law_bad_file_keeps_policy(s: EngineView, e: EnvView, i: ReloadView)
    requires
        loaded_policy(i.policy, i.policy_revision) is None,
    ensures
        reload_begin(s, e, i).0.policy == s.policy,
        reload_begin(s, e, i).0.active_preset == s.active_preset,
        reload_begin(s, e, i).0.frozen == s.frozen,
        reload_begin(s, e, i).1 == StepView::Done,
{
}

} // verus!
