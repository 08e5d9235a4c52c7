use sundownd::engine_admin::ReloadInput;
use sundownd::engine_ops::{Env, Op, Reply, Step, Survey};
use sundownd::engine_rules::ProcText;
use sundownd::engine_state::EngineState;
use sundownd::freezer::{read_frozen_state, Reconcile};
use sundownd::names::NameMap;
use sundownd::network::NetReading;
use sundownd::policy::{AppMode, AppPolicy, Policy, PushMode};
use std::collections::BTreeMap;

const SECOND: u64 = 1_000_000_000;
const CHAT: &str = "com.example.chat";
const GAME: &str = "com.example.game";
const HOME: &str = "com.example.home";

struct App {
    uid: u32,
    alive: bool,
    frozen: bool,
    bytes: u64,
    rss: u64,
    levels: Vec<Option<i32>>,
}

/// A device with a few apps; it does what the engine asks for and writes it down.
struct Device {
    now: u64,
    minute: Option<u32>,
    today: Option<(u32, u32, u32)>,
    vpn_uid: Option<u32>,
    apps: BTreeMap<String, App>,
    free_kb: u64,
    booted: bool,
    done: Vec<String>,
    state: Option<String>,
    journal: String,
}

impl Device {
    fn new() -> Device {
        let mut apps = BTreeMap::new();
        for (name, uid) in [(CHAT, 10001u32), (GAME, 10002), (HOME, 10003)] {
            apps.insert(
                name.to_string(),
                App { uid, alive: true, frozen: false, bytes: 0, rss: 1, levels: vec![Some(900)] },
            );
        }
        Device {
            now: 1_000 * SECOND,
            minute: Some(600),
            today: Some((2026, 8, 12)),
            vpn_uid: None,
            apps,
            free_kb: 4_000_000,
            booted: false,
            done: Vec::new(),
            state: None,
            journal: String::new(),
        }
    }

    fn env(&self) -> Env {
        let mut table = NameMap::new();
        for (name, app) in &self.apps {
            table.insert(name.clone(), app.uid);
        }
        Env {
            now: self.now,
            epoch: self.now / SECOND,
            minute: self.minute,
            today: self.today,
            vpn_uid: self.vpn_uid,
            table,
        }
    }

    fn app(&mut self, name: &str) -> &mut App {
        self.apps.get_mut(name).unwrap()
    }

    fn by_uid(&mut self, uid: u32) -> Option<(String, &mut App)> {
        self.apps.iter_mut().find(|(_, a)| a.uid == uid).map(|(n, a)| (n.clone(), a))
    }

    fn thaw(&mut self, name: &str) -> Reply {
        match self.apps.get_mut(name) {
            Some(a) => {
                a.frozen = false;
                Reply::Flag(true)
            }
            None => Reply::Flag(false),
        }
    }

    fn perform(&mut self, op: Op) -> Reply {
        match op {
            Op::Survey(uid) => match self.by_uid(uid) {
                Some((_, a)) => Reply::Survey(Survey {
                    reading: NetReading { uid_stat: Some(a.bytes), xt: None, bpf: None },
                    has_procs: a.alive,
                    has_frozen: a.frozen,
                }),
                None => Reply::Nothing,
            },
            Op::ThawKeepOom(p) => {
                self.done.push(format!("thaw {p}"));
                self.thaw(&p)
            }
            Op::Thaw(p) => {
                self.done.push(format!("release {p}"));
                self.thaw(&p)
            }
            Op::Freeze(p, mode) => {
                self.done.push(format!("freeze {p} {}", mode.as_str()));
                self.app(&p).frozen = true;
                Reply::Flag(true)
            }
            Op::Discard(uid) => {
                self.done.push(format!("kill {uid}"));
                match self.by_uid(uid) {
                    Some((_, a)) => {
                        a.alive = false;
                        a.frozen = false;
                        self.free_kb += 500_000;
                        Reply::Number(Some(2))
                    }
                    None => Reply::Number(Some(0)),
                }
            }
            Op::Memory => Reply::Number(Some(self.free_kb)),
            Op::Resident(uids) => {
                let mut out = Vec::new();
                for uid in uids {
                    out.push(self.by_uid(uid).map(|(_, a)| a.rss).unwrap_or(0));
                }
                Reply::Numbers(out)
            }
            Op::Levels(uid) => {
                Reply::Levels(self.by_uid(uid).map(|(_, a)| a.levels.clone()).unwrap_or_default())
            }
            Op::BootCompleted => Reply::Flag(self.booted),
            Op::LockChain(uids) => {
                self.done.push(format!("lock {uids:?}"));
                Reply::Nothing
            }
            Op::Protect(uids) => {
                self.done.push(format!("protect {uids:?}"));
                Reply::Nothing
            }
            Op::RestoreOom(p) => {
                self.done.push(format!("restore {p}"));
                Reply::Nothing
            }
            Op::SaveState(t) => {
                self.state = Some(t);
                Reply::Nothing
            }
            Op::SaveEvents(t) => {
                self.journal.push_str(&t);
                Reply::Flag(true)
            }
        }
    }

    fn run(&mut self, e: &mut EngineState, first: Step) {
        let mut step = first;
        loop {
            step = match step {
                Step::Done => return,
                Step::Next(task) => e.resume(task, Reply::Nothing, &self.env()),
                Step::Ask(op, task) => {
                    let reply = self.perform(op);
                    e.resume(task, reply, &self.env())
                }
            };
        }
    }

    fn focus(&mut self, e: &mut EngineState, pkg: &str) {
        let step = e.on_focus(pkg, false, false, &self.env());
        self.run(e, step);
    }

    fn wake(&mut self, e: &mut EngineState, pkg: &str) {
        let step = e.on_wakeup(pkg, "broadcast", "?", &self.env());
        self.run(e, step);
    }

    fn tick(&mut self, e: &mut EngineState) {
        let step = e.tick(&self.env());
        self.run(e, step);
    }

    fn did(&self, what: &str) -> bool {
        self.done.iter().any(|d| d == what)
    }
}

fn engine() -> EngineState {
    let mut e = EngineState::default();
    e.policy.enabled = true;
    e.policy.grace_seconds = 30;
    e.policy.cooldown_seconds = 10;
    e.policy.discard_mem_watermark_mb = 0;
    e.policy.discard_boot_reclaim = false;
    e
}

/// Chat in the background and frozen, game in front.
fn chat_frozen(d: &mut Device) -> EngineState {
    let mut e = engine();
    d.focus(&mut e, CHAT);
    d.focus(&mut e, GAME);
    d.now += 30 * SECOND;
    d.tick(&mut e);
    assert_eq!(e.frozen_packages(), vec![CHAT]);
    e
}

#[test]
fn an_app_in_the_background_is_frozen_after_its_delay() {
    let mut d = Device::new();
    let mut e = engine();
    d.focus(&mut e, CHAT);
    assert_eq!(e.last_focus.as_deref(), Some(CHAT));
    d.focus(&mut e, GAME);
    assert_eq!(e.grace_pending(), vec![CHAT]);
    assert!(d.did("protect [10001]"));

    d.now += 30 * SECOND - 1;
    d.tick(&mut e);
    assert!(e.frozen_packages().is_empty());

    d.now += 1;
    d.tick(&mut e);
    assert_eq!(e.frozen_packages(), vec![CHAT]);
    assert!(e.grace_pending().is_empty());
    assert!(d.did("freeze com.example.chat keep"));
    assert_eq!(e.freeze_ops, 1);
    assert_eq!(d.state.as_deref(), Some("com.example.chat:10001\n"));
    assert!(d.journal.contains("\"reason\":\"grace_expired\""), "{}", d.journal);
    assert_eq!(e.events.pending_persist(), 0);
}

#[test]
fn the_frozen_list_reads_back() {
    let mut d = Device::new();
    let _ = chat_frozen(&mut d);
    assert_eq!(
        read_frozen_state(d.state.as_deref()),
        vec![("com.example.chat".to_string(), 10001)]
    );
}

#[test]
fn focus_thaws_and_cools_down() {
    let mut d = Device::new();
    let mut e = chat_frozen(&mut d);
    d.focus(&mut e, CHAT);
    assert!(e.frozen_packages().is_empty());
    assert!(!d.app(CHAT).frozen);
    assert!(d.did("thaw com.example.chat"));
    assert_eq!(e.unfreeze_ops, 1);
    assert!(e.cooldown.contains_key(CHAT));
    assert!(e.adj_keep.contains(CHAT));

    d.focus(&mut e, GAME);
    assert!(!e.grace.contains_key(CHAT), "not delayed again while it cools down");

    d.now += 10 * SECOND;
    d.focus(&mut e, HOME);
    d.tick(&mut e);
    assert!(!e.cooldown.contains_key(CHAT));
}

#[test]
fn protection_ends_in_the_foreground() {
    let mut d = Device::new();
    let mut e = chat_frozen(&mut d);
    d.focus(&mut e, CHAT);
    d.tick(&mut e);
    assert!(d.did("restore com.example.chat"));
    assert!(!e.adj_keep.contains(CHAT));
    assert!(e.adj_keep.contains(GAME));
}

#[test]
fn what_is_left_frozen_is_thawed_in_the_foreground() {
    let mut d = Device::new();
    let mut e = engine();
    d.app(CHAT).frozen = true;
    d.focus(&mut e, CHAT);
    assert!(!d.app(CHAT).frozen);
    assert!(e.events.to_json(0).contains("residual_thaw"));
}

#[test]
fn a_wakeup_thaws_once_within_the_window() {
    let mut d = Device::new();
    let mut e = chat_frozen(&mut d);
    e.policy.wake_throttle_seconds = 60;
    d.wake(&mut e, CHAT);
    assert!(e.frozen_packages().is_empty());
    assert_eq!(e.wakeup_thaws, 1);
    assert_eq!(e.wake_throttle.get(CHAT), Some(&((d.now + 60 * SECOND) as u128)));

    e.frozen.insert(CHAT.to_string(), d.now);
    d.now += 60 * SECOND - 1;
    d.wake(&mut e, CHAT);
    assert_eq!(e.frozen_packages(), vec![CHAT], "still within the window");
    assert_eq!(e.wake_throttled, 1);
    d.now += 1;
    d.wake(&mut e, CHAT);
    assert!(e.frozen_packages().is_empty());
}

#[test]
fn a_listed_app_is_frozen_at_once() {
    let mut d = Device::new();
    let mut e = engine();
    e.policy.force = vec![CHAT.to_string()];
    e.policy.push_policy = PushMode::Kill;
    d.focus(&mut e, CHAT);
    d.focus(&mut e, GAME);
    assert!(d.did("freeze com.example.chat kill"));
    assert_eq!(e.frozen_packages(), vec![CHAT]);
    assert!(e.events.to_json(0).contains("\"reason\":\"force\""));
}

#[test]
fn an_app_without_processes_is_not_frozen() {
    let mut d = Device::new();
    let mut e = engine();
    e.policy.force = vec![CHAT.to_string()];
    d.focus(&mut e, CHAT);
    d.app(CHAT).alive = false;
    d.focus(&mut e, GAME);
    assert!(e.frozen_packages().is_empty());
    assert!(e.events.to_json(0).contains("\"reason\":\"no_procs\""));
}

fn leaves(e: &mut EngineState, d: &mut Device) -> String {
    d.focus(e, CHAT);
    d.focus(e, GAME);
    assert!(e.frozen_packages().is_empty());
    assert!(e.grace_pending().is_empty(), "{:?}", e.grace_pending());
    e.events.to_json(0)
}

#[test]
fn spared_apps_do_not_wait() {
    let mut d = Device::new();
    let mut e = engine();
    e.policy.whitelist = vec![CHAT.to_string()];
    assert_eq!(leaves(&mut e, &mut d), "[]");

    let mut e = engine();
    e.system_apps.insert(CHAT.to_string());
    assert!(leaves(&mut e, &mut d).contains("system_app"));

    let mut e = engine();
    e.policy.vpn_packages = vec![CHAT.to_string()];
    assert!(leaves(&mut e, &mut d).contains("vpn_protected"));

    let mut e = engine();
    d.vpn_uid = Some(10001);
    assert!(leaves(&mut e, &mut d).contains("vpn_protected"));
    d.vpn_uid = None;

    let mut e = engine();
    e.policy.apps.insert(
        CHAT.to_string(),
        AppPolicy { mode: AppMode::Exempt, ..Default::default() },
    );
    assert!(leaves(&mut e, &mut d).contains("per_app_exempt"));

    let mut e = engine();
    e.policy.apps.insert(
        CHAT.to_string(),
        AppPolicy { unfreeze_window: Some((590, 610)), ..Default::default() },
    );
    assert!(leaves(&mut e, &mut d).contains("schedule_window"));

    let mut e = engine();
    e.on_exempt(CHAT, false, true, false, 7);
    assert!(leaves(&mut e, &mut d).contains("exempt_action"));

    let mut e = engine();
    e.policy.enabled = false;
    assert_eq!(leaves(&mut e, &mut d), "[]");
}

#[test]
fn critical_apps_are_spared() {
    let mut d = Device::new();
    let mut e = engine();
    e.policy.force = vec!["com.android.systemui".to_string()];
    d.focus(&mut e, "com.android.systemui");
    d.focus(&mut e, GAME);
    assert!(e.frozen_packages().is_empty() && e.grace_pending().is_empty());
    assert!(e.events.to_json(0).contains("\"reason\":\"critical\""));
}

#[test]
fn traffic_spares_an_app_that_leaves() {
    let mut d = Device::new();
    let mut e = engine();
    e.policy.keep_high_network = false;
    e.policy.keep_network = true;
    d.focus(&mut e, CHAT);
    d.focus(&mut e, GAME);
    assert_eq!(e.grace_pending(), vec![CHAT], "the first sample only sets the base");
    d.app(CHAT).bytes = 1;
    d.now += 30 * SECOND;
    d.tick(&mut e);
    assert!(e.frozen_packages().is_empty());
    assert!(e.events.to_json(0).contains("tick_network_exempt"));
}

#[test]
fn traffic_thaws_a_frozen_app() {
    let mut d = Device::new();
    let mut e = chat_frozen(&mut d);
    e.policy.keep_network = true;
    e.tick_count = 9;
    d.tick(&mut e);
    assert_eq!(e.frozen_packages(), vec![CHAT]);
    d.now += 3 * SECOND;
    e.tick_count = 19;
    d.tick(&mut e);
    assert_eq!(e.frozen_packages(), vec![CHAT], "nothing came in");
    d.app(CHAT).bytes = 77;
    d.now += 3 * SECOND;
    e.tick_count = 29;
    d.tick(&mut e);
    assert!(e.frozen_packages().is_empty());
    assert_eq!(e.wakeup_thaws, 1);
    assert!(e.events.to_json(0).contains("network_wakeup"));
}

#[test]
fn a_dead_app_is_forgotten() {
    let mut d = Device::new();
    let mut e = chat_frozen(&mut d);
    d.app(CHAT).alive = false;
    d.tick(&mut e);
    assert!(e.frozen_packages().is_empty());
    assert_eq!(d.state.as_deref(), Some(""));
}

#[test]
fn a_long_freeze_ends_in_a_discard() {
    let mut d = Device::new();
    let mut e = chat_frozen(&mut d);
    e.policy.discard_frozen_timeout_seconds = 1800;
    d.now += 1800 * SECOND - 1;
    e.tick_count = 10;
    d.tick(&mut e);
    assert_eq!(e.discard_ops, 0);
    d.now += 1;
    e.tick_count = 20;
    d.tick(&mut e);
    assert!(d.did("kill 10001"));
    assert_eq!((e.discard_ops, e.discard_frozen_timeout), (1, 1));
    assert_eq!(e.discarded, vec![CHAT]);
    assert!(e.events.to_json(0).contains("uid=10001 killed=2"));
}

#[test]
fn an_important_app_is_not_discarded() {
    let mut d = Device::new();
    let mut e = chat_frozen(&mut d);
    e.policy.discard_frozen_timeout_seconds = 1800;
    e.policy.apps.insert(
        CHAT.to_string(),
        AppPolicy { mode: AppMode::Important, ..Default::default() },
    );
    d.now += 4000 * SECOND;
    e.tick_count = 10;
    d.tick(&mut e);
    assert_eq!(e.discard_ops, 0);
    assert_eq!(e.frozen_packages(), vec![CHAT]);
}

#[test]
fn want_of_memory_discards_the_oldest_until_there_is_enough() {
    let mut d = Device::new();
    let mut e = engine();
    e.policy.discard_frozen_timeout_seconds = 0;
    e.policy.discard_mem_watermark_mb = 512;
    e.frozen.insert(GAME.to_string(), d.now);
    e.frozen.insert(CHAT.to_string(), d.now - 5);
    e.frozen.insert(HOME.to_string(), d.now);
    d.app(HOME).rss = 900;
    d.free_kb = 20_000;
    e.tick_count = 20;
    d.tick(&mut e);
    assert_eq!(
        d.done.iter().filter(|x| x.starts_with("kill")).collect::<Vec<_>>(),
        vec!["kill 10001", "kill 10003"]
    );
    assert_eq!(e.discard_mem_watermark, 2);
    assert_eq!(e.frozen_packages(), vec![GAME]);
}

#[test]
fn apps_of_the_last_session_are_reclaimed_once_after_boot() {
    let mut d = Device::new();
    let mut e = engine();
    e.policy.discard_boot_reclaim = true;
    e.policy.discard_boot_reclaim_delay_seconds = 120;
    e.set_boot_reclaim_candidates(vec![(CHAT.to_string(), 10001), (HOME.to_string(), 10003)]);
    d.app(HOME).levels = vec![Some(900), Some(899)];
    d.booted = true;
    e.tick_count = 100;
    d.tick(&mut e);
    assert_eq!(e.boot_completed_at, Some(d.now));
    assert!(!e.boot_reclaim_done);
    d.now += 120 * SECOND;
    d.tick(&mut e);
    assert!(e.boot_reclaim_done);
    assert!(d.did("kill 10001") && !d.did("kill 10003"));
    assert_eq!(e.discard_boot_reclaim, 1);

    d.app(CHAT).alive = true;
    d.tick(&mut e);
    assert_eq!(e.discard_boot_reclaim, 1);
}

#[test]
fn an_engine_that_is_off_thaws_everything() {
    let mut d = Device::new();
    let mut e = chat_frozen(&mut d);
    e.policy.enabled = false;
    d.tick(&mut e);
    assert!(e.frozen_packages().is_empty());
    assert!(e.adj_keep.is_empty() && e.grace.is_empty() && e.cooldown.is_empty());
    assert!(!d.app(CHAT).frozen);
    assert!(e.events.to_json(0).contains("unfroze 1 pkgs"));
}

#[test]
fn a_stopped_package_is_forgotten() {
    let mut d = Device::new();
    let mut e = chat_frozen(&mut d);
    e.on_proc_add(4711, CHAT, Some(10001));
    let step = e.on_force_stop(CHAT, &d.env());
    d.run(&mut e, step);
    assert!(d.did("release com.example.chat"));
    assert!(e.frozen_packages().is_empty() && !e.pkg_uids.contains_key(CHAT));
    assert!(e.events.to_json(0).contains("force_stop"));
}

fn reload(policy: Option<&str>, presets: Option<&str>) -> ReloadInput {
    ReloadInput {
        pm: Some("package:/system/app/X.apk=com.example.sys\n".to_string()),
        procs: vec![ProcText {
            name: "88".to_string(),
            cmdline: "android.process.media\0".to_string(),
            status: "Name:\tm\nUid:\t10050\t10050\t10050\t10050\n".to_string(),
        }],
        presets: presets.map(|s| s.to_string()),
        presets_revision: 2,
        policy: policy.map(|s| s.to_string()),
        policy_revision: 5,
        rules: None,
        rules_revision: 0,
    }
}

#[test]
fn a_reload_thaws_what_it_protects() {
    let mut d = Device::new();
    let mut e = chat_frozen(&mut d);
    let input = reload(
        Some("[general]\nenabled = true\n[whitelist]\npackages = [\"com.example.chat\"]\n"),
        None,
    );
    let step = e.reload_policy(&input, &d.env());
    d.run(&mut e, step);
    assert!(d.did("release com.example.chat"));
    assert!(e.frozen_packages().is_empty());
    assert_eq!(e.policy.revision, 5);
    assert!(e.system_apps.contains("com.example.sys"));
    assert_eq!(e.media_uid, Some(10050));
    let j = e.events.to_json(0);
    assert!(j.contains("policy_reload") && j.contains("enabled=true apps=0 rev=5"), "{}", j);
}

#[test]
fn a_policy_that_does_not_parse_changes_nothing() {
    let mut d = Device::new();
    let mut e = chat_frozen(&mut d);
    for bad in [None, Some("[general]\nenabled = maybe\n")] {
        let step = e.reload_policy(&reload(bad, None), &d.env());
        d.run(&mut e, step);
        assert!(e.policy.enabled);
        assert_eq!(e.policy.grace_seconds, 30);
        assert_eq!(e.frozen_packages(), vec![CHAT]);
    }
    assert_eq!(e.events.to_json(0).matches("reload_failed").count(), 2);
}

const PRESETS: &str = "[presets.\"work\"]\nenabled = true\ngrace_seconds = 5\ncooldown_seconds = 7\n";

#[test]
fn a_preset_is_laid_over_the_policy_and_taken_away() {
    let mut d = Device::new();
    let mut e = engine();
    assert_eq!(
        e.apply_preset("work", 9),
        Err("预设表为空（action.toml 缺失或未定义预设）".to_string())
    );
    let policy = "[general]\nenabled = false\ngrace_seconds = 44\n[freeze]\nforce = [\"a.b\"]\n";
    let step = e.reload_policy(&reload(Some(policy), Some(PRESETS)), &d.env());
    d.run(&mut e, step);
    assert_eq!(e.policy.grace_seconds, 44);

    assert_eq!(e.apply_preset("work", 9), Ok(()));
    assert_eq!((e.policy.enabled, e.policy.grace_seconds, e.policy.cooldown_seconds), (true, 5, 7));
    assert_eq!(e.policy.force, vec!["a.b"]);
    assert_eq!(
        e.apply_preset("play", 9),
        Err("预设不存在: play（可用: work）".to_string())
    );
    assert_eq!(e.active_preset.as_deref(), Some("work"));

    let step = e.reload_policy(&reload(Some(policy), Some(PRESETS)), &d.env());
    d.run(&mut e, step);
    assert_eq!(e.policy.grace_seconds, 5, "a reload keeps the preset");

    e.clear_preset(None, 6, 10);
    assert_eq!(e.active_preset.as_deref(), Some("work"), "nothing to fall back to");
    e.clear_preset(Some(policy), 6, 10);
    assert_eq!(e.active_preset, None);
    assert_eq!(e.policy.grace_seconds, 44);
    assert!(e.events.to_json(0).contains("clear=work"));

    let step = e.reload_policy(&reload(Some(policy), None), &d.env());
    d.run(&mut e, step);
    assert!(e.apply_preset("work", 9).is_err());
}

#[test]
fn system_components_are_locked_every_fifth_tick() {
    let mut d = Device::new();
    d.apps.insert(
        "com.android.systemui".to_string(),
        App { uid: 10040, alive: true, frozen: false, bytes: 0, rss: 0, levels: vec![] },
    );
    let mut e = EngineState::default();
    assert!(!Policy::default().enabled);
    e.media_uid = Some(10050);
    d.tick(&mut e);
    assert!(d.did("lock [10040, 10050]"), "{:?}", d.done);
    assert!(e.system_chain_locked);
    d.done.clear();
    e.tick_count = 4;
    d.tick(&mut e);
    assert!(d.done.is_empty());
}

#[test]
fn the_last_session_is_taken_over() {
    let d = Device::new();
    let mut e = engine();
    e.reconcile(CHAT, 10001, Reconcile::Restore, false, &d.env());
    assert_eq!(e.frozen_packages(), vec![CHAT]);
    e.reconcile(GAME, 10002, Reconcile::Thaw, true, &d.env());
    e.reconcile(HOME, 10003, Reconcile::Ignore, false, &d.env());
    assert_eq!(e.frozen_packages(), vec![CHAT]);
    assert!(e.events.to_json(0).contains("\"msg\":\"uid=10002\""), "{}", e.events.to_json(0));
}

#[test]
fn uids_are_sorted_and_cover_what_is_frozen() {
    let mut d = Device::new();
    let mut e = chat_frozen(&mut d);
    d.focus(&mut e, HOME);
    assert_eq!(e.sundown_frozen_uids(&d.env()), vec![10001]);
    assert_eq!(e.sundown_candidate_uids(&d.env()), vec![10001, 10002]);
    e.on_proc_add(5, CHAT, Some(20001));
    assert_eq!(e.sundown_frozen_uids(&d.env()), vec![20001], "a reported uid comes first");
}

#[test]
fn rows_without_a_package_name_are_skipped() {
    assert_eq!(EngineState::parse_pm_line("package:/system/app/X.apk"), None);
    assert_eq!(EngineState::parse_pm_line("com.oplus.camera"), None);
    assert_eq!(
        EngineState::parse_pm_line("/data/x=com.oplus.camera"),
        Some("com.oplus.camera".to_string())
    );
}

#[test]
fn a_gated_broadcast_does_not_count_as_throttled() {
    let mut d = Device::new();
    let mut e = chat_frozen(&mut d);
    e.policy.receiver_gate = vec!["some.ACTION".to_string()];
    e.policy.wake_throttle_seconds = 60;
    e.wake_throttle.insert(CHAT.to_string(), (d.now + SECOND) as u128);
    d.wake(&mut e, CHAT);
    assert_eq!(e.wake_throttled, 0);
    assert!(e.events.to_json(1).contains("receiver_gated"));
    e.policy.receiver_gate.clear();
    d.wake(&mut e, CHAT);
    assert_eq!(e.wake_throttled, 1);
    assert_eq!(e.frozen_packages(), vec![CHAT]);
}

#[test]
fn a_thaw_restarts_the_time_to_a_discard() {
    let mut d = Device::new();
    let mut e = chat_frozen(&mut d);
    e.policy.discard_frozen_timeout_seconds = 100;
    d.now += 90 * SECOND;
    d.wake(&mut e, CHAT);
    e.cooldown.clear();
    e.grace.insert(CHAT.to_string(), (d.now - 30 * SECOND, 30));
    d.tick(&mut e);
    assert_eq!(e.frozen.get(CHAT), Some(&d.now));
    assert!(e.expired_discard_candidates(d.now + 100 * SECOND - 1).is_empty());
    assert_eq!(e.expired_discard_candidates(d.now + 100 * SECOND), vec![CHAT]);
}

#[test]
fn an_app_that_gets_busy_while_it_waits_is_not_frozen() {
    let mut d = Device::new();
    let mut e = engine();
    d.focus(&mut e, CHAT);
    d.focus(&mut e, GAME);
    e.on_exempt(CHAT, true, false, false, 3);
    d.now += 30 * SECOND;
    d.tick(&mut e);
    assert!(e.frozen_packages().is_empty() && e.grace_pending().is_empty());
    assert!(e.events.to_json(0).contains("tick_exempt"));
}

const CHAT_LISTED: &str =
    "[general]\nenabled = true\n[whitelist]\npackages = [\"com.example.chat\"]\n";

const CHAT_EXEMPT: &str =
    "[general]\nenabled = true\n[apps.\"com.example.chat\"]\nmode = \"exempt\"\n";

#[test]
fn an_app_that_is_listed_while_it_waits_is_not_frozen() {
    for policy in [CHAT_LISTED, CHAT_EXEMPT] {
        let mut d = Device::new();
        let mut e = engine();
        d.focus(&mut e, CHAT);
        d.focus(&mut e, GAME);
        assert_eq!(e.grace_pending(), vec![CHAT]);
        let step = e.reload_policy(&reload(Some(policy), None), &d.env());
        d.run(&mut e, step);
        assert!(e.grace_pending().is_empty(), "released at once");
        d.now += 60 * SECOND;
        d.tick(&mut e);
        assert!(e.frozen_packages().is_empty());
        assert!(!d.app(CHAT).frozen);
    }
}

#[test]
fn an_app_that_a_given_up_preset_lists_is_not_frozen() {
    for policy in [CHAT_LISTED, CHAT_EXEMPT] {
        let mut d = Device::new();
        let mut e = engine();
        d.focus(&mut e, CHAT);
        d.focus(&mut e, GAME);
        e.clear_preset(Some(policy), 6, 1);
        assert_eq!(e.grace_pending(), vec![CHAT], "it still waits");
        d.now += 60 * SECOND;
        d.tick(&mut e);
        assert!(e.frozen_packages().is_empty() && e.grace_pending().is_empty());
        assert!(!d.app(CHAT).frozen);
    }
}

#[test]
fn a_system_app_that_waits_is_not_frozen() {
    let mut d = Device::new();
    let mut e = engine();
    d.focus(&mut e, CHAT);
    d.focus(&mut e, GAME);
    e.system_apps.insert(CHAT.to_string());
    d.now += 60 * SECOND;
    d.tick(&mut e);
    assert!(e.frozen_packages().is_empty() && e.grace_pending().is_empty());
}

#[test]
fn one_sample_is_held_against_both_thresholds() {
    let mut d = Device::new();
    let mut e = engine();
    e.policy.keep_high_network = true;
    e.policy.keep_network = true;
    d.focus(&mut e, CHAT);
    d.focus(&mut e, GAME);
    d.app(CHAT).bytes = 10;
    d.now += 30 * SECOND;
    d.tick(&mut e);
    assert!(e.frozen_packages().is_empty());
    assert!(e.events.to_json(0).contains("tick_network_exempt"));
}

fn rules(e: &mut EngineState, text: &str) {
    e.reload_rules(Some(text), 1);
    assert_eq!(e.rules.len(), 1);
}

#[test]
fn a_rule_suppresses_a_wakeup() {
    let mut d = Device::new();
    let mut e = chat_frozen(&mut d);
    rules(
        &mut e,
        "[rules.\"quiet\"]\ncondition = \"wakeup\"\nsource = \"broadcast\"\naction = \"suppress\"\nthrottle = 5\n",
    );
    d.wake(&mut e, CHAT);
    assert_eq!(e.frozen_packages(), vec![CHAT]);
    assert_eq!(e.rules.hits, 1);
    let j = e.events.to_json(0);
    assert!(j.contains("rule_suppressed") && j.contains("\"msg\":\"quiet\""), "{j}");
    d.wake(&mut e, CHAT);
    assert!(e.frozen_packages().is_empty(), "the rule rests");
}

#[test]
fn a_suppressed_wakeup_keeps_the_delay() {
    let mut d = Device::new();
    let mut e = engine();
    rules(&mut e, "[rules.\"quiet\"]\ncondition = \"wakeup\"\naction = \"suppress\"\n");
    d.focus(&mut e, CHAT);
    d.focus(&mut e, GAME);
    d.wake(&mut e, CHAT);
    assert_eq!(e.grace_pending(), vec![CHAT]);
}

#[test]
fn a_rule_exempts_an_app_that_leaves() {
    let mut d = Device::new();
    let mut e = engine();
    e.policy.force = vec![CHAT.to_string()];
    rules(
        &mut e,
        "[rules.\"calm\"]\ncondition = \"leave\"\naction = \"exempt\"\napplies_to = [ \"com.example.chat\" ]\n",
    );
    d.focus(&mut e, CHAT);
    d.focus(&mut e, GAME);
    assert!(e.frozen_packages().is_empty() && e.grace_pending().is_empty());
    assert!(e.events.to_json(0).contains("rule_exempt"));
    assert_eq!(e.rules.hits, 1);
    assert!(e.should_never_freeze(CHAT, &d.env()));
    assert!(!e.should_never_freeze(GAME, &d.env()));
}

#[test]
fn a_rule_that_exempts_releases_with_a_reload() {
    let mut d = Device::new();
    let mut e = chat_frozen(&mut d);
    d.focus(&mut e, HOME);
    assert_eq!(e.grace_pending(), vec![GAME]);
    let mut input = reload(Some("[general]\nenabled = true\n"), None);
    input.rules = Some("[rules.\"calm\"]\naction = \"exempt\"\n".to_string());
    input.rules_revision = 7;
    let step = e.reload_policy(&input, &d.env());
    d.run(&mut e, step);
    assert!(e.frozen_packages().is_empty() && e.grace_pending().is_empty());
    assert!(d.did("release com.example.chat"));
    assert_eq!(e.rules.revision, 7);
    assert!(e.events.to_json(0).contains("rules=1 rev=7"));
}

#[test]
fn a_rule_freezes_without_delay() {
    let mut d = Device::new();
    let mut e = engine();
    rules(&mut e, "[rules.\"now\"]\ncondition = \"leave\"\naction = \"freeze\"\n");
    d.focus(&mut e, CHAT);
    d.focus(&mut e, GAME);
    assert_eq!(e.frozen_packages(), vec![CHAT]);
    assert!(e.events.to_json(0).contains("rule_freeze"));
    assert_eq!(e.rules.hits, 1);
}

#[test]
fn a_rule_discards_what_stays_frozen() {
    let mut d = Device::new();
    let mut e = chat_frozen(&mut d);
    e.policy.discard_frozen_timeout_seconds = 0;
    rules(&mut e, "[rules.\"drop\"]\naction = \"discard\"\nafter_seconds = 120\n");
    e.tick_count = 10;
    d.now += 120 * SECOND - 1;
    d.tick(&mut e);
    assert_eq!(e.discard_ops, 0);
    e.tick_count = 20;
    d.now += 1;
    d.tick(&mut e);
    assert!(d.did("kill 10001"));
    assert_eq!((e.discard_ops, e.discard_rule), (1, 1));
    assert!(e.events.to_json(0).contains("rule_discard"));
    assert_eq!(e.rules.hits, 1);
}

#[test]
fn a_rule_without_a_time_takes_that_of_the_policy() {
    let mut d = Device::new();
    let mut e = chat_frozen(&mut d);
    e.policy.discard_frozen_timeout_seconds = 0;
    rules(&mut e, "[rules.\"drop\"]\naction = \"discard\"\n");
    d.now += 100_000 * SECOND;
    assert!(e.rule_discard_candidates(&d.env()).is_empty(), "neither sets a time");
    e.policy.discard_frozen_timeout_seconds = 50;
    assert_eq!(e.rule_discard_candidates(&d.env()), vec![CHAT]);
}

#[test]
fn a_rule_is_over_after_its_last_day() {
    let mut d = Device::new();
    let mut e = chat_frozen(&mut d);
    rules(
        &mut e,
        "[rules.\"quiet\"]\ncondition = \"wakeup\"\naction = \"suppress\"\nexpires_at = \"2026-08-12\"\n",
    );
    d.wake(&mut e, CHAT);
    assert_eq!(e.frozen_packages(), vec![CHAT], "its last day");
    d.today = Some((2026, 8, 13));
    d.wake(&mut e, CHAT);
    assert!(e.frozen_packages().is_empty());
}

#[test]
fn what_happens_to_an_app_is_on_record() {
    let mut d = Device::new();
    let mut e = engine();
    d.focus(&mut e, CHAT);
    d.now += 3 * SECOND;
    d.focus(&mut e, CHAT);
    d.now += 2 * SECOND;
    d.focus(&mut e, GAME);
    d.now += 30 * SECOND;
    d.tick(&mut e);
    d.wake(&mut e, CHAT);
    let p = e.profile.get(CHAT).unwrap();
    assert_eq!((p.focus_count, p.focus_ms), (1, 5_000));
    assert_eq!((p.freeze_count, p.unfreeze_count, p.wakeup_count), (1, 1, 1));
    assert_eq!(p.wakeup_sources.get("broadcast"), Some(&1));
    assert_eq!(e.wakeup_sources.get("broadcast"), Some(&1));
    assert_eq!(e.profile.app_count(), 2);
}
