use sundownd::engine_ops::{DiscardReason, Env, Op, Reply, Step, Survey};
use sundownd::engine_state::EngineState;
use sundownd::names::NameMap;
use sundownd::network::NetReading;
use sundownd::policy::{AppMode, AppPolicy};

const SECOND: u64 = 1_000_000_000;
const NOW: u64 = 10_000 * SECOND;

fn env() -> Env {
    Env { now: NOW, epoch: 1_000, minute: Some(600), today: None, vpn_uid: None, table: NameMap::new() }
}

/// A device on which nothing can be read and every operation fails.
fn refuse(op: &Op) -> Reply {
    match op {
        Op::Survey(_) => Reply::Survey(Survey {
            reading: NetReading::none(),
            has_procs: false,
            has_frozen: false,
        }),
        Op::Resident(v) => Reply::Numbers(vec![0; v.len()]),
        Op::Levels(_) => Reply::Levels(Vec::new()),
        Op::Memory | Op::Discard(_) => Reply::Number(None),
        _ => Reply::Flag(false),
    }
}

fn settle(e: &mut EngineState, first: Step) {
    let mut step = first;
    loop {
        step = match step {
            Step::Done => return,
            Step::Next(task) => e.resume(task, Reply::Nothing, &env()),
            Step::Ask(op, task) => {
                let reply = refuse(&op);
                e.resume(task, reply, &env())
            }
        };
    }
}

fn wake(e: &mut EngineState, pkg: &str, source: &str, action: &str) {
    let step = e.on_wakeup(pkg, source, action, &env());
    settle(e, step);
}

fn tick(e: &mut EngineState) {
    let step = e.tick(&env());
    settle(e, step);
}

fn discard(e: &mut EngineState, pkg: &str) -> bool {
    let before = e.discard_ops;
    let step = e.discard_pkg(pkg, Vec::new(), DiscardReason::FrozenTimeout, &env());
    settle(e, step);
    e.discard_ops > before
}

#[test]
fn wake_throttle_v042() {
    let mut e = EngineState::default();
    e.policy.wake_throttle_seconds = 60;

    e.frozen.insert("com.storm.app".to_string(), NOW);
    e.wake_throttle.insert("com.storm.app".to_string(), (NOW + 60 * SECOND) as u128);
    wake(&mut e, "com.storm.app", "broadcast", "android.intent.action.SCREEN_ON");
    assert!(e.frozen.contains_key("com.storm.app"), "窗口内不解冻");
    assert_eq!(e.wake_throttled, 1);
    let j = e.events.to_json(8);
    assert!(j.contains("wakeup_throttled"), "事件留痕: {}", j);
    assert!(j.contains("broadcast"), "携带唤醒源: {}", j);

    e.wake_throttle.insert("com.storm.app".to_string(), (NOW - SECOND) as u128);
    wake(&mut e, "com.storm.app", "pendingintent", "?");
    assert!(!e.frozen.contains_key("com.storm.app"), "窗口过期后解冻");

    let mut e2 = EngineState::default();
    e2.policy.wake_throttle_seconds = 0;
    e2.frozen.insert("com.storm.app".to_string(), NOW);
    e2.wake_throttle.insert("com.storm.app".to_string(), (NOW + 60 * SECOND) as u128);
    wake(&mut e2, "com.storm.app", "service", "?");
    assert!(!e2.frozen.contains_key("com.storm.app"), "关闭节流不拦");
    assert_eq!(e2.wake_throttled, 0);

    let mut e3 = EngineState::default();
    e3.policy.wake_throttle_seconds = 60;
    e3.policy.apps.insert(
        "com.storm.app".to_string(),
        AppPolicy {
            mode: AppMode::Standard,
            keep_wakeup: Some(false),
            ..Default::default()
        },
    );
    e3.frozen.insert("com.storm.app".to_string(), NOW);
    wake(&mut e3, "com.storm.app", "broadcast", "?");
    assert!(e3.frozen.contains_key("com.storm.app"));
    assert_eq!(e3.wake_throttled, 0);
    let j3 = e3.events.to_json(8);
    assert!(j3.contains("wakeup_ignored"), "keep_wakeup=false 走 ignored: {}", j3);
}

#[test]
fn receiver_gate_v043() {
    let mut e = EngineState::default();
    e.frozen.insert("com.gate.app".to_string(), NOW);
    wake(&mut e, "com.gate.app", "broadcast", "android.intent.action.ANY");
    assert!(!e.frozen.contains_key("com.gate.app"), "空门控全放行");
    assert_eq!(e.events.to_json(8).matches("receiver_gated").count(), 0);

    let mut e2 = EngineState::default();
    e2.policy.receiver_gate = vec!["android.intent.action.USER_PRESENT".to_string()];
    e2.frozen.insert("com.gate.app".to_string(), NOW);
    wake(&mut e2, "com.gate.app", "broadcast", "android.intent.action.USER_PRESENT");
    assert!(!e2.frozen.contains_key("com.gate.app"), "白名单 action 放行");

    let mut e3 = EngineState::default();
    e3.policy.receiver_gate = vec!["android.intent.action.USER_PRESENT".to_string()];
    e3.frozen.insert("com.gate.app".to_string(), NOW);
    wake(&mut e3, "com.gate.app", "broadcast", "com.vendor.SPAM");
    assert!(e3.frozen.contains_key("com.gate.app"), "白名单外不解冻");
    let j3 = e3.events.to_json(8);
    assert!(j3.contains("receiver_gated"), "留痕 receiver_gated: {}", j3);
    assert!(j3.contains("com.vendor.SPAM"), "携带 action: {}", j3);

    let mut e4 = EngineState::default();
    e4.policy.receiver_gate = vec!["android.intent.action.USER_PRESENT".to_string()];
    e4.policy.apps.insert(
        "com.tencent.mm".to_string(),
        AppPolicy {
            mode: AppMode::Important,
            ..Default::default()
        },
    );
    e4.frozen.insert("com.tencent.mm".to_string(), NOW);
    wake(&mut e4, "com.tencent.mm", "broadcast", "com.vendor.SPAM");
    assert!(!e4.frozen.contains_key("com.tencent.mm"), "IMPORTANT 档绕过门控");

    let mut e5 = EngineState::default();
    e5.policy.receiver_gate = vec!["android.intent.action.USER_PRESENT".to_string()];
    e5.frozen.insert("com.gate.app".to_string(), NOW);
    wake(&mut e5, "com.gate.app", "service", "?");
    assert!(!e5.frozen.contains_key("com.gate.app"), "service 源不受门控");
}

#[test]
fn frozen_timeout_discard_v052() {
    let mut e = EngineState::default();
    e.policy.enabled = true;
    e.policy.discard_frozen_timeout_seconds = 100;

    e.frozen.insert("com.fresh.app".to_string(), NOW);
    e.frozen.insert(
        "com.stale.app".to_string(),
        NOW - 150 * SECOND,
    );
    let expired = e.expired_discard_candidates(NOW);
    assert_eq!(expired, vec!["com.stale.app"], "仅超时项命中");

    e.policy.discard_frozen_timeout_seconds = 0;
    assert!(
        e.expired_discard_candidates(NOW).is_empty(),
        "关闭丢弃不产生候选"
    );

    e.policy.discard_frozen_timeout_seconds = 100;
    let ok = discard(&mut e, "com.stale.app");
    assert!(!ok, "包表未知 → 丢弃失败");
    assert!(!e.frozen.contains_key("com.stale.app"), "记录已清理");
    assert_eq!(e.discard_ops, 0, "失败不计数");
    assert_eq!(e.discard_frozen_timeout, 0);

    e.frozen.insert("com.whitelisted.app".to_string(), NOW);
    e.policy.whitelist = vec!["com.whitelisted.app".to_string()];
    let ok2 = discard(&mut e, "com.whitelisted.app");
    assert!(!ok2, "护栏拒绝");
    assert!(e.frozen.contains_key("com.whitelisted.app"), "白名单保留");
    assert_eq!(e.discard_ops, 0);
}

#[test]
fn mem_watermark_discard_v052() {
    let mut e = EngineState::default();
    e.policy.enabled = true;

    e.frozen.insert("com.new.app".to_string(), NOW);
    e.frozen.insert(
        "com.mid.app".to_string(),
        NOW - 60 * SECOND,
    );
    e.frozen.insert(
        "com.old.app".to_string(),
        NOW - 600 * SECOND,
    );
    let order = e.sort_discard_candidates(&vec![0, 0, 0]);
    assert_eq!(order, vec!["com.old.app", "com.mid.app", "com.new.app"], "LRU 最旧优先");

    e.policy.whitelist = vec!["com.wl.app".to_string()];
    e.policy.apps.insert(
        "com.imp.app".to_string(),
        AppPolicy {
            mode: AppMode::Important,
            ..Default::default()
        },
    );
    e.policy.apps.insert(
        "com.exempt.app".to_string(),
        AppPolicy {
            mode: AppMode::Exempt,
            ..Default::default()
        },
    );
    e.last_focus = Some("com.fg.app".to_string());
    e.system_apps.insert("com.sys.app".to_string());
    assert!(e.discard_ineligible("com.wl.app", &env()), "白名单");
    assert!(e.discard_ineligible("com.imp.app", &env()), "IMPORTANT");
    assert!(e.discard_ineligible("com.exempt.app", &env()), "per-app exempt");
    assert!(e.discard_ineligible("com.android.systemui", &env()), "critical 内置");
    assert!(e.discard_ineligible("com.sys.app", &env()), "动态系统组件");
    assert!(e.discard_ineligible("com.fg.app", &env()), "当前前台");
    assert!(!e.discard_ineligible("com.normal.app", &env()), "标准档可丢弃");
}

#[test]
fn boot_reclaim_v052() {
    let mut e = EngineState::default();
    e.policy.enabled = true;
    e.policy.discard_boot_reclaim = true;
    e.policy.discard_boot_reclaim_delay_seconds = 0;

    e.boot_completed_at = None;
    assert!(!e.boot_reclaim_done);
    e.tick_count = 100;
    tick(&mut e);
    assert!(e.boot_completed_at.is_none(), "getprop 失败不安排回收");

    e.boot_completed_at = Some(NOW - 1 * SECOND);
    e.boot_reclaim_candidates = vec![
        ("com.oldfrozen.app".to_string(), 10001),
        ("com.android.settings".to_string(), 10002),
    ];
    e.tick_count = 100;
    tick(&mut e);
    assert!(e.boot_reclaim_done, "tick 执行后标记完成");
    assert_eq!(e.discard_ops, 0, "测试环境无 cache 档候选，零丢弃");

    let before = e.discard_ops;
    e.tick_count = 200;
    tick(&mut e);
    assert_eq!(e.discard_ops, before, "重复 tick 不重复执行");
}

#[test]
fn system_partition_path_v055() {
    for p in [
        "/system/priv-app/Settings/Settings.apk",
        "/system/framework/framework-res.apk",
        "/vendor/app/com.oplus.xxx/xxx.apk",
        "/product/overlay/com.coloros.yyy/yyy.apk",
        "/odm/etc/com.oplus.zzz/zzz.apk",
        "/system_ext/priv-app/com.android.aaa/aaa.apk",
        "/apex/com.android.art/art.apk",
    ] {
        assert!(EngineState::is_system_partition_path(p), "分区前缀应命中: {}", p);
    }
    for p in [
        "/data/app/com.example.foo-1/base.apk",
        "/data/user/0/com.example.foo/base.apk",
        "/storage/emulated/0/Download/x.apk",
        "/system",
        "/vendor",
        "/product",
        "/odm",
        "/system_ext",
        "/apex",
        "",
        "system/priv-app/x.apk",
    ] {
        assert!(!EngineState::is_system_partition_path(p), "非分区不应命中: {}", p);
    }
    assert!(EngineState::is_system_partition_path("  /system/priv-app/x.apk "));
}

#[test]
fn vendor_pkg_domain_v055() {
    for p in [
        "com.oplus.phone",
        "com.coloros.phonemanager",
        "com.oneplus.settings",
        "com.realme.movie",
        "com.heytap.openid",
        "com.nearme.instant",
    ] {
        assert!(EngineState::is_vendor_pkg_domain(p), "厂商域应命中: {}", p);
    }
    for p in [
        "com.android.settings",
        "com.tencent.mm",
        "com.oplus",
        "com.coloros",
        "com.oneplus",
        "com.realme",
        "com.heytap",
        "com.nearme",
        "oplus.phone",
        "",
    ] {
        assert!(!EngineState::is_vendor_pkg_domain(p), "非厂商域不应命中: {}", p);
    }
}

#[test]
fn parse_pm_line_v055() {
    assert_eq!(
        EngineState::parse_pm_line("package:/system/priv-app/Settings/Settings.apk=com.android.settings"),
        Some("com.android.settings".to_string())
    );
    assert_eq!(
        EngineState::parse_pm_line("package:/system_ext/priv-app/com.android.aaa/aaa.apk=com.android.aaa"),
        Some("com.android.aaa".to_string())
    );
    assert_eq!(
        EngineState::parse_pm_line("package:/data/app/~~abc==/com.coloros.phonemanager-1/base.apk=com.coloros.phonemanager"),
        Some("com.coloros.phonemanager".to_string())
    );
    assert_eq!(
        EngineState::parse_pm_line("package:/data/app/~~abc==/com.example.foo-1/base.apk=com.example.foo"),
        None
    );
    assert_eq!(EngineState::parse_pm_line("garbage line"), None);
    assert_eq!(EngineState::parse_pm_line("package:/system/priv-app/x.apk="), None);
    assert_eq!(EngineState::parse_pm_line(""), None);
    assert_eq!(EngineState::parse_pm_line("   "), None);
}

#[test]
fn discard_exempt_final_check_v055() {
    let mut e = EngineState::default();
    e.policy.enabled = true;
    e.policy.keep_fg_service = true;
    e.policy.keep_media = true;
    e.policy.keep_location = true;

    e.on_exempt("com.service.app", true, false, false, 1_000);
    assert!(e.discard_ineligible("com.service.app", &env()), "fg_service 终检拦截");

    e.on_exempt("com.music.app", false, true, false, 1_000);
    assert!(e.discard_ineligible("com.music.app", &env()), "media 终检拦截");

    e.on_exempt("com.nav.app", false, false, true, 1_000);
    assert!(e.discard_ineligible("com.nav.app", &env()), "location 终检拦截");

    e.on_exempt("com.normal.app", false, false, false, 1_000);
    assert!(!e.discard_ineligible("com.normal.app", &env()), "无豁免可丢弃");

    let mut e2 = EngineState::default();
    e2.policy.enabled = true;
    e2.policy.keep_fg_service = false;
    e2.policy.keep_media = false;
    e2.policy.keep_location = false;
    e2.on_exempt("com.service.app", true, true, true, 1_000);
    assert!(!e2.discard_ineligible("com.service.app", &env()), "豁免开关关闭不拦截");

    let mut e3 = EngineState::default();
    e3.policy.enabled = true;
    e3.policy.keep_fg_service = true;
    assert!(!e3.discard_ineligible("com.unknown.app", &env()), "无 exempt 记录不拦截");

    let mut e4 = EngineState::default();
    e4.policy.enabled = true;
    e4.policy.keep_fg_service = true;
    e4.last_focus = Some("com.oplus.launcher".to_string());
    e4.on_exempt("com.sinovatech.unicom.ui", true, false, false, 1_000);
    assert!(
        e4.discard_ineligible("com.sinovatech.unicom.ui", &env()),
        "焦点失真时 exempt 终检兜底（联通 ANR 场景）"
    );
}

#[test]
fn refresh_system_apps_fallback_v055() {
    let mut e = EngineState::default();
    e.system_apps.insert("com.legacy.app".to_string());
    e.refresh_system_apps(None, &Vec::new());
    assert!(e.system_apps.is_empty(), "pm 失败回落空集");
    assert!(e.policy.is_critical("com.android.systemui"));
}
