use sundownd::policy::{in_window, parse_window, AppMode, AppPolicy, Policy, PushMode};

#[test]
fn parse_policy_ok() {
    let src = r#"
[general]
enabled = true
grace_seconds = 15
cooldown_seconds = 60

[freeze]
force = [ "com.greedy.app" ]

[whitelist]
packages = [ "com.android.settings" ]
keep_fg_service = true
keep_media = false

[defense]
anr_protect = true
"#;
    let p = Policy::from_toml(src, 42).unwrap();
    assert!(p.enabled);
    assert_eq!(p.grace_seconds, 15);
    assert_eq!(p.cooldown_seconds, 60);
    assert_eq!(p.force, vec!["com.greedy.app"]);
    assert!(p.is_whitelisted("com.android.settings"));
    assert!(!p.is_whitelisted("x.y"));
    assert!(p.is_forced("com.greedy.app"));
    assert!(p.keep_fg_service);
    assert!(!p.keep_media);
    assert!(p.defense_anr);
    assert!(!p.defense_cached_optimizer);
    assert_eq!(p.revision, 42);
}

#[test]
fn parse_policy_bad() {
    assert!(Policy::from_toml("k = ", 0).is_err());
    assert!(Policy::from_toml("[general\nenabled = true", 0).is_err());
}

#[test]
fn unknown_key_ignored() {
    let p = Policy::from_toml("[general]\nenabled = true\nfuture_key = 1", 1).unwrap();
    assert!(p.enabled);
}

#[test]
fn discard_parse_v052() {
    let src = r#"
[general]
enabled = true

[discard]
frozen_timeout_seconds = 3600
mem_watermark_mb = 256
boot_reclaim = false
boot_reclaim_delay_seconds = 60
"#;
    let p = Policy::from_toml(src, 99).unwrap();
    assert!(p.enabled);
    assert_eq!(p.discard_frozen_timeout_seconds, 3600);
    assert_eq!(p.discard_mem_watermark_mb, 256);
    assert!(!p.discard_boot_reclaim);
    assert_eq!(p.discard_boot_reclaim_delay_seconds, 60);

    let d = Policy::default();
    assert_eq!(d.discard_frozen_timeout_seconds, 1800);
    assert_eq!(d.discard_mem_watermark_mb, 512);
    assert!(d.discard_boot_reclaim);
    assert_eq!(d.discard_boot_reclaim_delay_seconds, 120);

    let src2 = "[discard]\nfrozen_timeout_seconds = 0\nmem_watermark_mb = 0";
    let p2 = Policy::from_toml(src2, 1).unwrap();
    assert_eq!(p2.discard_frozen_timeout_seconds, 0);
    assert_eq!(p2.discard_mem_watermark_mb, 0);
    assert!(p2.discard_boot_reclaim, "boot_reclaim 未指定回落默认 true");
}

#[test]
fn parse_per_app_policy() {
    let src = r#"
[general]
enabled = true
grace_seconds = 30

[apps."com.tencent.mm"]
mode = "strict"
grace_seconds = 8
keep_media = false

[apps."com.example.tool"]
mode = "exempt"

[apps."com.example.normal"]
mode = "standard"
grace_seconds = 120
"#;
    let p = Policy::from_toml(src, 7).unwrap();
    assert!(p.enabled);
    assert_eq!(p.apps.len(), 3);

    let mm = p.apps.get("com.tencent.mm").unwrap();
    assert_eq!(mm.mode, AppMode::Strict);
    assert_eq!(mm.effective_grace(30), 8);
    assert_eq!(mm.keep_media, Some(false));
    assert_eq!(mm.keep_fg_service, None);

    let tool = p.apps.get("com.example.tool").unwrap();
    assert_eq!(tool.mode, AppMode::Exempt);
    assert_eq!(tool.effective_grace(30), 30);

    let normal = p.apps.get("com.example.normal").unwrap();
    assert_eq!(normal.mode, AppMode::Standard);
    assert_eq!(normal.effective_grace(30), 120);
    assert!(p.apps.get("com.example.missing").is_none());

    let src2 = "[apps.\"com.x.y\"]\nmode = \"strict\"";
    let p2 = Policy::from_toml(src2, 8).unwrap();
    assert_eq!(p2.apps.get("com.x.y").unwrap().effective_grace(30), AppPolicy::STRICT_DEFAULT_GRACE);
}
#[test]
fn parse_per_app_bad_mode() {
    let p = Policy::from_toml("[apps.\"com.x.y\"]\nmode = \"turbo\"\ngrace_seconds = 5", 1).unwrap();
    let ap = p.apps.get("com.x.y").unwrap();
    assert_eq!(ap.mode, AppMode::Standard);
    assert_eq!(ap.effective_grace(30), 5);
}

#[test]
fn important_mode_v041() {
    let src = "[general]\nenabled = true\ngrace_seconds = 30\n\n[apps.\"com.tencent.mm\"]\nmode = \"important\"\nkeep_wakeup = false";
    let p = Policy::from_toml(src, 1).unwrap();
    let ap = p.apps.get("com.tencent.mm").unwrap();
    assert_eq!(ap.mode, AppMode::Important);
    assert_eq!(ap.effective_grace(30), 60);
    let src2 = "[apps.\"com.example.imp\"]\nmode = \"important\"";
    let p2 = Policy::from_toml(src2, 1).unwrap();
    assert_eq!(p2.apps.get("com.example.imp").unwrap().effective_grace(45), 90);
    let src3 = "[apps.\"com.example.imp2\"]\nmode = \"important\"\ngrace_seconds = 15";
    let p3 = Policy::from_toml(src3, 1).unwrap();
    assert_eq!(p3.apps.get("com.example.imp2").unwrap().effective_grace(30), 15);
    assert_eq!(AppMode::parse("turbo"), None);
}

#[test]
fn wake_throttle_parse_v042() {
    let p = Policy::from_toml("[general]\nenabled = true", 1).unwrap();
    assert_eq!(p.wake_throttle_seconds, 60);
    let p2 = Policy::from_toml("[general]\nwake_throttle_seconds = 120", 2).unwrap();
    assert_eq!(p2.wake_throttle_seconds, 120);
    let p3 = Policy::from_toml("[general]\nwake_throttle_seconds = 0", 3).unwrap();
    assert_eq!(p3.wake_throttle_seconds, 0);
    let p4 = Policy::from_toml("[general]\nwake_throttle_seconds = -5", 4).unwrap();
    assert_eq!(p4.wake_throttle_seconds, 0);
}

#[test]
fn receiver_gate_parse_v043() {
    let p = Policy::from_toml("[general]\nenabled = true", 1).unwrap();
    assert!(p.receiver_gate.is_empty());
    let src = "[whitelist]\nreceiver_gate = [\"android.intent.action.USER_PRESENT\", \"android.intent.action.BOOT_COMPLETED\"]";
    let p2 = Policy::from_toml(src, 2).unwrap();
    assert_eq!(
        p2.receiver_gate,
        vec![
            "android.intent.action.USER_PRESENT".to_string(),
            "android.intent.action.BOOT_COMPLETED".to_string()
        ]
    );
}

#[test]
fn parse_exempt_dimensions_v0419() {
    let src = r#"
[whitelist]
keep_high_network = false
push_policy = "kill"

[apps."com.tencent.mm"]
keep_high_network = true
keep_wakeup = false
push_mode = "keep"
unfreeze_window = "21:00-08:00"

[apps."com.example.bad"]
push_mode = "turbo"
unfreeze_window = "25:00-26:00"
keep_wakeup = 1

[apps."com.example.night"]
unfreeze_window = "22:30-23:45"
"#;
    let p = Policy::from_toml(src, 9).unwrap();
    assert!(!p.keep_high_network);
    assert_eq!(p.push_policy, PushMode::Kill);
    let mm = p.apps.get("com.tencent.mm").unwrap();
    assert_eq!(mm.keep_high_network, Some(true));
    assert_eq!(mm.keep_wakeup, Some(false));
    assert_eq!(mm.push_mode, Some(PushMode::Keep));
    assert_eq!(mm.unfreeze_window, None);
    let bad = p.apps.get("com.example.bad").unwrap();
    assert_eq!(bad.push_mode, None);
    assert_eq!(bad.unfreeze_window, None);
    assert_eq!(bad.keep_wakeup, Some(true));
    let night = p.apps.get("com.example.night").unwrap();
    assert_eq!(night.unfreeze_window, Some((22 * 60 + 30, 23 * 60 + 45)));
}

#[test]
fn parse_location_dimension_v0420() {
    let src = r#"
[whitelist]
keep_location = false

[apps."com.example.navi"]
keep_location = true

[apps."com.example.bad"]
keep_location = 1
"#;
    let p = Policy::from_toml(src, 10).unwrap();
    assert!(!p.keep_location);
    assert_eq!(p.apps.get("com.example.navi").unwrap().keep_location, Some(true));
    assert_eq!(p.apps.get("com.example.bad").unwrap().keep_location, Some(true));
    assert_eq!(Policy::default().keep_location, true);
}

#[test]
fn parse_window_ok_and_bad() {
    assert_eq!(parse_window("09:00-22:00"), Some((540, 1320)));
    assert_eq!(parse_window("0:00-23:59"), Some((0, 1439)));
    assert_eq!(parse_window("22:30-23:45"), Some((1350, 1425)));
    assert_eq!(parse_window("21:00-08:00"), None);
    assert_eq!(parse_window("24:00-08:00"), None);
    assert_eq!(parse_window("09-22"), None);
    assert_eq!(parse_window("ab:cd-ef:gh"), None);
    assert_eq!(parse_window(""), None);
}

#[test]
fn in_window_bounds() {
    assert!(in_window(540, Some((540, 1320))));
    assert!(in_window(1320, Some((540, 1320))));
    assert!(in_window(900, Some((540, 1320))));
    assert!(!in_window(539, Some((540, 1320))));
    assert!(!in_window(1321, Some((540, 1320))));
    assert!(!in_window(900, None));
}

#[test]
fn push_mode_parse() {
    assert_eq!(PushMode::parse("keep"), Some(PushMode::Keep));
    assert_eq!(PushMode::parse("kill"), Some(PushMode::Kill));
    assert_eq!(PushMode::parse("nuke"), None);
    assert_eq!(PushMode::Keep.as_str(), "keep");
    assert_eq!(PushMode::Kill.as_str(), "kill");
}

#[test]
fn parse_vpn_section_v0422() {
    let src = r#"
[vpn]
keep_vpn = true
packages = [ "com.example.clash", "com.example.v2ray" ]
"#;
    let p = Policy::from_toml(src, 11).unwrap();
    assert!(p.keep_vpn);
    assert!(p.is_vpn_listed("com.example.clash"));
    assert!(p.is_vpn_listed("com.example.v2ray"));
    assert!(!p.is_vpn_listed("com.example.other"));
    assert!(Policy::default().keep_vpn);
    assert!(Policy::default().vpn_packages.is_empty());
    let p2 = Policy::from_toml("[vpn]\nkeep_vpn = false", 12).unwrap();
    assert!(!p2.keep_vpn);
    let p3 = Policy::from_toml("[vpn]\nkeep_vpn = 1", 13).unwrap();
    assert!(p3.keep_vpn);
}

#[test]
fn parse_network_dimension_v0423() {
    let src = r#"
[whitelist]
keep_network = false

[apps."com.example.downloader"]
keep_network = true

[apps."com.example.bad"]
keep_network = 1
"#;
    let p = Policy::from_toml(src, 14).unwrap();
    assert!(!p.keep_network);
    assert_eq!(p.apps.get("com.example.downloader").unwrap().keep_network, Some(true));
    assert_eq!(p.apps.get("com.example.bad").unwrap().keep_network, Some(true));
    assert_eq!(Policy::default().keep_network, true);
    assert!(Policy::default().apps.get("x").is_none());
    let p2 = Policy::from_toml("[apps.\"com.x.y\"]\nmode = \"strict\"", 15).unwrap();
    assert_eq!(p2.apps.get("com.x.y").unwrap().keep_network, None);
}

#[test]
fn critical_list_v0424() {
    let p = Policy::default();
    for c in [
        "com.android.launcher3",
        "com.android.launcher",
        "com.oplus.launcher",
        "com.coloros.launcher",
        "com.android.systemui",
        "com.android.settings",
        "com.android.phone",
        "com.android.shell",
        "com.android.permissioncontroller",
        "com.android.inputmethod.latin",
        "com.baidu.input_oppo",
        "com.bytedance.android.doubaoime",
        "com.android.vpndialogs",
        "com.android.mms",
        "com.android.providers.media",
    ] {
        assert!(p.is_critical(c), "{} 应在 critical 清单", c);
    }
    assert!(!p.is_critical("com.example.normal"));
    assert!(!p.is_critical("com.tencent.mm"));
    let p2 = Policy::from_toml(
        "[freeze]\nforce = [\"com.android.systemui\"]\n[general]\nenabled = true",
        16,
    )
    .unwrap();
    assert!(p2.is_forced("com.android.systemui"));
    assert!(p2.is_critical("com.android.systemui"));
    let p3 = Policy::from_toml("[whitelist]\npackages = [\"com.tencent.mm\"]", 17).unwrap();
    assert!(p3.is_whitelisted("com.tencent.mm"));
    assert!(!p3.is_critical("com.tencent.mm"));
}

#[test]
fn what_a_file_does_not_name_keeps_its_default() {
    let d = Policy::default();
    let p = Policy::from_toml("[general]\nenabled = true\n[apps.\"com.a\"]\nkeep_wakeup = false\n", 7).unwrap();
    assert_eq!(p.revision, 7);
    assert!(p.enabled);
    assert_eq!(
        (p.grace_seconds, p.cooldown_seconds, p.wake_throttle_seconds),
        (d.grace_seconds, d.cooldown_seconds, d.wake_throttle_seconds)
    );
    assert_eq!(
        (p.discard_frozen_timeout_seconds, p.discard_mem_watermark_mb),
        (d.discard_frozen_timeout_seconds, d.discard_mem_watermark_mb)
    );
    assert!(p.whitelist.is_empty() && p.force.is_empty());
    let a = p.apps.get("com.a").unwrap();
    assert_eq!((a.mode, a.keep_wakeup, a.keep_media), (AppMode::Standard, Some(false), None));
    assert_eq!(p.apps.len(), 1);
}

#[test]
fn what_is_not_known_changes_nothing() {
    let plain = "[general]\ngrace_seconds = 9\n[vpn]\nkeep_vpn = false\n";
    let noisy = "[weather]\nenabled = true\n[general]\ngrace_seconds = 9\ngrace = 4\n[apps]\nmode = \"exempt\"\n[vpn]\nkeep_vpn = false\nenabled = true\n";
    let a = Policy::from_toml(plain, 3).unwrap();
    let b = Policy::from_toml(noisy, 3).unwrap();
    assert_eq!(format!("{a:?}"), format!("{b:?}"));
}
