use sundownd::preset::PresetTable;

#[test]
fn parse_presets_ok() {
    let src = r#"
[presets."watch"]
enabled = false
grace_seconds = 30
cooldown_seconds = 60

[presets."aggressive"]
enabled = true
grace_seconds = 10
cooldown_seconds = 60
keep_media = false
"#;
    let t = PresetTable::from_toml(src, 42).unwrap();
    assert_eq!(t.presets.len(), 2);
    let w = t.presets.get("watch").unwrap();
    assert!(!w.enabled);
    assert_eq!(w.grace_seconds, 30);
    assert_eq!(w.cooldown_seconds, 60);
    assert!(w.keep_media);
    let a = t.presets.get("aggressive").unwrap();
    assert!(a.enabled);
    assert_eq!(a.grace_seconds, 10);
    assert!(!a.keep_media);
    assert_eq!(t.revision, 42);
    assert_eq!(t.names(), vec!["aggressive", "watch"]);
}

#[test]
fn parse_presets_instant_v06() {
    let src = r#"
[presets."instant"]
enabled = true
grace_seconds = 0
cooldown_seconds = 120
keep_fg_service = true
keep_media = true
"#;
    let t = PresetTable::from_toml(src, 7).unwrap();
    let i = t.presets.get("instant").unwrap();
    assert!(i.enabled);
    assert_eq!(i.grace_seconds, 0);
    assert_eq!(i.cooldown_seconds, 120);
    assert!(i.keep_fg_service);
    assert!(i.keep_media);
    let src2 = "[presets.\"x\"]\ngrace_seconds = -5\n";
    let t2 = PresetTable::from_toml(src2, 1).unwrap();
    assert_eq!(t2.presets.get("x").unwrap().grace_seconds, 0);
}

#[test]
fn parse_presets_bad() {
    assert!(PresetTable::from_toml("k = ", 0).is_err());
    let t = PresetTable::from_toml("[presets.\"x\"]\nenabled = true\nfuture = 1", 1).unwrap();
    assert!(t.presets.get("x").unwrap().enabled);
}

#[test]
fn parse_presets_unknown_section() {
    let t = PresetTable::from_toml("[other]\nfoo = 1", 1).unwrap();
    assert!(t.presets.is_empty());
}

#[test]
fn a_preset_is_listed_once() {
    let src = "[presets.\"b\"]\nenabled = true\n[presets.\"a\"]\nenabled = true\n[presets.\"b\"]\ngrace_seconds = 3\n[presets.\"\"]\nenabled = true\n";
    let t = PresetTable::from_toml(src, 1).unwrap();
    assert_eq!(t.names(), vec!["a", "b"]);
    assert_eq!(t.presets.keys(), vec!["b", "a"]);
    let b = t.presets.get("b").unwrap();
    assert!(b.enabled && b.grace_seconds == 3);
}
