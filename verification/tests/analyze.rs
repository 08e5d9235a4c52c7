use sundownd::analyze::{analyze, wakeup_rate_per_hour};
use sundownd::profile::ProfileTable;

fn seed_profile() -> ProfileTable {
    let mut t = ProfileTable::default();
    for _ in 0..30 {
        t.on_wakeup("com.a", "broadcast", 1_000);
    }
    for _ in 0..9 {
        t.on_wakeup("com.b", "service", 1_000);
    }
    for _ in 0..3 {
        t.on_freeze("com.b", 1_000);
    }
    for _ in 0..4 {
        t.on_focus("com.c", 0, 1_000);
        t.on_leave("com.c", 0);
    }
    t.on_freeze("com.c", 1_000);
    for _ in 0..5 {
        t.on_wakeup("com.d", "pendingintent", 1_000);
    }
    t
}

#[test]
fn insufficient_data_returns_hint() {
    let mut t = ProfileTable::default();
    t.on_wakeup("com.a", "broadcast", 1_000);
    t.on_wakeup("com.b", "broadcast", 1_000);
    let out = analyze(&t);
    assert_eq!(out.len(), 1);
    assert_eq!(out[0].kind, "data_insufficient");
}

#[test]
fn storm_detected_with_hint() {
    let t = seed_profile();
    let out = analyze(&t);
    let storms: Vec<_> = out.iter().filter(|s| s.kind == "wakeup_storm").collect();
    assert_eq!(storms.len(), 1);
    assert_eq!(storms[0].pkg.as_deref(), Some("com.a"));
    assert!(storms[0].action_hint.contains("[rules."));
    assert!(storms[0].action_hint.contains("suppress"));
}

#[test]
fn source_pattern_detected() {
    let t = seed_profile();
    let out = analyze(&t);
    let pats: Vec<_> = out.iter().filter(|s| s.kind == "source_pattern").collect();
    assert!(pats.iter().any(|s| s.pkg.as_deref() == Some("com.a")));
    assert!(pats.iter().any(|s| s.pkg.as_deref() == Some("com.b")));
}

#[test]
fn jitter_and_exempt_detected() {
    let t = seed_profile();
    let out = analyze(&t);
    assert!(out.iter().any(|s| s.kind == "jitter" && s.pkg.as_deref() == Some("com.b")));
    assert!(out.iter().any(|s| s.kind == "exempt" && s.pkg.as_deref() == Some("com.c")));
}

#[test]
fn throttle_for_mid_frequency() {
    let t = seed_profile();
    let out = analyze(&t);
    assert!(out.iter().any(|s| s.kind == "throttle" && s.pkg.as_deref() == Some("com.d")));
    let storm_pkgs: Vec<_> = out
        .iter()
        .filter(|s| s.kind == "wakeup_storm")
        .filter_map(|s| s.pkg.clone())
        .collect();
    assert!(!storm_pkgs.contains(&"com.d".to_string()));
}

#[test]
fn rate_requires_window() {
    let t = seed_profile();
    let p = t.get("com.a").unwrap();
    assert!(wakeup_rate_per_hour(p).is_none());
}
