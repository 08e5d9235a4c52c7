use sundownd::profile::ProfileTable;

#[test]
fn focus_accumulates_duration() {
    let mut t = ProfileTable::default();
    t.on_focus("com.a", 5_000_000, 1_000);
    t.on_leave("com.a", 25_000_000);
    let p = t.get("com.a").unwrap();
    assert_eq!(p.focus_count, 1);
    assert!(p.focus_ms >= 15);
    assert!(p.last_focus_at > 0);
}

#[test]
fn wakeup_counts_and_sources() {
    let mut t = ProfileTable::default();
    t.on_wakeup("com.a", "broadcast", 1_000);
    t.on_wakeup("com.a", "broadcast", 1_000);
    t.on_wakeup("com.a", "service", 1_000);
    t.on_wakeup("com.b", "pendingintent", 1_000);
    let p = t.get("com.a").unwrap();
    assert_eq!(p.wakeup_count, 3);
    assert_eq!(p.wakeup_sources.get("broadcast"), Some(&2));
    assert_eq!(p.wakeup_sources.get("service"), Some(&1));
    assert_eq!(t.total_wakeups(), 4);
    assert_eq!(t.app_count(), 2);
}

#[test]
fn freeze_unfreeze_discard() {
    let mut t = ProfileTable::default();
    t.on_freeze("com.a", 1_000);
    t.on_freeze("com.a", 1_000);
    t.on_unfreeze("com.a", 1_000);
    t.on_discard("com.a", 1_000);
    let p = t.get("com.a").unwrap();
    assert_eq!(p.freeze_count, 2);
    assert_eq!(p.unfreeze_count, 1);
    assert_eq!(p.discard_count, 1);
    assert!(p.last_freeze_at > 0);
}

#[test]
fn top_wakeups_order() {
    let mut t = ProfileTable::default();
    t.on_wakeup("com.a", "broadcast", 1_000);
    t.on_wakeup("com.b", "service", 1_000);
    t.on_wakeup("com.b", "service", 1_000);
    let top = t.top_wakeups(1);
    assert_eq!(top.len(), 1);
    assert_eq!(top[0].0, "com.b");
    assert_eq!(top[0].1.wakeup_count, 2);
    let top2 = t.top_wakeups(2);
    assert_eq!(top2[0].0, "com.b");
    assert_eq!(top2[1].0, "com.a");
}

#[test]
fn leave_without_focus_is_safe() {
    let mut t = ProfileTable::default();
    t.on_leave("com.x", 25_000_000);
    let p = t.get("com.x").unwrap();
    assert_eq!(p.focus_ms, 0);
    assert_eq!(p.focus_count, 0);
}

#[test]
fn all_wakeups_are_those_that_were_reported() {
    let mut t = ProfileTable::default();
    for (pkg, source) in [("com.b", "service"), ("com.a", "broadcast"), ("com.b", "broadcast"), ("com.b", "service")] {
        t.on_wakeup(pkg, source, 5);
    }
    t.on_focus("com.c", 1, 5);
    t.on_leave("com.c", 9);
    t.on_freeze("com.a", 6);
    t.on_unfreeze("com.a", 7);
    t.on_discard("com.a", 8);
    assert_eq!(t.total_wakeups(), 4);
    let ranking = t.top_wakeups(t.app_count());
    let names: Vec<&str> = ranking.iter().map(|(n, _)| n.as_str()).collect();
    assert_eq!(names, vec!["com.b", "com.a", "com.c"]);
    assert_eq!(ranking.iter().map(|(_, p)| p.wakeup_count).sum::<u64>(), 4);
    let b = t.get("com.b").unwrap();
    assert_eq!((b.wakeup_sources.get("service"), b.wakeup_sources.get("broadcast")), (Some(&2), Some(&1)));
    assert_eq!(b.wakeup_count, 3);
    assert_eq!(b.wakeup_sources.len(), 2);
}
