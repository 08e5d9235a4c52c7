use sundownd::analyze::{analyze, dominant_source, wakeup_rate_per_hour, Quantity};
use sundownd::names::NameMap;
use sundownd::profile::ProfileTable;
use sundownd::rules::{RuleCondition, RuleTable};
use sundownd::text::{lines, parse_u32, space, split_words, trim};
use sundownd::toml::{parse, TomlValue};

const SECOND: u64 = 1_000_000_000;

fn wake(t: &mut ProfileTable, pkg: &str, source: &str, n: u64) {
    for _ in 0..n {
        t.on_wakeup(pkg, source, 1_000);
    }
}

#[test]
fn a_storm_in_words() {
    let mut t = ProfileTable::default();
    wake(&mut t, "com.a", "service", 20);
    wake(&mut t, "com.a", "broadcast", 5);
    wake(&mut t, "com.b", "broadcast", 8);
    wake(&mut t, "com.c", "broadcast", 7);
    t.on_wakeup("com.a", "service", 1_000 + 7_200);
    let out = analyze(&t);
    let storm = out.iter().find(|s| s.kind == "wakeup_storm").unwrap();
    assert_eq!(storm.level, "warn");
    assert_eq!(storm.title, "com.a 疑似唤醒风暴（26 次）");
    assert_eq!(storm.detail.before, "占全部唤醒 63%（26 / 41），约 ");
    assert_eq!(storm.detail.quantity, Quantity::PerHour { count: 26, seconds: 7_200 });
    assert_eq!(storm.detail.after, " 次/小时");
    assert_eq!(
        storm.action_hint,
        "写 rules.toml 抑制唤醒（不重编译 dex）：\n[rules.\"com-a-storm\"]\napplies_to = [ \"com.a\" ]\ncondition = \"wakeup\"\naction = \"suppress\"\nthrottle = 60"
    );
    assert!(!out.iter().any(|s| s.kind == "throttle" && s.pkg.as_deref() == Some("com.a")));
}

#[test]
fn ten_wakeups_or_more_than_half_of_them_are_a_storm() {
    let mut t = ProfileTable::default();
    wake(&mut t, "com.a", "x", 10);
    wake(&mut t, "com.b", "x", 20);
    wake(&mut t, "com.c", "x", 9);
    let storms = |t: &ProfileTable| -> Vec<String> {
        analyze(t)
            .iter()
            .filter(|s| s.kind == "wakeup_storm")
            .map(|s| s.pkg.clone().unwrap())
            .collect()
    };
    assert_eq!(storms(&t), vec!["com.b", "com.a"]);
    let mut t = ProfileTable::default();
    wake(&mut t, "com.a", "x", 5);
    wake(&mut t, "com.b", "x", 4);
    wake(&mut t, "com.c", "x", 1);
    let eased = |t: &ProfileTable| -> Vec<String> {
        analyze(t)
            .iter()
            .filter(|s| s.kind == "throttle")
            .map(|s| s.pkg.clone().unwrap())
            .collect()
    };
    assert!(storms(&t).is_empty(), "half is not more than half");
    assert_eq!(eased(&t), vec!["com.a"]);
    wake(&mut t, "com.a", "x", 1);
    assert_eq!(storms(&t), vec!["com.a"]);
    wake(&mut t, "com.b", "x", 1);
    assert!(storms(&t).is_empty());
    wake(&mut t, "com.a", "x", 1);
    assert_eq!(storms(&t), vec!["com.a"]);
    assert_eq!(eased(&t), vec!["com.b"], "a storm gets no second advice");
}

#[test]
fn percentages_round_half_to_even() {
    let mut t = ProfileTable::default();
    wake(&mut t, "com.a", "service", 25);
    wake(&mut t, "com.b", "x", 8);
    wake(&mut t, "com.c", "x", 7);
    let out = analyze(&t);
    let storm = out.iter().find(|s| s.kind == "wakeup_storm").unwrap();
    assert_eq!(storm.detail.before, "占全部唤醒 62%（25 / 40）", "62.5 percent");
    assert_eq!(storm.detail.quantity, Quantity::Absent);
}

#[test]
fn a_source_needs_more_than_seven_in_ten() {
    let mut t = ProfileTable::default();
    wake(&mut t, "com.a", "service", 7);
    wake(&mut t, "com.a", "broadcast", 3);
    wake(&mut t, "com.b", "alarm", 8);
    wake(&mut t, "com.b", "broadcast", 2);
    wake(&mut t, "com.c", "broadcast", 1);
    let out = analyze(&t);
    let found: Vec<&str> = out
        .iter()
        .filter(|s| s.kind == "source_pattern")
        .map(|s| s.pkg.as_deref().unwrap())
        .collect();
    assert_eq!(found, vec!["com.b"]);
    let b = out.iter().find(|s| s.kind == "source_pattern").unwrap();
    assert_eq!(b.title, "com.b 唤醒以 alarm 为主（80%）");
    assert_eq!(b.action_hint, "观察该源的真实业务含义后再决定");
}

#[test]
fn little_data_gives_no_advice() {
    let mut t = ProfileTable::default();
    wake(&mut t, "com.a", "service", 50);
    wake(&mut t, "com.b", "service", 50);
    let out = analyze(&t);
    assert_eq!(out.len(), 1);
    assert_eq!(
        out[0].detail.before,
        "当前 2 个 app / 100 次唤醒；分析门槛 = ≥3 app 且 ≥10 次唤醒（避免小样本误判）"
    );
}

#[test]
fn totals_add_up() {
    let mut t = ProfileTable::default();
    wake(&mut t, "a", "x", 3);
    wake(&mut t, "b", "x", 4);
    t.on_freeze("a", 9);
    t.on_freeze("b", 9);
    t.on_freeze("b", 9);
    assert_eq!((t.total_wakeups(), t.total_freezes(), t.app_count()), (7, 3, 2));
}

#[test]
fn the_rate_needs_a_minute() {
    let mut t = ProfileTable::default();
    t.on_wakeup("a", "x", 100);
    t.on_wakeup("a", "x", 159);
    assert_eq!(wakeup_rate_per_hour(t.get("a").unwrap()), None);
    t.on_wakeup("a", "x", 160);
    assert_eq!(wakeup_rate_per_hour(t.get("a").unwrap()), Some((3, 60)));
}

#[test]
fn the_main_source_has_at_least_two() {
    let mut m: NameMap<u64> = NameMap::new();
    assert_eq!(dominant_source(&m), None);
    m.insert("a".to_string(), 1);
    assert_eq!(dominant_source(&m), None);
    m.insert("b".to_string(), 4);
    m.insert("c".to_string(), 3);
    assert_eq!(dominant_source(&m), Some(("b", 4)));
}

#[test]
fn a_rule_holds_through_its_last_day() {
    let t = RuleTable::from_toml(
        "[rules.\"e\"]\naction = \"suppress\"\nexpires_at = \"2026-08-12\"\n",
        1,
    )
    .unwrap();
    let at = |day| t.peek("p", RuleCondition::Wakeup, None, SECOND, day).is_some();
    assert!(at(Some((2026, 8, 11))));
    assert!(at(Some((2026, 8, 12))));
    assert!(!at(Some((2026, 8, 13))));
    assert!(!at(Some((2027, 1, 1))));
}

#[test]
fn a_source_limits_wakeup_rules_only() {
    let of = |condition: &str| {
        RuleTable::from_toml(
            &format!("[rules.\"r\"]\naction = \"suppress\"\nsource = \"broadcast\"\ncondition = \"{condition}\"\n"),
            1,
        )
        .unwrap()
    };
    let t = of("wakeup");
    assert!(t.peek("p", RuleCondition::Wakeup, Some("broadcast"), SECOND, None).is_some());
    assert!(t.peek("p", RuleCondition::Wakeup, Some("service"), SECOND, None).is_none());
    assert!(t.peek("p", RuleCondition::Wakeup, None, SECOND, None).is_none());
    let t = of("leave");
    assert!(t.peek("p", RuleCondition::Leave, None, SECOND, None).is_some());
}

#[test]
fn rules_of_the_same_weight_keep_their_order() {
    let t = RuleTable::from_toml(
        "[rules.\"b\"]\naction = \"freeze\"\npriority = 3\n[rules.\"a\"]\naction = \"exempt\"\npriority = 3\n",
        1,
    )
    .unwrap();
    let h = t.peek("p", RuleCondition::Leave, None, SECOND, None).unwrap();
    assert_eq!(h.id, "b");
}

#[test]
fn white_space_is_that_of_unicode() {
    for u in 0..0x3100u32 {
        if let Some(c) = char::from_u32(u) {
            assert_eq!(space(c), c.is_whitespace(), "{u:x}");
        }
    }
}

#[test]
fn texts_are_split_like_std_does() {
    for s in ["", " ", "a", " a  b\tc ", "\u{3000}x\u{a0}y", "a\r\nb\n\nc", "a\rb\n", "\n", "x\r\n"] {
        let v: Vec<char> = s.chars().collect();
        let of = |p: &[char]| p.iter().collect::<String>();
        assert_eq!(of(trim(&v)), s.trim());
        let words: Vec<String> = split_words(&v).iter().map(|w| of(w)).collect();
        assert_eq!(words, s.split_whitespace().collect::<Vec<_>>());
        let rows: Vec<String> = lines(&v).iter().map(|w| of(w)).collect();
        assert_eq!(rows, s.lines().collect::<Vec<_>>());
    }
    for s in ["0", "+7", "4294967295", "4294967296", "-1", "", "+", "1a", "00012"] {
        let v: Vec<char> = s.chars().collect();
        assert_eq!(parse_u32(&v), s.parse::<u32>().ok(), "{s}");
    }
}

#[test]
fn toml_errors_name_their_line() {
    assert!(matches!(parse("a = 1\n\nb = "), Err((3, _))));
    assert!(matches!(parse("[x\n"), Err((1, _))));
    assert!(matches!(parse("k = \"open\n"), Err((1, _))));
    let e = parse("k = [ \"a\",\n \"b\" ]\n").unwrap();
    assert_eq!(e.len(), 1);
    match &e[0].value {
        TomlValue::StrArray(v) => assert_eq!(v, &vec!["a".to_string(), "b".to_string()]),
        other => panic!("{other:?}"),
    }
}
