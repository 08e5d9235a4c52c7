use sundownd::rules::{parse_date, RuleAction, RuleCondition, RuleTable};

const SECOND: u64 = 1_000_000_000;

fn now() -> u64 {
    1000 * SECOND
}

fn day() -> Option<(u32, u32, u32)> {
    Some((2026, 8, 12))
}

#[test]
fn parse_rules_ok() {
    let src = r#"
[rules."suppress-qq-push"]
priority = 100
applies_to = [ "com.tencent.mobileqq" ]
condition = "wakeup"
source = "broadcast"
action = "suppress"
throttle = 60

[rules."protect-navi"]
priority = 200
applies_to = [ "com.example.navi" ]
action = "exempt"

[rules."kill-greedy"]
condition = "leave"
action = "freeze"
expires_at = "2026-12-31"
after_seconds = 300
"#;
    let t = RuleTable::from_toml(src, 42).unwrap();
    assert_eq!(t.rules.len(), 3);
    assert_eq!(t.revision, 42);

    let qq = t.rules.iter().find(|r| r.id == "suppress-qq-push").unwrap();
    assert_eq!(qq.priority, 100);
    assert_eq!(qq.applies_to, vec!["com.tencent.mobileqq"]);
    assert_eq!(qq.condition, RuleCondition::Wakeup);
    assert_eq!(qq.source.as_deref(), Some("broadcast"));
    assert_eq!(qq.action, RuleAction::Suppress);
    assert_eq!(qq.throttle_seconds, 60);
    assert!(qq.expires_at.is_none());

    let navi = t.rules.iter().find(|r| r.id == "protect-navi").unwrap();
    assert_eq!(navi.priority, 200);
    assert_eq!(navi.condition, RuleCondition::Always);
    assert_eq!(navi.action, RuleAction::Exempt);
    assert!(navi.applies_to.iter().any(|p| p == "com.example.navi"));

    let greedy = t.rules.iter().find(|r| r.id == "kill-greedy").unwrap();
    assert_eq!(greedy.action, RuleAction::Freeze);
    assert_eq!(greedy.condition, RuleCondition::Leave);
    assert_eq!(greedy.expires_at, Some((2026, 12, 31)));
    assert_eq!(greedy.after_seconds, Some(300));
    assert_eq!(greedy.priority, 0);
    assert_eq!(greedy.throttle_seconds, 0);
    assert!(greedy.applies_to.is_empty());
}

#[test]
fn parse_rules_bad() {
    assert!(RuleTable::from_toml("k = ", 0).is_err());
    assert!(RuleTable::from_toml("[rules\n", 0).is_err());
    let t = RuleTable::from_toml(
        "[rules.\"x\"]\naction = \"suppress\"\nfuture_key = 1\ncondition = \"turbo\"",
        1,
    )
    .unwrap();
    assert_eq!(t.rules.len(), 1);
    assert_eq!(t.rules[0].action, RuleAction::Suppress);
    assert_eq!(t.rules[0].condition, RuleCondition::Always);
    let t2 = RuleTable::from_toml("[rules.\"y\"]\naction = \"nuke\"", 2).unwrap();
    assert!(t2.rules.is_empty());
    let t3 = RuleTable::from_toml("[other]\nfoo = 1", 3).unwrap();
    assert!(t3.rules.is_empty());
    let t4 = RuleTable::from_toml("[rules]\nfoo = 1", 4).unwrap();
    assert!(t4.rules.is_empty());
}

#[test]
fn match_applies_to() {
    let src = r#"
[rules."all"]
action = "exempt"

[rules."qq-only"]
applies_to = [ "com.tencent.mobileqq" ]
action = "freeze"

[rules."star"]
applies_to = [ "*" ]
action = "suppress"
"#;
    let t = RuleTable::from_toml(src, 1).unwrap();
    let h = t.peek("com.anything", RuleCondition::Leave, None, now(), day()).unwrap();
    assert_eq!(h.id, "all");
    assert_eq!(h.action, RuleAction::Exempt);
    let h2 = t.peek("com.tencent.mobileqq", RuleCondition::Leave, None, now(), day()).unwrap();
    assert_eq!(h2.id, "all");
    let t2 = RuleTable::from_toml(
        "[rules.\"qq-only\"]\napplies_to = [\"com.tencent.mobileqq\"]\naction = \"freeze\"\npriority = 10\n\n[rules.\"all\"]\naction = \"exempt\"",
        1,
    )
    .unwrap();
    let h3 = t2.peek("com.tencent.mobileqq", RuleCondition::Leave, None, now(), day()).unwrap();
    assert_eq!(h3.action, RuleAction::Freeze);
    let h4 = t.peek("com.other.app", RuleCondition::Leave, None, now(), day()).unwrap();
    assert_eq!(h4.id, "all");
    let t3 = RuleTable::from_toml(
        "[rules.\"w\"]\napplies_to = [\"com.x\"]\ncondition = \"wakeup\"\naction = \"suppress\"",
        1,
    )
    .unwrap();
    assert!(t3.peek("com.x", RuleCondition::Leave, None, now(), day()).is_none());
}

#[test]
fn parse_rules_missing_action() {
    let t = RuleTable::from_toml(
        "[rules.\"no-action\"]\npriority = 100\napplies_to = [\"com.x\"]",
        1,
    )
    .unwrap();
    assert!(t.rules.is_empty());
    let t2 = RuleTable::from_toml("[rules.\"ok\"]\naction = \"suppress\"", 1).unwrap();
    assert_eq!(t2.rules.len(), 1);
    assert_eq!(t2.rules[0].action, RuleAction::Suppress);
    let t3 = RuleTable::from_toml(
        "[rules.\"bad\"]\npriority = 10\n\n[rules.\"good\"]\naction = \"freeze\"",
        1,
    )
    .unwrap();
    assert_eq!(t3.rules.len(), 1);
    assert_eq!(t3.rules[0].id, "good");
}

#[test]
fn match_condition_and_source() {
    let src = r#"
[rules."wake-bcast"]
applies_to = [ "com.tencent.mobileqq" ]
condition = "wakeup"
source = "broadcast"
action = "suppress"

[rules."wake-any"]
applies_to = [ "com.tencent.mobileqq" ]
condition = "wakeup"
action = "suppress"
"#;
    let t = RuleTable::from_toml(src, 1).unwrap();
    let h = t.peek("com.tencent.mobileqq", RuleCondition::Wakeup, Some("broadcast"), now(), day()).unwrap();
    assert_eq!(h.id, "wake-bcast");
    let h2 = t.peek("com.tencent.mobileqq", RuleCondition::Wakeup, Some("service"), now(), day()).unwrap();
    assert_eq!(h2.id, "wake-any");
    assert!(t.peek("com.tencent.mobileqq", RuleCondition::Leave, None, now(), day()).is_none());
    let t2 = RuleTable::from_toml("[rules.\"a\"]\naction = \"exempt\"", 1).unwrap();
    assert!(t2.peek("x", RuleCondition::Leave, None, now(), day()).is_some());
    assert!(t2.peek("x", RuleCondition::Wakeup, None, now(), day()).is_some());
    assert!(t2.peek("x", RuleCondition::Focus, None, now(), day()).is_some());
    assert!(t2.peek("x", RuleCondition::Always, None, now(), day()).is_some());
}

#[test]
fn match_priority() {
    let src = r#"
[rules."low"]
applies_to = [ "com.example.app" ]
action = "exempt"

[rules."high"]
applies_to = [ "com.example.app" ]
action = "freeze"
priority = 50
"#;
    let t = RuleTable::from_toml(src, 1).unwrap();
    let h = t.peek("com.example.app", RuleCondition::Leave, None, now(), day()).unwrap();
    assert_eq!(h.id, "high");
    assert_eq!(h.action, RuleAction::Freeze);
}

#[test]
fn match_throttle() {
    let src = r#"
[rules."t"]
applies_to = [ "*" ]
action = "suppress"
throttle = 60
"#;
    let mut t = RuleTable::from_toml(src, 1).unwrap();
    let t0: u64 = now();
    assert!(t.hit("com.example.app", RuleCondition::Wakeup, None, t0, day()).is_some());
    assert!(t.hit("com.example.app", RuleCondition::Wakeup, None, t0 + 30 * SECOND, day()).is_none());
    assert!(t.hit("com.example.app", RuleCondition::Wakeup, None, t0 + 61 * SECOND, day()).is_some());
    assert!(t.hit("com.other.app", RuleCondition::Wakeup, None, t0 + 30 * SECOND, day()).is_some());
    let t2 = RuleTable::from_toml("[rules.\"x\"]\naction = \"suppress\"", 2).unwrap();
    assert!(t2.peek("p", RuleCondition::Wakeup, None, t0, day()).is_some());
    assert!(t2.peek("p", RuleCondition::Wakeup, None, t0 + SECOND, day()).is_some());
}

#[test]
fn match_expires() {
    let src = r#"
[rules."e"]
applies_to = [ "com.example.app" ]
action = "suppress"
expires_at = "2000-01-01"
"#;
    let t = RuleTable::from_toml(src, 1).unwrap();
    assert!(t.peek("com.example.app", RuleCondition::Wakeup, None, now(), day()).is_none());
    let t2 = RuleTable::from_toml("[rules.\"x\"]\naction = \"suppress\"", 2).unwrap();
    assert!(t2.peek("p", RuleCondition::Wakeup, None, now(), day()).is_some());
}

#[test]
fn parse_date_ok_and_bad() {
    assert_eq!(parse_date("2026-12-31"), Some((2026, 12, 31)));
    assert_eq!(parse_date("2026-1-5"), Some((2026, 1, 5)));
    assert_eq!(parse_date("2026-13-01"), None);
    assert_eq!(parse_date("2026-00-01"), None);
    assert_eq!(parse_date("2026-01-32"), None);
    assert_eq!(parse_date("2026/01/01"), None);
    assert_eq!(parse_date(""), None);
    assert_eq!(parse_date("abc"), None);
}

#[test]
fn hit_vs_peek_consistency() {
    let src = "[rules.\"x\"]\napplies_to = [\"com.example.app\"]\naction = \"freeze\"";
    let mut t = RuleTable::from_toml(src, 1).unwrap();
    let t0: u64 = now();
    let h1 = t.hit("com.example.app", RuleCondition::Leave, None, t0, day()).unwrap();
    assert_eq!(h1.action, RuleAction::Freeze);
    let p1 = t.peek("com.example.app", RuleCondition::Leave, None, t0, day()).unwrap();
    assert_eq!(p1.action, RuleAction::Freeze);
    assert_eq!(p1.id, h1.id);
    assert!(t.hit("com.example.app", RuleCondition::Leave, None, t0 + SECOND, day()).is_some());
}

#[test]
fn action_parse() {
    assert_eq!(RuleAction::parse("suppress"), Some(RuleAction::Suppress));
    assert_eq!(RuleAction::parse("exempt"), Some(RuleAction::Exempt));
    assert_eq!(RuleAction::parse("freeze"), Some(RuleAction::Freeze));
    assert_eq!(RuleAction::parse("discard"), Some(RuleAction::Discard));
    assert_eq!(RuleAction::parse("nuke"), None);
    assert_eq!(RuleAction::Suppress.as_str(), "suppress");
    assert_eq!(RuleCondition::parse("always"), Some(RuleCondition::Always));
    assert_eq!(RuleCondition::parse("leave"), Some(RuleCondition::Leave));
    assert_eq!(RuleCondition::parse("wakeup"), Some(RuleCondition::Wakeup));
    assert_eq!(RuleCondition::parse("focus"), Some(RuleCondition::Focus));
    assert_eq!(RuleCondition::parse("turbo"), None);
}

#[test]
fn rules_stand_in_the_order_of_their_first_mention() {
    let src = "[rules.\"b\"]\npriority = 1\n[rules.\"a\"]\naction = \"exempt\"\n[rules.\"\"]\naction = \"freeze\"\n[rules.\"c\"]\naction = \"dance\"\n[rules.\"b\"]\naction = \"discard\"\n[other]\naction = \"freeze\"\n[rules.\"d\"]\naction = \"suppress\"\naction = \"dance\"\n";
    let t = RuleTable::from_toml(src, 4).unwrap();
    let ids: Vec<&str> = t.rules.iter().map(|r| r.id.as_str()).collect();
    assert_eq!(ids, vec!["b", "a", "d"]);
    assert_eq!((t.revision, t.hits), (4, 0));
    assert_eq!(t.rules[0].priority, 1);
}
