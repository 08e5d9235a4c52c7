use sundownd::events::{
    must_rotate, rotate_plan, EvAction, EvLevel, EventBuffer, EVENT_CAPACITY, EVENT_LOG_ROTATE_BYTES,
};

#[test]
fn push_and_capacity() {
    let mut b = EventBuffer::default();
    for i in 0..(EVENT_CAPACITY + 50) {
        b.push_app(
            EvLevel::Event,
            EvAction::Freeze,
            &format!("com.pkg.{}", i),
            Some("grace_expired"),
            None,
        );
    }
    assert_eq!(b.len(), EVENT_CAPACITY);
    assert_eq!(b.total, (EVENT_CAPACITY + 50) as u64);
    let recent = b.recent(1);
    assert_eq!(recent[0].pkg.as_deref(), Some("com.pkg.305"));
    let all = b.recent(0);
    assert_eq!(all[0].pkg.as_deref(), Some("com.pkg.50"));
}

#[test]
fn json_format() {
    let mut b = EventBuffer::default();
    b.push_app(EvLevel::Success, EvAction::Freeze, "com.tencent.mm", Some("grace_expired"), Some("L3 冻结"));
    b.push_system(EvLevel::Report, EvAction::System, Some("daemon_start"), Some("v0.4.9-l3"));
    let j = b.to_json(0);
    assert!(j.starts_with('[') && j.ends_with(']'));
    assert!(j.contains("\"level\":\"success\""));
    assert!(j.contains("\"action\":\"freeze\""));
    assert!(j.contains("\"subject\":\"app\""));
    assert!(j.contains("\"pkg\":\"com.tencent.mm\""));
    assert!(j.contains("\"reason\":\"grace_expired\""));
    assert!(j.contains("\"msg\":\"L3 冻结\""));
    assert!(j.contains("\"action\":\"system\""));
    assert!(j.contains("\"subject\":\"system\""));
    assert!(!j.contains("\"pkg\":\"v0.4.9-l3\""));
    b.push_app(EvLevel::Event, EvAction::Unfreeze, "com.x", Some("wakeup"), None);
    let j2 = b.to_json(1);
    assert_eq!(j2.matches("\"ts\"").count(), 1);
    assert!(j2.contains("\"pkg\":\"com.x\""));
}

#[test]
fn json_escape_chars() {
    let mut b = EventBuffer::default();
    b.push_app(EvLevel::Info, EvAction::Exempt, "a\"b\\c", None, Some("行\n\t"));
    let j = b.to_json(0);
    assert!(j.contains("\"pkg\":\"a\\\"b\\\\c\""));
    assert!(j.contains("行\\n\\t"));
}

#[test]
fn seq_assigned_and_serialized() {
    let mut b = EventBuffer::default();
    b.push_app(EvLevel::Event, EvAction::Freeze, "com.a", Some("grace_expired"), None);
    b.push_app(EvLevel::Event, EvAction::Freeze, "com.b", Some("grace_expired"), None);
    let j = b.to_json(0);
    assert!(j.contains("\"seq\":1"));
    assert!(j.contains("\"seq\":2"));
    let all = b.recent(0);
    assert_eq!(all[0].seq, 1);
    assert_eq!(all[1].seq, 2);
}

fn persist(b: &mut EventBuffer, file: &mut String) -> usize {
    let (text, n) = b.pending_text();
    file.push_str(&text);
    let written = b.persist_new(true);
    assert_eq!(written, n);
    written
}

#[test]
fn persist_new_incremental_and_idempotent() {
    let mut file = String::new();
    let mut b = EventBuffer::default();
    b.push_app(EvLevel::Event, EvAction::Freeze, "com.a", Some("grace_expired"), None);
    b.push_app(EvLevel::Event, EvAction::Unfreeze, "com.b", Some("wakeup"), None);

    assert_eq!(persist(&mut b, &mut file), 2);
    assert_eq!(b.pending_persist(), 0);
    assert_eq!(file.lines().count(), 2);
    assert!(file.lines().all(|l| l.starts_with('{') && l.ends_with('}')));

    assert_eq!(persist(&mut b, &mut file), 0);
    assert_eq!(file.lines().count(), 2);

    b.push_app(EvLevel::Warn, EvAction::Exempt, "com.c", Some("tick_exempt"), None);
    assert_eq!(persist(&mut b, &mut file), 1);
    assert_eq!(b.pending_persist(), 0);
    assert_eq!(file.lines().count(), 3);
    assert!(file.lines().last().unwrap().contains("\"pkg\":\"com.c\""));

    for i in 0..(EVENT_CAPACITY + 50) {
        b.push_app(EvLevel::Event, EvAction::Freeze, &format!("com.pkg.{}", i), None, None);
    }
    let n = persist(&mut b, &mut file);
    assert!(n > 0);
    assert_eq!(b.pending_persist(), 0);
}

#[test]
fn failed_write_keeps_events_pending() {
    let mut b = EventBuffer::default();
    b.push_app(EvLevel::Event, EvAction::Freeze, "com.a", None, None);
    assert_eq!(b.persist_new(false), 0);
    assert_eq!(b.pending_persist(), 1);
    assert_eq!(b.persist_new(true), 1);
    assert_eq!(b.pending_persist(), 0);
}

#[test]
fn event_json_is_exact() {
    let mut b = EventBuffer::default();
    b.set_clock(1700000000);
    b.push_app(EvLevel::Success, EvAction::Discard, "com.a", Some("frozen_timeout"), None);
    assert_eq!(
        b.to_json(0),
        "[{\"seq\":1,\"ts\":1700000000,\"level\":\"success\",\"action\":\"discard\",\"subject\":\"app\",\"pkg\":\"com.a\",\"reason\":\"frozen_timeout\"}]"
    );
}

#[test]
fn old_event_files_move_up() {
    assert!(must_rotate(EVENT_LOG_ROTATE_BYTES) && !must_rotate(EVENT_LOG_ROTATE_BYTES - 1));
    let plan = rotate_plan("/x/events.jsonl");
    let moves: Vec<(&str, &str)> = plan.iter().map(|(a, b)| (a.as_str(), b.as_str())).collect();
    assert_eq!(
        moves,
        vec![
            ("/x/events.2.jsonl", "/x/events.3.jsonl"),
            ("/x/events.1.jsonl", "/x/events.2.jsonl"),
            ("/x/events.jsonl", "/x/events.1.jsonl"),
        ]
    );
    assert_eq!(rotate_plan("/x/log")[2].1, "/x/log.1");
}
