use sundownd::analyze::{analyze, Suggestion};
use sundownd::capability::{Capability, FreezerLevel};
use sundownd::sock_reports::advice_json;
use sundownd::config::{conf_changes, is_policy_file, request_reload};
use sundownd::dex::{push_dex, push_done, read_failed, serve_dex_bytes};
use sundownd::engine_ops::{Env, Op, Reply, Step};
use sundownd::engine_state::EngineState;
use sundownd::names::NameMap;
use sundownd::protocol::Handled;
use sundownd::session::{installed_meta, ready_marker, version_line, SyncState};
use sundownd::sock::{line_pid, CommandEnv};
use sundownd::sock_admin::handle_rules;
use sundownd::sock_event::event_pid;
use sundownd::state::{DaemonState, ExpectedTexts, StartInput, Subscription};

const SECOND: u64 = 1_000_000_000;

fn expected() -> ExpectedTexts {
    ExpectedTexts {
        probe: Some(" aaaaaaa\n".to_string()),
        dex: Some("bbbbbbb".to_string()),
        hook: Some("  \n".to_string()),
    }
}

fn daemon() -> DaemonState {
    DaemonState::new(100 * SECOND, &expected(), EngineState::default())
}

fn env() -> CommandEnv {
    let mut table = NameMap::new();
    table.insert("com.example.chat".to_string(), 10001);
    CommandEnv {
        env: Env {
            now: 142 * SECOND,
            epoch: 1_700,
            minute: None,
            today: None,
            vpn_uid: None,
            table,
        },
        pid: 321,
        dex_present: true,
    }
}

fn reply(h: Handled) -> String {
    match h {
        Handled::Reply(s) => s,
        other => panic!("{other:?}"),
    }
}

fn ask(d: &mut DaemonState, line: &str) -> String {
    reply(d.handle_conn(line, true, &env()))
}

#[test]
fn expected_builds_are_trimmed() {
    let d = daemon();
    assert_eq!(d.expected_hash().as_deref(), Some("aaaaaaa"));
    assert_eq!(d.expected_dex_hash().as_deref(), Some("bbbbbbb"));
    assert_eq!(d.expected_hook_hash(), None);
}

#[test]
fn refreshed_builds_replace_the_old_ones() {
    let mut d = daemon();
    d.refresh_expected_hash(&ExpectedTexts { probe: None, dex: Some("c".to_string()), hook: None });
    assert_eq!(d.expected_hash(), None);
    assert_eq!(d.expected_dex_hash().as_deref(), Some("c"));
}

#[test]
fn status_is_exact() {
    let mut d = daemon();
    d.record_probe("aaaaaaa", 101 * SECOND);
    d.record_dex("ccccccc", 101 * SECOND);
    d.record_focus("com.example.chat");
    d.bump_wakeup();
    d.bump_connections();
    d.engine.frozen.insert("z.z".to_string(), 0);
    d.engine.frozen.insert("a.a".to_string(), 0);
    assert_eq!(
        d.status_json(142 * SECOND, 321),
        concat_text(&[
            "{\"module\":\"sundown\",\"version\":\"0.4.56-l3\",\"release_no\":61,",
            "\"daemon_running\":1,\"daemon_pid\":321,\"daemon_ready\":1,\"zygisk_provider\":null,",
            "\"probe_stub_loaded\":1,\"probe_stub_build_hash\":\"aaaaaaa\",",
            "\"probe_dex_version\":\"ccccccc\",\"probe_dex_hash_match\":0,",
            "\"probe_hook_bridge_hash\":null,\"probe_hook_bridge_hash_match\":-1,",
            "\"focus_pkg\":\"com.example.chat\",\"focus_changes\":1,\"wakeup_events\":1,",
            "\"policy_enabled\":false,\"policy_revision\":0,\"policy_apps\":0,",
            "\"events_count\":0,\"events_total\":0,\"frozen_packages\":[\"a.a\",\"z.z\"],",
            "\"grace_pending\":[],\"freeze_ops\":0,\"unfreeze_ops\":0,\"wakeup_thaws\":0,",
            "\"wake_throttled\":0,\"discard_ops\":0,\"discard_reasons\":{\"frozen_timeout\":0,",
            "\"mem_watermark\":0,\"boot_reclaim\":0},\"discarded_packages\":[],",
            "\"discard_timeout_s\":1800,\"uptime_s\":42,\"config_reloads\":0,",
            "\"connections_served\":1}",
        ])
    );
}

fn concat_text(parts: &[&str]) -> String {
    parts.concat()
}

#[test]
fn simple_commands() {
    let mut d = daemon();
    assert_eq!(ask(&mut d, "ping\n"), "{\"ok\":1,\"pong\":1}");
    assert_eq!(ask(&mut d, "nonsense x"), "{\"ok\":0,\"error\":\"unknown command: nonsense\"}");
    assert_eq!(ask(&mut d, ""), "{\"ok\":0,\"error\":\"unknown command: \"}");
    assert_eq!(ask(&mut d, "events"), "[]");
    assert_eq!(ask(&mut d, "status"), d.status_json(142 * SECOND, 321));
    assert!(matches!(d.handle_conn("fetch-dex", false, &env()), Handled::SendDex));
    match d.handle_conn("stop", false, &env()) {
        Handled::Stop(s) => assert_eq!(s, "{\"ok\":1,\"stopping\":1}"),
        other => panic!("{other:?}"),
    }
    match d.handle_conn("reload-config", false, &env()) {
        Handled::Reload(s) => assert_eq!(s, "{\"ok\":1,\"reloaded\":1}"),
        other => panic!("{other:?}"),
    }
    assert_eq!(d.config_reloads, 1);
}

#[test]
fn management_is_closed_to_others() {
    let mut d = daemon();
    for cmd in ["push-dex", "policy", "rules"] {
        assert_eq!(
            reply(d.handle_conn(cmd, false, &env())),
            format!("{{\"ok\":0,\"error\":\"{cmd} is management-channel only\"}}")
        );
    }
    match d.handle_conn("push-dex", true, &env()) {
        Handled::PushDex(p) => assert!(p.ends_with("probe.dex"), "{p}"),
        other => panic!("{other:?}"),
    }
    match d.handle_conn("push-dex  /tmp/x.dex ", true, &env()) {
        Handled::PushDex(p) => assert_eq!(p, "/tmp/x.dex"),
        other => panic!("{other:?}"),
    }
}

#[test]
fn the_stub_reports_its_build() {
    let mut d = daemon();
    assert_eq!(
        ask(&mut d, "hello-probe"),
        "{\"ok\":0,\"error\":\"hello-probe requires <build_hash>\"}"
    );
    let answer = ask(&mut d, "hello-probe aaaaaaa");
    assert!(answer.starts_with("{\"ok\":1,\"hash_match\":1,\"expected_hash\":\"aaaaaaa\""), "{answer}");
    assert!(answer.ends_with("\"dex_present\":1}"), "{answer}");
    assert_eq!(d.probe.as_ref().unwrap().reported_after_secs, 42);
    assert!(d.engine.events.to_json(0).contains("probe_handshake"));
    assert!(ask(&mut d, "hello-probe other").contains("\"hash_match\":0"));
}

#[test]
fn the_probe_listens_after_its_greeting() {
    let mut d = daemon();
    d.engine.frozen.insert("com.example.chat".to_string(), 5);
    match d.handle_conn("hello-dex bbbbbbb", false, &env()) {
        Handled::Listen(s) => {
            assert!(s.starts_with("{\"ok\":1,\"dex_hash_match\":1"), "{s}");
            assert!(s.ends_with("\"frozen_uids\":[10001],\"candidate_uids\":[10001]}"), "{s}");
        }
        other => panic!("{other:?}"),
    }
    assert_eq!(
        ask(&mut d, "hello-dex"),
        "{\"ok\":0,\"error\":\"hello-dex requires <build_version>\"}"
    );
}

#[test]
fn lines_of_a_listener() {
    let mut d = daemon();
    let id = d.register_dex_client();
    let c = env();
    assert_eq!(
        reply(d.handle_dex_line(id, "report-bridge", None, &c)),
        "{\"ok\":0,\"error\":\"report-bridge requires <build_hash>\"}"
    );
    assert_eq!(
        reply(d.handle_dex_line(id, "report-bridge xyz", None, &c)),
        "{\"ok\":1,\"bridge_hash_match\":-1}"
    );
    assert_eq!(d.hook_bridge.as_ref().unwrap().build_hash, "xyz");
    let answer = reply(d.handle_dex_line(id, "subscribe kinds=frozen-sync packages=com.x.*", None, &c));
    assert!(answer.contains("\"ok\":1"), "{answer}");
    let sub = d.dex_subscription(id).unwrap();
    assert_eq!(sub.kinds, vec!["frozen-sync"]);
    assert_eq!(sub.packages, vec!["com.x.*"]);
    let bad = reply(d.handle_dex_line(id, "subscribe kinds", None, &c));
    assert!(bad.contains("\"ok\":0"), "{bad}");
    assert_eq!(d.dex_subscription(id).unwrap().kinds, vec!["frozen-sync"]);
    reply(d.handle_dex_line(id, "subscribe clear", None, &c));
    assert!(d.dex_subscription(id).unwrap().kinds.is_empty());
}

#[test]
fn events_reach_the_engine() {
    let mut d = daemon();
    let c = env();
    match d.handle_event("focus pkg=com.example.chat fg=0 media=0", None, &c.env) {
        Handled::Engine(Step::Ask(Op::Survey(10001), task), s) => {
            assert_eq!(s, "{\"ok\":1}");
            d.engine.resume(task, Reply::Nothing, &c.env);
        }
        other => panic!("{other:?}"),
    }
    assert_eq!(d.last_focus_pkg.as_deref(), Some("com.example.chat"));
    assert_eq!(d.engine.last_focus.as_deref(), Some("com.example.chat"));
    let before = d.status_json(c.env.now, 1);
    assert_eq!(
        reply(d.handle_event("brand-new pkg=x", None, &c.env)),
        "{\"ok\":1,\"ignored\":1,\"kind\":\"brand-new\"}"
    );
    assert_eq!(d.status_json(c.env.now, 1), before);

    d.handle_event("proc-add pkg=com.example.chat pid=77", Some(10001), &c.env);
    assert_eq!(d.engine.pkg_uids.get("com.example.chat"), Some(&10001));
    assert_eq!(event_pid("proc-add pkg=com.example.chat pid=77"), Some(77));
    assert_eq!(event_pid("focus pkg=com.example.chat"), None);
    assert_eq!(line_pid("event proc-add pkg=a pid=8"), Some(8));
    assert_eq!(line_pid("ping"), None);
}

#[test]
fn listeners_come_and_go() {
    let mut d = daemon();
    let a = d.register_dex_client();
    let b = d.register_dex_client();
    assert_eq!((a, b), (1, 2));
    let only = Subscription { kinds: vec!["frozen-sync".to_string()], packages: Vec::new() };
    assert!(d.update_dex_subscription(a, only));
    assert!(!d.update_dex_subscription(9, Subscription::default()));
    assert_eq!(d.broadcast_line("frozen-sync", "event frozen-sync uid=1"), vec![1, 2]);
    assert_eq!(d.broadcast_line("candidate-sync", "event candidate-sync uid=1"), vec![2]);
    assert_eq!(d.broadcast_dex(), vec![2]);

    assert_eq!(d.settle_broadcast(&vec![1, 2], &vec![true, false]), 1);
    assert_eq!(d.broadcast_line("frozen-sync", "x"), vec![1], "the second is gone");
    d.unregister_dex_client(a);
    assert!(d.broadcast_line("frozen-sync", "x").is_empty());
    assert_eq!(d.register_dex_client(), 3, "numbers are not used again");
}

#[test]
fn package_filters_hold_back_named_events_only() {
    let mut d = daemon();
    let id = d.register_dex_client();
    let s = Subscription { kinds: Vec::new(), packages: vec!["com.x.*".to_string()] };
    d.update_dex_subscription(id, s);
    assert_eq!(d.broadcast_line("k", "event k pkg=com.x.y"), vec![id]);
    assert!(d.broadcast_line("k", "event k pkg=com.z").is_empty());
    assert_eq!(d.broadcast_line("k", "event k uid=5"), vec![id]);
}

#[test]
fn syncs_are_said_once() {
    let mut s = SyncState::new();
    assert_eq!(s.frozen_sync(&vec![]), None);
    let first = s.frozen_sync(&vec![10001, 10002]).unwrap();
    assert!(first.contains("frozen-sync") && first.contains("10001,10002"), "{first}");
    assert_eq!(s.frozen_sync(&vec![10001, 10002]), None);
    assert!(s.candidate_sync(&vec![10001]).unwrap().contains("candidate-sync"));
    assert!(s.frozen_sync(&vec![]).is_some(), "that nothing is frozen any more is news");
}

#[test]
fn session_texts() {
    assert_eq!(ready_marker(5), "{\"version_name\":\"0.4.56-l3\",\"release_no\":61,\"pid\":5}");
    assert_eq!(installed_meta(), "{\"version_name\":\"0.4.56-l3\",\"release_no\":61}");
    assert_eq!(version_line(), "sundownd 0.4.56-l3 (release_no 61) by SunsetREN");
    let mut d = daemon();
    d.log_start(&env().env);
    d.log_stop(&env().env);
    assert_eq!(d.engine.events.len(), 2);
}

fn dex_with(s: &[u8]) -> Vec<u8> {
    let mut dex = vec![0u8; 0x80 + s.len() + 1];
    dex[0..4].copy_from_slice(b"dex\n");
    dex[0x38..0x3C].copy_from_slice(&1u32.to_le_bytes());
    dex[0x3C..0x40].copy_from_slice(&0x70u32.to_le_bytes());
    dex[0x70..0x74].copy_from_slice(&0x78u32.to_le_bytes());
    dex[0x78] = s.len() as u8;
    dex[0x79..0x79 + s.len()].copy_from_slice(s);
    dex
}

#[test]
fn a_probe_of_another_build_is_not_served() {
    let right = Some("bbbbbbb".to_string());
    let (head, send) = serve_dex_bytes(&dex_with(b"bbbbbbb"), &right);
    assert!(send && head.contains("\"ok\":1"), "{head}");
    let (head, send) = serve_dex_bytes(&dex_with(b"ccccccc"), &right);
    assert!(!send && head.contains("\"ok\":0"), "{head}");
    let (_, send) = serve_dex_bytes(&dex_with(b"ccccccc"), &None);
    assert!(send, "no build is expected");
    let (_, send) = serve_dex_bytes(b"no version in here", &right);
    assert!(send, "no build can be read");
    let (_, send) = push_dex(&dex_with(b"ccccccc"), &right);
    assert!(!send);
    let (line, send) = push_dex(&dex_with(b"bbbbbbb"), &right);
    assert!(send, "{line}");
    assert_eq!(
        push_done(2, 9, "/x"),
        "{\"ok\":1,\"notified\":2,\"size\":9,\"dex_path\":\"/x\"}"
    );
    assert_eq!(read_failed("/x", "gone"), "{\"ok\":0,\"error\":\"read /x failed: gone\"}");
}

#[test]
fn a_string_that_is_no_text_is_no_build() {
    use_no_text(b"\xff\xff\xff\xff\xff\xff\xff");
    use_no_text(b"abcdef\x80");
}

fn use_no_text(s: &[u8]) {
    assert_eq!(sundownd::dex::extract_dex_version(&dex_with(s)), None);
}

fn change(mask: u32, name: &[u8]) -> Vec<u8> {
    let mut b = Vec::new();
    b.extend_from_slice(&1i32.to_le_bytes());
    b.extend_from_slice(&mask.to_le_bytes());
    b.extend_from_slice(&0u32.to_le_bytes());
    let mut field = name.to_vec();
    while field.len() % 16 != 0 || field.is_empty() {
        field.push(0);
    }
    b.extend_from_slice(&(field.len() as u32).to_le_bytes());
    b.extend_from_slice(&field);
    b
}

#[test]
fn changes_of_the_configuration() {
    let mut b = change(8, b"policy.toml");
    b.extend(change(0x80, b"readme.txt"));
    let c = conf_changes(&b);
    assert_eq!(c.len(), 2);
    assert_eq!((c[0].mask, c[0].name.as_slice()), (8, b"policy.toml".as_slice()));
    assert_eq!((c[1].mask, c[1].name.as_slice()), (0x80, b"readme.txt".as_slice()));
    assert!(is_policy_file(&c[0].name));
    assert!(!is_policy_file(&c[1].name));
    assert!(conf_changes(&b[..10]).is_empty(), "half a record");
    let mut d = daemon();
    assert_eq!(request_reload(&mut d), 1);
    assert_eq!(d.config_reloads, 1);
}

#[test]
fn an_engine_without_a_policy_only_observes() {
    let e = DaemonState::init_engine(&StartInput {
        pm: None,
        procs: Vec::new(),
        policy: Some("[general\nenabled = true\n".to_string()),
        policy_revision: 4,
        presets: None,
        presets_revision: 0,
    });
    assert!(!e.policy.enabled);
    assert_eq!(e.policy.revision, 0);
}

#[test]
fn policy_commands() {
    let mut d = daemon();
    assert!(matches!(d.handle_conn("policy reload", true, &env()), Handled::ReloadPolicy));
    assert_eq!(
        ask(&mut d, "policy status"),
        concat_text(&[
            "{\"ok\":1,\"enabled\":false,\"revision\":0,\"grace_seconds\":30,",
            "\"cooldown_seconds\":60,\"whitelist\":[],\"force\":[],\"frozen_packages\":[],",
            "\"grace_pending\":[],\"freeze_ops\":0,\"unfreeze_ops\":0,\"wakeup_thaws\":0,",
            "\"last_focus\":null}",
        ])
    );
    assert_eq!(
        ask(&mut d, "policy dance"),
        "{\"ok\":0,\"error\":\"policy: unknown subcommand: dance\"}"
    );
    assert!(matches!(d.handle_conn("policy preset clear", true, &env()), Handled::ClearPreset));
    let bad = ask(&mut d, "policy preset apply nothing");
    assert!(bad.contains("\"ok\":0"), "{bad}");
    assert!(d.policy_reload_reply().contains("\"ok\":1"));
    assert!(d.finish_clear_preset(Some("[general]\nenabled = true\n"), 8, 3).contains("\"ok\":1"));
    assert!(d.engine.policy.enabled);
    assert_eq!(d.engine.policy.revision, 8);
}

#[test]
fn rules_are_listed_and_replaced_only_by_good_ones() {
    let mut d = daemon();
    let text = "[rules.\"night\"]\ncondition = \"wakeup\"\naction = \"suppress\"\n";
    d.engine.reload_rules(Some(text), 3);
    assert_eq!(d.engine.rules.ids(), vec!["night"]);
    assert!(d.engine.events.to_json(0).contains("rules_reloaded"));
    d.engine.reload_rules(Some("[rules\n"), 4);
    d.engine.reload_rules(None, 4);
    assert_eq!(d.engine.rules.ids(), vec!["night"]);
    assert_eq!(d.engine.rules.revision, 3);
    assert_eq!(
        handle_rules(&d.engine.rules, "list"),
        "{\"ok\":1,\"count\":1,\"rules\":[\"night\"]}"
    );
    assert_eq!(
        handle_rules(&d.engine.rules, "status"),
        "{\"ok\":1,\"count\":1,\"revision\":3,\"hits\":0}"
    );
    assert_eq!(
        handle_rules(&d.engine.rules, "x"),
        "{\"ok\":0,\"error\":\"rules: unknown subcommand: x\"}"
    );
}

#[test]
fn usage_is_reported() {
    let mut d = daemon();
    let c = env();
    for source in ["broadcast", "broadcast", "service"] {
        let _ = d.engine.on_wakeup("com.example.chat", source, "?", &c.env);
    }
    let _ = d.engine.on_wakeup("com.example.game", "service", "?", &c.env);
    assert_eq!(
        ask(&mut d, "profile summary"),
        "{\"ok\":1,\"apps\":2,\"wakeups\":4,\"freezes\":0}"
    );
    assert_eq!(
        ask(&mut d, "profile get com.example.chat"),
        concat_text(&[
            "{\"ok\":1,\"profile\":{\"pkg\":\"com.example.chat\",\"focus_count\":0,\"focus_ms\":0,",
            "\"freeze_count\":0,\"unfreeze_count\":0,\"discard_count\":0,\"wakeup_count\":3,",
            "\"wakeup_sources\":{\"broadcast\":2,\"service\":1},\"first_seen_at\":1700,",
            "\"last_seen_at\":1700,\"last_focus_at\":0,\"last_freeze_at\":0}}",
        ])
    );
    let top = ask(&mut d, "profile top 1");
    assert!(top.starts_with("{\"ok\":1,\"count\":1,\"apps\":[{\"pkg\":\"com.example.chat\""), "{top}");
    assert!(ask(&mut d, "profile top").contains("\"count\":2"));
    assert_eq!(
        ask(&mut d, "profile get x\"y"),
        "{\"ok\":0,\"error\":\"profile: unknown package: x\\\"y\"}"
    );
    assert_eq!(
        ask(&mut d, "profile all"),
        "{\"ok\":0,\"error\":\"profile: unknown subcommand: all\"}"
    );
}

#[test]
fn reports_are_for_managers() {
    let mut d = daemon();
    for cmd in ["profile", "analyze", "capability"] {
        assert_eq!(
            reply(d.handle_conn(cmd, false, &env())),
            format!("{{\"ok\":0,\"error\":\"{cmd} is management-channel only\"}}")
        );
    }
    assert!(matches!(d.handle_conn("analyze", true, &env()), Handled::Analyze));
    assert!(matches!(d.handle_conn("capability reprobe", true, &env()), Handled::Probe));
}

#[test]
fn advice_is_written_out() {
    assert_eq!(advice_json(&Vec::new()), "{\"ok\":1,\"count\":0,\"suggestions\":[]}");
    let d = daemon();
    let list: Vec<(Suggestion, String)> =
        analyze(&d.engine.profile).into_iter().map(|a| (a, "a \"fact\"".to_string())).collect();
    let j = advice_json(&list);
    assert!(j.starts_with("{\"ok\":1,\"count\":1,\"suggestions\":[{\"level\":\"info\","), "{j}");
    assert!(j.contains(",\"pkg\":null,") && j.contains(",\"detail\":\"a \\\"fact\\\"\","), "{j}");
}

#[test]
fn the_device_is_reported() {
    let mut d = daemon();
    assert_eq!(
        ask(&mut d, "capability status"),
        "{\"ok\":0,\"error\":\"capability: not probed\"}"
    );
    let _ = d.engine.on_wakeup("com.example.chat", "service", "?", &env().env);
    let c = Capability {
        freezer: FreezerLevel::UidV2,
        cgroup_v2: true,
        freezer_uid_path: Some("/u".to_string()),
        freezer_pid_path: None,
        freezer_v1_path: None,
        madvise_willneed: false,
        net_source: "bpf".to_string(),
        probed_at: 9,
    };
    let text = concat_text(&[
        "{\"ok\":1,\"freezer\":\"uid_v2\",\"cgroup_v2\":true,\"freezer_uid_path\":\"/u\",",
        "\"freezer_pid_path\":null,\"freezer_v1_path\":null,\"madvise_willneed\":false,",
        "\"net_source\":\"bpf\",\"probed_at\":9,\"wakeup_sources\":{\"service\":1},\"dex_probe\":null}",
    ]);
    assert_eq!(d.take_capability(c, 1_700), text);
    assert_eq!(ask(&mut d, "capability status"), text);
    let j = d.engine.events.to_json(0);
    assert!(j.contains("capability_probed") && j.contains("freezer=uid_v2 net=bpf"), "{j}");
    assert_eq!(
        ask(&mut d, "capability dance"),
        "{\"ok\":0,\"error\":\"capability: unknown subcommand: dance\"}"
    );
    assert_eq!(
        reply(d.handle_dex_line(1, "capability-probe", None, &env())),
        "{\"ok\":0,\"error\":\"capability-probe requires <json>\"}"
    );
    assert_eq!(
        reply(d.handle_dex_line(1, "capability-probe {\"a\":true}", None, &env())),
        "{\"ok\":1}"
    );
    assert!(ask(&mut d, "capability status").ends_with(",\"dex_probe\":{\"a\":true}}"));
    assert!(d.engine.events.to_json(0).contains("capability_probe_dex"));
}

#[test]
fn a_wildcard_stands_for_names_below_it_only() {
    let s = Subscription { kinds: Vec::new(), packages: vec!["com.tencent.*".to_string()] };
    assert!(s.matches("k", Some("com.tencent.mm")));
    assert!(!s.matches("k", Some("com.tencentx")));
    assert!(!s.matches("k", Some("com.tencent")));
    assert!(!s.matches("k", Some("com.tencent.")));
    assert!(s.matches("k", None));
}
