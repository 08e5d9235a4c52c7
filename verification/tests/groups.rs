use sundownd::freezer::{
    first_arg, freeze_pkg, freeze_pkg_keep_push, freeze_pkg_kill_push, frozen_state_text,
    frozen_uids, has_tun_iface, is_tun_target, is_uid_frozen, is_vpn_owner, pid_uid, pkg_uid,
    read_frozen_state, read_packages_list, scan_vpn_owner, startup_action, thaw_all_residual, thaw_files,
    uid_freeze_path, uid_has_frozen_procs, uid_has_procs, uid_pids, unfreeze_pkg, vpn_candidate_pids,
    vpn_owner_uid, PidDir, PkgCache, ProcFds, Reconcile, UidDir, VpnCache,
};
use sundownd::names::NameMap;

const SECOND: u64 = 1_000_000_000;

fn text(s: &str) -> Option<String> {
    Some(s.to_string())
}

fn group(pid: u32, procs: &str, freeze: &str, cmdline: &str) -> PidDir {
    PidDir {
        name: format!("pid_{pid}"),
        procs: text(procs),
        freeze: text(freeze),
        cmdline: text(cmdline),
    }
}

fn chat() -> UidDir {
    UidDir {
        procs: text(""),
        freeze: text("0\n"),
        entries: vec![
            group(11, "11\n", "0\n", "com.chat\0--x\0"),
            group(12, "12\n", "0\n", "com.chat:PUSH\0"),
            group(13, "99\n", "1\n", "com.chat:push\0"),
            PidDir { name: "cgroup.procs".to_string(), procs: None, freeze: None, cmdline: None },
            PidDir { name: "pid_x".to_string(), procs: None, freeze: None, cmdline: None },
        ],
    }
}

fn table() -> NameMap<u32> {
    read_packages_list("com.chat 10001 0 /data\nbroken\ncom.bad x\ncom.chat 10002\ncom.b 7")
}

#[test]
fn the_package_table() {
    let t = table();
    assert_eq!(pkg_uid(&t, "com.chat"), Some(10002), "the last row counts");
    assert_eq!(pkg_uid(&t, "com.b"), Some(7));
    assert_eq!(pkg_uid(&t, "com.bad"), None);
    assert_eq!(pkg_uid(&t, "broken"), None);
}

#[test]
fn the_table_is_read_again_when_it_changes() {
    let mut c = PkgCache::new();
    assert!(c.stale(5));
    c.reload(5, Some("a 1"));
    assert!(!c.stale(5) && c.stale(6));
    c.reload(6, None);
    assert_eq!(pkg_uid(&c.table, "a"), None);
}

#[test]
fn whole_apps_are_frozen_by_one_write() {
    assert_eq!(uid_freeze_path(42), "/sys/fs/cgroup/apps/uid_42/cgroup.freeze");
    let w = freeze_pkg(&table(), "com.b").unwrap();
    assert_eq!((w.path.as_str(), w.value), ("/sys/fs/cgroup/apps/uid_7/cgroup.freeze", "1"));
    let w = unfreeze_pkg(&table(), "com.b").unwrap();
    assert_eq!(w.value, "0");
    assert!(freeze_pkg(&table(), "com.unknown").is_none());
    assert_eq!(is_uid_frozen(&text(" 1\n")), Some(true));
    assert_eq!(is_uid_frozen(&text("0")), Some(false));
    assert_eq!(is_uid_frozen(&None), None);
}

#[test]
fn processes_count_below_the_group() {
    let mut d = chat();
    assert!(uid_has_procs(&d));
    assert!(uid_has_frozen_procs(&d));
    assert_eq!(uid_pids(&d), vec![11, 12], "13 lists another process");
    d.entries.clear();
    assert!(!uid_has_procs(&d) && !uid_has_frozen_procs(&d));
    d.procs = text("5\n");
    d.freeze = text("1");
    assert!(uid_has_procs(&d) && uid_has_frozen_procs(&d));
}

#[test]
fn push_processes_are_kept() {
    let p = freeze_pkg_keep_push(&table(), "com.chat", &chat()).unwrap();
    assert_eq!((p.found, p.kept), (4, 2));
    assert_eq!(p.paths, vec!["/sys/fs/cgroup/apps/uid_10002/pid_11/cgroup.freeze"]);
    assert!(!p.needs_whole(true) && !p.needs_whole(false));
    assert!(freeze_pkg_keep_push(&table(), "com.x", &chat()).is_none());

    let mut d = chat();
    d.entries.truncate(1);
    let p = freeze_pkg_keep_push(&table(), "com.chat", &d).unwrap();
    assert!(p.needs_whole(false) && !p.needs_whole(true));
    d.entries.clear();
    let p = freeze_pkg_keep_push(&table(), "com.chat", &d).unwrap();
    assert!(p.needs_whole(true));
}

#[test]
fn only_push_processes_that_are_still_there_are_killed() {
    let (pids, w) = freeze_pkg_kill_push(&table(), "com.chat", &chat()).unwrap();
    assert_eq!(pids, vec![12]);
    assert_eq!(w.path, "/sys/fs/cgroup/apps/uid_10002/cgroup.freeze");
    assert!(freeze_pkg_kill_push(&table(), "com.x", &chat()).is_none());
    assert_eq!(first_arg("a:b\0c"), "a:b");
    assert_eq!(first_arg(""), "");
}

#[test]
fn frozen_groups_are_found_and_thawed() {
    let mut whole = chat();
    whole.freeze = text("1\n");
    let calm = UidDir { procs: None, freeze: text("0"), entries: Vec::new() };
    let dirs = vec![
        ("uid_5".to_string(), whole),
        ("system".to_string(), chat()),
        ("uid_6".to_string(), calm),
        ("uid_7".to_string(), chat()),
    ];
    assert_eq!(frozen_uids(&dirs), vec![5, 7]);
    let w = thaw_all_residual(&dirs);
    let seen: Vec<(&str, bool)> = w.iter().map(|r| (r.path.as_str(), r.whole)).collect();
    assert_eq!(
        seen,
        vec![
            ("/sys/fs/cgroup/apps/uid_5/cgroup.freeze", true),
            ("/sys/fs/cgroup/apps/uid_5/pid_13/cgroup.freeze", false),
            ("/sys/fs/cgroup/apps/uid_7/pid_13/cgroup.freeze", false),
        ]
    );
}

#[test]
fn the_effective_uid_counts() {
    assert_eq!(pid_uid("Name:\tx\nUid:\t1\t2\t3\t4\n"), Some(2));
    assert_eq!(pid_uid("Uid:\t9\n"), Some(9));
    assert_eq!(pid_uid("Uid:\nUid:\t3\t4\n"), Some(4));
    assert_eq!(pid_uid("Uid:\tx\ty\n"), None);
}

#[test]
fn the_owner_of_the_tunnel() {
    assert!(has_tun_iface(Some("Inter-|\n  tun0: 1 2\n")));
    assert!(!has_tun_iface(Some("tunl0: 1\nlo: 2\n")));
    assert!(!has_tun_iface(None));
    assert!(is_tun_target("/dev/tun") && is_tun_target("x anon_inode:[tun]"));
    assert!(!is_tun_target("/dev/null"));
    let procs = vec![
        ProcFds { links: vec!["/dev/null".to_string()], status: text("Uid:\t1\t1\n") },
        ProcFds { links: vec!["/dev/tun".to_string()], status: None },
        ProcFds { links: vec!["a".to_string(), "/dev/tun".to_string()], status: text("Uid:\t7\t8\n") },
    ];
    assert_eq!(scan_vpn_owner(true, &procs), Some(8));
    assert_eq!(scan_vpn_owner(false, &procs), None);
    let some = vec!["pid_4".to_string(), "x".to_string()];
    let all = vec!["1".to_string(), "self".to_string(), "22".to_string()];
    assert_eq!(vpn_candidate_pids(&some, &all), vec![4]);
    assert_eq!(vpn_candidate_pids(&Vec::new(), &all), vec![1, 22]);
}

#[test]
fn the_owner_is_searched_once_a_minute() {
    let mut c = VpnCache::new();
    assert_eq!(vpn_owner_uid(&c, 5), None);
    c.store(5, Some(9));
    assert_eq!(vpn_owner_uid(&c, 5 + 60 * SECOND - 1), Some(Some(9)));
    assert_eq!(vpn_owner_uid(&c, 5 + 60 * SECOND), None);
    assert!(is_vpn_owner(Some(9), 9) && !is_vpn_owner(None, 9));
}

#[test]
fn the_list_of_frozen_apps_reads_back() {
    let snap = vec![("a.b".to_string(), 1u32), ("c".to_string(), 4_294_967_295)];
    let t = frozen_state_text(&snap);
    assert_eq!(t, "a.b:1\nc:4294967295\n");
    assert_eq!(read_frozen_state(Some(&t)), snap);
    assert_eq!(read_frozen_state(None), vec![]);
    assert_eq!(
        read_frozen_state(Some(" x : 3 \n\nnouid\ny:z\nq:1:2\n")),
        vec![("x".to_string(), 3)]
    );
}

#[test]
fn what_is_left_of_the_last_session() {
    assert!(matches!(startup_action(true, true), Reconcile::Restore));
    assert!(matches!(startup_action(true, false), Reconcile::Thaw));
    assert!(matches!(startup_action(false, true), Reconcile::Ignore));
    assert!(matches!(startup_action(false, false), Reconcile::Ignore));
}

#[test]
fn a_thaw_reaches_the_groups_that_are_frozen_on_their_own() {
    let entry = |name: &str, freeze: Option<&str>| PidDir {
        name: name.to_string(),
        procs: None,
        freeze: freeze.map(|s| s.to_string()),
        cmdline: None,
    };
    let dir = UidDir {
        procs: None,
        freeze: Some("0\n".to_string()),
        entries: vec![
            entry("pid_7", Some("1\n")),
            entry("pid_8", Some("0\n")),
            entry("other", Some("1\n")),
            entry("pid_9", None),
        ],
    };
    assert_eq!(
        thaw_files(10001, &dir),
        vec![
            "/sys/fs/cgroup/apps/uid_10001/cgroup.freeze",
            "/sys/fs/cgroup/apps/uid_10001/pid_7/cgroup.freeze",
        ]
    );
}
