use sundownd::capability::{classify, probe, FreezerLevel, GroupDir, ProbeReadings};

#[test]
fn classify_priority_uid_over_pid_over_v1() {
    assert_eq!(classify(true, true, true, true), FreezerLevel::UidV2);
    assert_eq!(classify(true, true, false, true), FreezerLevel::UidV2);
    assert_eq!(classify(true, false, true, false), FreezerLevel::PidV2);
    assert_eq!(classify(true, false, true, true), FreezerLevel::PidV2);
    assert_eq!(classify(false, false, false, true), FreezerLevel::V1);
    assert_eq!(classify(true, false, false, true), FreezerLevel::V1);
    assert_eq!(classify(false, false, false, false), FreezerLevel::Missing);
    assert_eq!(classify(true, false, false, false), FreezerLevel::Missing);
}

#[test]
fn freezer_level_str() {
    assert_eq!(FreezerLevel::Missing.as_str(), "none");
    assert_eq!(FreezerLevel::V1.as_str(), "v1_freezer");
    assert_eq!(FreezerLevel::UidV2.as_str(), "uid_v2");
    assert_eq!(FreezerLevel::PidV2.as_str(), "pid_v2");
}

fn nothing() -> ProbeReadings {
    ProbeReadings {
        cgroup_v2: false,
        uid_dirs: Vec::new(),
        pid_dirs: Vec::new(),
        fallback: false,
        v1: false,
        madvise_willneed: false,
        epoch: 7,
    }
}

fn dir(name: &str, freeze: bool) -> GroupDir {
    GroupDir { name: name.to_string(), path: format!("/apps/{}", name), freeze }
}

#[test]
fn probe_never_panics_on_missing_paths() {
    let cap = probe("unknown".to_string(), &nothing());
    assert_eq!(cap.freezer.as_str(), "none");
    assert!(!cap.cgroup_v2);
    assert_eq!(cap.freezer_uid_path, None);
    assert_eq!(cap.freezer_pid_path, None);
    assert_eq!(cap.freezer_v1_path, None);
    assert!(!cap.madvise_willneed);
    assert_eq!(cap.net_source, "unknown");
    assert_eq!(cap.probed_at, 7);
}

#[test]
fn probe_takes_the_smallest_usable_group() {
    let mut r = nothing();
    r.uid_dirs = vec![dir("uid_10080", true), dir("other", true), dir("uid_10066", true), dir("uid_10001", false)];
    r.pid_dirs = vec![
        vec![dir("pid_9", true)],
        Vec::new(),
        vec![dir("cgroup.procs", true), dir("pid_3", false), dir("pid_4", true), dir("pid_5", true)],
        Vec::new(),
    ];
    r.fallback = true;
    let cap = probe("bpf".to_string(), &r);
    assert_eq!(cap.freezer, FreezerLevel::UidV2);
    assert_eq!(cap.freezer_uid_path.as_deref(), Some("/apps/uid_10066/cgroup.freeze"));
    assert_eq!(cap.freezer_pid_path.as_deref(), Some("/apps/pid_4/cgroup.freeze"));
}

#[test]
fn probe_falls_back() {
    let mut r = nothing();
    r.uid_dirs = vec![dir("uid_10080", false)];
    r.fallback = true;
    r.v1 = true;
    let cap = probe("none".to_string(), &r);
    assert_eq!(cap.freezer, FreezerLevel::UidV2);
    assert_eq!(cap.freezer_uid_path.as_deref(), Some("/sys/fs/cgroup/apps/uid_10000/cgroup.freeze"));
    r.fallback = false;
    let cap2 = probe("none".to_string(), &r);
    assert_eq!(cap2.freezer, FreezerLevel::V1);
    assert_eq!(cap2.freezer_v1_path.as_deref(), Some("/sys/fs/cgroup/freezer/freezer.state"));
}
