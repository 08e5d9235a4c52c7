use sundownd::freezer::{is_push_cmdline, is_tun_iface, pid_uid};

#[test]
fn uid_parse() {
    assert_eq!(pid_uid("Uid:\t1000\t1000\t1000\t1000\n"), Some(1000));
    assert_eq!(pid_uid("Name:\tabc\n"), None);
}

#[test]
fn push_cmdline_match() {
    assert!(is_push_cmdline("com.tencent.mm:push"));
    assert!(is_push_cmdline("com.tencent.mobileqq:MSF"));
    assert!(is_push_cmdline("com.x.y:channel"));
    assert!(is_push_cmdline("com.x.y:Pull"));
    assert!(!is_push_cmdline("com.tencent.mm"));
    assert!(!is_push_cmdline("com.tencent.mm:remote"));
    assert!(!is_push_cmdline("com.x.y:pushservice"));
    assert!(!is_push_cmdline(""));
}

#[test]
fn tun_iface_match_v0422() {
    assert!(is_tun_iface("tun0"));
    assert!(is_tun_iface("tun1"));
    assert!(is_tun_iface("tun10"));
    assert!(is_tun_iface("tun123"));
    assert!(!is_tun_iface("tunl0"));
    assert!(!is_tun_iface("tun"));
    assert!(!is_tun_iface(""));
    assert!(!is_tun_iface("wlan0"));
    assert!(!is_tun_iface("rmnet0"));
    let line = "  tun0: 1234 5678    0    0    0     0          0         0    1234 5678    0    0    0     0       0          0         0";
    let name = line.trim_start().split(':').next().unwrap_or("");
    assert!(is_tun_iface(name));
    let lo = "    lo: 0 0 0 0 0 0 0 0 0 0 0 0 0 0 0 0";
    let n2 = lo.trim_start().split(':').next().unwrap_or("");
    assert!(!is_tun_iface(n2));
}
