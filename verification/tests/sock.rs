use sundownd::dex::extract_dex_version;
use sundownd::sock_admin::parse_subscription;
use sundownd::state::Subscription;

fn mini_dex_with_string(s: &[u8]) -> Vec<u8> {
    let mut dex = vec![0u8; 0x80 + s.len() + 1];
    dex[0..4].copy_from_slice(b"dex\n");
    dex[0x38..0x3C].copy_from_slice(&1u32.to_le_bytes());
    dex[0x3C..0x40].copy_from_slice(&0x70u32.to_le_bytes());
    dex[0x70..0x74].copy_from_slice(&0x78u32.to_le_bytes());
    dex[0x78] = s.len() as u8;
    dex[0x79..0x79 + s.len()].copy_from_slice(s);
    dex
}

#[test]
fn dex_version_extract_short_sha() {
    let dex = mini_dex_with_string(b"a672eff");
    assert_eq!(extract_dex_version(&dex).as_deref(), Some("a672eff"));
}

#[test]
fn dex_version_reject_non_dex() {
    assert_eq!(extract_dex_version(b"not a dex file at all"), None);
    assert_eq!(extract_dex_version(&[]), None);
}

#[test]
fn dex_version_reject_oversize_string() {
    let dex = mini_dex_with_string(b"abcdef1234567890");
    assert_eq!(extract_dex_version(&dex), None);
}

fn mini_dex_two_strings(first: &[u8], second: &[u8]) -> Vec<u8> {
    let off1 = 0x78 + 1 + first.len() + 1;
    let mut dex = vec![0u8; off1 + 1 + second.len() + 1];
    dex[0..4].copy_from_slice(b"dex\n");
    dex[0x38..0x3C].copy_from_slice(&2u32.to_le_bytes());
    dex[0x3C..0x40].copy_from_slice(&0x70u32.to_le_bytes());
    dex[0x70..0x74].copy_from_slice(&0x78u32.to_le_bytes());
    dex[0x74..0x78].copy_from_slice(&(off1 as u32).to_le_bytes());
    dex[0x78] = first.len() as u8;
    dex[0x79..0x79 + first.len()].copy_from_slice(first);
    dex[0x79 + first.len()] = 0;
    dex[off1] = second.len() as u8;
    dex[off1 + 1..off1 + 1 + second.len()].copy_from_slice(second);
    dex
}

#[test]
fn dex_version_extract_second_string_id() {
    let dex = mini_dex_two_strings(b"com.example.Foo", b"a672eff");
    assert_eq!(extract_dex_version(&dex).as_deref(), Some("a672eff"));
}

#[test]
fn dex_version_reject_uppercase_hex() {
    let dex = mini_dex_with_string(b"A672EFF");
    assert_eq!(extract_dex_version(&dex), None);
}

#[test]
fn subscribe_parse_kinds_packages() {
    let s = parse_subscription("kinds=frozen-sync,candidate-sync packages=com.wechat,com.qq").unwrap();
    assert_eq!(s.kinds, vec!["frozen-sync", "candidate-sync"]);
    assert_eq!(s.packages, vec!["com.wechat", "com.qq"]);
}

#[test]
fn subscribe_parse_partial_is_all() {
    let s = parse_subscription("kinds=dex-push").unwrap();
    assert_eq!(s.kinds, vec!["dex-push"]);
    assert!(s.packages.is_empty(), "缺省 packages = 全部包");
    let s2 = parse_subscription("packages=com.x").unwrap();
    assert!(s2.kinds.is_empty(), "缺省 kinds = 全部类型");
}

#[test]
fn subscribe_parse_unknown_key_and_empty() {
    let s = parse_subscription("kinds=frozen-sync level=2").unwrap();
    assert_eq!(s.kinds, vec!["frozen-sync"], "未知 key level= 前向兼容忽略");
    let s2 = parse_subscription("kinds=frozen-sync, packages=").unwrap();
    assert_eq!(s2.kinds, vec!["frozen-sync"]);
    assert!(s2.packages.is_empty());
    let s3 = parse_subscription("kinds= packages=").unwrap();
    assert!(s3.kinds.is_empty() && s3.packages.is_empty(), "全空 = 全量");
}

#[test]
fn subscribe_parse_rejects_bad_token() {
    assert!(parse_subscription("kinds").is_err());
    assert!(parse_subscription("kinds=frozen-sync garbage").is_err());
}

#[test]
fn subscription_match_kinds_filter() {
    let sub = Subscription {
        kinds: vec!["frozen-sync".to_string()],
        packages: Vec::new(),
    };
    assert!(sub.matches("frozen-sync", None));
    assert!(!sub.matches("candidate-sync", None));
    assert!(!sub.matches("dex-push", None));
    let sub2 = Subscription {
        kinds: Vec::new(),
        packages: vec!["com.wechat".to_string()],
    };
    assert!(sub2.matches("frozen-sync", None), "无 pkg 事件仅按 kinds 过滤");
}

#[test]
fn subscription_match_packages_filter() {
    let sub = Subscription {
        kinds: Vec::new(),
        packages: vec!["com.wechat".to_string(), "com.tencent.*".to_string()],
    };
    assert!(sub.matches("any-kind", Some("com.wechat")));
    assert!(sub.matches("any-kind", Some("com.tencent.mm")));
    assert!(sub.matches("any-kind", Some("com.tencent.qq")));
    assert!(!sub.matches("any-kind", Some("com.other.app")));
    assert!(!sub.matches("any-kind", Some("com.tencent")));
    assert!(Subscription::default().matches("frozen-sync", Some("anything")));
}

#[test]
fn subscription_pkg_of_extract() {
    assert_eq!(Subscription::pkg_of("event frozen-sync uid=10001\n"), None);
    assert_eq!(
        Subscription::pkg_of("event wakeup pkg=com.wechat reason=broadcast\n").as_deref(),
        Some("com.wechat")
    );
    assert_eq!(Subscription::pkg_of("event focus pkg=com.qq fg=1\n").as_deref(), Some("com.qq"));
}
