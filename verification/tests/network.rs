use sundownd::network::{
    bpf_entry, bpf_layout_ok, read_u64, uid_stat_bytes, xt_qtaguid_bytes, NetReading, NetSampler,
    NetSource, DEFAULT_THRESHOLD, DEFAULT_WINDOW,
};

const SECOND: u64 = 1_000_000_000;

fn reading(bytes: u64) -> NetReading {
    NetReading { uid_stat: Some(bytes), xt: None, bpf: None }
}

#[test]
fn sampler_baseline_then_active() {
    let mut s = NetSampler::new();
    let now: u64 = 100 * SECOND;
    s.last.insert(42, (0, now));
    assert!(!s.is_active(42, DEFAULT_WINDOW, DEFAULT_THRESHOLD, &NetReading::none(), now));
    s.last.insert(42, (1000, now - DEFAULT_WINDOW - SECOND));
    assert!(!s.is_active(42, DEFAULT_WINDOW, DEFAULT_THRESHOLD, &NetReading::none(), now));
    assert!(s.source.is_some());
}

#[test]
fn sampler_needs_traffic_and_time() {
    let mut s = NetSampler::new();
    let now: u64 = 100 * SECOND;
    assert!(!s.is_active(7, DEFAULT_WINDOW, DEFAULT_THRESHOLD, &reading(1 << 30), now));
    assert_eq!(s.source, Some(NetSource::UidStat));
    let later: u64 = now + DEFAULT_WINDOW;
    assert!(s.is_active(7, DEFAULT_WINDOW, DEFAULT_THRESHOLD, &reading((1 << 30) + DEFAULT_THRESHOLD), later));
    assert!(!s.is_active(7, DEFAULT_WINDOW, DEFAULT_THRESHOLD, &reading((1 << 30) + 2 * DEFAULT_THRESHOLD), later + SECOND));
    let last: u64 = later + SECOND + DEFAULT_WINDOW;
    assert!(s.is_active_any(7, DEFAULT_WINDOW, &reading((1 << 30) + 2 * DEFAULT_THRESHOLD + 1), last));
    assert!(!s.is_active_any(7, DEFAULT_WINDOW, &reading((1 << 30) + 2 * DEFAULT_THRESHOLD + 1), last + DEFAULT_WINDOW));
}

#[test]
fn xt_line_parse() {
    let line = "0 wlan0 0x0 10123 0 1000 10 2000 20";
    let f: Vec<&str> = line.split_whitespace().collect();
    assert_eq!(f[3], "10123");
    assert_eq!(f[2], "0x0");
    let rx: u64 = f[5].parse().unwrap();
    let tx: u64 = f[7].parse().unwrap();
    assert_eq!(rx + tx, 3000);
    assert_eq!(xt_qtaguid_bytes(Some(line), 10123), Some(3000));
    assert_eq!(xt_qtaguid_bytes(Some(line), 10124), None);
    assert_eq!(xt_qtaguid_bytes(None, 10123), None);
    assert_eq!(xt_qtaguid_bytes(Some("0 wlan0 0x1 10123 0 1000 10 2000 20"), 10123), None);
    assert_eq!(xt_qtaguid_bytes(Some("0 wlan0 0x0 10123 0 x 10 2000 20"), 10123), None);
}

#[test]
fn uid_stat_parse() {
    assert_eq!(read_u64("123456\n"), Some(123456));
    assert_eq!(read_u64("abc\n"), None);
}

#[test]
fn uid_stat_sides() {
    assert_eq!(uid_stat_bytes(Some(1), Some(2)), Some(3));
    assert_eq!(uid_stat_bytes(Some(1), None), Some(1));
    assert_eq!(uid_stat_bytes(None, Some(2)), Some(2));
    assert_eq!(uid_stat_bytes(None, None), None);
}

#[test]
fn bpf_entries() {
    let mut value = vec![0u8; 32];
    value[0] = 5;
    value[17] = 1;
    assert_eq!(bpf_entry(&[0x12, 0x27, 0, 0, 9], &value), Some((10002, 5, 256)));
    assert_eq!(bpf_entry(&[0x12, 0x27], &value), None);
    assert_eq!(bpf_entry(&[0x12, 0x27, 0, 0], &value[..23]), None);
    assert!(bpf_layout_ok(20, 32));
    assert!(!bpf_layout_ok(0, 32));
    assert!(!bpf_layout_ok(65, 32));
    assert!(!bpf_layout_ok(20, 23));
}

#[test]
fn looking_for_a_source_takes_the_first_that_can_be_read() {
    let mut n = NetSampler::new();
    assert_eq!(n.probe_source(true, true, true), Some(NetSource::UidStat));
    assert_eq!(n.probe_source(false, true, true), Some(NetSource::XtQtaguid));
    assert_eq!(n.probe_source(false, false, true).map(|s| s.as_str()), Some("bpf"));
    assert_eq!(n.probe_source(false, false, false), None);
    let r = NetReading { uid_stat: None, xt: Some(5), bpf: None };
    assert!(!n.is_active(10001, 0, 1, &r, 1));
    assert_eq!(n.probe_source(true, false, false), Some(NetSource::XtQtaguid), "the one in use");
    assert_eq!(NetSource::UidStat.as_str(), "uid_stat");
    assert_eq!(NetSource::XtQtaguid.as_str(), "xt_qtaguid");
}
