use sundownd::logging::{effective_since_text, local_date, log_line, now_stamp, LocalTime};
use sundownd::paths;

fn noon() -> LocalTime {
    LocalTime { year: 2026, month: 8, day: 3, hour: 12, minute: 5, second: 9 }
}

#[test]
fn local_date_format_v053() {
    let d = local_date(Some(noon()));
    let parts: Vec<&str> = d.split('-').collect();
    assert_eq!(parts.len(), 3, "格式应为 YYYY-MM-DD: {}", d);
    assert_eq!(parts[0].len(), 4, "年 4 位: {}", d);
    assert_eq!(parts[1].len(), 2, "月 2 位: {}", d);
    assert_eq!(parts[2].len(), 2, "日 2 位: {}", d);
    assert!(parts[0].chars().all(|c| c.is_ascii_digit()));
    assert!(parts[1].chars().all(|c| c.is_ascii_digit()));
    assert!(parts[2].chars().all(|c| c.is_ascii_digit()));
}

#[test]
fn log_path_hierarchy_v053() {
    let today = local_date(Some(noon()));
    let p = paths::current_log_file(&today);
    assert!(p.starts_with(&format!("{}/", paths::LOG_DIR)), "应以 logs/ 开头: {}", p);
    assert!(p.contains(&format!("/{}/", paths::VERSION_NAME)), "应含版本目录: {}", p);
    assert!(p.ends_with("/sundownd.log"), "应以 sundownd.log 结尾: {}", p);
    let mid = p.trim_start_matches(&format!("{}/{}/", paths::LOG_DIR, paths::VERSION_NAME));
    let day = mid.trim_end_matches("/sundownd.log");
    assert_eq!(day, today, "日期段应等于本地日期: {}", p);

    let e = paths::current_event_file(&today);
    assert!(e.ends_with("/events.jsonl"));
    let v = paths::version_log_dir();
    assert_eq!(v, format!("{}/{}", paths::LOG_DIR, paths::VERSION_NAME));
    assert!(paths::install_time_file().ends_with("/install-time"));
    assert!(paths::effective_since_file().ends_with("/effective-since"));
}

#[test]
fn stamps() {
    assert_eq!(local_date(Some(noon())), "2026-08-03");
    assert_eq!(local_date(None), "1970-01-01");
    assert_eq!(now_stamp(Some(noon()), Some(5)), "2026-08-03 12:05:09");
    assert_eq!(now_stamp(None, Some(5)), "5");
    assert_eq!(now_stamp(None, None), "?");
    assert_eq!(log_line("t", "WARN", "m"), "[t] [WARN] m\n");
    assert_eq!(effective_since_text(12, "t"), "12 t\n");
    assert_eq!(paths::day_log_dir("d"), "/data/adb/sundown/logs/0.4.56-l3/d");
}
