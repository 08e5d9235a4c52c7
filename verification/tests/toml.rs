use sundownd::events::json_escape;
use sundownd::toml::{parse, unescape, TomlValue};

#[test]
fn parse_basic() {
    let src = r#"
# 注释
[general]
enabled = true
grace_seconds = 10

[whitelist]
packages = [ "com.android.settings", "com.android.systemui" ]
"#;
    let entries = parse(src).unwrap();
    assert_eq!(entries.len(), 3);
    assert_eq!(entries[0].table, vec!["general"]);
    assert_eq!(entries[0].key, "enabled");
    assert_eq!(entries[0].value, TomlValue::Bool(true));
    assert_eq!(entries[1].value, TomlValue::Int(10));
    match &entries[2].value {
        TomlValue::StrArray(v) => {
            assert_eq!(v.len(), 2);
            assert_eq!(v[0], "com.android.settings");
        }
        _ => panic!("期望数组"),
    }
}

#[test]
fn parse_multiline_array() {
    let src = r#"
[whitelist]
packages = [
"com.android.systemui",
# 行内注释
"com.oplus.launcher",
"com.google.android.gms",
]
keep_fg_service = true
"#;
    let entries = parse(src).unwrap();
    assert_eq!(entries.len(), 2);
    match &entries[0].value {
        TomlValue::StrArray(v) => {
            assert_eq!(v.len(), 3);
            assert_eq!(v[0], "com.android.systemui");
            assert_eq!(v[1], "com.oplus.launcher");
            assert_eq!(v[2], "com.google.android.gms");
        }
        _ => panic!("期望数组"),
    }
    assert_eq!(entries[1].value, TomlValue::Bool(true));
    assert!(parse("packages = [\n  \"a\"\n").is_err());
}

#[test]
fn parse_escape_and_error() {
    assert_eq!(
        parse("k = \"a\\\"b\"").unwrap()[0].value,
        TomlValue::Str("a\"b".to_string())
    );
    assert!(parse("k = ").is_err());
    assert!(parse("[a\n").is_err());
    assert!(parse("k = 3.14").is_err());
}

#[test]
fn parse_quoted_section() {
    let src = r#"
[apps."com.tencent.mm"]
mode = "strict"
grace_seconds = 8
"#;
    let entries = parse(src).unwrap();
    assert_eq!(entries.len(), 2);
    assert_eq!(entries[0].table, vec!["apps", "com.tencent.mm"]);
    assert_eq!(entries[0].key, "mode");
    assert_eq!(entries[0].value, TomlValue::Str("strict".to_string()));
    assert_eq!(entries[1].table, vec!["apps", "com.tencent.mm"]);
    assert_eq!(entries[1].value, TomlValue::Int(8));
    let e2 = parse("[general]\nenabled = true").unwrap();
    assert_eq!(e2[0].table, vec!["general"]);
}

fn chars(s: &str) -> Vec<char> {
    s.chars().collect()
}

#[test]
fn blank_lines_and_comments_say_nothing() {
    let rows = ["a = 1", "[t]", "b = [", "  \"x\",", "  \"y\"", "]", "c = true"];
    let plain = format!("{:?}", parse(&rows.join("\n")).unwrap());
    for at in 0..=rows.len() {
        for extra in ["", "   ", "# note", "\t# b = 2", "\r"] {
            let mut more: Vec<&str> = rows.to_vec();
            more.insert(at, extra);
            assert_eq!(format!("{:?}", parse(&more.join("\n")).unwrap()), plain, "{at} {extra:?}");
        }
    }
}

#[test]
fn an_error_names_its_line() {
    assert_eq!(parse("a = 1\n\nb\n").unwrap_err().0, 3);
    assert_eq!(parse("x = \"a\\q\"").unwrap_err().0, 1);
    assert_eq!(parse("\nl = [\n\"a\"").unwrap_err().0, 2, "an array that is never closed");
}

#[test]
fn escapes_resolve_or_are_errors() {
    for s in ["", "plain", "a\"b\\c\nd\te"] {
        assert_eq!(unescape(&chars(&json_escape(s)), 4), Ok(s.to_string()));
    }
    assert_eq!(unescape(&chars("ab\\q"), 4).unwrap_err().0, 4);
    assert_eq!(unescape(&chars("ab\\"), 9).unwrap_err().0, 9);
}
