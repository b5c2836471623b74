//! Tests for the manifest codec, path handling and string utilities.

use foldr::cli::{CliUtils, TextCompleter};
use foldr::hash::name_digest_hex;
use foldr::manifest::{encode_manifest_str, parse_manifest_str};
use foldr::paths::{check_direct_child, check_path_starts_with, check_safe_path, strip_trailing_slash};
use foldr::strutil::{str_contains, str_eq, str_lex_le, u64_to_dec};

use sha2::Digest;

#[test]
fn encode_manifest_is_canonical_json() {
    let doc = encode_manifest_str("demo", 3);
    assert_eq!(doc, "{\"name\":\"demo\",\"iteration\":3}");
}

#[test]
fn encode_manifest_escapes_specials() {
    let doc = encode_manifest_str("a\"b\\c\nd", 1);
    assert_eq!(doc, "{\"name\":\"a\\\"b\\\\c\\u000ad\",\"iteration\":1}");
}

#[test]
fn parse_inverts_encode() {
    let cases: Vec<(&str, u64)> = vec![
        ("demo", 0),
        ("with space", 18446744073709551615),
        ("quote\"back\\slash", 7),
        ("control\u{1}\u{1f}", 12),
        ("unicode \u{e9}\u{4e16}\u{1f600}", 42),
    ];
    for (name, iteration) in cases {
        let doc = encode_manifest_str(name, iteration);
        let parsed = parse_manifest_str(&doc);
        assert_eq!(parsed, Some((name.to_string(), iteration)));
    }
}

#[test]
fn encoded_manifest_is_read_by_serde() {
    let doc = encode_manifest_str("cross check \"x\"", 9);
    let v: serde_json::Value = serde_json::from_str(&doc).unwrap();
    assert_eq!(v["name"].as_str().unwrap(), "cross check \"x\"");
    assert_eq!(v["iteration"].as_u64().unwrap(), 9);
}

#[test]
fn parse_accepts_serde_output() {
    let mut m = serde_json::Map::new();
    m.insert(
        "name".to_string(),
        serde_json::Value::String("from serde".to_string()),
    );
    m.insert("iteration".to_string(), serde_json::Value::from(5u64));
    let doc = serde_json::to_string_pretty(&serde_json::Value::Object(m)).unwrap();
    let parsed = parse_manifest_str(&doc);
    assert_eq!(parsed, Some(("from serde".to_string(), 5)));
}

#[test]
fn parse_accepts_either_member_order_and_whitespace() {
    let parsed = parse_manifest_str("  { \"iteration\" : 5 , \"name\" : \"x\" }  ");
    assert_eq!(parsed, Some(("x".to_string(), 5)));
}

#[test]
fn parse_handles_escapes() {
    let parsed = parse_manifest_str("{\"name\":\"\\u0041\\n\\t\\\\\\\"\\/\",\"iteration\":0}");
    assert_eq!(parsed, Some(("A\n\t\\\"/".to_string(), 0)));
}

#[test]
fn parse_rejects_malformed_documents() {
    // not an object
    assert_eq!(parse_manifest_str("[]"), None);
    // missing member
    assert_eq!(parse_manifest_str("{\"name\":\"x\"}"), None);
    // duplicate keys
    assert_eq!(parse_manifest_str("{\"name\":\"x\",\"name\":\"y\"}"), None);
    // unknown key
    assert_eq!(
        parse_manifest_str("{\"name\":\"x\",\"version\":1}"),
        None
    );
    // trailing content
    assert_eq!(
        parse_manifest_str("{\"name\":\"x\",\"iteration\":1} extra"),
        None
    );
    // superfluous leading zero
    assert_eq!(parse_manifest_str("{\"name\":\"x\",\"iteration\":01}"), None);
    // value beyond u64
    assert_eq!(
        parse_manifest_str("{\"name\":\"x\",\"iteration\":18446744073709551616}"),
        None
    );
    // unescaped control character
    assert_eq!(
        parse_manifest_str("{\"name\":\"a\u{1}\",\"iteration\":1}"),
        None
    );
    // surrogate half escape
    assert_eq!(
        parse_manifest_str("{\"name\":\"\\ud800\",\"iteration\":1}"),
        None
    );
    // unterminated string
    assert_eq!(parse_manifest_str("{\"name\":\"x"), None);
}

#[test]
fn number_boundaries() {
    assert_eq!(
        parse_manifest_str("{\"name\":\"x\",\"iteration\":18446744073709551615}"),
        Some(("x".to_string(), u64::MAX))
    );
    assert_eq!(
        parse_manifest_str("{\"name\":\"x\",\"iteration\":0}"),
        Some(("x".to_string(), 0))
    );
}

#[test]
fn decimal_rendering() {
    assert_eq!(u64_to_dec(0), "0");
    assert_eq!(u64_to_dec(7), "7");
    assert_eq!(u64_to_dec(1234567890), "1234567890");
    assert_eq!(u64_to_dec(u64::MAX), "18446744073709551615");
}

#[test]
fn name_digest_matches_sha256() {
    let digest = name_digest_hex("test");
    let raw = sha2::Sha256::digest("test".as_bytes());
    let expected: String = raw.iter().map(|b| format!("{:02x}", b)).collect();
    assert_eq!(digest, expected);
    assert_eq!(digest.len(), 64);
}

#[test]
fn safe_path_check() {
    assert!(check_safe_path("a/b.txt"));
    assert!(check_safe_path("dir/"));
    assert!(check_safe_path("odd..name/..b/b.."));
    assert!(!check_safe_path(""));
    assert!(!check_safe_path("/absolute"));
    assert!(!check_safe_path("../../evil"));
    assert!(!check_safe_path("foo/../bar"));
    assert!(!check_safe_path("foo/.."));
    assert!(!check_safe_path("nul\u{0}byte"));
}

#[test]
fn path_relations() {
    assert!(check_path_starts_with("a/b/c", "a/b"));
    assert!(check_path_starts_with("a/b", "a/b"));
    assert!(!check_path_starts_with("ab/c", "a"));
    assert!(check_path_starts_with("anything", ""));
    assert!(check_direct_child("a", ""));
    assert!(!check_direct_child("a/b", ""));
    assert!(check_direct_child("a/b", "a"));
    assert!(!check_direct_child("a/b/c", "a"));
    assert!(!check_direct_child("ab", "a"));
    assert_eq!(strip_trailing_slash("dir/"), "dir");
    assert_eq!(strip_trailing_slash("file"), "file");
}

#[test]
fn string_utilities() {
    assert!(str_eq("same", "same"));
    assert!(!str_eq("same", "Same"));
    assert!(str_lex_le("abc", "abd"));
    assert!(str_lex_le("ab", "abc"));
    assert!(!str_lex_le("b", "abc"));
    assert!(str_contains("haystack", "sta"));
    assert!(str_contains("haystack", ""));
    assert!(!str_contains("haystack", "needle"));
}

#[test]
fn completer_suggestions() {
    let completer = TextCompleter::new(vec![
        "alpha".to_string(),
        "beta".to_string(),
        "alphabet".to_string(),
    ]);
    let got = completer.get_suggestions("alp");
    assert_eq!(got, vec!["alpha".to_string(), "alphabet".to_string()]);
    assert_eq!(
        completer.get_completion("alp", None),
        Some("alpha".to_string())
    );
    assert_eq!(
        completer.get_completion("alp", Some("beta".to_string())),
        Some("beta".to_string())
    );
    assert_eq!(completer.get_completion("zzz", None), None);
}

#[test]
fn line_trimming() {
    assert_eq!(CliUtils::trim_line_ending("input\r\n"), "input");
    assert_eq!(CliUtils::trim_line_ending("input\n"), "input");
    assert_eq!(CliUtils::trim_line_ending("input"), "input");
    assert_eq!(CliUtils::trim_line_ending(""), "");
}
