//! Unit tests for the literal parser and formatter, identifier checks,
//! attribute tokens, field sorting and validation, string helpers and the
//! configuration documents.

use irgen::config::{
    app_config_json, config_file_path, config_root, save_theme_preferences, templates_dir,
    themes_dir, AppConfig, ThemeModeSetting, ThemePrefs,
};
use irgen::ident::is_valid_ident;
use irgen::ir::{AccessKind, Field, Register};
use irgen::numlit::{parse_u64_literal, to_dec_string, to_hex_literal, to_hex_string};
use irgen::parser::{parse_attr, sort_fields, validate_register};
use irgen::strutil::{contains_str, str_eq, to_ascii_lower};
use irgen::templates::bare_name;

fn field(name: &str, offset: u64, width: u64) -> Field {
    Field {
        name: name.to_string(),
        offset,
        width,
        attr: AccessKind::ReadWrite,
        reset: 0,
        desc: String::new(),
    }
}

#[test]
fn parses_decimal_literals() {
    assert_eq!(parse_u64_literal("0", false), Some(0));
    assert_eq!(parse_u64_literal("4096", false), Some(4096));
    assert_eq!(parse_u64_literal("18446744073709551615", false), Some(u64::MAX));
}

#[test]
fn parses_hex_literals() {
    assert_eq!(parse_u64_literal("0x0", false), Some(0));
    assert_eq!(parse_u64_literal("0x1000", false), Some(4096));
    assert_eq!(parse_u64_literal("0XfF", false), Some(255));
    assert_eq!(parse_u64_literal("0xffffffffffffffff", false), Some(u64::MAX));
}

#[test]
fn parses_binary_literals_only_where_admitted() {
    assert_eq!(parse_u64_literal("0b101", true), Some(5));
    assert_eq!(parse_u64_literal("0B11", true), Some(3));
    assert_eq!(parse_u64_literal("0b101", false), None);
}

#[test]
fn rejects_malformed_and_overflowing_literals() {
    assert_eq!(parse_u64_literal("", false), None);
    assert_eq!(parse_u64_literal("0x", false), None);
    assert_eq!(parse_u64_literal("12ab", false), None);
    assert_eq!(parse_u64_literal("0xzz", false), None);
    assert_eq!(parse_u64_literal("-1", false), None);
    assert_eq!(parse_u64_literal("18446744073709551616", false), None);
    assert_eq!(parse_u64_literal("0x10000000000000000", false), None);
}

#[test]
fn formats_values_exactly() {
    assert_eq!(to_dec_string(0), "0");
    assert_eq!(to_dec_string(4096), "4096");
    assert_eq!(to_hex_string(255), "ff");
    assert_eq!(to_hex_literal(4096), "0x1000");
    assert_eq!(to_hex_literal(0), "0x0");
    assert_eq!(to_hex_literal(u64::MAX), "0xffffffffffffffff");
}

#[test]
fn formatting_round_trips_through_parsing() {
    for n in [0u64, 1, 9, 10, 255, 4096, 123_456_789, u64::MAX] {
        assert_eq!(parse_u64_literal(&to_hex_literal(n), false), Some(n));
        assert_eq!(parse_u64_literal(&to_dec_string(n), false), Some(n));
    }
}

#[test]
fn identifier_validity_matches_target_languages() {
    assert!(is_valid_ident("uart0"));
    assert!(is_valid_ident("_CR"));
    assert!(is_valid_ident("MODE_1"));
    assert!(!is_valid_ident(""));
    assert!(!is_valid_ident("1abc"));
    assert!(!is_valid_ident("a-b"));
    assert!(!is_valid_ident("a b"));
}

#[test]
fn attribute_tokens_are_canonicalized_case_insensitively() {
    assert_eq!(parse_attr("RW"), Some(AccessKind::ReadWrite));
    assert_eq!(parse_attr("rw"), Some(AccessKind::ReadWrite));
    assert_eq!(parse_attr("read-write"), Some(AccessKind::ReadWrite));
    assert_eq!(parse_attr("RO"), Some(AccessKind::ReadOnly));
    assert_eq!(parse_attr("ReadOnly"), Some(AccessKind::ReadOnly));
    assert_eq!(parse_attr("wo"), Some(AccessKind::WriteOnly));
    assert_eq!(parse_attr("RC"), Some(AccessKind::ClearOnRead));
    assert_eq!(parse_attr("clear-on-read"), Some(AccessKind::ClearOnRead));
    assert_eq!(parse_attr("bogus"), None);
}

#[test]
fn sort_orders_by_offset_and_keeps_all_fields() {
    let sorted = sort_fields(vec![field("c", 9, 1), field("a", 0, 2), field("b", 4, 3)]);
    let names: Vec<&str> = sorted.iter().map(|f| f.name.as_str()).collect();
    assert_eq!(names, vec!["a", "b", "c"]);
}

#[test]
fn validate_accepts_a_well_formed_register() {
    let reg = Register {
        name: "CR".to_string(),
        offset: 0,
        size: 32,
        fields: vec![field("a", 0, 2), field("b", 4, 3)],
    };
    assert!(validate_register(&reg).is_ok());
}

#[test]
fn validate_rejects_duplicate_field_names() {
    let reg = Register {
        name: "CR".to_string(),
        offset: 0,
        size: 32,
        fields: vec![field("a", 0, 2), field("a", 4, 3)],
    };
    assert!(validate_register(&reg).is_err());
}

#[test]
fn validate_rejects_bad_identifiers() {
    let reg = Register {
        name: "not a name".to_string(),
        offset: 0,
        size: 32,
        fields: Vec::new(),
    };
    assert!(validate_register(&reg).is_err());
}

#[test]
fn string_helpers_behave() {
    assert!(str_eq("abc", "abc"));
    assert!(!str_eq("abc", "abd"));
    assert!(!str_eq("abc", "ab"));
    assert_eq!(to_ascii_lower("Read-Write"), "read-write");
    assert_eq!(to_ascii_lower("rw0"), "rw0");
    assert!(contains_str("hello world", "lo wo"));
    assert!(contains_str("hello", ""));
    assert!(!contains_str("hello", "world"));
}

#[test]
fn bare_name_strips_directories() {
    assert_eq!(bare_name("c_header.tera"), "c_header.tera");
    assert_eq!(bare_name("sub/dir/c_header.tera"), "c_header.tera");
    assert_eq!(bare_name("sub/"), "");
}

#[test]
fn config_paths_join_under_home() {
    assert_eq!(config_root("/home/u"), "/home/u/.config/irgen");
    assert_eq!(themes_dir("/home/u"), "/home/u/.config/irgen/themes");
    assert_eq!(templates_dir("/home/u"), "/home/u/.config/irgen/templates");
    assert_eq!(config_file_path("/home/u"), "/home/u/.config/irgen/config.json");
}

#[test]
fn theme_preferences_serialize_exactly() {
    let doc = save_theme_preferences(ThemePrefs {
        mode: ThemeModeSetting::Dark,
        light: Some("daylight".to_string()),
        dark: None,
    });
    assert_eq!(
        doc,
        "{\n  \"theme\": {\n    \"mode\": \"dark\",\n    \"light\": \"daylight\",\n    \"dark\": null\n  }\n}\n"
    );
    let v: serde_json::Value = serde_json::from_str(&doc).unwrap();
    assert_eq!(v["theme"]["mode"].as_str(), Some("dark"));
    assert_eq!(v["theme"]["light"].as_str(), Some("daylight"));
    assert!(v["theme"]["dark"].is_null());
}

#[test]
fn default_config_serializes_to_system_mode() {
    let doc = app_config_json(&AppConfig::default());
    let v: serde_json::Value = serde_json::from_str(&doc).unwrap();
    assert_eq!(v["theme"]["mode"].as_str(), Some("system"));
}
