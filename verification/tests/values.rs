use ta_enhanced::config::valid_keybox_name;
use ta_enhanced::device::TextFile;
use ta_enhanced::error::Refusal;
use ta_enhanced::packages::{effective_uid, package_uids, valid_app_entry, PackageUids};
use ta_enhanced::patch::{
    normalize_patch_value, parse_tricky_patch_dates, valid_patch_day, valid_patch_value,
};
use ta_enhanced::targets::{
    normalize_targets, read_tricky_lines, read_tricky_targets, trim_entries, write_target_mirror,
};
use ta_enhanced::text::{
    alphanumeric, digit, ends_with, join, lines, number_text, pad, parse_signed, parse_unsigned,
    same_in_lowercase, split, starts_with, strip_prefix, trim, trim_end, white,
};

fn owned(items: &[&str]) -> Vec<String> {
    items.iter().map(|s| s.to_string()).collect()
}

#[test]
fn strips_trickystore_suffixes_for_teesim() {
    assert_eq!(
        normalize_targets(&owned(&["one.app!", "two.app?", "one.app"])),
        vec!["one.app", "two.app"]
    );
}

#[test]
fn validates_uid_tokens_at_kotlin_int_boundary() {
    assert!(valid_app_entry("uid:2147483647"));
    assert!(!valid_app_entry("uid:2147483648"));
    assert!(!valid_app_entry("uid:999999999999999999999"));
    assert!(!valid_app_entry("uid:-1"));
}

#[test]
fn normalizes_legacy_patch_values() {
    assert_eq!(normalize_patch_value("20250105").unwrap(), "2025-01-05");
    assert_eq!(normalize_patch_value("202501").unwrap(), "2025-01");
    assert_eq!(normalize_patch_value("prop").unwrap(), "system_property");
    assert_eq!(normalize_patch_value("YYYY-MM-05").unwrap(), "YYYY-MM-05");
    assert_eq!(normalize_patch_value("YYYY-MM-DD").unwrap(), "YYYY-MM-DD");
    assert_eq!(normalize_patch_value("YYYY-08").unwrap(), "YYYY-08");
    assert_eq!(normalize_patch_value("2026-MM").unwrap(), "2026-MM");
    assert_eq!(normalize_patch_value("2026-08-DD").unwrap(), "2026-08-DD");
    assert_eq!(normalize_patch_value("YYYY-08-DD").unwrap(), "YYYY-08-DD");
    assert!(normalize_patch_value("2025-13-01").is_err());
    assert!(normalize_patch_value("YYYY-MM-32").is_err());
}

#[test]
fn characters_agree_with_the_standard_library() {
    for n in 0..=0x10ffffu32 {
        if let Some(c) = char::from_u32(n) {
            assert_eq!(white(c), c.is_whitespace(), "{n:x}");
            assert_eq!(digit(c), c.is_ascii_digit(), "{n:x}");
            assert_eq!(alphanumeric(c), c.is_ascii_alphanumeric(), "{n:x}");
        }
    }
}

#[test]
fn texts_are_cut_as_the_standard_library_cuts_them() {
    let samples = [
        "",
        "\n",
        "a",
        "a\n",
        "a\r\n",
        "a\r",
        "a\r\r\nb",
        "\r\n\n\r\nx\ny\r",
        "  \u{2003}a b\u{a0}\t ",
        "one-two--three-",
        "-",
        "\u{85}ä!?!\u{3000}",
        "!?!",
    ];
    for s in samples {
        assert_eq!(lines(s), s.lines().collect::<Vec<_>>(), "{s:?}");
        assert_eq!(split(s, '-'), s.split('-').collect::<Vec<_>>(), "{s:?}");
        assert_eq!(trim(s), s.trim(), "{s:?}");
        assert_eq!(trim_end(s, '!', '?'), s.trim_end_matches(['!', '?']), "{s:?}");
        assert_eq!(starts_with(s, "a"), s.starts_with("a"), "{s:?}");
        assert_eq!(ends_with(s, "\n"), s.ends_with("\n"), "{s:?}");
        assert_eq!(strip_prefix(s, "one"), s.strip_prefix("one"), "{s:?}");
        assert_eq!(
            same_in_lowercase(s, "one-two--three-"),
            s.to_ascii_lowercase() == "one-two--three-",
            "{s:?}"
        );
    }
    assert_eq!(join(&owned(&["a", "", "b"]), ", "), "a, , b");
    assert_eq!(join(&owned(&[]), ", "), "");
    assert_eq!(pad(3), "   ");
}

#[test]
fn numbers_are_read_and_written() {
    let samples = ["", "+", "-", "0", "+5", "007", "255", "256", "4294967295", "4294967296", "-1",
        "-0", "1x", " 1", "99999999999999999999"];
    for s in samples {
        assert_eq!(parse_unsigned(s, u32::MAX), s.parse::<u32>().ok(), "{s:?}");
        assert_eq!(parse_unsigned(s, 255), s.parse::<u8>().ok().map(u32::from), "{s:?}");
        assert_eq!(parse_signed(s), s.parse::<i32>().ok(), "{s:?}");
    }
    for s in ["2147483647", "2147483648", "-2147483648", "-2147483649", "+7"] {
        assert_eq!(parse_signed(s), s.parse::<i32>().ok(), "{s:?}");
    }
    for n in [0u64, 9, 10, 123, 4294967296, u64::MAX] {
        assert_eq!(number_text(n), n.to_string());
    }
}

#[test]
fn app_entries() {
    assert!(valid_app_entry("com.example_1.App"));
    assert!(valid_app_entry("uid:0"));
    assert!(valid_app_entry("uid:-0"));
    assert!(valid_app_entry("uid:+5"));
    assert!(!valid_app_entry("uid:"));
    assert!(!valid_app_entry(""));
    assert!(!valid_app_entry("com.example!"));
    assert!(!valid_app_entry("com example"));
}

#[test]
fn effective_uids_come_from_tokens_and_packages() {
    let mut packages = PackageUids::new();
    packages.insert("com.example".to_string(), 10123);
    packages.insert("uid:x".to_string(), 7);
    assert_eq!(effective_uid("com.example", &packages), Some(10123));
    assert_eq!(effective_uid("com.other", &packages), None);
    assert_eq!(effective_uid("uid:1000", &packages), Some(1000));
    assert_eq!(effective_uid("uid:4294967295", &packages), Some(u32::MAX));
    assert_eq!(effective_uid("uid:4294967296", &packages), None);
    assert_eq!(effective_uid("uid:x", &packages), Some(7));
    assert_eq!(package_uids(None).get("com.example"), None);
    assert_eq!(package_uids(Some(packages)).get("com.example"), Some(10123));
}

#[test]
fn keybox_names() {
    assert!(valid_keybox_name("keybox.xml"));
    assert!(valid_keybox_name("a_b-c.2.xml"));
    assert!(!valid_keybox_name(".xml"));
    assert!(!valid_keybox_name("keybox.XML"));
    assert!(!valid_keybox_name("a/b.xml"));
    assert!(!valid_keybox_name("ä.xml"));
}

#[test]
fn patch_values_at_the_edges() {
    for value in ["today", "no", "harvested", "system_property", "2025-01", "2025-+5", "YYYY-MM"] {
        assert!(valid_patch_value(value), "{value}");
    }
    for value in ["", "2025", "2025-00", "2025-1", "20255-01", "2025-01-00", "2025-01-+1",
        "2025-01-01-01", "prop", "Today"] {
        assert!(!valid_patch_value(value), "{value}");
    }
    assert!(valid_patch_day("31"));
    assert!(!valid_patch_day("32"));
    assert!(!valid_patch_day("00"));
    assert_eq!(normalize_patch_value(" \t20251231\n").unwrap(), "2025-12-31");
    let error = normalize_patch_value(" 20251301 ").unwrap_err();
    assert_eq!(error, Refusal::InvalidPatchValue { value: "20251301".to_string() });
    assert_eq!(error.message(), "invalid TEESimulator patch level value: 20251301");
}

#[test]
fn normalising_a_patch_value_twice_changes_nothing() {
    for value in ["20250105", "202501", "prop", "no", " 2025-01-DD "] {
        let once = normalize_patch_value(value).unwrap();
        assert_eq!(normalize_patch_value(&once).unwrap(), once);
    }
}

#[test]
fn legacy_patch_files() {
    let dates = |content: &str| parse_tricky_patch_dates(content);
    let three = |a: &str, b: &str, c: &str| (a.to_string(), b.to_string(), c.to_string());
    assert_eq!(dates("system=1\nboot= 2 \r\nvendor=3\nboot=4"), three("1", "2", "3"));
    assert_eq!(dates("system=1\nall=9\n"), three("9", "9", "9"));
    assert_eq!(dates("all= \nvendor=3"), three("", "", "3"));
    assert_eq!(dates(" system=1"), three("", "", ""));
    assert_eq!(dates(""), three("", "", ""));
}

#[test]
fn target_lists_are_cleaned() {
    assert_eq!(
        normalize_targets(&owned(&[" a!? ", "", "#c", "!", "a", "b??", "a !", "b"])),
        vec!["a", "b", "a "]
    );
    assert_eq!(trim_entries(&owned(&[" a! ", " ", " #c", "b"]), false), vec!["a!", "b"]);
    assert_eq!(trim_entries(&owned(&[" a! ", " ", " #c", "b"]), true), vec!["a!", "#c", "b"]);
}

#[test]
fn normalising_targets_twice_changes_nothing() {
    let once = normalize_targets(&owned(&["one.app!", " two.app?", "one.app", "#x", "three"]));
    assert_eq!(normalize_targets(&once), once);
}

#[test]
fn dropped_entries_do_not_keep_targets_from_being_normal() {
    let once = normalize_targets(&owned(&["# !", "one.app"]));
    assert_eq!(once, vec!["one.app"]);
    assert_eq!(normalize_targets(&once), once);
    let spaced = normalize_targets(&owned(&["a !"]));
    assert_eq!(spaced, vec!["a "]);
    assert_eq!(normalize_targets(&spaced), vec!["a"]);
}

#[test]
fn target_files_are_read_back() {
    assert_eq!(write_target_mirror(&owned(&[])), "");
    assert_eq!(write_target_mirror(&owned(&["a", "b!"])), "a\nb!\n");
    let content = write_target_mirror(&owned(&["a", "#c", "b!"]));
    let file = TextFile::Text(content);
    assert_eq!(read_tricky_targets(&file).unwrap(), vec!["a", "b!"]);
    assert_eq!(read_tricky_lines(&file).unwrap(), vec!["a", "#c", "b!"]);
    assert_eq!(read_tricky_targets(&TextFile::Missing { words: "not found".to_string() }).unwrap(), Vec::<String>::new());
    assert_eq!(
        read_tricky_targets(&TextFile::Unreadable { words: "denied".to_string() }).unwrap_err().message(),
        "denied"
    );
}
