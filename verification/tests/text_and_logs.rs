use dab_radio::services::app_state::{append_log, MAX_LOG_ENTRIES};
use dab_radio::text::{decimal_string, index_of_char, label_text, str_contains, str_le, trim};

#[test]
fn log_keeps_the_last_thousand_entries() {
    let mut logs: Vec<String> = Vec::new();
    for i in 0..1005 {
        append_log(&mut logs, format!("entry {}", i));
    }
    assert_eq!(logs.len(), MAX_LOG_ENTRIES);
    assert_eq!(logs[0], "entry 5");
    assert_eq!(logs[999], "entry 1004");
}

#[test]
fn short_log_grows_by_one() {
    let mut logs = vec!["a".to_string()];
    append_log(&mut logs, "b".to_string());
    assert_eq!(logs, vec!["a".to_string(), "b".to_string()]);
}

#[test]
fn trimming_and_numbers() {
    assert_eq!(trim("  Now Playing \t\n"), "Now Playing");
    assert_eq!(trim("   "), "");
    assert_eq!(decimal_string(0), "0");
    assert_eq!(decimal_string(4_294_967_295), "4294967295");
}

#[test]
fn searching_text() {
    assert_eq!(index_of_char("ab@cd@", '@'), Some(2));
    assert_eq!(index_of_char("abc", '@'), None);
    assert_eq!(index_of_char("é@", '@'), Some(1));
    assert!(str_contains("installed ok", "ok"));
    assert!(str_contains("abc", ""));
    assert!(!str_contains("ab", "abc"));
}

#[test]
fn byte_order_of_strings() {
    assert!(str_le("AAA", "MMM"));
    assert!(!str_le("b", "a"));
    assert!(str_le("a", "ab"));
    assert!(str_le("", ""));
    assert!(str_le("Z", "a"));
}

#[test]
fn labels_from_bytes() {
    assert_eq!(label_text(b"  triple j  "), "triple j");
    assert_eq!(label_text(&[0x41, 0xFF, 0x42]), "A\u{FFFD}B");
}
