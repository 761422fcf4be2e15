use yarm::error::{ApplyError, ApplyKind, PersistError};
use yarm::text::{blank, decimal_text, join, white_space};

#[test]
fn decimal_text_of_small_and_large_numbers() {
    assert_eq!(decimal_text(0), "0");
    assert_eq!(decimal_text(7), "7");
    assert_eq!(decimal_text(10), "10");
    assert_eq!(decimal_text(1080), "1080");
    assert_eq!(decimal_text(1000000), "1000000");
    assert_eq!(decimal_text(u64::MAX), "18446744073709551615");
}

#[test]
fn decimal_text_agrees_with_the_standard_formatting() {
    let mut n: u64 = 1;
    for _ in 0..500 {
        assert_eq!(decimal_text(n), n.to_string());
        assert_eq!(decimal_text(n - 1), (n - 1).to_string());
        n = n.wrapping_mul(6364136223846793005).wrapping_add(1442695040888963407) | 1;
    }
}

#[test]
fn join_puts_the_separator_between_parts() {
    let parts = vec!["a".to_string(), "bc".to_string(), String::new(), "d".to_string()];
    assert_eq!(join(&parts, "; "), "a; bc; ; d");
    assert_eq!(join(&parts[..1].to_vec(), "; "), "a");
    assert_eq!(join(&Vec::new(), "; "), "");
    assert_eq!(join(&parts, ""), "abcd");
}

#[test]
fn white_space_agrees_with_the_standard_library_on_every_character() {
    let mut code: u32 = 0;
    while code <= 0x10FFFF {
        if let Some(c) = char::from_u32(code) {
            assert_eq!(white_space(c), c.is_whitespace(), "U+{:04X}", code);
        }
        code += 1;
    }
}

#[test]
fn blank_is_what_trimming_leaves_empty() {
    for text in ["", " ", "\t\n", "\u{3000}\u{a0} ", "a", " a ", "  .", "\u{200b}", "Work"] {
        assert_eq!(blank(text), text.trim().is_empty(), "{:?}", text);
    }
}

#[test]
fn apply_error_message_names_kind_monitor_and_detail() {
    let error = ApplyError {
        kind: ApplyKind::Resolution,
        monitor_name: "Dell U2415".to_string(),
        detail: "mode not supported".to_string(),
    };
    assert_eq!(error.message(), "Res Dell U2415: mode not supported");
    let error = ApplyError {
        kind: ApplyKind::Orientation,
        monitor_name: "Display 2".to_string(),
        detail: "bad flags".to_string(),
    };
    assert_eq!(error.message(), "Orient Display 2: bad flags");
    let error = ApplyError {
        kind: ApplyKind::Revert,
        monitor_name: String::new(),
        detail: String::new(),
    };
    assert_eq!(error.message(), "Revert : ");
}

#[test]
fn apply_kind_prefixes() {
    assert_eq!(ApplyKind::Resolution.prefix(), "Res ");
    assert_eq!(ApplyKind::Orientation.prefix(), "Orient ");
    assert_eq!(ApplyKind::Revert.prefix(), "Revert ");
}

#[test]
fn persist_error_message_is_its_detail() {
    let error = PersistError { detail: "disk full".to_string() };
    assert_eq!(error.message(), "disk full");
}
